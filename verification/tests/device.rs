use buffer_lifecycle::device::get_device;

#[test]
fn no_platform_gives_no_device() {
    assert_eq!(get_device(&vec![]), None);
}

#[test]
fn platforms_without_a_matching_device_give_none() {
    assert_eq!(get_device(&vec![Some(0)]), None);
    assert_eq!(get_device(&vec![Some(0), Some(0), Some(0)]), None);
}

#[test]
fn platforms_that_fail_are_passed_over() {
    assert_eq!(get_device(&vec![None]), None);
    assert_eq!(get_device(&vec![None, Some(0), None]), None);
    assert_eq!(get_device(&vec![None, Some(2)]), Some((1, 0)));
}

#[test]
fn the_first_device_of_the_first_platform_that_has_one_is_chosen() {
    assert_eq!(get_device(&vec![Some(1)]), Some((0, 0)));
    assert_eq!(get_device(&vec![Some(3), Some(1)]), Some((0, 0)));
    assert_eq!(get_device(&vec![Some(0), None, Some(4), Some(1)]), Some((2, 0)));
}
