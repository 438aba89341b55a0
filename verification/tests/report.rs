use buffer_lifecycle::error::QueryError;
use buffer_lifecycle::report::ref_count_line;

#[test]
fn line_for_a_count() {
    assert_eq!(
        ref_count_line("creation", 0, Ok(1)),
        "RC for buffer created in iteration 0, after creation is: 1"
    );
}

#[test]
fn line_for_a_large_count_and_iteration() {
    assert_eq!(
        ref_count_line("enqueueing kernel", 2147483647, Ok(u128::MAX)),
        "RC for buffer created in iteration 2147483647, after enqueueing kernel is: \
         340282366920938463463374607431768211455"
    );
}

#[test]
fn line_for_a_negative_iteration() {
    assert_eq!(
        ref_count_line("setting argument", -2147483648, Ok(10)),
        "RC for buffer created in iteration -2147483648, after setting argument is: 10"
    );
}

#[test]
fn line_for_a_failed_reading() {
    assert_eq!(
        ref_count_line("creation", 7, Err(QueryError::Failed)),
        "Failed to get RC for buffer created in iteration 7"
    );
    assert_eq!(
        ref_count_line("creation", 12, Err(QueryError::Unsupported)),
        "Failed to get RC for buffer created in iteration 12"
    );
}
