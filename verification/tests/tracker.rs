use buffer_lifecycle::error::{BindError, QueryError, SubmitError, WaitError};
use buffer_lifecycle::tracker::{
    Access, AllocId, Completion, EventId, Execution, Response, Tracker,
};

fn kept() -> Response {
    Response::Accepted { retained: true }
}

fn not_kept() -> Response {
    Response::Accepted { retained: false }
}

#[test]
fn allocation_starts_at_one() {
    let mut t = Tracker::new(&["out"]);
    let a = t.allocate(1_000_000, Access::ReadWrite);
    assert_eq!(a, AllocId(0));
    assert_eq!(t.ref_count(a), Ok(1));
    assert!(t.is_owned(a));
    assert!(!t.is_reclaimed(a));
    let b = t.allocate(16, Access::ReadOnly);
    assert_eq!(b, AllocId(1));
    assert_eq!(t.ref_count(b), Ok(1));
    assert_eq!(t.ref_count(a), Ok(1));
}

#[test]
fn allocation_keeps_size_and_access() {
    let mut t = Tracker::new(&["out"]);
    let a = t.allocate(1_000_000, Access::ReadWrite);
    let b = t.allocate(0, Access::WriteOnly);
    assert_eq!(t.len_of(a), Some(1_000_000));
    assert_eq!(t.access_of(a), Some(Access::ReadWrite));
    assert_eq!(t.len_of(b), Some(0));
    assert_eq!(t.access_of(b), Some(Access::WriteOnly));
    assert_eq!(t.len_of(AllocId(2)), None);
    assert_eq!(t.access_of(AllocId(2)), None);
}

#[test]
fn binding_adds_one() {
    let mut t = Tracker::new(&["out"]);
    let a = t.allocate(8, Access::ReadWrite);
    assert_eq!(t.occupant("out"), None);
    assert_eq!(t.bind("out", a), Ok(()));
    assert_eq!(t.ref_count(a), Ok(2));
    assert_eq!(t.occupant("out"), Some(a));
}

#[test]
fn rebinding_moves_one_from_the_old_buffer_to_the_new() {
    let mut t = Tracker::new(&["out"]);
    let a = t.allocate(8, Access::ReadWrite);
    let b = t.allocate(8, Access::ReadWrite);
    assert_eq!(t.bind("out", a), Ok(()));
    assert_eq!(t.ref_count(a), Ok(2));
    assert_eq!(t.ref_count(b), Ok(1));
    assert_eq!(t.bind("out", b), Ok(()));
    assert_eq!(t.ref_count(a), Ok(1));
    assert_eq!(t.ref_count(b), Ok(2));
    assert_eq!(t.occupant("out"), Some(b));
}

#[test]
fn rebinding_gives_back_a_buffer_that_only_the_slot_held() {
    let mut t = Tracker::new(&["out"]);
    let a = t.allocate(8, Access::ReadWrite);
    let b = t.allocate(8, Access::ReadWrite);
    assert_eq!(t.bind("out", a), Ok(()));
    assert!(t.release(a));
    assert_eq!(t.ref_count(a), Ok(1));
    assert!(!t.is_reclaimed(a));
    assert_eq!(t.bind("out", b), Ok(()));
    assert_eq!(t.ref_count(a), Ok(0));
    assert!(t.is_reclaimed(a));
    assert_eq!(t.ref_count(b), Ok(2));
}

#[test]
fn binding_the_same_buffer_again_changes_nothing() {
    let mut t = Tracker::new(&["out"]);
    let a = t.allocate(8, Access::ReadWrite);
    assert_eq!(t.bind("out", a), Ok(()));
    assert_eq!(t.bind("out", a), Ok(()));
    assert_eq!(t.ref_count(a), Ok(2));
}

#[test]
fn binding_to_two_slots_counts_each() {
    let mut t = Tracker::new(&["in", "out"]);
    let a = t.allocate(8, Access::ReadWrite);
    assert_eq!(t.bind("in", a), Ok(()));
    assert_eq!(t.bind("out", a), Ok(()));
    assert_eq!(t.ref_count(a), Ok(3));
    let b = t.allocate(8, Access::ReadWrite);
    assert_eq!(t.bind("in", b), Ok(()));
    assert_eq!(t.ref_count(a), Ok(2));
    assert_eq!(t.ref_count(b), Ok(2));
    assert_eq!(t.occupant("in"), Some(b));
    assert_eq!(t.occupant("out"), Some(a));
}

#[test]
fn binding_to_an_unknown_slot_fails() {
    let mut t = Tracker::new(&["out"]);
    let a = t.allocate(8, Access::ReadWrite);
    assert_eq!(t.bind("in", a), Err(BindError::UnknownSlot));
    assert_eq!(t.bind("", a), Err(BindError::UnknownSlot));
    assert_eq!(t.bind("in", AllocId(9)), Err(BindError::UnknownSlot));
    assert_eq!(t.ref_count(a), Ok(1));
    assert_eq!(t.occupant("out"), None);
    assert_eq!(t.occupant("in"), None);
}

#[test]
fn binding_a_buffer_that_the_caller_does_not_hold_fails() {
    let mut t = Tracker::new(&["out"]);
    assert_eq!(t.bind("out", AllocId(0)), Err(BindError::UnknownAllocation));
    let a = t.allocate(8, Access::ReadWrite);
    assert!(t.release(a));
    assert_eq!(t.bind("out", a), Err(BindError::UnknownAllocation));
    assert_eq!(t.occupant("out"), None);
}

#[test]
fn the_first_of_two_slots_of_one_name_is_bound() {
    let mut t = Tracker::new(&["out", "out"]);
    let a = t.allocate(8, Access::ReadWrite);
    assert_eq!(t.bind("out", a), Ok(()));
    assert_eq!(t.ref_count(a), Ok(2));
    assert_eq!(
        t.submit(Completion::Unobserved, kept()),
        Err(SubmitError::UnboundArgument)
    );
}

#[test]
fn submission_needs_every_slot_bound() {
    let mut t = Tracker::new(&["in", "out"]);
    let a = t.allocate(8, Access::ReadWrite);
    assert_eq!(
        t.submit(Completion::Event, kept()),
        Err(SubmitError::UnboundArgument)
    );
    assert_eq!(t.bind("out", a), Ok(()));
    assert_eq!(
        t.submit(Completion::Unobserved, kept()),
        Err(SubmitError::UnboundArgument)
    );
    assert_eq!(
        t.submit(Completion::Unobserved, Response::Rejected),
        Err(SubmitError::UnboundArgument)
    );
    assert_eq!(t.ref_count(a), Ok(2));
    assert_eq!(t.bind("in", a), Ok(()));
    assert_eq!(t.submit(Completion::Unobserved, kept()), Ok(None));
}

#[test]
fn a_refused_command_changes_nothing() {
    let mut t = Tracker::new(&["out"]);
    let a = t.allocate(8, Access::ReadWrite);
    assert_eq!(t.bind("out", a), Ok(()));
    assert_eq!(
        t.submit(Completion::Event, Response::Rejected),
        Err(SubmitError::QueueRejected)
    );
    assert_eq!(
        t.submit(Completion::Unobserved, Response::Rejected),
        Err(SubmitError::QueueRejected)
    );
    assert_eq!(t.ref_count(a), Ok(2));
    assert_eq!(
        t.wait(EventId(0), Execution::Completed),
        Err(WaitError::InvalidHandle)
    );
}

#[test]
fn a_kernel_without_slots_can_be_submitted() {
    let mut t = Tracker::new(&[]);
    let a = t.allocate(8, Access::ReadWrite);
    assert_eq!(t.submit(Completion::Event, kept()), Ok(Some(EventId(0))));
    assert_eq!(t.ref_count(a), Ok(1));
    assert_eq!(t.wait(EventId(0), Execution::Completed), Ok(()));
    assert_eq!(t.ref_count(a), Ok(1));
}

#[test]
fn submission_without_event_may_raise_the_count_for_good() {
    let mut t = Tracker::new(&["out"]);
    let a = t.allocate(8, Access::ReadWrite);
    assert_eq!(t.bind("out", a), Ok(()));
    assert_eq!(t.submit(Completion::Unobserved, kept()), Ok(None));
    assert_eq!(t.ref_count(a), Ok(3));
    assert_eq!(t.stranded(a), 1);
    assert_eq!(
        t.wait(EventId(0), Execution::Completed),
        Err(WaitError::InvalidHandle)
    );
    assert_eq!(t.ref_count(a), Ok(3));
    assert!(t.release(a));
    let b = t.allocate(8, Access::ReadWrite);
    assert_eq!(t.bind("out", b), Ok(()));
    assert_eq!(t.ref_count(a), Ok(1));
    assert_eq!(t.stranded(a), 1);
    assert!(!t.is_reclaimed(a));
}

#[test]
fn submission_without_event_leaves_the_count_where_the_driver_keeps_nothing() {
    let mut t = Tracker::new(&["out"]);
    let a = t.allocate(8, Access::ReadWrite);
    assert_eq!(t.bind("out", a), Ok(()));
    assert_eq!(t.submit(Completion::Unobserved, not_kept()), Ok(None));
    assert_eq!(t.ref_count(a), Ok(2));
    assert_eq!(t.stranded(a), 0);
    assert!(t.release(a));
    let b = t.allocate(8, Access::ReadWrite);
    assert_eq!(t.bind("out", b), Ok(()));
    assert_eq!(t.ref_count(a), Ok(0));
    assert!(t.is_reclaimed(a));
}

#[test]
fn each_submission_without_event_strands_one_more() {
    let mut t = Tracker::new(&["out"]);
    let a = t.allocate(8, Access::ReadWrite);
    assert_eq!(t.bind("out", a), Ok(()));
    assert_eq!(t.submit(Completion::Unobserved, kept()), Ok(None));
    assert_eq!(t.submit(Completion::Unobserved, not_kept()), Ok(None));
    assert_eq!(t.submit(Completion::Unobserved, kept()), Ok(None));
    assert_eq!(t.ref_count(a), Ok(4));
    assert_eq!(t.stranded(a), 2);
}

#[test]
fn waiting_takes_back_what_submission_added() {
    let mut t = Tracker::new(&["out"]);
    let a = t.allocate(8, Access::ReadWrite);
    assert_eq!(t.bind("out", a), Ok(()));
    let after_bind = t.ref_count(a);
    assert_eq!(t.submit(Completion::Event, kept()), Ok(Some(EventId(0))));
    assert_eq!(t.ref_count(a), Ok(3));
    assert_eq!(t.stranded(a), 0);
    assert_eq!(t.wait(EventId(0), Execution::Completed), Ok(()));
    assert_eq!(t.ref_count(a), after_bind);
    assert_eq!(t.ref_count(a), Ok(2));
}

#[test]
fn waiting_changes_nothing_where_the_driver_kept_nothing() {
    let mut t = Tracker::new(&["out"]);
    let a = t.allocate(8, Access::ReadWrite);
    assert_eq!(t.bind("out", a), Ok(()));
    assert_eq!(t.submit(Completion::Event, not_kept()), Ok(Some(EventId(0))));
    assert_eq!(t.ref_count(a), Ok(2));
    assert_eq!(t.wait(EventId(0), Execution::Completed), Ok(()));
    assert_eq!(t.ref_count(a), Ok(2));
}

#[test]
fn waiting_twice_takes_back_once() {
    let mut t = Tracker::new(&["out"]);
    let a = t.allocate(8, Access::ReadWrite);
    assert_eq!(t.bind("out", a), Ok(()));
    assert_eq!(t.submit(Completion::Event, kept()), Ok(Some(EventId(0))));
    assert_eq!(t.wait(EventId(0), Execution::Completed), Ok(()));
    assert_eq!(t.wait(EventId(0), Execution::Completed), Ok(()));
    assert_eq!(t.ref_count(a), Ok(2));
}

#[test]
fn waiting_on_an_event_of_no_command_fails() {
    let mut t = Tracker::new(&["out"]);
    let a = t.allocate(8, Access::ReadWrite);
    assert_eq!(
        t.wait(EventId(0), Execution::Completed),
        Err(WaitError::InvalidHandle)
    );
    assert_eq!(t.bind("out", a), Ok(()));
    assert_eq!(t.submit(Completion::Unobserved, kept()), Ok(None));
    assert_eq!(t.submit(Completion::Event, kept()), Ok(Some(EventId(1))));
    assert_eq!(
        t.wait(EventId(0), Execution::Completed),
        Err(WaitError::InvalidHandle)
    );
    assert_eq!(
        t.wait(EventId(2), Execution::Completed),
        Err(WaitError::InvalidHandle)
    );
    assert_eq!(
        t.wait(EventId(2), Execution::Faulted),
        Err(WaitError::InvalidHandle)
    );
    assert_eq!(t.ref_count(a), Ok(4));
    assert_eq!(t.wait(EventId(1), Execution::Completed), Ok(()));
    assert_eq!(t.ref_count(a), Ok(3));
}

#[test]
fn a_command_that_fails_keeps_its_claim() {
    let mut t = Tracker::new(&["out"]);
    let a = t.allocate(8, Access::ReadWrite);
    assert_eq!(t.bind("out", a), Ok(()));
    assert_eq!(t.submit(Completion::Event, kept()), Ok(Some(EventId(0))));
    assert_eq!(
        t.wait(EventId(0), Execution::Faulted),
        Err(WaitError::ExecutionFault)
    );
    assert_eq!(t.ref_count(a), Ok(3));
    assert_eq!(t.wait(EventId(0), Execution::Completed), Ok(()));
    assert_eq!(t.ref_count(a), Ok(2));
}

#[test]
fn release_takes_one_and_only_once() {
    let mut t = Tracker::new(&["out"]);
    let a = t.allocate(8, Access::ReadWrite);
    let b = t.allocate(8, Access::ReadWrite);
    assert_eq!(t.bind("out", a), Ok(()));
    assert!(t.release(a));
    assert_eq!(t.ref_count(a), Ok(1));
    assert!(!t.is_owned(a));
    assert!(!t.release(a));
    assert_eq!(t.ref_count(a), Ok(1));
    assert_eq!(t.ref_count(b), Ok(1));
    assert!(!t.release(AllocId(2)));
    assert!(t.release(b));
    assert_eq!(t.ref_count(b), Ok(0));
    assert!(t.is_reclaimed(b));
    assert!(!t.is_reclaimed(a));
}

#[test]
fn a_command_in_flight_keeps_its_buffer_alive() {
    let mut t = Tracker::new(&["out"]);
    let a = t.allocate(8, Access::ReadWrite);
    let b = t.allocate(8, Access::ReadWrite);
    assert_eq!(t.bind("out", a), Ok(()));
    assert_eq!(t.submit(Completion::Event, kept()), Ok(Some(EventId(0))));
    assert!(t.release(a));
    assert_eq!(t.bind("out", b), Ok(()));
    assert_eq!(t.ref_count(a), Ok(1));
    assert!(!t.is_reclaimed(a));
    assert_eq!(t.wait(EventId(0), Execution::Completed), Ok(()));
    assert_eq!(t.ref_count(a), Ok(0));
    assert!(t.is_reclaimed(a));
    assert_eq!(t.ref_count(b), Ok(2));
}

#[test]
fn a_command_claims_a_buffer_once_however_many_slots_hold_it() {
    let mut t = Tracker::new(&["in", "out"]);
    let a = t.allocate(8, Access::ReadWrite);
    assert_eq!(t.bind("in", a), Ok(()));
    assert_eq!(t.bind("out", a), Ok(()));
    assert_eq!(t.submit(Completion::Event, kept()), Ok(Some(EventId(0))));
    assert_eq!(t.ref_count(a), Ok(4));
    assert_eq!(t.wait(EventId(0), Execution::Completed), Ok(()));
    assert_eq!(t.ref_count(a), Ok(3));
}

#[test]
fn a_command_claims_the_buffers_bound_when_it_was_submitted() {
    let mut t = Tracker::new(&["in", "out"]);
    let a = t.allocate(8, Access::ReadOnly);
    let b = t.allocate(8, Access::WriteOnly);
    let c = t.allocate(8, Access::ReadWrite);
    assert_eq!(t.bind("in", a), Ok(()));
    assert_eq!(t.bind("out", b), Ok(()));
    assert_eq!(t.submit(Completion::Event, kept()), Ok(Some(EventId(0))));
    assert_eq!(t.bind("out", c), Ok(()));
    assert_eq!(t.ref_count(a), Ok(3));
    assert_eq!(t.ref_count(b), Ok(2));
    assert_eq!(t.ref_count(c), Ok(2));
    assert_eq!(t.wait(EventId(0), Execution::Completed), Ok(()));
    assert_eq!(t.ref_count(a), Ok(2));
    assert_eq!(t.ref_count(b), Ok(1));
    assert_eq!(t.ref_count(c), Ok(2));
}

#[test]
fn the_count_of_an_unknown_buffer_cannot_be_read() {
    let mut t = Tracker::new(&["out"]);
    assert_eq!(t.ref_count(AllocId(0)), Err(QueryError::Failed));
    let a = t.allocate(8, Access::ReadWrite);
    assert_eq!(t.ref_count(a), Ok(1));
    assert_eq!(t.ref_count(AllocId(1)), Err(QueryError::Failed));
    assert!(!t.is_reclaimed(AllocId(1)));
    assert_eq!(t.stranded(AllocId(1)), 0);
}
