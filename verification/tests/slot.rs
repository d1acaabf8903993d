use std::task::{Context, Waker};
use try_join::{Operation, Poll, Slot};

/// An operation that gives the answers of its script, one per poll.
struct Script(Vec<Poll<Result<u8, char>>>);

impl Operation for Script {
    type Output = Result<u8, char>;

    fn poll(&mut self, _cx: &mut Context<'_>) -> Poll<Self::Output> {
        let answer = self.0.remove(0);
        if answer.is_ready() {
            self.0.clear();
        }
        answer
    }
}

fn pending_then(last: Poll<Result<u8, char>>) -> Slot<Script> {
    Slot::new(Script(vec![Poll::Pending, last]))
}

#[test]
fn a_new_slot_is_pending() {
    assert!(matches!(Slot::new(Script(vec![Poll::Pending])), Slot::Pending(_)));
}

#[test]
fn a_pending_slot_stays_pending_while_its_operation_is() {
    let mut cx = Context::from_waker(Waker::noop());
    let mut slot = pending_then(Poll::Ready(Ok(5)));
    assert_eq!(slot.advance(&mut cx), Poll::Pending);
    assert!(matches!(slot, Slot::Pending(_)));
}

#[test]
fn a_slot_becomes_ready_when_its_operation_succeeds() {
    let mut cx = Context::from_waker(Waker::noop());
    let mut slot = pending_then(Poll::Ready(Ok(5)));
    assert_eq!(slot.advance(&mut cx), Poll::Pending);
    assert_eq!(slot.advance(&mut cx), Poll::Ready(Ok(())));
    assert!(matches!(slot, Slot::Ready(5)));
}

#[test]
fn a_failure_is_handed_out_and_the_slot_is_not_ready() {
    let mut cx = Context::from_waker(Waker::noop());
    let mut slot = pending_then(Poll::Ready(Err('x')));
    assert_eq!(slot.advance(&mut cx), Poll::Pending);
    assert_eq!(slot.advance(&mut cx), Poll::Ready(Err('x')));
    assert!(matches!(slot, Slot::Pending(_)));
}

#[test]
fn a_settled_slot_is_left_alone() {
    let mut cx = Context::from_waker(Waker::noop());
    let mut ready: Slot<Script> = Slot::Ready(9);
    assert_eq!(ready.advance(&mut cx), Poll::Ready(Ok(())));
    assert!(matches!(ready, Slot::Ready(9)));
    let mut taken: Slot<Script> = Slot::Taken;
    assert_eq!(taken.advance(&mut cx), Poll::Ready(Ok(())));
    assert!(matches!(taken, Slot::Taken));
}

#[test]
fn extract_hands_the_output_out_and_empties_the_slot() {
    let mut slot: Slot<Script> = Slot::Ready(4);
    assert_eq!(slot.extract(), 4);
    assert!(matches!(slot, Slot::Taken));
}

#[test]
fn an_output_is_taken_at_most_once() {
    let mut slot: Slot<Script> = Slot::Ready(4);
    assert_eq!(slot.take_output(), Some(4));
    assert!(matches!(slot, Slot::Taken));
    assert_eq!(slot.take_output(), None);
    assert!(matches!(slot, Slot::Taken));
}

#[test]
fn a_pending_slot_has_no_output_to_take() {
    let mut slot = pending_then(Poll::Ready(Ok(1)));
    assert_eq!(slot.take_output(), None);
    assert!(matches!(slot, Slot::Pending(_)));
}

#[test]
fn settle_records_each_kind_of_answer() {
    let mut slot = pending_then(Poll::Ready(Ok(1)));
    assert_eq!(slot.settle(Poll::Pending), Poll::Pending);
    assert!(matches!(slot, Slot::Pending(_)));
    assert_eq!(slot.settle(Poll::Ready(Err('e'))), Poll::Ready(Err('e')));
    assert!(matches!(slot, Slot::Pending(_)));
    assert_eq!(slot.settle(Poll::Ready(Ok(3))), Poll::Ready(Ok(())));
    assert!(matches!(slot, Slot::Ready(3)));
    assert_eq!(slot.settle(Poll::Ready(Ok(8))), Poll::Ready(Ok(())));
    assert!(matches!(slot, Slot::Ready(3)));
    assert_eq!(slot.settle(Poll::Ready(Err('z'))), Poll::Ready(Ok(())));
    assert!(matches!(slot, Slot::Ready(3)));
    let mut taken: Slot<Script> = Slot::Taken;
    assert_eq!(taken.settle(Poll::Ready(Ok(8))), Poll::Ready(Ok(())));
    assert!(matches!(taken, Slot::Taken));
}

#[test]
fn poll_tells_ready_from_pending() {
    assert!(Poll::Ready(1).is_ready());
    assert!(!Poll::Ready(1).is_pending());
    assert!(Poll::<u8>::Pending.is_pending());
    assert!(!Poll::<u8>::Pending.is_ready());
}
