use std::task::{Context, Waker};
use try_join::fixed::FixedBatch;
use try_join::unbounded::UnboundedBatch;
use try_join::{Operation, Poll};

/// An operation that answers `Pending` a given number of times and then
/// yields its outcome, and counts its polls.
struct Timed {
    delay: usize,
    outcome: Option<Result<char, u8>>,
}

impl Timed {
    fn ok(delay: usize, value: char) -> Self {
        Timed { delay, outcome: Some(Ok(value)) }
    }

    fn err(delay: usize, error: u8) -> Self {
        Timed { delay, outcome: Some(Err(error)) }
    }
}

impl Operation for Timed {
    type Output = Result<char, u8>;

    fn poll(&mut self, _cx: &mut Context<'_>) -> Poll<Self::Output> {
        if self.delay > 0 {
            self.delay -= 1;
            Poll::Pending
        } else {
            Poll::Ready(self.outcome.take().expect("polled after completion"))
        }
    }
}

#[test]
fn the_fixed_batch_scans_until_all_have_succeeded() {
    let mut cx = Context::from_waker(Waker::noop());
    let mut batch = FixedBatch::new(vec![Timed::ok(1, 'a'), Timed::ok(0, 'b'), Timed::ok(2, 'c')]);
    assert_eq!(batch.len(), 3);
    assert!(!batch.is_terminated());
    assert_eq!(batch.poll(&mut cx), Poll::Pending);
    assert_eq!(batch.len(), 3);
    assert_eq!(batch.poll(&mut cx), Poll::Pending);
    assert!(!batch.is_terminated());
    assert_eq!(batch.poll(&mut cx), Poll::Ready(Ok(vec!['a', 'b', 'c'])));
    assert!(batch.is_terminated());
    assert_eq!(batch.len(), 0);
}

#[test]
fn the_fixed_batch_ends_with_the_first_failure() {
    let mut cx = Context::from_waker(Waker::noop());
    let mut batch = FixedBatch::new(vec![Timed::ok(0, 'a'), Timed::err(1, 4), Timed::err(0, 5)]);
    assert_eq!(batch.poll(&mut cx), Poll::Ready(Err(5)));
    assert!(batch.is_terminated());
    assert_eq!(batch.len(), 0);
    let mut batch = FixedBatch::new(vec![Timed::err(1, 4), Timed::err(1, 5)]);
    assert_eq!(batch.poll(&mut cx), Poll::Pending);
    assert_eq!(batch.poll(&mut cx), Poll::Ready(Err(4)));
}

#[test]
fn the_empty_fixed_batch_succeeds_at_once() {
    let mut cx = Context::from_waker(Waker::noop());
    let mut batch = FixedBatch::new(Vec::<Timed>::new());
    assert_eq!(batch.poll(&mut cx), Poll::Ready(Ok(vec![])));
    assert!(batch.is_terminated());
}

#[test]
fn the_unbounded_batch_gathers_outputs_by_position() {
    let mut cx = Context::from_waker(Waker::noop());
    let mut batch = UnboundedBatch::collect(vec![
        Timed::ok(2, 'a'),
        Timed::ok(0, 'b'),
        Timed::ok(1, 'c'),
        Timed::ok(0, 'd'),
    ]);
    assert_eq!(batch.len(), 4);
    assert_eq!(batch.poll(&mut cx), Poll::Pending);
    assert_eq!(batch.len(), 4);
    assert_eq!(batch.poll(&mut cx), Poll::Pending);
    assert_eq!(batch.poll(&mut cx), Poll::Ready(Ok(vec!['a', 'b', 'c', 'd'])));
    assert!(batch.is_terminated());
    assert_eq!(batch.len(), 0);
}

#[test]
fn the_unbounded_batch_ends_with_the_first_failure() {
    let mut cx = Context::from_waker(Waker::noop());
    let mut batch =
        UnboundedBatch::collect(vec![Timed::ok(0, 'a'), Timed::err(1, 4), Timed::err(0, 5)]);
    assert_eq!(batch.poll(&mut cx), Poll::Ready(Err(5)));
    assert!(batch.is_terminated());
    let mut batch = UnboundedBatch::collect(vec![
        Timed::ok(3, 'a'),
        Timed::ok(0, 'b'),
        Timed::err(1, 4),
        Timed::err(1, 5),
    ]);
    assert_eq!(batch.poll(&mut cx), Poll::Pending);
    assert_eq!(batch.poll(&mut cx), Poll::Ready(Err(4)));
    assert_eq!(batch.len(), 0);
}

#[test]
fn the_unbounded_batch_accepts_operands_one_at_a_time() {
    let mut cx = Context::from_waker(Waker::noop());
    let mut batch = UnboundedBatch::new();
    assert_eq!(batch.len(), 0);
    batch.push(Timed::ok(1, 'x'));
    batch.push(Timed::ok(0, 'y'));
    assert_eq!(batch.len(), 2);
    assert_eq!(batch.poll(&mut cx), Poll::Pending);
    batch.push(Timed::ok(0, 'z'));
    assert_eq!(batch.len(), 3);
    assert_eq!(batch.poll(&mut cx), Poll::Ready(Ok(vec!['x', 'y', 'z'])));
}

#[test]
fn the_empty_unbounded_batch_succeeds_at_once() {
    let mut cx = Context::from_waker(Waker::noop());
    let mut batch = UnboundedBatch::<Timed>::new();
    assert!(!batch.is_terminated());
    assert_eq!(batch.poll(&mut cx), Poll::Ready(Ok(vec![])));
    assert!(batch.is_terminated());
}
