use std::cell::Cell;
use std::rc::Rc;
use std::task::{Context, Waker};
use try_join::try_join_all::select_mode;
use try_join::{try_join_all, FusedOperation, Mode, Operation, Poll, TryJoinAll, SMALL};

/// What a test can see of a scripted operation from outside.
#[derive(Default)]
struct Probe {
    polls: Cell<usize>,
    dropped: Cell<bool>,
}

/// An operation that answers `Pending` a given number of times and then
/// yields its outcome.
struct Scripted {
    delay: usize,
    outcome: Option<Result<i32, &'static str>>,
    probe: Rc<Probe>,
}

impl Scripted {
    fn ok(delay: usize, value: i32) -> Self {
        Scripted { delay, outcome: Some(Ok(value)), probe: Rc::new(Probe::default()) }
    }

    fn err(delay: usize, error: &'static str) -> Self {
        Scripted { delay, outcome: Some(Err(error)), probe: Rc::new(Probe::default()) }
    }

    fn probe(&self) -> Rc<Probe> {
        self.probe.clone()
    }
}

impl Drop for Scripted {
    fn drop(&mut self) {
        self.probe.dropped.set(true);
    }
}

impl Operation for Scripted {
    type Output = Result<i32, &'static str>;

    fn poll(&mut self, _cx: &mut Context<'_>) -> Poll<Self::Output> {
        self.probe.polls.set(self.probe.polls.get() + 1);
        if self.delay > 0 {
            self.delay -= 1;
            Poll::Pending
        } else {
            Poll::Ready(self.outcome.take().expect("polled after completion"))
        }
    }
}

type Outcome = Poll<Result<Vec<i32>, &'static str>>;

/// Polls the join until it reports its final outcome, and returns every
/// report in order.
fn run(join: &mut TryJoinAll<Scripted>, limit: usize) -> Vec<Outcome> {
    let mut cx = Context::from_waker(Waker::noop());
    let mut reports = Vec::new();
    for _ in 0..limit {
        assert!(!join.is_terminated());
        let report = join.poll(&mut cx);
        let done = report.is_ready();
        reports.push(report);
        if done {
            break;
        }
    }
    reports
}

#[test]
fn three_successes_come_out_in_order() {
    let mut join = try_join_all(vec![Scripted::ok(0, 1), Scripted::ok(0, 2), Scripted::ok(0, 3)]);
    assert_eq!(run(&mut join, 5), vec![Poll::Ready(Ok(vec![1, 2, 3]))]);
}

#[test]
fn a_failure_in_the_middle_is_reported_and_the_rest_abandoned() {
    let third = Scripted::ok(0, 3);
    let probe = third.probe();
    let mut join = try_join_all(vec![Scripted::ok(0, 1), Scripted::err(0, "e"), third]);
    assert_eq!(run(&mut join, 5), vec![Poll::Ready(Err("e"))]);
    assert_eq!(probe.polls.get(), 0);
    assert!(probe.dropped.get());
}

#[test]
fn outputs_keep_submission_order_when_operands_finish_in_reverse() {
    let mut join = try_join_all(vec![Scripted::ok(2, 10), Scripted::ok(1, 20), Scripted::ok(0, 30)]);
    assert_eq!(
        run(&mut join, 5),
        vec![Poll::Pending, Poll::Pending, Poll::Ready(Ok(vec![10, 20, 30]))]
    );
}

#[test]
fn outputs_keep_submission_order_on_the_unbounded_driver() {
    let operations = vec![Scripted::ok(2, 10), Scripted::ok(0, 20), Scripted::ok(1, 30)];
    let mut join = TryJoinAll::with_size_hint(operations, None);
    assert_eq!(join.driver(), Mode::Big);
    assert_eq!(
        run(&mut join, 5),
        vec![Poll::Pending, Poll::Pending, Poll::Ready(Ok(vec![10, 20, 30]))]
    );
}

#[test]
fn the_earliest_failure_wins_over_a_lower_position() {
    let operations = vec![Scripted::ok(3, 1), Scripted::err(2, "late"), Scripted::err(1, "early")];
    let mut join = try_join_all(operations);
    assert_eq!(run(&mut join, 5), vec![Poll::Pending, Poll::Ready(Err("early"))]);
}

#[test]
fn the_lowest_position_wins_among_failures_of_one_cycle() {
    let last = Scripted::err(1, "b");
    let probe = last.probe();
    let mut join = try_join_all(vec![Scripted::ok(1, 1), Scripted::err(1, "a"), last]);
    assert_eq!(run(&mut join, 5), vec![Poll::Pending, Poll::Ready(Err("a"))]);
    assert_eq!(probe.polls.get(), 1);
    assert!(probe.dropped.get());
}

#[test]
fn a_failure_discards_the_outputs_gathered_before() {
    let mut join = try_join_all(vec![Scripted::ok(0, 1), Scripted::err(1, "x")]);
    assert_eq!(run(&mut join, 5), vec![Poll::Pending, Poll::Ready(Err("x"))]);
    assert_eq!(join.len(), 0);
}

#[test]
fn no_operands_succeed_at_once() {
    let mut join = try_join_all(Vec::<Scripted>::new());
    assert_eq!(join.len(), 0);
    assert!(!join.is_terminated());
    assert_eq!(run(&mut join, 5), vec![Poll::Ready(Ok(vec![]))]);
    assert!(join.is_terminated());
}

#[test]
fn no_operands_succeed_at_once_on_the_unbounded_driver() {
    let mut join = TryJoinAll::with_size_hint(Vec::<Scripted>::new(), None);
    assert_eq!(join.driver(), Mode::Big);
    assert_eq!(run(&mut join, 5), vec![Poll::Ready(Ok(vec![]))]);
    assert!(join.is_terminated());
}

#[test]
fn one_operand_reports_its_own_outcome() {
    let mut success = try_join_all(vec![Scripted::ok(1, 7)]);
    assert_eq!(run(&mut success, 5), vec![Poll::Pending, Poll::Ready(Ok(vec![7]))]);
    let mut failure = try_join_all(vec![Scripted::err(1, "only")]);
    assert_eq!(run(&mut failure, 5), vec![Poll::Pending, Poll::Ready(Err("only"))]);
}

fn mixed(fail: bool) -> Vec<Scripted> {
    let mut operations = Vec::new();
    for i in 0..8 {
        operations.push(Scripted::ok((i * 5) % 4, i as i32));
    }
    if fail {
        operations.push(Scripted::err(2, "f"));
        operations.push(Scripted::err(2, "g"));
    }
    operations
}

#[test]
fn the_driver_does_not_change_the_outcome() {
    for fail in [false, true] {
        let mut small = TryJoinAll::with_size_hint(mixed(fail), Some(10));
        let mut big = TryJoinAll::with_size_hint(mixed(fail), None);
        let mut large = TryJoinAll::with_size_hint(mixed(fail), Some(1000));
        assert_eq!(small.driver(), Mode::Small);
        assert_eq!(big.driver(), Mode::Big);
        assert_eq!(large.driver(), Mode::Big);
        let reports = run(&mut small, 10);
        assert_eq!(run(&mut big, 10), reports);
        assert_eq!(run(&mut large, 10), reports);
        if fail {
            assert_eq!(reports, vec![Poll::Pending, Poll::Pending, Poll::Ready(Err("f"))]);
        } else {
            assert_eq!(
                reports,
                vec![
                    Poll::Pending,
                    Poll::Pending,
                    Poll::Pending,
                    Poll::Ready(Ok(vec![0, 1, 2, 3, 4, 5, 6, 7]))
                ]
            );
        }
    }
}

#[test]
fn the_size_hint_picks_the_driver() {
    assert_eq!(SMALL, 30);
    assert_eq!(select_mode(Some(0), SMALL), Mode::Small);
    assert_eq!(select_mode(Some(30), SMALL), Mode::Small);
    assert_eq!(select_mode(Some(31), SMALL), Mode::Big);
    assert_eq!(select_mode(Some(usize::MAX), SMALL), Mode::Big);
    assert_eq!(select_mode(None, SMALL), Mode::Big);
    assert_eq!(select_mode(Some(3), 2), Mode::Big);
    assert_eq!(select_mode(Some(2), 2), Mode::Small);
    assert_eq!(select_mode(None, usize::MAX), Mode::Big);
}

#[test]
fn the_operand_count_picks_the_driver() {
    let thirty: Vec<Scripted> = (0..30).map(|i| Scripted::ok(0, i)).collect();
    assert_eq!(try_join_all(thirty).driver(), Mode::Small);
    let more: Vec<Scripted> = (0..31).map(|i| Scripted::ok(0, i)).collect();
    assert_eq!(try_join_all(more).driver(), Mode::Big);
    let two = vec![Scripted::ok(0, 1), Scripted::ok(0, 2)];
    assert_eq!(TryJoinAll::with_threshold(two, Some(2), 1).driver(), Mode::Big);
}

#[test]
fn a_wrong_hint_loses_no_operand() {
    let operations: Vec<Scripted> = (0..5).map(|i| Scripted::ok(0, i)).collect();
    let mut join = TryJoinAll::with_size_hint(operations, Some(2));
    assert_eq!(join.driver(), Mode::Small);
    assert_eq!(join.len(), 5);
    assert_eq!(run(&mut join, 5), vec![Poll::Ready(Ok(vec![0, 1, 2, 3, 4]))]);
}

#[test]
fn many_operands_come_out_in_order() {
    let operations: Vec<Scripted> = (0..100).map(|i| Scripted::ok((i * 7) % 5, i as i32)).collect();
    let mut join = try_join_all(operations);
    assert_eq!(join.driver(), Mode::Big);
    let reports = run(&mut join, 10);
    assert_eq!(reports.len(), 5);
    assert_eq!(reports[4], Poll::Ready(Ok((0..100).collect())));
}

#[test]
fn a_pending_join_keeps_its_operands() {
    let first = Scripted::ok(0, 1);
    let second = Scripted::ok(2, 2);
    let settled = first.probe();
    let waiting = second.probe();
    let mut join = try_join_all(vec![first, second]);
    let mut cx = Context::from_waker(Waker::noop());
    assert_eq!(join.poll(&mut cx), Poll::Pending);
    assert_eq!(join.len(), 2);
    assert!(!join.is_terminated());
    assert_eq!(join.poll(&mut cx), Poll::Pending);
    assert_eq!(join.poll(&mut cx), Poll::Ready(Ok(vec![1, 2])));
    assert_eq!(settled.polls.get(), 1);
    assert_eq!(waiting.polls.get(), 3);
}

#[test]
fn a_join_is_terminated_after_its_final_outcome() {
    for upper in [Some(2), None] {
        let mut success = TryJoinAll::with_size_hint(vec![Scripted::ok(0, 1)], upper);
        assert!(!success.is_terminated());
        assert_eq!(run(&mut success, 5), vec![Poll::Ready(Ok(vec![1]))]);
        assert!(success.is_terminated());
        assert_eq!(success.len(), 0);
        let mut failure = TryJoinAll::with_size_hint(vec![Scripted::err(0, "e")], upper);
        assert_eq!(run(&mut failure, 5), vec![Poll::Ready(Err("e"))]);
        assert!(failure.is_terminated());
        assert_eq!(failure.len(), 0);
    }
}

#[test]
fn a_join_is_an_operand_of_a_join() {
    let inner_one = try_join_all(vec![Scripted::ok(1, 1), Scripted::ok(0, 2)]);
    let inner_two = try_join_all(vec![Scripted::ok(0, 3)]);
    let mut outer = try_join_all(vec![inner_one, inner_two]);
    let mut cx = Context::from_waker(Waker::noop());
    assert_eq!(outer.poll(&mut cx), Poll::Pending);
    assert_eq!(outer.poll(&mut cx), Poll::Ready(Ok(vec![vec![1, 2], vec![3]])));
    let failing = try_join_all(vec![Scripted::ok(0, 1), Scripted::err(0, "inner")]);
    let mut outer = try_join_all(vec![try_join_all(vec![Scripted::ok(0, 9)]), failing]);
    assert_eq!(outer.poll(&mut cx), Poll::Ready(Err("inner")));
}
