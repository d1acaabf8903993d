//! The unbounded batch driver: operands are accepted one at a time, without
//! a count given in advance, and only those still in flight are visited in a
//! cycle.

use vstd::prelude::*;
use core::task::Context;
use std::collections::VecDeque;
use crate::cycle::{
    answered_by, fails_at, fresh, is_first_failure, lemma_first_failure_is, lemma_no_failure,
    lemma_settled_batch_succeeds, operations_after, outcome, outputs, poll_post, polled,
    reported, settled, Answer, FinalState,
};
use crate::operation::TryOperation;
use crate::task::Poll;

verus! {

/// An operation in flight, with the position at which it was submitted.
struct InFlight<F> {
    position: usize,
    operation: F,
}

/// The queue holds the operations in flight in submission order; each has
/// a position in `outputs` that is still empty, and every empty position
/// has its operation in the queue.
spec fn queue_matches<F: TryOperation>(
    queue: Seq<InFlight<F>>,
    outputs: Seq<Option<F::Ok>>,
) -> bool {
    &&& forall|a: int, b: int|
        0 <= a < b < queue.len() ==> (#[trigger] queue[a]).position < (#[trigger] queue[b]).position
    &&& forall|a: int|
        0 <= a < queue.len() ==> {
            &&& (#[trigger] queue[a]).position < outputs.len()
            &&& outputs[queue[a].position as int] is None
            &&& !queue[a].operation.terminated()
        }
    &&& forall|p: int|
        0 <= p < outputs.len() && (#[trigger] outputs[p]) is None ==> exists|a: int|
            0 <= a < queue.len() && (#[trigger] queue[a]).position == p
}

/// The entry `a` of the queue holds the operation of position `p`.
spec fn queued_at<F>(queue: Seq<InFlight<F>>, p: int, a: int) -> bool {
    0 <= a < queue.len() && queue[a].position == p
}

/// The queued operations by position, over `n` positions.
spec fn queue_operations<F>(queue: Seq<InFlight<F>>, n: nat) -> Seq<Option<F>> {
    Seq::new(
        n,
        |p: int|
            if exists|a: int| queued_at(queue, p, a) {
                Some(queue[choose|a: int| queued_at(queue, p, a)].operation)
            } else {
                None
            },
    )
}

/// An entry of the queue is what `queue_operations` has at its position.
proof fn lemma_queue_operations<F>(queue: Seq<InFlight<F>>, n: nat, a: int)
    requires
        0 <= a < queue.len(),
        queue[a].position < n,
        forall|a: int, b: int|
            0 <= a < b < queue.len() ==> (#[trigger] queue[a]).position < (
            #[trigger] queue[b]).position,
    ensures
        queue_operations(queue, n)[queue[a].position as int] == Some(queue[a].operation),
{
    let p = queue[a].position as int;
    assert(queued_at(queue, p, a));
    let b = choose|b: int| queued_at(queue, p, b);
    if a < b {
        assert(queue[a].position < queue[b].position);
    }
    if b < a {
        assert(queue[b].position < queue[a].position);
    }
}

/// Unwraps the output at every position, in order.
fn unwrap_all<T>(gathered: Vec<Option<T>>) -> (values: Vec<T>)
    requires
        forall|p: int| 0 <= p < gathered@.len() ==> (#[trigger] gathered@[p]) is Some,
    ensures
        values@ == outputs(gathered@),
{
    let ghost given = gathered@;
    let mut values: Vec<T> = Vec::new();
    for output in it: gathered
        invariant
            it.seq() == given,
            values@.len() == it.index(),
            forall|p: int| 0 <= p < given.len() ==> (#[trigger] given[p]) is Some,
            forall|p: int| 0 <= p < values@.len() ==> (#[trigger] values@[p]) == given[p]->Some_0,
    {
        assert(given[it.index()] is Some);
        values.push(output.unwrap());
    }
    assert(values@ =~= outputs(given));
    values
}

/// The unbounded batch driver. It keeps a queue of the operations still in
/// flight, each with its position, and the outputs gathered so far by
/// position. A cycle visits the queue once, front to back: an operation
/// that is still pending goes to the back of the queue, one that succeeded
/// leaves its output at its position.
pub struct UnboundedBatch<F: TryOperation> {
    in_flight: VecDeque<InFlight<F>>,
    outputs: Vec<Option<F::Ok>>,
    done: bool,
}

impl<F: TryOperation> UnboundedBatch<F> {
    #[verifier::type_invariant]
    spec fn inv(&self) -> bool {
        &&& queue_matches(self.in_flight@, self.outputs@)
        &&& self.done ==> self.outputs@.len() == 0
    }

    /// One entry per operand, in submission order: its output if it has
    /// succeeded, `None` while it is in flight. Empty once the batch has
    /// reported its final outcome.
    pub closed spec fn view(&self) -> Seq<Option<F::Ok>> {
        self.outputs@
    }

    /// The operations in flight, each at its position, and `None` at the
    /// positions of the operands that have succeeded.
    pub closed spec fn operations(&self) -> Seq<Option<F>> {
        queue_operations(self.in_flight@, self.outputs@.len())
    }

    /// The batch has reported its final outcome: polling it again is a
    /// fault.
    pub closed spec fn terminated(&self) -> bool {
        self.done
    }

    /// A batch without operands.
    pub fn new() -> (batch: Self)
        ensures
            batch@ == fresh::<F::Ok>(0),
            batch.operations() == Seq::<Option<F>>::empty(),
            !batch.terminated(),
    {
        let batch = UnboundedBatch { in_flight: VecDeque::new(), outputs: Vec::new(), done: false };
        assert(batch.operations() =~= Seq::<Option<F>>::empty());
        batch
    }

    /// A batch that has accepted each of the operations, in their order.
    pub fn collect(operations: Vec<F>) -> (batch: Self)
        requires
            forall|i: int| 0 <= i < operations@.len() ==> !(#[trigger] operations@[i]).terminated(),
        ensures
            batch@ == fresh::<F::Ok>(operations@.len()),
            batch.operations() == operations@.map_values(|operation: F| Some(operation)),
            !batch.terminated(),
    {
        let ghost given = operations@;
        let mut batch = UnboundedBatch::new();
        for operation in it: operations
            invariant
                it.seq() == given,
                forall|i: int| 0 <= i < given.len() ==> !(#[trigger] given[i]).terminated(),
                batch@ == fresh::<F::Ok>(it.index() as nat),
                batch.operations() == given.take(it.index()).map_values(
                    |operation: F| Some(operation),
                ),
                !batch.terminated(),
        {
            batch.push(operation);
            assert(batch@ =~= fresh::<F::Ok>((it.index() + 1) as nat));
            assert(batch.operations() =~= given.take(it.index() + 1).map_values(
                |operation: F| Some(operation),
            ));
        }
        assert(given.take(given.len() as int) =~= given);
        batch
    }

    /// Accepts one more operand, at the position after the last.
    pub fn push(&mut self, operation: F)
        requires
            !operation.terminated(),
            !old(self).terminated(),
        ensures
            final(self)@ == old(self)@.push(None),
            final(self).operations() == old(self).operations().push(Some(operation)),
            !final(self).terminated(),
    {
        proof {
            use_type_invariant(&*self);
        }
        let mut batch = UnboundedBatch::new();
        core::mem::swap(self, &mut batch);
        let UnboundedBatch { in_flight: mut queue, outputs: mut gathered, done: _ } = batch;
        let ghost queue_before = queue@;
        let ghost gathered_before = gathered@;
        let position = gathered.len();
        gathered.push(None);
        queue.push_back(InFlight { position, operation });
        proof {
            assert forall|p: int|
                0 <= p < gathered@.len() && (#[trigger] gathered@[p]) is None implies exists|
                a: int,
            |
                0 <= a < queue@.len() && (#[trigger] queue@[a]).position == p by {
                if p < gathered_before.len() {
                    assert(gathered_before[p] is None);
                    let a = choose|a: int|
                        0 <= a < queue_before.len() && (#[trigger] queue_before[a]).position == p;
                    assert(queue@[a].position == p);
                } else {
                    assert(queue@[queue@.len() - 1].position == p);
                }
            }
            assert(queue_matches(queue@, gathered@));
            assert forall|p: int| 0 <= p < gathered@.len() implies queue_operations(
                queue@,
                gathered@.len(),
            )[p] == queue_operations(queue_before, gathered_before.len()).push(
                Some(operation),
            )[p] by {
                if p == position {
                    lemma_queue_operations(queue@, gathered@.len(), queue@.len() - 1);
                } else if exists|a: int| queued_at(queue_before, p, a) {
                    let a = choose|a: int| queued_at(queue_before, p, a);
                    lemma_queue_operations(queue_before, gathered_before.len(), a);
                    assert(queue@[a] == queue_before[a]);
                    lemma_queue_operations(queue@, gathered@.len(), a);
                } else {
                    if exists|a: int| queued_at(queue@, p, a) {
                        let a = choose|a: int| queued_at(queue@, p, a);
                        assert(queued_at(queue_before, p, a));
                    }
                }
            }
            assert(queue_operations(queue@, gathered@.len()) =~= queue_operations(
                queue_before,
                gathered_before.len(),
            ).push(Some(operation)));
        }
        *self = UnboundedBatch { in_flight: queue, outputs: gathered, done: false };
    }

    /// The number of operands accepted and not yet released.
    pub fn len(&self) -> (n: usize)
        ensures
            n == self@.len(),
    {
        self.outputs.len()
    }

    /// Whether the batch has reported its final outcome.
    pub fn is_terminated(&self) -> (b: bool)
        ensures
            b == self.terminated(),
    {
        self.done
    }

    /// Runs one poll cycle. The operations in flight are polled once each,
    /// in submission order, until one fails or all have been seen. A failure
    /// ends the batch at once with that error, and everything it holds is
    /// released. If no operand failed and none is left in flight, the batch
    /// ends with the outputs in submission order. Else it reports `Pending`.
    ///
    /// What the operands answer is theirs to decide; the contract says what
    /// the poll does with their answers, whatever they are.
    pub fn poll(&mut self, cx: &mut Context<'_>) -> (result: Poll<Result<Vec<F::Ok>, F::Error>>)
        requires
            !old(self).terminated(),
        ensures
            exists|answers: Seq<Answer<F::Ok, F::Error>>, afters: Seq<F>| #[trigger]
                poll_post(
                    old(self).operations(),
                    old(self)@,
                    answers,
                    afters,
                    final(self).operations(),
                    final(self)@,
                    result,
                ),
            (forall|i: int| 0 <= i < old(self)@.len() ==> (#[trigger] old(self)@[i]) is Some)
                ==> reported(result) == Poll::<Result<Seq<F::Ok>, F::Error>>::Ready(
                Ok(outputs(old(self)@)),
            ),
            final(self).terminated() <==> result is Ready,
    {
        proof {
            use_type_invariant(&*self);
        }
        let mut batch = UnboundedBatch::new();
        core::mem::swap(self, &mut batch);
        let UnboundedBatch { in_flight: mut queue, outputs: mut gathered, done: _ } = batch;
        let ghost before = gathered@;
        let ghost submitted = queue@;
        let ghost mut answers: Seq<Answer<F::Ok, F::Error>> = Seq::new(
            before.len(),
            |p: int| Poll::Pending,
        );
        let ghost operations = queue_operations(submitted, before.len());
        let ghost mut afters: Seq<F> = Seq::new(before.len(), |p: int| arbitrary());
        let ghost mut failed: int = 0;
        let mut state: FinalState<F::Error> = FinalState::AllDone;
        let n = queue.len();
        let mut seen: usize = 0;
        while seen < n
            invariant_except_break
                !(state is Error),
                forall|p: int| 0 <= p < before.len() ==> !fails_at(before, answers, p),
                queue@.len() >= n - seen,
                forall|b: int| 0 <= b < n - seen ==> (#[trigger] queue@[b]) == submitted[seen + b],
                forall|a: int|
                    seen <= a < n ==> answers[(#[trigger] submitted[a]).position as int] is Pending,
                forall|c: int|
                    n - seen <= c < queue@.len() ==> {
                        &&& (#[trigger] queue@[c]).position < before.len()
                        &&& before[queue@[c].position as int] is None
                        &&& answers[queue@[c].position as int] is Pending
                        &&& !queue@[c].operation.terminated()
                        &&& queue@[c].operation == afters[queue@[c].position as int]
                        &&& seen < n ==> queue@[c].position < submitted[seen as int].position
                    },
                forall|c: int, d: int|
                    n - seen <= c < d < queue@.len() ==> (#[trigger] queue@[c]).position < (
                    #[trigger] queue@[d]).position,
                forall|a: int|
                    0 <= a < seen && answers[(#[trigger] submitted[a]).position as int]
                        is Pending ==> exists|c: int|
                        n - seen <= c < queue@.len() && (#[trigger] queue@[c]).position
                            == submitted[a].position,
                forall|p: int|
                    0 <= p < before.len() ==> (#[trigger] gathered@[p]) == (if before[p] is Some {
                        before[p]
                    } else {
                        match answers[p] {
                            Poll::Ready(Ok(output)) => Some(output),
                            _ => None,
                        }
                    }),
                state is Pending <==> queue@.len() > n - seen,
            invariant
                seen <= n,
                n == submitted.len(),
                answers.len() == before.len(),
                afters.len() == before.len(),
                gathered@.len() == before.len(),
                queue_matches(submitted, before),
                forall|a: int|
                    0 <= a < seen ==> (#[trigger] submitted[a]).operation.try_step(
                        &afters[submitted[a].position as int],
                        &answers[submitted[a].position as int],
                    ),
            ensures
                state is Error ==> is_first_failure(before, answers, failed) && state
                    == FinalState::Error(answers[failed]->Ready_0->Err_0) && seen < n && failed
                    == submitted[seen as int].position && submitted[seen as int].operation.try_step(
                    &afters[failed],
                    &answers[failed],
                ),
                !(state is Error) ==> {
                    &&& seen == n
                    &&& forall|p: int| 0 <= p < before.len() ==> !fails_at(before, answers, p)
                    &&& forall|c: int|
                        0 <= c < queue@.len() ==> {
                            &&& (#[trigger] queue@[c]).position < before.len()
                            &&& before[queue@[c].position as int] is None
                            &&& answers[queue@[c].position as int] is Pending
                            &&& !queue@[c].operation.terminated()
                            &&& queue@[c].operation == afters[queue@[c].position as int]
                        }
                    &&& forall|c: int, d: int|
                        0 <= c < d < queue@.len() ==> (#[trigger] queue@[c]).position < (
                        #[trigger] queue@[d]).position
                    &&& forall|a: int|
                        0 <= a < n && answers[(#[trigger] submitted[a]).position as int]
                            is Pending ==> exists|c: int|
                            0 <= c < queue@.len() && (#[trigger] queue@[c]).position
                                == submitted[a].position
                    &&& forall|p: int|
                        0 <= p < before.len() ==> (#[trigger] gathered@[p]) == (if before[p]
                            is Some {
                            before[p]
                        } else {
                            match answers[p] {
                                Poll::Ready(Ok(output)) => Some(output),
                                _ => None,
                            }
                        })
                    &&& state is Pending <==> queue@.len() > 0
                },
            decreases n - seen,
        {
            let ghost queue_before = queue@;
            let ghost answers_before = answers;
            let ghost afters_before = afters;
            assert(queue@[0] == submitted[seen as int]);
            let InFlight { position, mut operation } = queue.pop_front().unwrap();
            let answer = operation.try_poll(cx);
            proof {
                answers = answers.update(position as int, answer);
                afters = afters.update(position as int, operation);
                assert forall|a: int| 0 <= a < seen + 1 implies (
                #[trigger] submitted[a]).operation.try_step(
                    &afters[submitted[a].position as int],
                    &answers[submitted[a].position as int],
                ) by {
                    if a < seen {
                        assert(submitted[a].position < submitted[seen as int].position);
                        assert(afters[submitted[a].position as int]
                            == afters_before[submitted[a].position as int]);
                        assert(answers[submitted[a].position as int]
                            == answers_before[submitted[a].position as int]);
                    }
                }
                assert forall|a: int| seen < a < n implies answers[(
                #[trigger] submitted[a]).position as int] is Pending by {
                    assert(submitted[seen as int].position < submitted[a].position);
                }
                assert forall|c: int| n - seen - 1 <= c < queue@.len() implies {
                    &&& (#[trigger] queue@[c]).position < before.len()
                    &&& before[queue@[c].position as int] is None
                    &&& answers[queue@[c].position as int] is Pending
                    &&& !queue@[c].operation.terminated()
                    &&& queue@[c].operation == afters[queue@[c].position as int]
                    &&& queue@[c].position < position
                } by {
                    assert(queue@[c] == queue_before[c + 1]);
                }
                assert forall|b: int| 0 <= b < n - seen - 1 implies (#[trigger] queue@[b])
                    == submitted[seen + 1 + b] by {
                    assert(queue@[b] == queue_before[b + 1]);
                }
                assert forall|c: int, d: int| n - seen - 1 <= c < d < queue@.len() implies (
                #[trigger] queue@[c]).position < (#[trigger] queue@[d]).position by {
                    assert(queue@[c] == queue_before[c + 1]);
                    assert(queue@[d] == queue_before[d + 1]);
                }
                assert forall|a: int|
                    0 <= a < seen && answers[(#[trigger] submitted[a]).position as int]
                        is Pending implies exists|c: int|
                    n - seen - 1 <= c < queue@.len() && (#[trigger] queue@[c]).position
                        == submitted[a].position by {
                    assert(submitted[a].position < submitted[seen as int].position);
                    assert(answers_before[submitted[a].position as int] is Pending);
                    let c = choose|c: int|
                        n - seen <= c < queue_before.len() && (#[trigger] queue_before[c]).position
                            == submitted[a].position;
                    assert(queue@[c - 1] == queue_before[c]);
                }
            }
            match answer {
                Poll::Pending => {
                    state = FinalState::Pending;
                    let ghost queue_popped = queue@;
                    queue.push_back(InFlight { position, operation });
                    proof {
                        assert forall|a: int|
                            0 <= a < seen + 1 && answers[(#[trigger] submitted[a]).position as int]
                                is Pending implies exists|c: int|
                            n - seen - 1 <= c < queue@.len() && (#[trigger] queue@[c]).position
                                == submitted[a].position by {
                            if a < seen {
                                let c = choose|c: int|
                                    n - seen - 1 <= c < queue_popped.len() && (
                                    #[trigger] queue_popped[c]).position == submitted[a].position;
                                assert(queue@[c] == queue_popped[c]);
                            } else {
                                assert(queue@[queue@.len() - 1].position == position);
                            }
                        }
                        assert forall|c: int| n - seen - 1 <= c < queue@.len() implies {
                            &&& (#[trigger] queue@[c]).position < before.len()
                            &&& before[queue@[c].position as int] is None
                            &&& answers[queue@[c].position as int] is Pending
                            &&& !queue@[c].operation.terminated()
                            &&& queue@[c].operation == afters[queue@[c].position as int]
                            &&& seen + 1 < n ==> queue@[c].position < submitted[seen + 1].position
                        } by {
                            if c < queue_popped.len() {
                                assert(queue@[c] == queue_popped[c]);
                            }
                        }
                        assert forall|c: int, d: int|
                            n - seen - 1 <= c < d < queue@.len() implies (
                        #[trigger] queue@[c]).position < (#[trigger] queue@[d]).position by {
                            assert(queue@[c] == queue_popped[c]);
                            if d < queue_popped.len() {
                                assert(queue@[d] == queue_popped[d]);
                            }
                        }
                        assert forall|b: int| 0 <= b < n - seen - 1 implies (#[trigger] queue@[b])
                            == submitted[seen + 1 + b] by {
                            assert(queue@[b] == queue_popped[b]);
                        }
                    }
                },
                Poll::Ready(Ok(output)) => {
                    gathered[position] = Some(output);
                    proof {
                        assert forall|c: int| n - seen - 1 <= c < queue@.len() implies {
                            &&& (#[trigger] queue@[c]).position < before.len()
                            &&& before[queue@[c].position as int] is None
                            &&& answers[queue@[c].position as int] is Pending
                            &&& !queue@[c].operation.terminated()
                            &&& queue@[c].operation == afters[queue@[c].position as int]
                            &&& seen + 1 < n ==> queue@[c].position < submitted[seen + 1].position
                        } by {
                            assert(queue@[c].position < position);
                        }
                    }
                },
                Poll::Ready(Err(error)) => {
                    state = FinalState::Error(error);
                    proof {
                        failed = position as int;
                        assert forall|p: int| 0 <= p < failed implies !fails_at(
                            before,
                            answers,
                            p,
                        ) by {
                            assert(!fails_at(before, answers_before, p));
                        }
                    }
                    break ;
                },
            }
            proof {
                assert forall|p: int| 0 <= p < before.len() implies !fails_at(
                    before,
                    answers,
                    p,
                ) by {
                    assert(!fails_at(before, answers_before, p));
                }
            }
            seen += 1;
        }
        proof {
            if state is Error {
                lemma_first_failure_is(before, answers, failed);
            } else {
                lemma_no_failure(before, answers);
                assert(gathered@ =~= settled(before, answers));
                if state is Pending {
                    let p = queue@[0].position as int;
                    assert(settled(before, answers)[p] is None);
                } else {
                    assert forall|p: int| 0 <= p < before.len() implies (#[trigger] settled(
                        before,
                        answers,
                    )[p]) is Some by {
                        if before[p] is None {
                            let a = choose|a: int|
                                0 <= a < submitted.len() && (#[trigger] submitted[a]).position == p;
                            assert(!fails_at(before, answers, p));
                            if answers[p] is Pending {
                                let c = choose|c: int|
                                    0 <= c < queue@.len() && (#[trigger] queue@[c]).position
                                        == submitted[a].position;
                            }
                        }
                    }
                }
            }
            assert(state == outcome(before, answers));
            if forall|i: int| 0 <= i < before.len() ==> (#[trigger] before[i]) is Some {
                lemma_settled_batch_succeeds(before, answers);
            }
            assert(answered_by(operations, before, answers, afters)) by {
                assert forall|p: int| #[trigger] polled(before, answers, p) implies operations[p]
                    is Some && operations[p]->Some_0.try_step(&afters[p], &answers[p]) by {
                    let a = choose|a: int|
                        0 <= a < submitted.len() && (#[trigger] submitted[a]).position == p;
                    lemma_queue_operations(submitted, before.len(), a);
                    if state is Error {
                        if a > seen {
                            assert(submitted[seen as int].position < submitted[a].position);
                        }
                    }
                }
            }
        }
        match state {
            FinalState::Pending => {
                proof {
                    assert forall|p: int|
                        0 <= p < gathered@.len() && (#[trigger] gathered@[p]) is None implies exists|
                        c: int,
                    |
                        0 <= c < queue@.len() && (#[trigger] queue@[c]).position == p by {
                        assert(before[p] is None);
                        let a = choose|a: int|
                            0 <= a < submitted.len() && (#[trigger] submitted[a]).position == p;
                        assert(!fails_at(before, answers, p));
                        assert(answers[submitted[a].position as int] is Pending);
                    }
                    assert(queue_matches(queue@, gathered@));
                    assert forall|p: int| 0 <= p < before.len() implies queue_operations(
                        queue@,
                        gathered@.len(),
                    )[p] == operations_after(before, answers, afters)[p] by {
                        if exists|c: int| queued_at(queue@, p, c) {
                            let c = choose|c: int| queued_at(queue@, p, c);
                            lemma_queue_operations(queue@, gathered@.len(), c);
                        } else {
                            if gathered@[p] is None {
                                let c = choose|c: int|
                                    0 <= c < queue@.len() && (#[trigger] queue@[c]).position == p;
                                assert(queued_at(queue@, p, c));
                            }
                        }
                    }
                    assert(queue_operations(queue@, gathered@.len()) =~= operations_after(
                        before,
                        answers,
                        afters,
                    ));
                }
                *self = UnboundedBatch { in_flight: queue, outputs: gathered, done: false };
                let result = Poll::Pending;
                assert(poll_post(
                    old(self).operations(),
                    old(self)@,
                    answers,
                    afters,
                    self.operations(),
                    self@,
                    result,
                ));
                result
            },
            FinalState::AllDone => {
                assert forall|p: int| 0 <= p < gathered@.len() implies (#[trigger] gathered@[p])
                    is Some by {
                    assert(settled(before, answers)[p] is Some);
                }
                let values = unwrap_all(gathered);
                *self = UnboundedBatch {
                    in_flight: VecDeque::new(),
                    outputs: Vec::new(),
                    done: true,
                };
                let result = Poll::Ready(Ok(values));
                assert(self@ =~= Seq::empty());
                assert(self.operations() =~= Seq::empty());
                assert(poll_post(
                    old(self).operations(),
                    old(self)@,
                    answers,
                    afters,
                    self.operations(),
                    self@,
                    result,
                ));
                result
            },
            FinalState::Error(error) => {
                *self = UnboundedBatch {
                    in_flight: VecDeque::new(),
                    outputs: Vec::new(),
                    done: true,
                };
                let result = Poll::Ready(Err(error));
                assert(self@ =~= Seq::empty());
                assert(self.operations() =~= Seq::empty());
                assert(poll_post(
                    old(self).operations(),
                    old(self)@,
                    answers,
                    afters,
                    self.operations(),
                    self@,
                    result,
                ));
                result
            },
        }
    }
}

} // verus!
