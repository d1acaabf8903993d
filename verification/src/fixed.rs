//! The fixed-capacity batch driver: one slot per operand, all of them
//! scanned in every cycle.

use vstd::prelude::*;
use core::task::Context;
use crate::cycle::{
    answered_by, fails_at, fresh, is_first_failure, lemma_first_failure_is, lemma_no_failure,
    lemma_settled_batch_succeeds, operations_after, outcome, outputs, poll_post, polled,
    reported, settled, Answer, FinalState,
};
use crate::operation::TryOperation;
use crate::slot::{settle_spec, Slot, SlotState};
use crate::task::Poll;

verus! {

/// What a batch's contract says of one slot: its output if it has one.
spec fn slot_output<T>(state: SlotState<T>) -> Option<T> {
    match state {
        SlotState::Ready(output) => Some(output),
        _ => None,
    }
}

/// The slots as the cycle model sees them.
spec fn slot_outputs<F: TryOperation>(slots: Seq<Slot<F>>) -> Seq<Option<F::Ok>> {
    Seq::new(slots.len(), |i: int| slot_output(slots[i]@))
}

/// The operation in each slot that has one.
spec fn slot_operations<F: TryOperation>(slots: Seq<Slot<F>>) -> Seq<Option<F>> {
    Seq::new(
        slots.len(),
        |i: int|
            match slots[i] {
                Slot::Pending(operation) => Some(operation),
                _ => None,
            },
    )
}

/// Every slot holds an operation that may be polled, or an output.
spec fn slots_live<F: TryOperation>(slots: Seq<Slot<F>>) -> bool {
    forall|i: int| 0 <= i < slots.len() ==> !((#[trigger] slots[i]) is Taken) && slots[i].pollable()
}

/// Scans the slots in index order and advances each one that is pending,
/// up to and including the first that fails.
fn scan<F: TryOperation>(slots: &mut Vec<Slot<F>>, cx: &mut Context<'_>) -> (state: FinalState<
    F::Error,
>)
    requires
        slots_live(old(slots)@),
    ensures
        final(slots)@.len() == old(slots)@.len(),
        exists|answers: Seq<Answer<F::Ok, F::Error>>, afters: Seq<F>|
            {
                &&& answers.len() == old(slots)@.len()
                &&& #[trigger] answered_by(
                    slot_operations(old(slots)@),
                    slot_outputs(old(slots)@),
                    answers,
                    afters,
                )
                &&& slot_outputs(final(slots)@) == settled(slot_outputs(old(slots)@), answers)
                &&& state == outcome(slot_outputs(old(slots)@), answers)
                &&& state is Pending ==> slot_operations(final(slots)@) == operations_after(
                    slot_outputs(old(slots)@),
                    answers,
                    afters,
                )
            },
        !(state is Error) ==> slots_live(final(slots)@),
{
    let ghost before = slot_outputs(slots@);
    let ghost operations = slot_operations(slots@);
    let ghost mut answers: Seq<Answer<F::Ok, F::Error>> = Seq::new(
        slots@.len(),
        |i: int| Poll::Pending,
    );
    let ghost mut afters: Seq<F> = Seq::new(slots@.len(), |i: int| arbitrary());
    let mut state: FinalState<F::Error> = FinalState::AllDone;
    let n = slots.len();
    let mut i: usize = 0;
    while i < n
        invariant_except_break
            !(state is Error),
            forall|j: int| 0 <= j < i ==> !fails_at(before, answers, j),
            state is Pending <==> exists|j: int|
                0 <= j < i && before[j] is None && (#[trigger] answers[j]) is Pending,
            slots_live(slots@),
            forall|j: int|
                i <= j < n ==> ((#[trigger] operations[j]) matches Some(operation) ==> slots@[j]
                    == Slot::Pending(operation)),
        invariant
            i <= n,
            n == slots@.len(),
            before.len() == n,
            operations.len() == n,
            answers.len() == n,
            afters.len() == n,
            forall|j: int| 0 <= j < n ==> (before[j] is None <==> (#[trigger] operations[j]) is Some),
            forall|j: int| i <= j < n ==> before[j] == #[trigger] slot_output(slots@[j]@),
            forall|j: int|
                0 <= j < i && before[j] is Some ==> #[trigger] slot_output(slots@[j]@) == before[j],
            forall|j: int|
                0 <= j < i && before[j] is None ==> #[trigger] slot_output(slots@[j]@) == (
                match answers[j] {
                    Poll::Ready(Ok(output)) => Some(output),
                    _ => None,
                }),
            forall|j: int|
                0 <= j < i && before[j] is None ==> (#[trigger] operations[j])->Some_0.try_step(
                    &afters[j],
                    &answers[j],
                ),
            forall|j: int|
                0 <= j < i && before[j] is None && answers[j] is Pending ==> (#[trigger] slots@[j])
                    == Slot::Pending(afters[j]),
        ensures
            state is Error ==> i < n && is_first_failure(before, answers, i as int) && state
                == FinalState::Error(answers[i as int]->Ready_0->Err_0) && operations[i as int]
                is Some && operations[i as int]->Some_0.try_step(
                &afters[i as int],
                &answers[i as int],
            ),
            !(state is Error) ==> i == n && slots_live(slots@) && (forall|j: int|
                0 <= j < n ==> !fails_at(before, answers, j)) && (state is Pending <==> exists|
                j: int,
            |
                0 <= j < n && before[j] is None && (#[trigger] answers[j]) is Pending),
        decreases n - i,
    {
        let ghost slot_before = slots@[i as int];
        let ghost answers_before = answers;
        let ghost afters_before = afters;
        let report = slots[i].advance(cx);
        proof {
            assert(before[i as int] == slot_output(slot_before@));
            match slot_before {
                Slot::Pending(operation) => {
                    let (after, answer) = choose|after: F, answer: Answer<F::Ok, F::Error>|
                        {
                            &&& #[trigger] operation.try_step(&after, &answer)
                            &&& (slots@[i as int]@, report) == settle_spec(slot_before@, answer)
                            &&& slots@[i as int] is Pending ==> slots@[i as int] == Slot::Pending(
                                after,
                            )
                        };
                    answers = answers.update(i as int, answer);
                    afters = afters.update(i as int, after);
                    assert(operations[i as int] == Some(operation));
                },
                _ => {
                    assert(operations[i as int] is None);
                },
            }
            assert forall|j: int| 0 <= j < i implies !fails_at(before, answers, j) by {
                assert(!fails_at(before, answers_before, j));
            }
            assert forall|j: int| 0 <= j < i && before[j] is None implies (
            #[trigger] operations[j])->Some_0.try_step(&afters[j], &answers[j]) by {
                assert(afters[j] == afters_before[j] && answers[j] == answers_before[j]);
            }
        }
        match report {
            Poll::Pending => {
                state = FinalState::Pending;
                assert(before[i as int] is None && answers[i as int] is Pending);
            },
            Poll::Ready(Ok(())) => {
                proof {
                    if state is Pending {
                        let j = choose|j: int|
                            0 <= j < i && before[j] is None && (
                            #[trigger] answers_before[j]) is Pending;
                        assert(answers[j] is Pending);
                    }
                }
            },
            Poll::Ready(Err(error)) => {
                state = FinalState::Error(error);
                break ;
            },
        }
        i += 1;
    }
    proof {
        let after = slot_outputs(slots@);
        if state is Error {
            lemma_first_failure_is(before, answers, i as int);
        } else {
            lemma_no_failure(before, answers);
        }
        assert(after =~= settled(before, answers));
        if state is Pending {
            let j = choose|j: int|
                0 <= j < n && before[j] is None && (#[trigger] answers[j]) is Pending;
            assert(settled(before, answers)[j] is None);
        } else if state is AllDone {
            assert forall|j: int| 0 <= j < n implies (#[trigger] settled(before, answers)[j])
                is Some by {
                if before[j] is None {
                    assert(!fails_at(before, answers, j));
                    assert(!(answers[j] is Pending));
                }
            }
        }
        assert(state == outcome(before, answers));
        assert(answered_by(operations, before, answers, afters)) by {
            assert forall|j: int| #[trigger] polled(before, answers, j) implies operations[j]
                is Some && operations[j]->Some_0.try_step(&afters[j], &answers[j]) by {
                if state is Error {
                    assert(j <= i);
                }
            }
        }
        if state is Pending {
            assert(slot_operations(slots@) =~= operations_after(before, answers, afters)) by {
                assert forall|j: int| 0 <= j < n implies slot_operations(slots@)[j]
                    == operations_after(before, answers, afters)[j] by {
                    assert(after[j] == slot_output(slots@[j]@));
                    if before[j] is None {
                        assert(!fails_at(before, answers, j));
                    }
                }
            }
        }
    }
    state
}

/// Takes the output out of every slot, in index order.
fn collect<F: TryOperation>(slots: &mut Vec<Slot<F>>) -> (values: Vec<F::Ok>)
    requires
        forall|i: int| 0 <= i < old(slots)@.len() ==> (#[trigger] old(slots)@[i]) is Ready,
    ensures
        values@ == outputs(slot_outputs(old(slots)@)),
{
    let ghost before = slots@;
    let mut values: Vec<F::Ok> = Vec::new();
    let n = slots.len();
    let mut i: usize = 0;
    while i < n
        invariant
            i <= n,
            n == slots@.len(),
            before.len() == n,
            values@.len() == i,
            forall|j: int| i <= j < n ==> slots@[j] == before[j],
            forall|j: int| 0 <= j < n ==> (#[trigger] before[j]) is Ready,
            forall|j: int| 0 <= j < i ==> (#[trigger] values@[j]) == before[j]->Ready_0,
        decreases n - i,
    {
        assert(before[i as int] is Ready);
        let value = slots[i].extract();
        values.push(value);
        i += 1;
    }
    assert(values@ =~= outputs(slot_outputs(before)));
    values
}

/// The fixed-capacity batch driver. It owns one slot per operand, at the
/// operand's position, and in every cycle scans them all in index order.
pub struct FixedBatch<F: TryOperation> {
    slots: Vec<Slot<F>>,
    done: bool,
}

impl<F: TryOperation> FixedBatch<F> {
    #[verifier::type_invariant]
    spec fn inv(&self) -> bool {
        &&& slots_live(self.slots@)
        &&& self.done ==> self.slots@.len() == 0
    }

    /// One entry per operand, in submission order: its output if it has
    /// succeeded, `None` while it is in flight. Empty once the batch has
    /// reported its final outcome.
    pub closed spec fn view(&self) -> Seq<Option<F::Ok>> {
        slot_outputs(self.slots@)
    }

    /// The operations in flight, each at its position, and `None` at the
    /// positions of the operands that have succeeded.
    pub closed spec fn operations(&self) -> Seq<Option<F>> {
        slot_operations(self.slots@)
    }

    /// The batch has reported its final outcome: polling it again is a
    /// fault.
    pub closed spec fn terminated(&self) -> bool {
        self.done
    }

    /// A batch with one pending slot for each of the operations, in their
    /// order.
    pub fn new(operations: Vec<F>) -> (batch: Self)
        requires
            forall|i: int| 0 <= i < operations@.len() ==> !(#[trigger] operations@[i]).terminated(),
        ensures
            batch@ == fresh::<F::Ok>(operations@.len()),
            batch.operations() == operations@.map_values(|operation: F| Some(operation)),
            !batch.terminated(),
    {
        let ghost given = operations@;
        let mut slots: Vec<Slot<F>> = Vec::new();
        for operation in it: operations
            invariant
                it.seq() == given,
                slots@.len() == it.index(),
                forall|j: int| 0 <= j < slots@.len() ==> (#[trigger] slots@[j]) == Slot::Pending(given[j]),
        {
            slots.push(Slot::new(operation));
        }
        let batch = FixedBatch { slots, done: false };
        assert(batch@ =~= fresh::<F::Ok>(given.len()));
        assert(batch.operations() =~= given.map_values(|operation: F| Some(operation)));
        batch
    }

    /// The number of slots that the batch holds.
    pub fn len(&self) -> (n: usize)
        ensures
            n == self@.len(),
    {
        self.slots.len()
    }

    /// Whether the batch has reported its final outcome.
    pub fn is_terminated(&self) -> (b: bool)
        ensures
            b == self.terminated(),
    {
        self.done
    }

    /// Runs one poll cycle. The slots are scanned in index order and each
    /// pending one is advanced, until one fails or all have been seen. A
    /// failure ends the batch at once with that error, and the slots are
    /// released with whatever they hold. If no operand failed and all have
    /// succeeded, the batch ends with their outputs in submission order.
    /// Else the batch is left as the scan made it and reports `Pending`.
    ///
    /// What the operands answer is theirs to decide; the contract says what
    /// the poll does with their answers, whatever they are.
    pub fn poll(&mut self, cx: &mut Context<'_>) -> (result: Poll<Result<Vec<F::Ok>, F::Error>>)
        requires
            !old(self).terminated(),
        ensures
            exists|answers: Seq<Answer<F::Ok, F::Error>>, afters: Seq<F>| #[trigger]
                poll_post(
                    old(self).operations(),
                    old(self)@,
                    answers,
                    afters,
                    final(self).operations(),
                    final(self)@,
                    result,
                ),
            (forall|i: int| 0 <= i < old(self)@.len() ==> (#[trigger] old(self)@[i]) is Some)
                ==> reported(result) == Poll::<Result<Seq<F::Ok>, F::Error>>::Ready(
                Ok(outputs(old(self)@)),
            ),
            final(self).terminated() <==> result is Ready,
    {
        proof {
            use_type_invariant(&*self);
        }
        let mut slots: Vec<Slot<F>> = Vec::new();
        core::mem::swap(&mut self.slots, &mut slots);
        let ghost before = slot_outputs(slots@);
        let ghost operations = slot_operations(slots@);
        let state = scan(&mut slots, cx);
        let ghost (answers, afters) = choose|answers: Seq<Answer<F::Ok, F::Error>>, afters: Seq<F>|
            {
                &&& answers.len() == before.len()
                &&& #[trigger] answered_by(operations, before, answers, afters)
                &&& slot_outputs(slots@) == settled(before, answers)
                &&& state == outcome(before, answers)
                &&& state is Pending ==> slot_operations(slots@) == operations_after(
                    before,
                    answers,
                    afters,
                )
            };
        proof {
            if forall|i: int| 0 <= i < before.len() ==> (#[trigger] before[i]) is Some {
                lemma_settled_batch_succeeds(before, answers);
            }
        }
        match state {
            FinalState::Pending => {
                self.slots = slots;
                let result = Poll::Pending;
                assert(poll_post(
                    old(self).operations(),
                    old(self)@,
                    answers,
                    afters,
                    self.operations(),
                    self@,
                    result,
                ));
                result
            },
            FinalState::AllDone => {
                assert forall|i: int| 0 <= i < slots@.len() implies (#[trigger] slots@[i])
                    is Ready by {
                    assert(settled(before, answers)[i] is Some);
                    assert(slot_outputs(slots@)[i] == slot_output(slots@[i]@));
                }
                let values = collect(&mut slots);
                self.done = true;
                let result = Poll::Ready(Ok(values));
                assert(self@ =~= Seq::empty());
                assert(self.operations() =~= Seq::empty());
                assert(poll_post(
                    old(self).operations(),
                    old(self)@,
                    answers,
                    afters,
                    self.operations(),
                    self@,
                    result,
                ));
                result
            },
            FinalState::Error(error) => {
                self.done = true;
                let result = Poll::Ready(Err(error));
                assert(self@ =~= Seq::empty());
                assert(self.operations() =~= Seq::empty());
                assert(poll_post(
                    old(self).operations(),
                    old(self)@,
                    answers,
                    afters,
                    self.operations(),
                    self@,
                    result,
                ));
                result
            },
        }
    }
}

} // verus!
