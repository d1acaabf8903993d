//! One poll cycle of a batch, as mathematics.
//!
//! A batch is seen as a sequence with one entry per operand, in submission
//! order: `None` while the operand is in flight, `Some(output)` once it has
//! succeeded. What the in-flight operands answer when polled is not the
//! batch's to decide, so a cycle is described for every possible sequence of
//! answers, one per position. An answer at the position of an operand that
//! is not polled in the cycle is never looked at.

use vstd::prelude::*;
use crate::operation::TryOperation;
use crate::task::Poll;

verus! {

/// What an operand answers to one poll.
pub type Answer<T, E> = Poll<Result<T, E>>;

/// What a scan over the slots of a batch has found.
#[derive(Debug)]
pub enum FinalState<E> {
    /// No failure was seen, and at least one operand is still in flight.
    Pending,
    /// Every operand has succeeded.
    AllDone,
    /// An operand failed with this error, and the scan stopped there.
    Error(E),
}

/// A batch of `n` operands, none of which has been polled yet.
pub open spec fn fresh<T>(n: nat) -> Seq<Option<T>> {
    Seq::new(n, |i: int| None::<T>)
}

/// The operand at position `i` is in flight and answers with a failure.
pub open spec fn fails_at<T, E>(slots: Seq<Option<T>>, answers: Seq<Answer<T, E>>, i: int) -> bool {
    &&& 0 <= i < slots.len()
    &&& slots[i] is None
    &&& answers[i] matches Poll::Ready(Err(_))
}

/// The position `i` is the lowest at which an operand fails in this cycle.
pub open spec fn is_first_failure<T, E>(
    slots: Seq<Option<T>>,
    answers: Seq<Answer<T, E>>,
    i: int,
) -> bool {
    &&& fails_at(slots, answers, i)
    &&& forall|j: int| 0 <= j < i ==> !fails_at(slots, answers, j)
}

/// The lowest position at which an operand fails in this cycle, if any
/// does.
pub open spec fn first_failure<T, E>(slots: Seq<Option<T>>, answers: Seq<Answer<T, E>>) -> Option<
    int,
> {
    if exists|i: int| fails_at(slots, answers, i) {
        Some(choose|i: int| is_first_failure(slots, answers, i))
    } else {
        None
    }
}

/// The operand at position `i` is polled in this cycle: it is in flight, and
/// no operand before it has failed in this cycle.
pub open spec fn polled<T, E>(slots: Seq<Option<T>>, answers: Seq<Answer<T, E>>, i: int) -> bool {
    &&& 0 <= i < slots.len()
    &&& slots[i] is None
    &&& match first_failure(slots, answers) {
        Some(k) => i <= k,
        None => true,
    }
}

/// The slots after the scan: an operand that was polled and succeeded holds
/// its output, every other slot is as it was.
pub open spec fn settled<T, E>(slots: Seq<Option<T>>, answers: Seq<Answer<T, E>>) -> Seq<
    Option<T>,
> {
    Seq::new(
        slots.len(),
        |i: int|
            if polled(slots, answers, i) {
                match answers[i] {
                    Poll::Ready(Ok(output)) => Some(output),
                    _ => None,
                }
            } else {
                slots[i]
            },
    )
}

/// What the scan finds: the error of the first failure if there is one,
/// else whether an operand is left in flight.
pub open spec fn outcome<T, E>(slots: Seq<Option<T>>, answers: Seq<Answer<T, E>>) -> FinalState<E> {
    match first_failure(slots, answers) {
        Some(k) => FinalState::Error(answers[k]->Ready_0->Err_0),
        None => if exists|i: int|
            0 <= i < slots.len() && (#[trigger] settled(slots, answers)[i]) is None {
            FinalState::Pending
        } else {
            FinalState::AllDone
        },
    }
}

/// The outputs of a batch in which every operand has succeeded, in
/// submission order.
pub open spec fn outputs<T>(slots: Seq<Option<T>>) -> Seq<T> {
    Seq::new(slots.len(), |i: int| slots[i]->Some_0)
}

/// What a poll of the batch reports at the end of the cycle.
pub open spec fn poll_result<T, E>(slots: Seq<Option<T>>, answers: Seq<Answer<T, E>>) -> Poll<
    Result<Seq<T>, E>,
> {
    match outcome(slots, answers) {
        FinalState::Pending => Poll::Pending,
        FinalState::AllDone => Poll::Ready(Ok(outputs(settled(slots, answers)))),
        FinalState::Error(error) => Poll::Ready(Err(error)),
    }
}

/// The slots that the batch keeps at the end of the cycle: all of them, as
/// the scan left them, while the batch goes on; none once it has reported
/// its final outcome.
pub open spec fn poll_state<T, E>(slots: Seq<Option<T>>, answers: Seq<Answer<T, E>>) -> Seq<
    Option<T>,
> {
    match outcome(slots, answers) {
        FinalState::Pending => settled(slots, answers),
        _ => Seq::empty(),
    }
}

/// A reported result with its outputs as a mathematical sequence.
pub open spec fn reported<T, E>(result: Poll<Result<Vec<T>, E>>) -> Poll<Result<Seq<T>, E>> {
    match result {
        Poll::Pending => Poll::Pending,
        Poll::Ready(Ok(values)) => Poll::Ready(Ok(values@)),
        Poll::Ready(Err(error)) => Poll::Ready(Err(error)),
    }
}

/// One poll relates the batch before it, the answers of the operands, the
/// batch after it and the reported result in this way.
pub open spec fn cycle_post<T, E>(
    before: Seq<Option<T>>,
    answers: Seq<Answer<T, E>>,
    after: Seq<Option<T>>,
    result: Poll<Result<Vec<T>, E>>,
) -> bool {
    &&& answers.len() == before.len()
    &&& after == poll_state(before, answers)
    &&& reported(result) == poll_result(before, answers)
}

/// The answers are those of the batch's own operands: each operand that is
/// polled in the cycle is taken by its poll from the operation that stood at
/// its position to `afters[i]`, and answers `answers[i]`.
pub open spec fn answered_by<F: TryOperation>(
    operations: Seq<Option<F>>,
    slots: Seq<Option<F::Ok>>,
    answers: Seq<Answer<F::Ok, F::Error>>,
    afters: Seq<F>,
) -> bool {
    &&& operations.len() == slots.len()
    &&& afters.len() == slots.len()
    &&& forall|i: int| #[trigger]
        polled(slots, answers, i) ==> operations[i] is Some && operations[i]->Some_0.try_step(
            &afters[i],
            &answers[i],
        )
}

/// The operations that the batch holds at the end of the cycle: those that
/// answered `Pending`, each as its poll left it, while the batch goes on;
/// none once it has reported its final outcome.
pub open spec fn operations_after<F: TryOperation>(
    slots: Seq<Option<F::Ok>>,
    answers: Seq<Answer<F::Ok, F::Error>>,
    afters: Seq<F>,
) -> Seq<Option<F>> {
    match outcome(slots, answers) {
        FinalState::Pending => Seq::new(
            slots.len(),
            |i: int|
                if settled(slots, answers)[i] is None {
                    Some(afters[i])
                } else {
                    None
                },
        ),
        _ => Seq::empty(),
    }
}

/// One poll of a batch, in full: the batch holds `operations` at the
/// positions where `before` has no output yet; polling takes the operands
/// to `afters` and is answered with `answers`; the batch is left with
/// `operations_left` and `after`, and reports `result`.
pub open spec fn poll_post<F: TryOperation>(
    operations: Seq<Option<F>>,
    before: Seq<Option<F::Ok>>,
    answers: Seq<Answer<F::Ok, F::Error>>,
    afters: Seq<F>,
    operations_left: Seq<Option<F>>,
    after: Seq<Option<F::Ok>>,
    result: Poll<Result<Vec<F::Ok>, F::Error>>,
) -> bool {
    &&& cycle_post(before, answers, after, result)
    &&& answered_by(operations, before, answers, afters)
    &&& operations_left == operations_after(before, answers, afters)
}

/// A position that fails with no failure before it is the first failure.
pub proof fn lemma_first_failure_is<T, E>(
    slots: Seq<Option<T>>,
    answers: Seq<Answer<T, E>>,
    i: int,
)
    requires
        is_first_failure(slots, answers, i),
    ensures
        first_failure(slots, answers) == Some(i),
{
    let k = choose|k: int| is_first_failure(slots, answers, k);
    assert(is_first_failure(slots, answers, k));
    if k < i {
        assert(!fails_at(slots, answers, k));
    }
    if i < k {
        assert(!fails_at(slots, answers, i));
    }
}

/// Where a position fails, some position is the lowest that fails.
proof fn lemma_a_failure_has_a_first<T, E>(
    slots: Seq<Option<T>>,
    answers: Seq<Answer<T, E>>,
    i: int,
)
    requires
        fails_at(slots, answers, i),
    ensures
        exists|k: int| is_first_failure(slots, answers, k),
    decreases i,
{
    if exists|j: int| 0 <= j < i && fails_at(slots, answers, j) {
        let j = choose|j: int| 0 <= j < i && fails_at(slots, answers, j);
        lemma_a_failure_has_a_first(slots, answers, j);
    } else {
        assert(is_first_failure(slots, answers, i));
    }
}

/// What `first_failure` names is the lowest position that fails; where it
/// names none, no position fails.
pub proof fn lemma_first_failure_is_lowest<T, E>(slots: Seq<Option<T>>, answers: Seq<Answer<T, E>>)
    ensures
        match first_failure(slots, answers) {
            Some(k) => is_first_failure(slots, answers, k),
            None => forall|i: int| !fails_at(slots, answers, i),
        },
{
    if exists|i: int| fails_at(slots, answers, i) {
        let i = choose|i: int| fails_at(slots, answers, i);
        lemma_a_failure_has_a_first(slots, answers, i);
    }
}

/// Where no operand fails there is no first failure.
pub proof fn lemma_no_failure<T, E>(slots: Seq<Option<T>>, answers: Seq<Answer<T, E>>)
    requires
        forall|i: int| 0 <= i < slots.len() ==> !fails_at(slots, answers, i),
    ensures
        first_failure(slots, answers) is None,
{
}

/// Only the answers of the operands that are polled count: two sequences of
/// answers that agree at every position that is polled under the first lead
/// to the same result and the same state.
pub proof fn lemma_unpolled_answers_do_not_count<T, E>(
    slots: Seq<Option<T>>,
    answers: Seq<Answer<T, E>>,
    others: Seq<Answer<T, E>>,
)
    requires
        forall|i: int| #[trigger] polled(slots, answers, i) ==> others[i] == answers[i],
    ensures
        forall|i: int| polled(slots, others, i) <==> polled(slots, answers, i),
        poll_result(slots, others) == poll_result(slots, answers),
        poll_state(slots, others) == poll_state(slots, answers),
{
    lemma_first_failure_is_lowest(slots, answers);
    match first_failure(slots, answers) {
        Some(k) => {
            assert(polled(slots, answers, k));
            assert forall|j: int| 0 <= j < k implies !fails_at(slots, others, j) by {
                if slots[j] is None {
                    assert(polled(slots, answers, j));
                    assert(!fails_at(slots, answers, j));
                }
            }
            lemma_first_failure_is(slots, others, k);
        },
        None => {
            assert forall|j: int| 0 <= j < slots.len() implies !fails_at(slots, others, j) by {
                if slots[j] is None {
                    assert(polled(slots, answers, j));
                    assert(!fails_at(slots, answers, j));
                }
            }
            lemma_no_failure(slots, others);
        },
    }
    assert(settled(slots, others) =~= settled(slots, answers));
}

/// A batch without operands succeeds at its first poll, with no outputs.
pub proof fn lemma_no_operands<T, E>(answers: Seq<Answer<T, E>>)
    ensures
        poll_result(Seq::<Option<T>>::empty(), answers) == Poll::<Result<Seq<T>, E>>::Ready(
            Ok(Seq::empty()),
        ),
        poll_state(Seq::<Option<T>>::empty(), answers) == Seq::<Option<T>>::empty(),
{
    let slots = Seq::<Option<T>>::empty();
    lemma_no_failure(slots, answers);
    assert(outputs(settled(slots, answers)) =~= Seq::<T>::empty());
}

/// A batch in which no operand is in flight succeeds at its next poll with
/// the outputs it holds, whatever the answers.
pub proof fn lemma_settled_batch_succeeds<T, E>(slots: Seq<Option<T>>, answers: Seq<Answer<T, E>>)
    requires
        forall|i: int| 0 <= i < slots.len() ==> (#[trigger] slots[i]) is Some,
    ensures
        poll_result(slots, answers) == Poll::<Result<Seq<T>, E>>::Ready(Ok(outputs(slots))),
{
    lemma_no_failure(slots, answers);
    assert(settled(slots, answers) =~= slots);
}

/// A batch of one operand reports what the operand answers: `Pending` for
/// `Pending`, the operand's error for a failure, and for a success the
/// operand's output, as the only element of the sequence.
pub proof fn lemma_single_operand<T, E>(answer: Answer<T, E>)
    ensures
        poll_result(fresh::<T>(1), seq![answer]) == match answer {
            Poll::Pending => Poll::<Result<Seq<T>, E>>::Pending,
            Poll::Ready(Ok(output)) => Poll::Ready(Ok(seq![output])),
            Poll::Ready(Err(error)) => Poll::Ready(Err(error)),
        },
{
    let slots = fresh::<T>(1);
    let answers = seq![answer];
    assert(slots[0] is None);
    assert(answers[0] == answer);
    match answer {
        Poll::Ready(Err(error)) => {
            assert(fails_at(slots, answers, 0));
            lemma_first_failure_is(slots, answers, 0);
        },
        Poll::Pending => {
            lemma_no_failure(slots, answers);
            assert(settled(slots, answers)[0] is None);
        },
        Poll::Ready(Ok(output)) => {
            lemma_no_failure(slots, answers);
            assert(settled(slots, answers)[0] == Some(output));
            assert(outputs(settled(slots, answers)) =~= seq![output]);
        },
    }
}

/// In one cycle the lowest in-flight position that fails decides: the
/// batch reports that operand's error, whatever the operands after it
/// answer.
pub proof fn lemma_lowest_failure_decides<T, E>(
    slots: Seq<Option<T>>,
    answers: Seq<Answer<T, E>>,
    i: int,
)
    requires
        is_first_failure(slots, answers, i),
    ensures
        poll_result(slots, answers) == Poll::<Result<Seq<T>, E>>::Ready(
            Err(answers[i]->Ready_0->Err_0),
        ),
        poll_state(slots, answers) == Seq::<Option<T>>::empty(),
{
    lemma_first_failure_is(slots, answers, i);
}

} // verus!
