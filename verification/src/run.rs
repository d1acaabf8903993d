//! Whole runs of a batch: what a sequence of poll cycles leads to.
//!
//! A run is described by its rounds: `rounds[c][i]` is what the operand at
//! position `i` answers when it is polled in cycle `c`. An operand is polled
//! in every cycle from the first until it succeeds or the batch ends, so
//! the answers of an operand are looked at in order, without gaps.

use vstd::prelude::*;
use crate::cycle::{
    cycle_post, fails_at, fresh, lemma_first_failure_is, lemma_no_failure, outcome, outputs,
    poll_post, poll_result, polled, reported, settled, Answer, FinalState,
};
use crate::operation::TryOperation;
use crate::task::Poll;
use crate::try_join_all::{Mode, TryJoinAll};

verus! {

/// What a batch in state `slots` has reported once it has been polled in
/// each of the rounds, up to its final outcome: `Pending` if the rounds end
/// before the batch does.
pub open spec fn drive<T, E>(slots: Seq<Option<T>>, rounds: Seq<Seq<Answer<T, E>>>) -> Poll<
    Result<Seq<T>, E>,
>
    decreases rounds.len(),
{
    if rounds.len() == 0 {
        Poll::Pending
    } else {
        match outcome(slots, rounds[0]) {
            FinalState::Pending => drive(settled(slots, rounds[0]), rounds.drop_first()),
            _ => poll_result(slots, rounds[0]),
        }
    }
}

/// The operand at position `i` answers `Pending` in every round before
/// round `c`.
pub open spec fn in_flight_until<T, E>(rounds: Seq<Seq<Answer<T, E>>>, i: int, c: int) -> bool {
    forall|b: int| 0 <= b < c ==> (#[trigger] rounds[b])[i] is Pending
}

/// The failure of the operand at position `i` shows in round `c`: the
/// operand is in flight until then, and then answers with an error.
pub open spec fn fails_in<T, E>(rounds: Seq<Seq<Answer<T, E>>>, i: int, c: int) -> bool {
    &&& in_flight_until(rounds, i, c)
    &&& rounds[c][i] matches Poll::Ready(Err(_))
}

/// The operand at position `i` succeeds with `value` in round `c`: it is in
/// flight until then, and then answers with `value`.
pub open spec fn succeeds_in<T, E>(rounds: Seq<Seq<Answer<T, E>>>, i: int, c: int, value: T) -> bool {
    &&& in_flight_until(rounds, i, c)
    &&& rounds[c][i] == Poll::<Result<T, E>>::Ready(Ok(value))
}

/// One poll is one step of a run: a poll that reports `Pending` leaves the
/// batch where the rest of the run goes on from, and a poll that reports a
/// final outcome ends the run with it.
pub proof fn lemma_poll_is_a_step<T, E>(
    before: Seq<Option<T>>,
    answers: Seq<Answer<T, E>>,
    after: Seq<Option<T>>,
    result: Poll<Result<Vec<T>, E>>,
    rest: Seq<Seq<Answer<T, E>>>,
)
    requires
        cycle_post(before, answers, after, result),
    ensures
        result is Pending ==> drive(before, seq![answers] + rest) == drive(after, rest),
        result is Ready ==> drive(before, seq![answers] + rest) == reported(result),
{
    let rounds = seq![answers] + rest;
    assert(rounds[0] == answers);
    assert(rounds.drop_first() =~= rest);
}

/// [`lemma_all_succeed`], for a batch that is already under way.
proof fn lemma_success_from<T, E>(
    slots: Seq<Option<T>>,
    rounds: Seq<Seq<Answer<T, E>>>,
    values: Seq<T>,
    ready_at: Seq<int>,
)
    requires
        rounds.len() > 0,
        values.len() == slots.len(),
        ready_at.len() == slots.len(),
        forall|i: int|
            0 <= i < slots.len() ==> match #[trigger] slots[i] {
                Some(output) => output == values[i],
                None => 0 <= ready_at[i] < rounds.len() && succeeds_in(
                    rounds,
                    i,
                    ready_at[i],
                    values[i],
                ),
            },
    ensures
        drive(slots, rounds) == Poll::<Result<Seq<T>, E>>::Ready(Ok(values)),
    decreases rounds.len(),
{
    let answers = rounds[0];
    assert forall|i: int| 0 <= i < slots.len() implies !fails_at(slots, answers, i) by {
        if slots[i] is None {
            if ready_at[i] > 0 {
                assert(rounds[0][i] is Pending);
            }
        }
    }
    lemma_no_failure(slots, answers);
    let next = settled(slots, answers);
    assert forall|i: int| 0 <= i < slots.len() implies match #[trigger] next[i] {
        Some(output) => output == values[i],
        None => slots[i] is None && ready_at[i] > 0,
    } by {
        if slots[i] is None {
            assert(polled(slots, answers, i));
            if ready_at[i] > 0 {
                assert(rounds[0][i] is Pending);
            }
        }
    }
    if outcome(slots, answers) is Pending {
        let i = choose|i: int| 0 <= i < slots.len() && (#[trigger] next[i]) is None;
        let rest = rounds.drop_first();
        let later = Seq::new(slots.len(), |i: int| ready_at[i] - 1);
        assert(ready_at[i] > 0);
        assert forall|j: int| 0 <= j < next.len() implies match #[trigger] next[j] {
            Some(output) => output == values[j],
            None => 0 <= later[j] < rest.len() && succeeds_in(rest, j, later[j], values[j]),
        } by {
            if next[j] is None {
                assert(rest[later[j]] == rounds[ready_at[j]]);
                assert forall|b: int| 0 <= b < later[j] implies (#[trigger] rest[b])[j]
                    is Pending by {
                    assert(rest[b] == rounds[b + 1]);
                }
            }
        }
        lemma_success_from(next, rest, values, later);
    } else {
        assert(outputs(next) =~= values);
    }
}

/// Where every operand succeeds the batch succeeds, and the outputs stand
/// in submission order, whatever the order in which the operands finished:
/// `ready_at[i]` is the round in which the operand at position `i`
/// succeeds, and may be any round.
pub proof fn lemma_all_succeed<T, E>(
    rounds: Seq<Seq<Answer<T, E>>>,
    values: Seq<T>,
    ready_at: Seq<nat>,
)
    requires
        rounds.len() > 0,
        ready_at.len() == values.len(),
        forall|i: int|
            0 <= i < values.len() ==> (#[trigger] ready_at[i]) < rounds.len() && succeeds_in(
                rounds,
                i,
                ready_at[i] as int,
                values[i],
            ),
    ensures
        drive(fresh::<T>(values.len()), rounds) == Poll::<Result<Seq<T>, E>>::Ready(Ok(values)),
{
    let slots = fresh::<T>(values.len());
    let at = Seq::new(values.len(), |i: int| ready_at[i] as int);
    assert forall|i: int| 0 <= i < slots.len() implies match #[trigger] slots[i] {
        Some(output) => output == values[i],
        None => 0 <= at[i] < rounds.len() && succeeds_in(rounds, i, at[i], values[i]),
    } by {
        assert(ready_at[i] < rounds.len());
    }
    lemma_success_from(slots, rounds, values, at);
}

/// [`lemma_first_failure_wins`], for a batch that is already under way.
proof fn lemma_failure_from<T, E>(
    slots: Seq<Option<T>>,
    rounds: Seq<Seq<Answer<T, E>>>,
    c: int,
    i: int,
)
    requires
        0 <= c < rounds.len(),
        0 <= i < slots.len(),
        slots[i] is None,
        fails_in(rounds, i, c),
        forall|b: int, j: int|
            0 <= b <= c && 0 <= j < slots.len() && (b < c || j < i) && slots[j] is None
                ==> !#[trigger] fails_in(rounds, j, b),
    ensures
        drive(slots, rounds) == Poll::<Result<Seq<T>, E>>::Ready(Err(rounds[c][i]->Ready_0->Err_0)),
    decreases c,
{
    let answers = rounds[0];
    if c == 0 {
        assert forall|j: int| 0 <= j < i implies !fails_at(slots, answers, j) by {
            if slots[j] is None {
                assert(!fails_in(rounds, j, 0));
            }
        }
        lemma_first_failure_is(slots, answers, i);
    } else {
        assert forall|j: int| 0 <= j < slots.len() implies !fails_at(slots, answers, j) by {
            if slots[j] is None {
                assert(!fails_in(rounds, j, 0));
            }
        }
        lemma_no_failure(slots, answers);
        let next = settled(slots, answers);
        let rest = rounds.drop_first();
        assert(rounds[0][i] is Pending);
        assert(polled(slots, answers, i));
        assert(next[i] is None);
        assert(rest[c - 1] == rounds[c]);
        assert forall|b: int| 0 <= b < c - 1 implies (#[trigger] rest[b])[i] is Pending by {
            assert(rest[b] == rounds[b + 1]);
        }
        assert forall|b: int, j: int|
            0 <= b <= c - 1 && 0 <= j < next.len() && (b < c - 1 || j < i) && next[j]
                is None implies !#[trigger] fails_in(rest, j, b) by {
            assert(slots[j] is None);
            assert(polled(slots, answers, j));
            assert(!fails_at(slots, answers, j));
            assert(rounds[0][j] is Pending);
            assert(!fails_in(rounds, j, b + 1));
            assert(rest[b] == rounds[b + 1]);
            if in_flight_until(rest, j, b) {
                assert forall|a: int| 0 <= a < b + 1 implies (#[trigger] rounds[a])[j]
                    is Pending by {
                    if a > 0 {
                        assert(rest[a - 1] == rounds[a]);
                    }
                }
            }
        }
        lemma_failure_from(next, rest, c - 1, i);
    }
}

/// Where an operand fails the batch fails, and with the error of the
/// lowest position whose failure shows in the earliest round in which any
/// failure shows: round `c` is that round and `i` that position.
pub proof fn lemma_first_failure_wins<T, E>(n: nat, rounds: Seq<Seq<Answer<T, E>>>, c: int, i: int)
    requires
        0 <= c < rounds.len(),
        0 <= i < n,
        fails_in(rounds, i, c),
        forall|b: int, j: int| 0 <= b < c && 0 <= j < n ==> !#[trigger] fails_in(rounds, j, b),
        forall|j: int| 0 <= j < i ==> !#[trigger] fails_in(rounds, j, c),
    ensures
        drive(fresh::<T>(n), rounds) == Poll::<Result<Seq<T>, E>>::Ready(
            Err(rounds[c][i]->Ready_0->Err_0),
        ),
{
    lemma_failure_from(fresh::<T>(n), rounds, c, i);
}

/// The driver does not show in what a join does. Two joins that hold the
/// same operands in the same states, one on each driver, and whose
/// operands take the same steps with the same answers, report the same
/// result and are left holding the same.
pub proof fn lemma_drivers_agree<F: TryOperation>(
    small: TryJoinAll<F>,
    big: TryJoinAll<F>,
    answers: Seq<Answer<F::Ok, F::Error>>,
    afters: Seq<F>,
    small_after: TryJoinAll<F>,
    big_after: TryJoinAll<F>,
    small_result: Poll<Result<Vec<F::Ok>, F::Error>>,
    big_result: Poll<Result<Vec<F::Ok>, F::Error>>,
)
    requires
        small.mode() == Mode::Small,
        big.mode() == Mode::Big,
        small@ == big@,
        small.operations() == big.operations(),
        poll_post(
            small.operations(),
            small@,
            answers,
            afters,
            small_after.operations(),
            small_after@,
            small_result,
        ),
        poll_post(
            big.operations(),
            big@,
            answers,
            afters,
            big_after.operations(),
            big_after@,
            big_result,
        ),
    ensures
        reported(small_result) == reported(big_result),
        small_after@ == big_after@,
        small_after.operations() == big_after.operations(),
{
}

} // verus!
