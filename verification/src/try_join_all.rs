//! The aggregator: picks a driver for the operands once, when it is built,
//! and from then on hands every poll to that driver.

use vstd::prelude::*;
use core::task::Context;
use crate::cycle::{fresh, outputs, poll_post, reported, Answer};
use crate::fixed::FixedBatch;
use crate::operation::{FusedOperation, Operation, TryOperation};
use crate::task::Poll;
use crate::unbounded::UnboundedBatch;

verus! {

/// The largest operand count for which the fixed-capacity driver is chosen
/// when no other threshold is given. A tuning constant: the outcome of a
/// join does not depend on it.
pub const SMALL: usize = 30;

/// Which driver an aggregator runs on.
#[derive(Clone, Copy, Debug, PartialEq, Eq, Structural)]
pub enum Mode {
    /// The fixed-capacity driver.
    Small,
    /// The unbounded driver.
    Big,
}

/// The driver for a collection whose operand count is at most `upper`, or
/// unbounded where `upper` is `None`: the fixed-capacity driver if the
/// bound is known and no larger than `threshold`, the unbounded one else.
pub open spec fn mode_for(upper: Option<usize>, threshold: usize) -> Mode {
    match upper {
        Some(max) => if max <= threshold {
            Mode::Small
        } else {
            Mode::Big
        },
        None => Mode::Big,
    }
}

/// Picks the driver for a size hint, as [`mode_for`] says.
pub fn select_mode(upper: Option<usize>, threshold: usize) -> (mode: Mode)
    ensures
        mode == mode_for(upper, threshold),
{
    match upper {
        None => Mode::Big,
        Some(max) => {
            if max <= threshold {
                Mode::Small
            } else {
                Mode::Big
            }
        },
    }
}

enum TryJoinAllKind<F: TryOperation> {
    Small { elems: FixedBatch<F> },
    Big { fut: UnboundedBatch<F> },
}

/// The join of a collection of operations: an operation itself, which
/// succeeds with the outputs of all operands in submission order, or fails
/// with the first error that it sees.
pub struct TryJoinAll<F: TryOperation> {
    kind: TryJoinAllKind<F>,
}

impl<F: TryOperation> TryJoinAll<F> {
    /// One entry per operand, in submission order: its output if it has
    /// succeeded, `None` while it is in flight. Empty once the join has
    /// reported its final outcome. The driver does not show in it.
    pub closed spec fn view(&self) -> Seq<Option<F::Ok>> {
        match self.kind {
            TryJoinAllKind::Small { elems } => elems@,
            TryJoinAllKind::Big { fut } => fut@,
        }
    }

    /// The operations in flight, each at its position, and `None` at the
    /// positions of the operands that have succeeded.
    pub closed spec fn operations(&self) -> Seq<Option<F>> {
        match self.kind {
            TryJoinAllKind::Small { elems } => elems.operations(),
            TryJoinAllKind::Big { fut } => fut.operations(),
        }
    }

    /// The driver that was picked when the join was built.
    pub closed spec fn mode(&self) -> Mode {
        match self.kind {
            TryJoinAllKind::Small { .. } => Mode::Small,
            TryJoinAllKind::Big { .. } => Mode::Big,
        }
    }

    /// Builds the join of `operations` on the driver that `threshold`
    /// assigns to the size hint `upper`. The hint picks the driver and
    /// nothing else: every operation is submitted, in order, whatever the
    /// hint says.
    pub fn with_threshold(operations: Vec<F>, upper: Option<usize>, threshold: usize) -> (join:
        Self)
        requires
            forall|i: int| 0 <= i < operations@.len() ==> !(#[trigger] operations@[i]).terminated(),
        ensures
            join@ == fresh::<F::Ok>(operations@.len()),
            join.operations() == operations@.map_values(|operation: F| Some(operation)),
            join.mode() == mode_for(upper, threshold),
            !join.terminated(),
    {
        match select_mode(upper, threshold) {
            Mode::Small => TryJoinAll {
                kind: TryJoinAllKind::Small { elems: FixedBatch::new(operations) },
            },
            Mode::Big => TryJoinAll {
                kind: TryJoinAllKind::Big { fut: UnboundedBatch::collect(operations) },
            },
        }
    }

    /// Builds the join of `operations` for the size hint `upper`, with
    /// [`SMALL`] as the threshold.
    pub fn with_size_hint(operations: Vec<F>, upper: Option<usize>) -> (join: Self)
        requires
            forall|i: int| 0 <= i < operations@.len() ==> !(#[trigger] operations@[i]).terminated(),
        ensures
            join@ == fresh::<F::Ok>(operations@.len()),
            join.operations() == operations@.map_values(|operation: F| Some(operation)),
            join.mode() == mode_for(upper, SMALL),
            !join.terminated(),
    {
        Self::with_threshold(operations, upper, SMALL)
    }

    /// The driver that the join runs on.
    pub fn driver(&self) -> (mode: Mode)
        ensures
            mode == self.mode(),
    {
        match &self.kind {
            TryJoinAllKind::Small { .. } => Mode::Small,
            TryJoinAllKind::Big { .. } => Mode::Big,
        }
    }

    /// The number of operands that the join holds: all of them until it
    /// reports its final outcome, none after.
    pub fn len(&self) -> (n: usize)
        ensures
            n == self@.len(),
    {
        match &self.kind {
            TryJoinAllKind::Small { elems } => elems.len(),
            TryJoinAllKind::Big { fut } => fut.len(),
        }
    }
}

impl<F: TryOperation> Operation for TryJoinAll<F> {
    type Output = Result<Vec<F::Ok>, F::Error>;

    closed spec fn terminated(&self) -> bool {
        match self.kind {
            TryJoinAllKind::Small { elems } => elems.terminated(),
            TryJoinAllKind::Big { fut } => fut.terminated(),
        }
    }

    /// A step of the join is one poll cycle: its operands take a step each,
    /// as far as the cycle polls them, and the join does with their answers
    /// what [`poll_post`] says.
    open spec fn step(&self, after: &Self, answer: &Poll<Result<Vec<F::Ok>, F::Error>>) -> bool {
        exists|answers: Seq<Answer<F::Ok, F::Error>>, afters: Seq<F>| #[trigger]
            poll_post(
                self.operations(),
                self@,
                answers,
                afters,
                after.operations(),
                after@,
                *answer,
            )
    }

    /// Runs one poll cycle on the driver and reports what the driver
    /// reports. The in-flight operands are polled in submission order until
    /// one fails or all have been polled. A failure is the final outcome at
    /// once; so is success, with the outputs in submission order, as soon
    /// as no operand is left in flight. After the final outcome the join
    /// holds nothing and must not be polled again.
    ///
    /// What the operands answer is theirs to decide; the contract, which is
    /// `step`, says what the poll does with their answers, whatever they
    /// are, and it says the same for both drivers.
    fn poll(&mut self, cx: &mut Context<'_>) -> (result: Poll<Result<Vec<F::Ok>, F::Error>>)
        ensures
            (forall|i: int| 0 <= i < old(self)@.len() ==> (#[trigger] old(self)@[i]) is Some)
                ==> reported(result) == Poll::<Result<Seq<F::Ok>, F::Error>>::Ready(
                Ok(outputs(old(self)@)),
            ),
            final(self).mode() == old(self).mode(),
    {
        let ghost before = self@;
        let ghost operations = self.operations();
        let result = match &mut self.kind {
            TryJoinAllKind::Small { elems } => elems.poll(cx),
            TryJoinAllKind::Big { fut } => fut.poll(cx),
        };
        proof {
            let (answers, afters) = choose|answers: Seq<Answer<F::Ok, F::Error>>, afters: Seq<F>|
             #[trigger]
                poll_post(operations, before, answers, afters, self.operations(), self@, result);
            assert(poll_post(
                old(self).operations(),
                old(self)@,
                answers,
                afters,
                self.operations(),
                self@,
                result,
            ));
        }
        result
    }
}

impl<F: TryOperation> FusedOperation for TryJoinAll<F> {
    open spec fn reports_terminated(&self) -> bool {
        self.terminated()
    }

    /// Whether the join has reported its final outcome.
    fn is_terminated(&self) -> (b: bool) {
        match &self.kind {
            TryJoinAllKind::Small { elems } => elems.is_terminated(),
            TryJoinAllKind::Big { fut } => fut.is_terminated(),
        }
    }
}

/// Joins the operations: the result is an operation that drives them all
/// and yields either the outputs of all of them, in the order in which they
/// stand in `operations`, or the first error that one of them fails with.
/// In the second case the other operations are abandoned at once.
///
/// The driver is picked for the number of operations given.
pub fn try_join_all<F: TryOperation>(operations: Vec<F>) -> (join: TryJoinAll<F>)
    requires
        forall|i: int| 0 <= i < operations@.len() ==> !(#[trigger] operations@[i]).terminated(),
    ensures
        join@ == fresh::<F::Ok>(operations@.len()),
        join.operations() == operations@.map_values(|operation: F| Some(operation)),
        join.mode() == mode_for(Some(operations@.len() as usize), SMALL),
        !join.terminated(),
{
    let upper = Some(operations.len());
    TryJoinAll::with_size_hint(operations, upper)
}

} // verus!
