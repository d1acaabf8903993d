//! The completion slot: one operand of a batch, from the moment it is
//! submitted until its output has been handed out.

use vstd::prelude::*;
use core::task::Context;
use crate::operation::TryOperation;
use crate::task::Poll;

verus! {

/// One operand of a batch. A slot holds the operation while it is in flight,
/// its output once it has succeeded, and nothing after the output was taken.
#[derive(Debug)]
pub enum Slot<F: TryOperation> {
    /// The operation is in flight.
    Pending(F),
    /// The operation succeeded with this output, which nobody has taken yet.
    Ready(F::Ok),
    /// The output was taken.
    Taken,
}

/// A slot without the operation in it: what the slot's contract says of
/// it.
pub enum SlotState<T> {
    Pending,
    Ready(T),
    Taken,
}

/// What a slot in `state` becomes when its operation answers a poll with
/// `answer`, and what the slot reports of that poll. Only a pending slot
/// has an operation to poll; a settled one stays as it is and reports
/// success. A failure leaves the slot as it was and is handed to the caller.
pub open spec fn settle_spec<T, E>(state: SlotState<T>, answer: Poll<Result<T, E>>) -> (
    SlotState<T>,
    Poll<Result<(), E>>,
) {
    match state {
        SlotState::Pending => match answer {
            Poll::Pending => (SlotState::Pending, Poll::Pending),
            Poll::Ready(Ok(output)) => (SlotState::Ready(output), Poll::Ready(Ok(()))),
            Poll::Ready(Err(error)) => (SlotState::Pending, Poll::Ready(Err(error))),
        },
        _ => (state, Poll::Ready(Ok(()))),
    }
}

impl<F: TryOperation> View for Slot<F> {
    type V = SlotState<F::Ok>;

    open spec fn view(&self) -> SlotState<F::Ok> {
        match self {
            Slot::Pending(_) => SlotState::Pending,
            Slot::Ready(output) => SlotState::Ready(*output),
            Slot::Taken => SlotState::Taken,
        }
    }
}

impl<F: TryOperation> Slot<F> {
    /// The slot may be advanced: it holds no operation that has already
    /// yielded its outcome.
    pub open spec fn pollable(&self) -> bool {
        self matches Slot::Pending(operation) ==> !operation.terminated()
    }

    /// A slot for an operation that has just been submitted.
    pub fn new(operation: F) -> (slot: Self)
        ensures
            slot == Slot::Pending(operation),
    {
        Slot::Pending(operation)
    }

    /// Records the answer that the slot's operation gave to a poll. A
    /// success turns a pending slot into a ready one; every other answer
    /// leaves the slot untouched.
    pub fn settle(&mut self, answer: Poll<Result<F::Ok, F::Error>>) -> (report: Poll<
        Result<(), F::Error>,
    >)
        ensures
            (final(self)@, report) == settle_spec(old(self)@, answer),
            !(*old(self) is Pending && answer matches Poll::Ready(Ok(_))) ==> *final(self) == *old(
                self,
            ),
    {
        match self {
            Slot::Pending(_) => match answer {
                Poll::Pending => Poll::Pending,
                Poll::Ready(Ok(output)) => {
                    *self = Slot::Ready(output);
                    Poll::Ready(Ok(()))
                },
                Poll::Ready(Err(error)) => Poll::Ready(Err(error)),
            },
            _ => Poll::Ready(Ok(())),
        }
    }

    /// Advances the slot within the cycle that `cx` stands for. A pending
    /// slot polls its operation once and settles on the answer; a ready or
    /// taken slot is left alone and reports that it is settled. After a
    /// failure the slot still holds its operation, which has terminated, so
    /// the slot must not be advanced again: what becomes of it is the
    /// caller's to decide.
    ///
    /// What the operation answers is not this function's to decide: the
    /// contract holds for whatever answer came back, and says that it is the
    /// slot's own operation that gave it.
    pub fn advance(&mut self, cx: &mut Context<'_>) -> (report: Poll<Result<(), F::Error>>)
        requires
            old(self).pollable(),
        ensures
            match *old(self) {
                Slot::Pending(operation) => exists|after: F, answer: Poll<Result<F::Ok, F::Error>>|
                    {
                        &&& #[trigger] operation.try_step(&after, &answer)
                        &&& (final(self)@, report) == settle_spec(old(self)@, answer)
                        &&& *final(self) is Pending ==> *final(self) == Slot::Pending(after)
                    },
                _ => *final(self) == *old(self) && report == Poll::<Result<(), F::Error>>::Ready(
                    Ok(()),
                ),
            },
            final(self).pollable() <==> !(report matches Poll::Ready(Err(_))),
    {
        match self {
            Slot::Pending(operation) => {
                let ghost before = *operation;
                let answer = operation.try_poll(cx);
                let ghost after = *operation;
                let report = self.settle(answer);
                assert(before.try_step(&after, &answer));
                report
            },
            _ => Poll::Ready(Ok(())),
        }
    }

    /// Takes the output out of a ready slot and leaves the slot empty. A
    /// slot gives its output once: after this call it is `Taken`, and the
    /// call cannot be made again.
    pub fn extract(&mut self) -> (output: F::Ok)
        requires
            *old(self) is Ready,
        ensures
            *old(self) == Slot::<F>::Ready(output),
            *final(self) is Taken,
    {
        let mut taken = Slot::Taken;
        core::mem::swap(self, &mut taken);
        match taken {
            Slot::Ready(output) => output,
            _ => vstd::pervasive::unreached(),
        }
    }

    /// Takes the output if the slot is ready, and leaves every other slot
    /// as it is.
    pub fn take_output(&mut self) -> (output: Option<F::Ok>)
        ensures
            match *old(self) {
                Slot::Ready(value) => output == Some(value) && *final(self) is Taken,
                _ => output is None && *final(self) == *old(self),
            },
    {
        match self {
            Slot::Ready(_) => Some(self.extract()),
            _ => None,
        }
    }
}

} // verus!
