//! Pollable operations: the units that the combinators of this crate drive.

use vstd::prelude::*;
use core::task::Context;
use crate::task::Poll;

verus! {

/// An operation that makes progress only when polled and, after some number
/// of polls, yields one value.
///
/// The protocol is that of every cooperative future: an operation is polled
/// until it reports `Ready`, and never again after that. `terminated` is the
/// ghost side of that protocol.
///
/// What an operation answers, and when, is its own business. An
/// implementation says so in `step`, the relation between the operation
/// before a poll, the operation after it and the answer; an operation whose
/// answers nothing can be said of lets `step` hold of everything. A
/// combinator states its own behaviour in terms of the steps of its
/// operands.
pub trait Operation {
    /// The value the operation yields when it finishes.
    type Output;

    /// The operation has yielded its value: polling it again is a fault.
    /// An implementation that ever answers `Ready` has to say when it has.
    open spec fn terminated(&self) -> bool {
        false
    }

    /// A poll may take the operation from `self` to `after` and be answered
    /// with `answer`. Unless an implementation says more, every step is
    /// possible.
    open spec fn step(&self, after: &Self, answer: &Poll<Self::Output>) -> bool {
        true
    }

    /// Polls the operation once within the cycle that `cx` stands for.
    fn poll(&mut self, cx: &mut Context<'_>) -> (r: Poll<Self::Output>)
        requires
            !old(self).terminated(),
        ensures
            final(self).terminated() <==> r is Ready,
            old(self).step(final(self), &r),
    ;
}

/// An operation that finishes with success or with failure. Every
/// [`Operation`] whose output is a `Result` is one.
pub trait TryOperation: Operation {
    /// What the operation yields when it succeeds.
    type Ok;

    /// What the operation yields when it fails.
    type Error;

    /// [`Operation::step`], with the output seen as a `Result`.
    spec fn try_step(&self, after: &Self, answer: &Poll<Result<Self::Ok, Self::Error>>) -> bool;

    /// Polls the operation once, as [`Operation::poll`] does.
    fn try_poll(&mut self, cx: &mut Context<'_>) -> (r: Poll<Result<Self::Ok, Self::Error>>)
        requires
            !old(self).terminated(),
        ensures
            final(self).terminated() <==> r is Ready,
            old(self).try_step(final(self), &r),
    ;
}

impl<F, T, E> TryOperation for F where F: Operation<Output = Result<T, E>> {
    type Ok = T;

    type Error = E;

    open spec fn try_step(&self, after: &Self, answer: &Poll<Result<T, E>>) -> bool {
        self.step(after, answer)
    }

    fn try_poll(&mut self, cx: &mut Context<'_>) -> (r: Poll<Result<T, E>>) {
        self.poll(cx)
    }
}

/// An operation that can tell at run time that it should not be polled.
pub trait FusedOperation: Operation {
    /// What `is_terminated` reports of this operation: unless an
    /// implementation says otherwise, whether the operation has terminated.
    open spec fn reports_terminated(&self) -> bool {
        self.terminated()
    }

    /// `true` if the operation should no longer be polled. An operation that
    /// has yielded its value always reports `true`; one that has not may do
    /// so too, when polling it could serve no purpose.
    fn is_terminated(&self) -> (b: bool)
        ensures
            b == self.reports_terminated(),
            self.terminated() ==> b,
    ;
}

} // verus!
