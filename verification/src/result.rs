//! An operation made from a choice that was settled beforehand: either an
//! operation to run, or an error to report.

use vstd::prelude::*;
use core::task::Context;
use crate::operation::{FusedOperation, Operation};
use crate::task::Poll;

verus! {

/// An operation that stands for either success or failure. Built from
/// `Ok(operation)` it runs the operation and succeeds with what that
/// yields; built from `Err(error)` it fails with the error at its first
/// poll.
#[derive(Debug)]
pub struct ResultFuture<F, E> {
    inner: Result<F, Option<E>>,
}

impl<F, E> View for ResultFuture<F, E> {
    type V = Result<F, Option<E>>;

    /// The choice as it stands: the operation to run, or the error that is
    /// still to be reported, `None` once it has been.
    closed spec fn view(&self) -> Result<F, Option<E>> {
        self.inner
    }
}

impl<F, E> ResultFuture<F, E> {
    /// The choice that a future built from `result` holds at first.
    pub open spec fn choice_of(result: Result<F, E>) -> Result<F, Option<E>> {
        match result {
            Ok(operation) => Ok(operation),
            Err(error) => Err(Some(error)),
        }
    }

    /// The operation that stands for `result`.
    pub fn new(result: Result<F, E>) -> (future: Self)
        ensures
            future@ == Self::choice_of(result),
    {
        match result {
            Ok(operation) => ResultFuture { inner: Ok(operation) },
            Err(error) => ResultFuture { inner: Err(Some(error)) },
        }
    }

    /// The operation inside, if the future was built from one.
    pub fn operation(&self) -> (operation: Option<&F>)
        ensures
            operation == match self@ {
                Ok(inside) => Some(&inside),
                Err(_) => None,
            },
    {
        match &self.inner {
            Ok(inside) => Some(inside),
            Err(_) => None,
        }
    }

    /// Whether the future was built from an error and has reported it: such
    /// a future has nothing left to yield.
    pub fn has_reported(&self) -> (b: bool)
        ensures
            b == (self@ matches Err(None)),
    {
        match &self.inner {
            Err(None) => true,
            _ => false,
        }
    }
}

impl<F: Operation, E> Operation for ResultFuture<F, E> {
    type Output = Result<F::Output, E>;

    open spec fn terminated(&self) -> bool {
        match self@ {
            Ok(operation) => operation.terminated(),
            Err(error) => error is None,
        }
    }

    /// With an operation inside, a step is a step of that operation, its
    /// output wrapped in `Ok`. With an error inside, the one step there is
    /// reports the error and leaves nothing to report.
    open spec fn step(&self, after: &Self, answer: &Poll<Result<F::Output, E>>) -> bool {
        match self@ {
            Ok(operation) => after@ matches Ok(operation_after) && match *answer {
                Poll::Pending => operation.step(&operation_after, &Poll::Pending),
                Poll::Ready(Ok(output)) => operation.step(&operation_after, &Poll::Ready(output)),
                Poll::Ready(Err(_)) => false,
            },
            Err(Some(error)) => after@ == Err::<F, Option<E>>(None) && *answer == Poll::Ready(
                Err::<F::Output, E>(error),
            ),
            Err(None) => false,
        }
    }

    /// Polls the operation if there is one, and wraps what it yields in
    /// `Ok`; else reports the error, which it can do once. The poll is a
    /// step as `step` describes it.
    fn poll(&mut self, cx: &mut Context<'_>) -> (r: Poll<Result<F::Output, E>>) {
        match &mut self.inner {
            Ok(operation) => match operation.poll(cx) {
                Poll::Ready(output) => Poll::Ready(Ok(output)),
                Poll::Pending => Poll::Pending,
            },
            Err(error) => {
                let reported = error.take();
                Poll::Ready(Err(reported.unwrap()))
            },
        }
    }
}

impl<F: FusedOperation, E> FusedOperation for ResultFuture<F, E> {
    open spec fn reports_terminated(&self) -> bool {
        match self@ {
            Ok(operation) => operation.reports_terminated(),
            Err(_) => true,
        }
    }

    /// An operation reports for itself; an error, reported or not, counts
    /// as terminated.
    fn is_terminated(&self) -> (b: bool) {
        match &self.inner {
            Ok(operation) => operation.is_terminated(),
            Err(_) => true,
        }
    }
}

impl<F: Clone, E: Clone> Clone for ResultFuture<F, E> {
    fn clone(&self) -> (copy: Self) {
        match &self.inner {
            Ok(operation) => ResultFuture { inner: Ok(operation.clone()) },
            Err(error) => ResultFuture { inner: Err(error.clone()) },
        }
    }
}

impl<F, E> From<Result<F, E>> for ResultFuture<F, E> {
    /// The operation that stands for `result`.
    fn from(result: Result<F, E>) -> (future: Self)
        ensures
            future@ == Self::choice_of(result),
    {
        ResultFuture::new(result)
    }
}

impl<F, E> vstd::std_specs::convert::FromSpecImpl<Result<F, E>> for ResultFuture<F, E> {
    open spec fn obeys_from_spec() -> bool {
        true
    }

    closed spec fn from_spec(result: Result<F, E>) -> Self {
        ResultFuture { inner: Self::choice_of(result) }
    }
}

} // verus!
