//! The vocabulary of cooperative polling: what a poll reports, and the
//! scheduler's handle that every poll receives.

use vstd::prelude::*;

verus! {

/// Declares `core::task::Context`, the scheduler's handle for one poll
/// cycle, as a type whose inside is unknown. Nothing is claimed of it: the
/// library receives the handle from its caller and passes it on to every
/// operation it polls in that cycle.
#[verifier::external_type_specification]
#[verifier::external_body]
pub struct ExContext<'a>(core::task::Context<'a>);

/// What one poll reports: the finished value, or that the operation has to be
/// polled again in a later cycle.
#[derive(Debug, PartialEq, Eq)]
pub enum Poll<T> {
    Ready(T),
    Pending,
}

impl<T> Poll<T> {
    /// Whether this is a `Ready`.
    pub fn is_ready(&self) -> (b: bool)
        ensures
            b == (self is Ready),
    {
        match self {
            Poll::Ready(_) => true,
            Poll::Pending => false,
        }
    }

    /// Whether this is `Pending`.
    pub fn is_pending(&self) -> (b: bool)
        ensures
            b == (self is Pending),
    {
        match self {
            Poll::Ready(_) => false,
            Poll::Pending => true,
        }
    }
}

} // verus!
