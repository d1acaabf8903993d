//! A fail-fast join over a collection of cooperatively polled operations.
//!
//! Each operand either succeeds with a value or fails with an error. The join
//! succeeds with every value, in the order in which the operands were given,
//! once all of them have succeeded; it fails with the first error it sees and
//! abandons the other operands at once.
//!
//! [`try_join_all`] builds the join, a [`TryJoinAll`], which is polled like
//! any other [`Operation`]. It runs on one of two drivers, [`FixedBatch`] or
//! [`UnboundedBatch`], picked once from a size hint; the driver does not
//! show in what the join does. The module [`cycle`] says what one poll does,
//! for every possible answer of the operands, and [`run`] what a sequence of
//! polls leads to.

pub mod cycle;
pub mod fixed;
pub mod operation;
pub mod result;
pub mod run;
pub mod slot;
pub mod task;
pub mod try_join_all;
pub mod unbounded;

pub use fixed::FixedBatch;
pub use operation::{FusedOperation, Operation, TryOperation};
pub use result::ResultFuture;
pub use slot::{Slot, SlotState};
pub use task::Poll;
pub use try_join_all::{select_mode, try_join_all, Mode, TryJoinAll, SMALL};
pub use unbounded::UnboundedBatch;
