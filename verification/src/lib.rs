//! Runs long computations in the background and hands out their results and
//! the statuses that they post on the way.
//!
//! * [`Executor`] runs a function in some [`Context`] and shares its result.
//! * [`StatusExecutor`] does so too, and gives the function a [`StatusSender`]
//!   through which it can report how far it has come.
//! * [`RayonGlobalContext`] and [`RayonContext`] are the contexts of this crate.
//!
//! What is shared between threads is kept in small structures with exact
//! contracts: [`slot::Slot`] for a result, [`channel::Queue`] for the pending
//! statuses, [`status::LastStatus`] for the status seen last. The types above guard
//! these structures with locks, so that their contracts speak of one moment of the
//! shared state: what was found under the lock, and what was left there. [`access`]
//! names the kinds of access to that state, so that an operation on a result can
//! say that it makes one and no other. [`laws`] states what holds of one call, of
//! two in turn, and of whole histories.

pub mod access;
pub mod channel;
pub mod executor;
pub mod inbox;
pub mod internal_context;
pub mod laws;
mod outcome;
pub mod rayon_context;
mod shared;
pub mod slot;
pub mod status;
mod sync;

pub use executor::Executor;
pub use internal_context::Context;
pub use rayon_context::{RayonContext, RayonGlobalContext};
pub use status::{StatusExecutor, StatusSender};
