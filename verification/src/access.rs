//! The kinds of access that an operation makes to what threads share.
//!
//! A function that names kinds of access in `opens_invariants` makes no access of
//! another kind: it can call no function that names another one, and none that names
//! nothing and may make any. So an operation with a kind of its own makes that access
//! and nothing beside it. It looks at no other shared state, and takes or hands out
//! no other handle to a result. Code of a caller, such as a work function or the
//! `clone` of a status, may make any access, and so may functions that run it.

use vstd::prelude::*;

verus! {

/// What a mutex of this crate holds.
pub(crate) trait Held {
    /// The kind of access that locking the mutex makes.
    spec fn kind() -> int;
}

/// Locking the slot of a result.
pub open spec fn slots() -> int {
    0
}

/// Locking the queue of a channel.
pub open spec fn queues() -> int {
    1
}

/// Locking the memory of the status looked at last.
pub open spec fn memories() -> int {
    2
}

/// Asking whether there was a result.
pub open spec fn asking() -> int {
    3
}

/// Handing out a handle to the result of this moment.
pub open spec fn reading() -> int {
    4
}

/// Waiting for the result, and handing out a handle to it.
pub open spec fn awaiting() -> int {
    5
}

/// Taking the result of this moment out of its slot.
pub open spec fn taking() -> int {
    6
}

/// Waiting for the result, and taking it out of its slot.
pub open spec fn fetching() -> int {
    7
}

/// Waiting for the result, and handing out a handle to it or, with `remove`, taking
/// it out of its slot.
pub open spec fn waiting(remove: bool) -> int {
    if remove {
        fetching()
    } else {
        awaiting()
    }
}

} // verus!
