//! What the crate takes from `std::sync` on trust.
//!
//! What a [`Mutex`] holds depends on what other threads do, so nothing is said
//! here of the contents of a lock.

use crate::access::Held;
use std::sync::{Arc, Condvar, Mutex, MutexGuard};
use vstd::prelude::*;

verus! {

/// `std::sync::Mutex`, as an opaque type.
#[verifier::external_type_specification]
#[verifier::external_body]
#[verifier::reject_recursive_types(T)]
pub struct ExMutex<T: ?Sized>(Mutex<T>);

/// `std::sync::MutexGuard`, as an opaque type.
#[verifier::external_type_specification]
#[verifier::external_body]
#[verifier::reject_recursive_types(T)]
pub struct ExMutexGuard<'a, T: ?Sized + 'a>(MutexGuard<'a, T>);

/// `std::sync::Condvar`, as an opaque type.
#[verifier::external_type_specification]
#[verifier::external_body]
pub struct ExCondvar(Condvar);

/// `Mutex::new` makes an unlocked mutex. Nothing is claimed of it.
pub assume_specification<T>[ Mutex::<T>::new ](t: T) -> (mutex: Mutex<T>);

/// `Condvar::new` makes a condition variable. Nothing is claimed of it.
pub assume_specification[ Condvar::new ]() -> (condvar: Condvar);

/// `Condvar::notify_all` wakes every thread that is blocked on the condition
/// variable. Nothing is claimed of what those threads do.
pub assume_specification[ Condvar::notify_all ](condvar: &Condvar);

/// `Mutex::lock` blocks until the mutex is free and locks it.
///
/// A mutex that a panicking thread left poisoned is locked all the same. Nothing is
/// claimed of the guard. `std` leaves open what happens if the calling thread holds
/// the mutex already: the call then blocks for ever or panics. The only access that
/// the call makes is that to the mutex.
#[verifier::external_body]
pub(crate) fn lock<V: Held>(mutex: &Mutex<V>) -> (guard: MutexGuard<'_, V>)
    opens_invariants [V::kind()]
{
    match mutex.lock() {
        Ok(guard) => guard,
        Err(poisoned) => poisoned.into_inner(),
    }
}

/// `MutexGuard::deref_mut` gives access to what the mutex holds. Nothing is
/// claimed of it: it is what the last thread left there.
#[verifier::external_body]
pub(crate) fn contents<'g, V>(guard: &'g mut MutexGuard<'_, V>) -> (value: &'g mut V)
    opens_invariants none
    no_unwind
{
    &mut *guard
}

/// Whether `value` is what a lock of `mutex` uncovered at some moment: what
/// [`contents`] gave for a guard that [`lock`] gave.
pub(crate) open spec fn uncovered<V: Held>(mutex: Mutex<V>, value: V) -> bool {
    exists|guard: &mut MutexGuard<'_, V>, v: &mut V|
        #![trigger call_ensures(contents::<V>, (guard,), v)]
        call_ensures(lock::<V>, (&mutex,), *guard) && call_ensures(contents::<V>, (guard,), v)
            && *v == value
}

/// Whether `value` is the access to its contents that a lock of `mutex` gave. Its
/// present value is what the holder of the lock found there, and its final value is
/// what the holder left there for the next one.
pub(crate) open spec fn held<V: Held>(mutex: Mutex<V>, value: &mut V) -> bool {
    exists|guard: &mut MutexGuard<'_, V>|
        #![trigger call_ensures(contents::<V>, (guard,), value)]
        call_ensures(lock::<V>, (&mutex,), *guard) && call_ensures(contents::<V>, (guard,), value)
}

/// `Arc::into_inner` gives the value itself if this was the last handle to it,
/// and nothing otherwise. A value that it gives is the one that the handle
/// showed. Which of the two comes back depends on the handles that other threads
/// hold at that moment, and is left open.
#[verifier::external_body]
pub(crate) fn into_inner<T>(handle: Arc<T>) -> (value: Option<T>)
    ensures
        value matches Some(v) ==> v == *handle,
    opens_invariants none
{
    Arc::into_inner(handle)
}

/// `Arc::ptr_eq` tells whether two handles lead to the same allocation. If they do,
/// they show the same value. Of handles to two allocations nothing is claimed.
#[verifier::external_body]
pub(crate) fn same<T>(a: &Arc<T>, b: &Arc<T>) -> (same: bool)
    ensures
        same ==> *a == *b,
    opens_invariants none
{
    Arc::ptr_eq(a, b)
}

} // verus!
