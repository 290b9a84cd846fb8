//! Contexts that run their work on rayon's thread pools.

use crate::internal_context::{Context, InternalContext, InternalData};
use rayon::ThreadPool;
use std::sync::Arc;
use vstd::prelude::*;

verus! {

/// `rayon::ThreadPool`, as an opaque type.
#[verifier::external_type_specification]
#[verifier::external_body]
pub struct ExThreadPool(ThreadPool);

/// `rayon::spawn` queues a call of `state.run(f)`, to be made once, on the pool of
/// the current worker thread, or on the global pool.
///
/// Nothing is claimed of when that call is made. If it panics, rayon hands the panic
/// to the handler of the pool. Making the global pool can fail where the system
/// grants no threads; `rayon::spawn` then panics.
#[verifier::external_body]
fn spawn_global<T, F>(state: Arc<InternalData<T>>, f: F) where
    T: Send + Sync + 'static,
    F: FnOnce() -> T + Send + 'static,

    requires
        f.requires(()),
        forall|v: T| #[trigger] f.ensures((), v) ==> state.may_yield(v),
{
    rayon::spawn(move || state.run(f))
}

/// `rayon::ThreadPool::spawn` queues a call of `state.run(f)`, to be made once, on
/// `pool`.
///
/// Nothing is claimed of when that call is made. If it panics, rayon hands the panic
/// to the handler of the pool.
#[verifier::external_body]
fn spawn_in<T, F>(pool: &ThreadPool, state: Arc<InternalData<T>>, f: F) where
    T: Send + Sync + 'static,
    F: FnOnce() -> T + Send + 'static,

    requires
        f.requires(()),
        forall|v: T| #[trigger] f.ensures((), v) ==> state.may_yield(v),
{
    pool.spawn(move || state.run(f))
}

/// Whether `f` was handed to `rayon::spawn`, with `state` for its result.
pub closed spec fn queued_globally<T, F>(state: Arc<InternalData<T>>, f: F) -> bool where
    T: Send + Sync + 'static,
    F: FnOnce() -> T + Send + 'static,
 {
    call_ensures(spawn_global::<T, F>, (state, f), ())
}

/// Whether `f` was handed to `pool`, with `state` for its result.
pub closed spec fn queued_in<T, F>(pool: ThreadPool, state: Arc<InternalData<T>>, f: F) -> bool where
    T: Send + Sync + 'static,
    F: FnOnce() -> T + Send + 'static,
 {
    call_ensures(spawn_in::<T, F>, (&pool, state, f), ())
}

/// Runs work on rayon's global pool. It has no state: use
/// `RayonGlobalContext::default()`.
#[derive(Debug)]
pub struct RayonGlobalContext {
    _tag: (),
}

impl RayonGlobalContext {
    /// The only context of this type.
    pub closed spec fn global() -> Self {
        RayonGlobalContext { _tag: () }
    }
}

impl Default for RayonGlobalContext {
    fn default() -> (context: Self)
        ensures
            context == Self::global(),
    {
        RayonGlobalContext { _tag: () }
    }
}

impl Clone for RayonGlobalContext {
    fn clone(&self) -> (context: Self)
        ensures
            context == *self,
    {
        RayonGlobalContext { _tag: () }
    }
}

impl InternalContext for RayonGlobalContext {
    fn execute<T, F>(&self, state: Arc<InternalData<T>>, f: F) where
        T: Send + Sync + 'static,
        F: FnOnce() -> T + Send + 'static,

        ensures
            queued_globally(state, f),
    {
        spawn_global(state, f);
    }
}

impl Context for RayonGlobalContext {

}

/// Runs work on a rayon thread pool. It only borrows the pool, so a new one can
/// be made for every executor.
#[derive(Debug)]
pub struct RayonContext<'a> {
    pool: &'a ThreadPool,
}

impl<'a> RayonContext<'a> {
    /// The pool that the work runs on.
    pub closed spec fn pool(&self) -> ThreadPool {
        *self.pool
    }

    /// A context that runs work on `pool`.
    pub fn new(pool: &'a ThreadPool) -> (context: Self)
        ensures
            context.pool() == *pool,
    {
        Self { pool }
    }
}

impl InternalContext for RayonContext<'_> {
    fn execute<T, F>(&self, state: Arc<InternalData<T>>, f: F) where
        T: Send + Sync + 'static,
        F: FnOnce() -> T + Send + 'static,

        ensures
            queued_in(self.pool(), state, f),
    {
        spawn_in(self.pool, state, f);
    }
}

impl Context for RayonContext<'_> {

}

} // verus!
