//! An executor that shares the result of one function.

use crate::access::{asking, awaiting, fetching, reading, slots, taking};
use crate::internal_context::{Context, InternalContext, InternalData};
use crate::slot::{shown, Slot, SlotEvent};
use std::sync::Arc;
use vstd::prelude::*;

verus! {

/// Runs a function in some [`Context`], usually on another thread.
///
/// It is similar to a join handle, but it hands the result out as an `Arc`, so it
/// can be stored and asked again and again. With [`take_result`](Self::take_result)
/// the result itself can be had.
#[verifier::reject_recursive_types(T)]
pub struct Executor<T> {
    state: Arc<InternalData<T>>,
}

/// Gives `f` to the context `e`, with `state` for its result.
fn start<E, T, F>(e: &E, state: Arc<InternalData<T>>, f: F) where
    E: Context,
    T: Send + Sync + 'static,
    F: FnOnce() -> T + Send + 'static,

    requires
        f.requires(()),
        forall|v: T| #[trigger] f.ensures((), v) ==> state.may_yield(v),
    ensures
        e.accepted(state.signal()),
{
    e.execute(state, f);
}

/// Whether `f` was given to the context `e`, with `state` for its result.
pub closed spec fn started<E, T, F>(e: E, state: Arc<InternalData<T>>, f: F) -> bool where
    E: Context,
    T: Send + Sync + 'static,
    F: FnOnce() -> T + Send + 'static,
 {
    call_ensures(start::<E, T, F>, (&e, state, f), ())
}

impl<T> Executor<T> {
    /// The state that this executor shares with its worker.
    pub closed spec fn shared(&self) -> Arc<InternalData<T>> {
        self.state
    }

    /// Whether `v` is a result that the executed function may return.
    pub open spec fn may_yield(&self, v: T) -> bool {
        self.shared().may_yield(v)
    }
}

impl<T> Executor<T> where T: Send + Sync + 'static {
    /// Runs `f` in the context `e`.
    ///
    /// The context is given `f` and the state of this executor, which has no result
    /// yet. What the executor hands out from then on are results that `f` may
    /// return, and nothing else.
    pub fn new<E, F>(e: E, f: F) -> (executor: Self) where
        F: FnOnce() -> T + Send + 'static,
        E: Context,

        requires
            f.requires(()),
        ensures
            started(e, executor.shared(), f),
            e.accepted(executor.shared().signal()),
            executor.shared().starts_empty(),
            forall|v: T| #[trigger] executor.may_yield(v) <==> f.ensures((), v),
    {
        let state = Arc::new(InternalData::new(Ghost(|v: T| f.ensures((), v))));
        start(&e, state.clone(), f);
        Self { state }
    }

    /// Whether the function has returned.
    ///
    /// The answer is that of one moment. Once it is `true` it stays so, also after
    /// the result was taken.
    pub fn is_done(&self) -> (done: bool)
        ensures
            done ==> exists|v: T| #[trigger] self.may_yield(v),
            self.shared().read_as(SlotEvent::Done(done)),
            exists|slot: &mut Slot<T>|
                #![trigger self.shared().holds(slot)]
                self.shared().stepped(slot, SlotEvent::Done(done), *final(slot)),
        opens_invariants [slots(), asking()]
    {
        let done = self.state.is_done();
        proof {
            if done {
                let v = choose|v: T| #[trigger] self.state.may_yield(v);
                assert(self.may_yield(v));
            }
        }
        done
    }

    /// A handle to what the function returned, or `None` if there is no result now.
    pub fn result(&self) -> (result: Option<Arc<T>>)
        ensures
            result matches Some(a) ==> self.may_yield(*a),
            self.shared().read_as(SlotEvent::Read(shown(result))),
            exists|slot: &mut Slot<T>|
                #![trigger self.shared().holds(slot)]
                self.shared().stepped(slot, SlotEvent::Read(shown(result)), *final(slot)),
        opens_invariants [slots(), reading()]
    {
        self.state.result()
    }

    /// Gives up the executor for the result itself.
    ///
    /// There is none if the function has not returned. It then runs to its end,
    /// and its result is lost: ask [`is_done`](Self::is_done) first. There is none
    /// either if a handle that [`result`](Self::result) gave is still alive.
    pub fn take_result(self) -> (result: Option<T>)
        ensures
            result matches Some(v) ==> self.may_yield(v),
            exists|handle: Option<Arc<T>>| #[trigger]
                self.shared().gave_up(handle) && call_ensures(Slot::<T>::claim, (handle,), result),
            exists|slot: &mut Slot<T>, handle: Option<Arc<T>>|
                #![trigger
                    self.shared().holds(slot),
                    call_ensures(Slot::<T>::claim, (handle,), result)]
                self.shared().stepped(slot, SlotEvent::Take(shown(handle)), *final(slot))
                    && call_ensures(Slot::<T>::claim, (handle,), result),
        opens_invariants [slots(), taking()]
    {
        let handle = self.state.take();
        assert(self.shared().gave_up(handle));
        Slot::claim(handle)
    }

    /// Blocks until the function has returned, and gives a handle to its result.
    ///
    /// If the function never returns, or if its result has been taken with
    /// [`take_wait`](Self::take_wait), this blocks for ever.
    pub fn wait(&self) -> (result: Arc<T>)
        ensures
            self.may_yield(*result),
            self.shared().read_as(SlotEvent::Read(Some(*result))),
            exists|slot: &mut Slot<T>|
                #![trigger self.shared().holds(slot)]
                self.shared().stepped(slot, SlotEvent::Read(Some(*result)), *final(slot)),
        opens_invariants [slots(), awaiting()]
    {
        self.state.wait()
    }

    /// Blocks like [`wait`](Self::wait), and then takes the result itself, as
    /// [`take_result`](Self::take_result) does.
    ///
    /// There is none if another handle to it is still alive. Either way the
    /// function has returned, and the executor has no result afterwards.
    pub fn take_wait(&self) -> (result: Option<T>)
        ensures
            exists|handle: Arc<T>| #[trigger]
                self.shared().gave_up(Some(handle)) && self.may_yield(*handle) && call_ensures(
                    Slot::<T>::claim,
                    (Some(handle),),
                    result,
                ),
            result matches Some(v) ==> self.may_yield(v),
            exists|slot: &mut Slot<T>, handle: Arc<T>|
                #![trigger
                    self.shared().holds(slot),
                    call_ensures(Slot::<T>::claim, (Some(handle),), result)]
                self.shared().stepped(slot, SlotEvent::Take(Some(*handle)), *final(slot))
                    && call_ensures(Slot::<T>::claim, (Some(handle),), result),
        opens_invariants [slots(), fetching()]
    {
        let handle = self.state.wait_and_take();
        assert(self.shared().gave_up(Some(handle)));
        Slot::claim(Some(handle))
    }
}

} // verus!
