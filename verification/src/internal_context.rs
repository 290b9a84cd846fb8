//! The state that an executor shares with its worker, and the contexts in which
//! a worker can run.

use crate::access::{asking, awaiting, fetching, reading, slots, taking, waiting};
use crate::slot::{shown, slot_step, Mark, Slot, SlotEvent, SlotView};
use crate::sync::{contents, held, lock, uncovered};
use std::sync::{Arc, Condvar, Mutex, MutexGuard};
use vstd::pervasive::unreached;
use vstd::prelude::*;

verus! {

/// The result of one work function, shared between its worker and the executor.
///
/// The slot stands under a mutex; threads that wait for the result block on `done`.
/// No code of the result itself runs under the mutex. A mutex does not say what it
/// holds, so the slot is asked for its mark each time: one under the mark of this
/// state holds only results that the work function may return.
#[verifier::reject_recursive_types(T)]
pub struct InternalData<T> {
    res: Mutex<Slot<T>>,
    done: Condvar,
    mark: Arc<Mark<T>>,
}

impl<T> InternalData<T> {
    /// Whether `v` is a result that the work function may return.
    pub closed spec fn may_yield(&self, v: T) -> bool {
        self.mark.admits(v)
    }

    /// Whether `found` is a handle to a result of the work function.
    pub open spec fn is_result(&self, found: Option<Arc<T>>) -> bool {
        shown(found) matches Some(v) && self.may_yield(v)
    }

    /// Whether the shared slot was empty when this state was made.
    pub closed spec fn starts_empty(&self) -> bool {
        exists|slot: Slot<T>| #[trigger]
            call_ensures(Mutex::<Slot<T>>::new, (slot,), self.res) && slot@ == SlotView::<T>::empty()
    }

    /// Whether `own` is what [`owned`](Self::owned) made of `raw`.
    closed spec fn owns(mark: Arc<Mark<T>>, raw: Slot<T>, own: Slot<T>) -> bool {
        exists|r: &mut Slot<T>, o: &mut Slot<T>|
            #![trigger call_ensures(InternalData::<T>::owned, (&mark, r), o)]
            call_ensures(InternalData::<T>::owned, (&mark, r), o) && *r == raw && *o == own
    }

    /// Whether `event` was answered from `raw`, the slot as the mutex held it.
    closed spec fn reads(mark: Arc<Mark<T>>, raw: Slot<T>, event: SlotEvent<T>) -> bool {
        exists|own: Slot<T>| #[trigger] Self::owns(mark, raw, own) && slot_step(own@, event, own@)
    }

    /// Whether `handle` was taken out of `raw`, the slot as the mutex held it.
    closed spec fn takes(mark: Arc<Mark<T>>, raw: Slot<T>, handle: Option<Arc<T>>) -> bool {
        exists|own: &mut Slot<T>| #[trigger]
            call_ensures(Slot::<T>::take, (own,), handle) && Self::owns(mark, raw, *own)
    }

    /// Whether `event` was answered from the shared slot of this state, as it stood
    /// at some moment.
    pub closed spec fn read_as(&self, event: SlotEvent<T>) -> bool {
        exists|raw: Slot<T>| #[trigger] uncovered(self.res, raw) && Self::reads(
            self.mark,
            raw,
            event,
        )
    }

    /// Whether `handle` was taken out of the shared slot of this state with
    /// [`Slot::take`].
    pub closed spec fn gave_up(&self, handle: Option<Arc<T>>) -> bool {
        exists|raw: Slot<T>| #[trigger] uncovered(self.res, raw) && Self::takes(
            self.mark,
            raw,
            handle,
        )
    }

    /// Whether `result` was stored in the shared slot of this state with
    /// [`Slot::fill`].
    pub closed spec fn stored(&self, result: T) -> bool {
        exists|raw: Slot<T>, own: &mut Slot<T>, previous: Option<Arc<T>>|
            #![trigger uncovered(self.res, raw), call_ensures(Slot::<T>::fill, (own, result), previous)]
            uncovered(self.res, raw) && Self::owns(self.mark, raw, *own) && call_ensures(
                Slot::<T>::fill,
                (own, result),
                previous,
            )
    }

    /// Whether `slot` is the access to the shared slot of this state that locking it
    /// gave: its present value was found there, and its final value was left there.
    pub closed spec fn holds(&self, slot: &mut Slot<T>) -> bool {
        held(self.res, slot)
    }

    /// Whether `slot` was seen not to be under the mark of this state.
    pub closed spec fn foreign(&self, slot: Slot<T>) -> bool {
        slot.compared(self.mark, false)
    }

    /// Whether `event`, answer included, is all that happened between `found` and
    /// `left`, the slot as the mutex held it. A foreign slot counts as an empty one.
    pub open spec fn steps(&self, found: Slot<T>, event: SlotEvent<T>, left: Slot<T>) -> bool {
        ||| slot_step(found@, event, left@)
        ||| self.foreign(found) && slot_step(SlotView::empty(), event, left@)
    }

    /// Whether `slot` is access to the shared slot of this state, and `event`, answer
    /// included, is all that happened to the slot until it was left as `left`.
    pub open spec fn stepped(
        &self,
        slot: &mut Slot<T>,
        event: SlotEvent<T>,
        left: Slot<T>,
    ) -> bool {
        self.holds(slot) && self.steps(*slot, event, left)
    }

    /// The condition variable on which the end of the work is signalled.
    pub closed spec fn signal(&self) -> Condvar {
        self.done
    }

    /// Whether the threads that wait for the result of this state were notified.
    pub closed spec fn notified(&self) -> bool {
        call_ensures(Condvar::notify_all, (&self.done,), ())
    }

    /// Shared state without a result, for a function that may return `values`.
    pub(crate) fn new(Ghost(values): Ghost<spec_fn(T) -> bool>) -> (data: Self)
        ensures
            forall|v: T| #[trigger] data.may_yield(v) <==> values(v),
            data.starts_empty(),
    {
        let mark = Arc::new(Mark::new(Ghost(values)));
        let slot = Slot::new(mark.clone());
        let res = Mutex::new(slot);
        let data = InternalData { res, done: Condvar::new(), mark };
        assert(call_ensures(Mutex::<Slot<T>>::new, (slot,), data.res));
        data
    }

    /// The slot that the mutex of a state holds, as that of the state with `mark`. One
    /// that is not seen to be under that mark counts for nothing: an empty one takes
    /// its place.
    fn owned<'s>(mark: &Arc<Mark<T>>, slot: &'s mut Slot<T>) -> (own: &'s mut Slot<T>)
        ensures
            (*own).mark() == **mark,
            *own == *old(slot) || old(slot).compared(*mark, false),
            *own == *old(slot) || (*own)@ == SlotView::<T>::empty(),
            *final(slot) == *final(own),
        opens_invariants none
    {
        if !slot.is_under(mark) {
            *slot = Slot::new(mark.clone());
        }
        slot
    }

    /// Calls `f`, stores what it returns and wakes the threads that wait for it.
    ///
    /// A context arranges for this to be called once.
    pub fn run<F>(&self, f: F) where F: FnOnce() -> T
        requires
            f.requires(()),
            forall|v: T| #[trigger] f.ensures((), v) ==> self.may_yield(v),
        ensures
            exists|v: T| #[trigger] f.ensures((), v) && self.stored(v) && self.notified(),
            exists|v: T, slot: &mut Slot<T>|
                #![trigger f.ensures((), v), self.holds(slot)]
                f.ensures((), v) && self.stepped(slot, SlotEvent::Fill(v), *final(slot)),
    {
        let result = f();
        self.complete(result);
    }

    /// Stores `result` and wakes the threads that wait for it.
    fn complete(&self, result: T)
        requires
            self.may_yield(result),
        ensures
            self.stored(result),
            self.notified(),
            exists|slot: &mut Slot<T>|
                #![trigger self.holds(slot)]
                self.stepped(slot, SlotEvent::Fill(result), *final(slot)),
    {
        // What was there before is dropped when the mutex is free again.
        let _previous = {
            let mut guard = lock(&self.res);
            let raw = contents(&mut guard);
            assert(uncovered(self.res, *raw));
            assert(self.holds(raw));
            Self::owned(&self.mark, raw).fill(result)
        };
        self.done.notify_all();
    }

    /// Locks the shared slot, for one operation.
    pub(crate) fn open(&self) -> (open: Open<'_, T>)
        ensures
            open.of(*self),
        opens_invariants [slots()]
    {
        Open { guard: lock(&self.res), mark: &self.mark }
    }

    /// A handle to the result in `raw`, the slot as the mutex holds it.
    fn read_from(mark: &Arc<Mark<T>>, raw: &mut Slot<T>) -> (found: Option<Arc<T>>)
        ensures
            found matches Some(a) ==> mark.admits(*a),
            Self::reads(*mark, *old(raw), SlotEvent::Read(shown(found))),
            steps_under(*mark, *old(raw), SlotEvent::Read(shown(found)), *final(raw)),
        opens_invariants none
    {
        let own = Self::owned(mark, raw);
        assert(Self::owns(*mark, *old(raw), *own));
        own.result()
    }

    /// Takes the handle to the result out of `raw`, the slot as the mutex holds it.
    fn take_from(mark: &Arc<Mark<T>>, raw: &mut Slot<T>) -> (found: Option<Arc<T>>)
        ensures
            found matches Some(a) ==> mark.admits(*a),
            Self::takes(*mark, *old(raw), found),
            steps_under(*mark, *old(raw), SlotEvent::Take(shown(found)), *final(raw)),
        opens_invariants none
    {
        Self::owned(mark, raw).take()
    }

    /// Looks for a result in `raw`, the slot as the mutex holds it, leaves what it
    /// found in `found`, and says whether there is still none. With `remove` the
    /// result also leaves the slot.
    fn is_pending(&self, raw: &mut Slot<T>, remove: bool, found: &mut Option<Arc<T>>) -> (pending:
        bool)
        ensures
            pending == (*final(found) is None),
            !pending ==> self.is_result(*final(found)),
            remove ==> Self::takes(self.mark, *old(raw), *final(found)),
            !remove ==> Self::reads(
                self.mark,
                *old(raw),
                SlotEvent::Read(shown(*final(found))),
            ),
            remove ==> self.steps(
                *old(raw),
                SlotEvent::Take(shown(*final(found))),
                *final(raw),
            ),
            !remove ==> self.steps(
                *old(raw),
                SlotEvent::Read(shown(*final(found))),
                *final(raw),
            ),
        opens_invariants none
    {
        *found = if remove {
            Self::take_from(&self.mark, raw)
        } else {
            Self::read_from(&self.mark, raw)
        };
        match found {
            Some(_) => false,
            None => true,
        }
    }

    /// Blocks until there is a result, and gives a handle to it.
    pub(crate) fn wait(&self) -> (found: Arc<T>)
        ensures
            self.may_yield(*found),
            self.read_as(SlotEvent::Read(Some(*found))),
            exists|slot: &mut Slot<T>|
                #![trigger self.holds(slot)]
                self.stepped(slot, SlotEvent::Read(Some(*found)), *final(slot)),
        opens_invariants [slots(), awaiting()]
    {
        let guard = lock(&self.res);
        match wait_while_pending(self, guard, false) {
            Some(found) => found,
            None => unreached(),
        }
    }

    /// Blocks until there is a result, and takes the handle to it out of the slot.
    pub(crate) fn wait_and_take(&self) -> (found: Arc<T>)
        ensures
            self.may_yield(*found),
            self.gave_up(Some(found)),
            exists|slot: &mut Slot<T>|
                #![trigger self.holds(slot)]
                self.stepped(slot, SlotEvent::Take(Some(*found)), *final(slot)),
        opens_invariants [slots(), fetching()]
    {
        let guard = lock(&self.res);
        match wait_while_pending(self, guard, true) {
            Some(found) => found,
            None => unreached(),
        }
    }
}

/// Whether `event`, answer included, is all that happened between `found` and `left`,
/// the slot as the mutex of a state with `mark` held it. A slot that was seen not to
/// be under that mark counts as an empty one.
pub(crate) open spec fn steps_under<T>(
    mark: Arc<Mark<T>>,
    found: Slot<T>,
    event: SlotEvent<T>,
    left: Slot<T>,
) -> bool {
    ||| slot_step(found@, event, left@)
    ||| found.compared(mark, false) && slot_step(SlotView::empty(), event, left@)
}

/// The shared slot of a state, locked for one operation: each operation consumes it.
#[verifier::reject_recursive_types(T)]
pub(crate) struct Open<'a, T> {
    guard: MutexGuard<'a, Slot<T>>,
    mark: &'a Arc<Mark<T>>,
}

impl<'a, T> Open<'a, T> {
    /// Whether this is the shared slot of `data`.
    pub(crate) closed spec fn of(&self, data: InternalData<T>) -> bool {
        call_ensures(lock::<Slot<T>>, (&data.res,), self.guard) && *self.mark == data.mark
    }

    /// Whether `slot` is the access to its contents that the opened slot gave.
    pub(crate) closed spec fn access(&self, slot: &mut Slot<T>) -> bool {
        exists|guard: &mut MutexGuard<'_, Slot<T>>|
            #![trigger call_ensures(contents::<Slot<T>>, (guard,), slot)]
            *guard == self.guard && call_ensures(contents::<Slot<T>>, (guard,), slot)
    }

    /// Whether `v` may be stored in the opened slot.
    pub(crate) closed spec fn admits(&self, v: T) -> bool {
        self.mark.admits(v)
    }

    /// Whether `event` was answered from the opened slot.
    pub(crate) closed spec fn read_as(&self, event: SlotEvent<T>) -> bool {
        exists|slot: &mut Slot<T>| #[trigger]
            self.access(slot) && InternalData::reads(*self.mark, *slot, event)
    }

    /// Whether `handle` was taken out of the opened slot with [`Slot::take`].
    pub(crate) closed spec fn gave_up(&self, handle: Option<Arc<T>>) -> bool {
        exists|slot: &mut Slot<T>| #[trigger]
            self.access(slot) && InternalData::takes(*self.mark, *slot, handle)
    }

    /// Whether `event`, answer included, is all that happened to the opened slot
    /// between `found` and `left`.
    pub(crate) closed spec fn steps(
        &self,
        found: Slot<T>,
        event: SlotEvent<T>,
        left: Slot<T>,
    ) -> bool {
        steps_under(*self.mark, found, event, left)
    }

    /// What happened to the opened slot of `data` happened to the shared slot of `data`.
    pub(crate) proof fn lemma_of(&self, data: InternalData<T>)
        requires
            self.of(data),
        ensures
            forall|v: T| #[trigger] self.admits(v) ==> data.may_yield(v),
            forall|slot: &mut Slot<T>| #[trigger] self.access(slot) ==> data.holds(slot),
            forall|found: Slot<T>, event: SlotEvent<T>, left: Slot<T>| #[trigger]
                self.steps(found, event, left) ==> data.steps(found, event, left),
            forall|event: SlotEvent<T>| #[trigger] self.read_as(event) ==> data.read_as(event),
            forall|handle: Option<Arc<T>>| #[trigger] self.gave_up(handle) ==> data.gave_up(handle),
    {
        assert forall|slot: &mut Slot<T>| #[trigger] self.access(slot) implies data.holds(slot)
            && uncovered(data.res, *slot) by {}
    }

    /// Whether there was a result up to now.
    pub(crate) fn is_done(self) -> (done: bool)
        ensures
            done ==> exists|v: T| #[trigger] self.admits(v),
            self.read_as(SlotEvent::Done(done)),
            exists|slot: &mut Slot<T>| #[trigger]
                self.access(slot) && self.steps(*slot, SlotEvent::Done(done), *final(slot)),
        opens_invariants [asking()]
    {
        let mark = self.mark;
        let mut guard = self.guard;
        let raw = contents(&mut guard);
        assert(self.access(raw));
        let ghost before = *raw;
        let own = InternalData::owned(mark, raw);
        assert(InternalData::owns(*mark, before, *own));
        let done = own.is_done();
        proof {
            if done {
                let v = choose|v: T| #[trigger] (**mark).admits(v);
                assert(self.admits(v));
            }
        }
        done
    }

    /// A handle to the result, if there is one now.
    pub(crate) fn result(self) -> (found: Option<Arc<T>>)
        ensures
            found matches Some(a) ==> self.admits(*a),
            self.read_as(SlotEvent::Read(shown(found))),
            exists|slot: &mut Slot<T>| #[trigger]
                self.access(slot) && self.steps(*slot, SlotEvent::Read(shown(found)), *final(slot)),
        opens_invariants [reading()]
    {
        let mark = self.mark;
        let mut guard = self.guard;
        let raw = contents(&mut guard);
        assert(self.access(raw));
        InternalData::read_from(mark, raw)
    }

    /// Takes the handle to the result out of the slot, if there is one now.
    pub(crate) fn take(self) -> (found: Option<Arc<T>>)
        ensures
            found matches Some(a) ==> self.admits(*a),
            self.gave_up(found),
            exists|slot: &mut Slot<T>| #[trigger]
                self.access(slot) && self.steps(*slot, SlotEvent::Take(shown(found)), *final(slot)),
        opens_invariants [taking()]
    {
        let mark = self.mark;
        let mut guard = self.guard;
        let raw = contents(&mut guard);
        assert(self.access(raw));
        InternalData::take_from(mark, raw)
    }
}

/// `Condvar::wait_while` blocks until the condition that it is given is false of what
/// the mutex holds, and calls the condition again each time it is woken.
///
/// The condition is [`InternalData::is_pending`], so what is claimed is what that
/// function ensures of a call that returned `false`, on the slot that the mutex of
/// `data` then held, and with what the call left there. `guard` has to come from that
/// mutex, as a condition variable belongs to one. The call would panic if the mutex
/// were poisoned, but threads that hold it only move handles in and out of the slot,
/// which does not panic. Whether and when the call returns depends on the worker.
/// The only access that the call makes is that to the slot.
#[verifier::external_body]
fn wait_while_pending<T>(data: &InternalData<T>, guard: MutexGuard<'_, Slot<T>>, remove: bool) -> (
found: Option<Arc<T>>)
    requires
        call_ensures(lock::<Slot<T>>, (&data.res,), guard),
    ensures
        data.is_result(found),
        remove ==> data.gave_up(found),
        !remove ==> data.read_as(SlotEvent::Read(shown(found))),
        remove ==> (exists|slot: &mut Slot<T>|
            #![trigger data.holds(slot)]
            data.stepped(slot, SlotEvent::Take(shown(found)), *final(slot))),
        !remove ==> (exists|slot: &mut Slot<T>|
            #![trigger data.holds(slot)]
            data.stepped(slot, SlotEvent::Read(shown(found)), *final(slot))),
    opens_invariants [slots(), waiting(remove)]
{
    let mut found: Option<Arc<T>> = None;
    let pending = |raw: &mut Slot<T>| data.is_pending(raw, remove, &mut found);
    let _guard = data.done.wait_while(guard, pending).unwrap();
    found
}

/// Where a work function runs.
pub trait InternalContext {
    /// Whether this context has taken on the work whose end is signalled on `done`.
    ///
    /// What that means is up to the context. One that says nothing here refuses
    /// nothing; it can say in the contract of its `execute` where the work went.
    open spec fn accepted(&self, done: Condvar) -> bool {
        true
    }

    /// Arranges for `state.run(f)` to be called once, outside the current call.
    fn execute<T, F>(&self, state: Arc<InternalData<T>>, f: F) where
        T: Send + Sync + 'static,
        F: FnOnce() -> T + Send + 'static,

        requires
            f.requires(()),
            forall|v: T| #[trigger] f.ensures((), v) ==> state.may_yield(v),
        ensures
            self.accepted(state.signal()),
    ;
}

/// A context that an executor can be given.
pub trait Context: InternalContext {

}

} // verus!
