//! The place where a finished function leaves its result.

use crate::access::{slots, Held};
use crate::sync::{into_inner, same};
use std::sync::Arc;
use vstd::prelude::*;

verus! {

/// Says which results a slot may hold. The mark itself has no content: what counts
/// is which handle leads to it.
#[verifier::reject_recursive_types(T)]
pub struct Mark<T> {
    values: Ghost<spec_fn(T) -> bool>,
}

impl<T> Mark<T> {
    /// Whether `v` may be stored under this mark.
    pub closed spec fn admits(&self, v: T) -> bool {
        (self.values@)(v)
    }

    /// A mark that admits `values`.
    pub(crate) fn new(Ghost(values): Ghost<spec_fn(T) -> bool>) -> (mark: Self)
        ensures
            forall|v: T| #[trigger] mark.admits(v) <==> values(v),
    {
        Mark { values: Ghost(values) }
    }
}

/// Holds a result once there is one, and until someone takes it. Remembers for
/// good that there was one.
#[verifier::reject_recursive_types(T)]
pub struct Slot<T> {
    value: Option<Arc<T>>,
    done: bool,
    mark: Arc<Mark<T>>,
}

/// What a [`Slot`] holds.
pub struct SlotView<T> {
    /// The result, if it is there.
    pub value: Option<T>,
    /// Whether a result was ever stored.
    pub done: bool,
}

impl<T> SlotView<T> {
    /// No result, and none before.
    pub open spec fn empty() -> Self {
        SlotView { value: None, done: false }
    }
}

/// The value that an optional handle shows.
pub open spec fn shown<T>(handle: Option<Arc<T>>) -> Option<T> {
    match handle {
        Some(a) => Some(*a),
        None => None,
    }
}

/// One operation on a [`Slot`], with its answer.
pub enum SlotEvent<T> {
    /// [`Slot::fill`] was called with this result.
    Fill(T),
    /// [`Slot::is_done`] returned this.
    Done(bool),
    /// [`Slot::result`] returned a handle that shows this.
    Read(Option<T>),
    /// [`Slot::take`] returned a handle that shows this.
    Take(Option<T>),
}

/// Whether `event`, answer included, leads from `before`, the view of a slot, to
/// `after`.
pub open spec fn slot_step<T>(
    before: SlotView<T>,
    event: SlotEvent<T>,
    after: SlotView<T>,
) -> bool {
    match event {
        SlotEvent::Fill(v) => after == (SlotView { value: Some(v), done: true }),
        SlotEvent::Done(done) => done == before.done && after == before,
        SlotEvent::Read(answer) => answer == before.value && after == before,
        SlotEvent::Take(answer) => answer == before.value && after == (SlotView {
            value: None,
            ..before
        }),
    }
}

impl<T> Held for Slot<T> {
    open spec fn kind() -> int {
        slots()
    }
}

impl<T> View for Slot<T> {
    type V = SlotView<T>;

    closed spec fn view(&self) -> SlotView<T> {
        SlotView { value: shown(self.value), done: self.done }
    }
}

impl<T> Slot<T> {
    /// The mark that says which results this slot may hold.
    pub closed spec fn mark(&self) -> Mark<T> {
        *self.mark
    }

    #[verifier::type_invariant]
    closed spec fn inv(self) -> bool {
        &&& self.value matches Some(a) ==> self.mark.admits(*a)
        &&& self.done ==> exists|v: T| self.mark.admits(v)
    }

    /// An empty slot under `mark`.
    pub fn new(mark: Arc<Mark<T>>) -> (slot: Self)
        ensures
            slot@ == SlotView::<T>::empty(),
            slot.mark() == *mark,
        opens_invariants none
    {
        Slot { value: None, done: false, mark }
    }

    /// Whether `Arc::ptr_eq` gave `under` for the mark of this slot and `mark`.
    pub closed spec fn compared(&self, mark: Arc<Mark<T>>, under: bool) -> bool {
        call_ensures(same::<Mark<T>>, (&self.mark, &mark), under)
    }

    /// Whether this slot is seen to be under `mark`.
    pub(crate) fn is_under(&self, mark: &Arc<Mark<T>>) -> (under: bool)
        ensures
            self.compared(*mark, under),
            under ==> self.mark() == *mark,
        opens_invariants none
    {
        same(&self.mark, mark)
    }

    /// Stores `result`, and gives the handle that was there.
    pub fn fill(&mut self, result: T) -> (previous: Option<Arc<T>>)
        requires
            old(self).mark().admits(result),
        ensures
            slot_step(old(self)@, SlotEvent::Fill(result), final(self)@),
            shown(previous) == old(self)@.value,
            final(self).mark() == old(self).mark(),
    {
        let mut filled = Slot {
            value: Some(Arc::new(result)),
            done: true,
            mark: self.mark.clone(),
        };
        std::mem::swap(self, &mut filled);
        filled.value
    }

    /// Whether a result was ever stored, taken since or not.
    pub fn is_done(&self) -> (done: bool)
        ensures
            slot_step(self@, SlotEvent::Done(done), self@),
            done ==> exists|v: T| #[trigger] self.mark().admits(v),
        opens_invariants none
    {
        proof {
            use_type_invariant(self);
            if self.done {
                let v = choose|v: T| self.mark.admits(v);
                assert(self.mark().admits(v));
            }
        }
        self.done
    }

    /// A handle to the result, which stays in the slot.
    pub fn result(&self) -> (handle: Option<Arc<T>>)
        ensures
            slot_step(self@, SlotEvent::Read(shown(handle)), self@),
            handle matches Some(a) ==> self.mark().admits(*a),
        opens_invariants none
    {
        proof {
            use_type_invariant(self);
        }
        match &self.value {
            Some(a) => Some(a.clone()),
            None => None,
        }
    }

    /// Moves the handle out and leaves the slot without a result.
    pub fn take(&mut self) -> (handle: Option<Arc<T>>)
        ensures
            slot_step(old(self)@, SlotEvent::Take(shown(handle)), final(self)@),
            handle matches Some(a) ==> old(self).mark().admits(*a),
            final(self).mark() == old(self).mark(),
        opens_invariants none
    {
        proof {
            use_type_invariant(&*self);
        }
        let mut handle: Option<Arc<T>> = None;
        std::mem::swap(&mut self.value, &mut handle);
        handle
    }

    /// Whether `value` is what `Arc::into_inner` answered for `handle`.
    pub closed spec fn let_go(handle: Arc<T>, value: Option<T>) -> bool {
        call_ensures(into_inner::<T>, (handle,), value)
    }

    /// The value itself, out of a handle that was taken from a slot.
    ///
    /// There is none if nothing was taken, and none if another handle to the
    /// value is still alive.
    pub fn claim(handle: Option<Arc<T>>) -> (value: Option<T>)
        ensures
            handle is None ==> value is None,
            handle matches Some(a) ==> Self::let_go(a, value),
            value is Some ==> value == shown(handle),
        opens_invariants none
    {
        match handle {
            Some(a) => into_inner(a),
            None => None,
        }
    }
}

} // verus!
