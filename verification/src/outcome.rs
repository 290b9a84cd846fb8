//! How an executor asks for the result of its work function.
//!
//! Each question opens the shared slot and asks it one thing.

use crate::access::{asking, reading, slots, taking};
use crate::internal_context::InternalData;
use crate::slot::{shown, Slot, SlotEvent};
use std::sync::Arc;
use vstd::prelude::*;

verus! {

impl<T> InternalData<T> {
    /// Whether there was a result up to now.
    pub(crate) fn is_done(&self) -> (done: bool)
        ensures
            done ==> exists|v: T| #[trigger] self.may_yield(v),
            self.read_as(SlotEvent::Done(done)),
            exists|slot: &mut Slot<T>|
                #![trigger self.holds(slot)]
                self.stepped(slot, SlotEvent::Done(done), *final(slot)),
        opens_invariants [slots(), asking()]
    {
        let open = self.open();
        proof {
            open.lemma_of(*self);
        }
        open.is_done()
    }

    /// A handle to the result, if there is one now.
    pub(crate) fn result(&self) -> (found: Option<Arc<T>>)
        ensures
            found is Some ==> self.is_result(found),
            self.read_as(SlotEvent::Read(shown(found))),
            exists|slot: &mut Slot<T>|
                #![trigger self.holds(slot)]
                self.stepped(slot, SlotEvent::Read(shown(found)), *final(slot)),
        opens_invariants [slots(), reading()]
    {
        let open = self.open();
        proof {
            open.lemma_of(*self);
        }
        open.result()
    }

    /// Takes the handle to the result out of the slot, if there is one now.
    pub(crate) fn take(&self) -> (found: Option<Arc<T>>)
        ensures
            found is Some ==> self.is_result(found),
            self.gave_up(found),
            exists|slot: &mut Slot<T>|
                #![trigger self.holds(slot)]
                self.stepped(slot, SlotEvent::Take(shown(found)), *final(slot)),
        opens_invariants [slots(), taking()]
    {
        let open = self.open();
        proof {
            open.lemma_of(*self);
        }
        open.take()
    }
}

} // verus!
