//! Where the statuses of an executor arrive and are looked at.
//!
//! Whoever looks at statuses holds the lock of the inbox, so that the memory of the
//! last status goes by the order in which statuses leave the queue. A [`Look`] is that
//! lock, for one look: it is consumed by the answer, and nothing else leads to the
//! memory or to the reading end of the queue.

use crate::access::{memories, Held};
use crate::channel::{
    channel, starts_empty, taken, Drained, Queue, Received, Receiver, Sender,
};
use crate::shared::Tally;
use crate::status::{Event, LastStatus, StatusView};
use crate::sync::{contents, lock};
use std::sync::{Mutex, MutexGuard};
use vstd::prelude::*;

verus! {

/// What is known of the statuses of an executor: the one that was looked at last, and
/// how many left the queue.
pub struct Seen<S> {
    memory: LastStatus<S>,
    tally: Tally,
}

impl<S> Held for Seen<S> {
    open spec fn kind() -> int {
        memories()
    }
}

impl<S> Seen<S> {
    /// A clone of the status that was looked at last.
    pub closed spec fn last(&self) -> Option<S> {
        self.memory@
    }

    /// How many statuses left the queue.
    pub closed spec fn count(&self) -> nat {
        self.tally@
    }
}

/// Whether `event`, answer included, is all that happened to the statuses of an
/// executor: to the queue from `queue` to `left`, and to what is known of the statuses
/// from `seen` to `after`. Only what left the queue in this event was counted.
pub open spec fn looks<S: Clone>(
    queue: Queue<S>,
    seen: Seen<S>,
    event: Event<S>,
    left: Queue<S>,
    after: Seen<S>,
) -> bool {
    &&& (StatusView { queue: queue@, last: seen.last() }).steps_to(
        event,
        (StatusView { queue: left@, last: after.last() }),
    )
    &&& after.count() == seen.count() + taken(queue@, left@)
}

/// The reading end of a channel, with what was seen of its statuses.
#[verifier::reject_recursive_types(S)]
pub(crate) struct Inbox<S> {
    rx: Receiver<S>,
    seen: Mutex<Seen<S>>,
}

/// A locked [`Inbox`], for one look at its statuses.
#[verifier::reject_recursive_types(S)]
pub(crate) struct Look<'a, S> {
    rx: &'a Receiver<S>,
    guard: MutexGuard<'a, Seen<S>>,
}

impl<S> Inbox<S> {
    /// The queue that the statuses come from.
    pub(crate) closed spec fn queue(&self) -> Mutex<Queue<S>> {
        self.rx.queue()
    }

    /// Whether no status was pending and none remembered when this inbox was made.
    pub(crate) closed spec fn starts_without_status(&self) -> bool {
        starts_empty(self.rx.queue()) && exists|seen: Seen<S>| #[trigger]
            call_ensures(Mutex::<Seen<S>>::new, (seen,), self.seen) && seen.last() == None::<S>
                && seen.count() == 0
    }

    /// An empty inbox, and the sender to it.
    pub(crate) fn new() -> (ends: (Sender<S>, Self))
        ensures
            ends.0.queue() == ends.1.queue(),
            ends.1.starts_without_status(),
    {
        let (tx, rx, tally) = channel();
        let seen = Seen { memory: LastStatus::new(), tally };
        let inbox = Inbox { rx, seen: Mutex::new(seen) };
        assert(call_ensures(Mutex::<Seen<S>>::new, (seen,), inbox.seen));
        (tx, inbox)
    }

    /// Locks the inbox, for one look.
    pub(crate) fn look(&self) -> (look: Look<'_, S>)
        ensures
            look.of(*self),
        opens_invariants [memories()]
    {
        Look { rx: &self.rx, guard: lock(&self.seen) }
    }
}

impl<'a, S> Look<'a, S> {
    /// Whether this is a look into `inbox`.
    pub(crate) closed spec fn of(&self, inbox: Inbox<S>) -> bool {
        *self.rx == inbox.rx && call_ensures(lock::<Seen<S>>, (&inbox.seen,), self.guard)
    }

    /// Whether `seen` is the access to what was seen that this look has.
    closed spec fn access(&self, seen: &mut Seen<S>) -> bool {
        exists|guard: &mut MutexGuard<'_, Seen<S>>|
            #![trigger call_ensures(contents::<Seen<S>>, (guard,), seen)]
            *guard == self.guard && call_ensures(contents::<Seen<S>>, (guard,), seen)
    }

    /// Whether `queue` and `seen` are the access to the statuses that this look had:
    /// their present values were found there, and their final values were left there.
    pub(crate) closed spec fn holds(&self, queue: &mut Queue<S>, seen: &mut Seen<S>) -> bool {
        self.rx.holds(queue) && self.access(seen)
    }

    /// Whether `status` is what [`LastStatus::look_at_oldest`] answered for a receive
    /// from the queue, with the memory of the last status.
    pub(crate) closed spec fn looked_at_oldest(&self, status: Option<S>) -> bool where S: Clone {
        exists|seen: &mut Seen<S>, memory: &mut LastStatus<S>, received: Received<S>|
            #![trigger
                self.access(seen),
                call_ensures(LastStatus::<S>::look_at_oldest, (memory, received), status)]
            call_ensures(LastStatus::<S>::look_at_oldest, (memory, received), status) && self.rx.got(
                received,
            ) && self.access(seen) && *memory == (*seen).memory
    }

    /// Whether `status` is what [`LastStatus::look_at_all`] answered for a drain of the
    /// queue, with the memory of the last status.
    pub(crate) closed spec fn looked_at_all(&self, status: Option<S>) -> bool where S: Clone {
        exists|seen: &mut Seen<S>, memory: &mut LastStatus<S>, drained: Drained<S>|
            #![trigger
                self.access(seen),
                call_ensures(LastStatus::<S>::look_at_all, (memory, drained), status)]
            call_ensures(LastStatus::<S>::look_at_all, (memory, drained), status) && self.rx.got_all(
                drained,
            ) && self.access(seen) && *memory == (*seen).memory
    }
}

impl<'a, S> Look<'a, S> where S: Clone {
    /// Receives the oldest pending status, and looks at it.
    ///
    /// The `clone` of the status runs under the lock of the inbox; should that panic,
    /// the status is lost and the memory stays as it was.
    pub(crate) fn oldest(self) -> (status: Option<S>)
        ensures
            self.looked_at_oldest(status),
            exists|queue: &mut Queue<S>, seen: &mut Seen<S>| #[trigger]
                self.holds(queue, seen) && looks(
                    *queue,
                    *seen,
                    Event::Status(status),
                    *final(queue),
                    *final(seen),
                ),
    {
        let mut guard = self.guard;
        let seen = contents(&mut guard);
        assert(self.access(seen));
        assert forall|queue: &mut Queue<S>| #[trigger] self.rx.holds(queue) implies self.holds(
            queue,
            seen,
        ) by {}
        let received = self.rx.receive(&mut seen.tally);
        seen.memory.look_at_oldest(received)
    }

    /// Receives all pending statuses, and looks at the one that was sent last. Without
    /// any, looks at the one that was looked at before.
    ///
    /// The `clone` of the status runs under the lock of the inbox; should that panic,
    /// the statuses are lost and the memory stays as it was.
    pub(crate) fn newest(self) -> (status: Option<S>)
        ensures
            self.looked_at_all(status),
            exists|queue: &mut Queue<S>, seen: &mut Seen<S>| #[trigger]
                self.holds(queue, seen) && looks(
                    *queue,
                    *seen,
                    Event::Latest(status),
                    *final(queue),
                    *final(seen),
                ),
    {
        let mut guard = self.guard;
        let seen = contents(&mut guard);
        assert(self.access(seen));
        assert forall|queue: &mut Queue<S>| #[trigger] self.rx.holds(queue) implies self.holds(
            queue,
            seen,
        ) by {}
        let drained = self.rx.drain(&mut seen.tally);
        seen.memory.look_at_all(drained)
    }
}

} // verus!
