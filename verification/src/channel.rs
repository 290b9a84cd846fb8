//! The channel through which statuses reach a status executor.

use crate::access::{queues, Held};
use crate::shared::{Opened, Shared, Tally};
use std::collections::VecDeque;
use std::sync::{Mutex, MutexGuard};
use vstd::prelude::*;

verus! {

/// What a [`Queue`] holds, and whether anyone will still read it.
#[verifier::ext_equal]
pub struct QueueView<S> {
    /// The statuses that were sent and not yet received, the oldest first.
    pub pending: Seq<S>,
    /// Whether the receiving side still exists.
    pub open: bool,
}

impl<S> QueueView<S> {
    /// A queue in which nothing is pending.
    pub open spec fn empty() -> Self {
        QueueView { pending: Seq::empty(), open: true }
    }

    /// The queue after `s` was sent. Nothing enters a closed queue.
    pub open spec fn sent(self, s: S) -> Self {
        if self.open {
            QueueView { pending: self.pending.push(s), open: true }
        } else {
            self
        }
    }

    /// The status that is received next, if one is pending.
    pub open spec fn oldest(self) -> Option<S> {
        if self.pending.len() > 0 {
            Some(self.pending.first())
        } else {
            None
        }
    }

    /// The status that was sent last, if one is pending.
    pub open spec fn newest(self) -> Option<S> {
        if self.pending.len() > 0 {
            Some(self.pending.last())
        } else {
            None
        }
    }

    /// The queue after the oldest status was received.
    pub open spec fn received(self) -> Self {
        if self.pending.len() > 0 {
            QueueView { pending: self.pending.drop_first(), ..self }
        } else {
            self
        }
    }

    /// The queue after every pending status was received.
    pub open spec fn drained(self) -> Self {
        QueueView { pending: Seq::empty(), ..self }
    }

    /// Whether sending `s` leads from this queue to `after`, with this answer.
    pub open spec fn sends(self, s: S, delivered: bool, after: Self) -> bool {
        &&& delivered == self.open
        &&& after == self.sent(s)
    }

    /// The queue after the receiving side was dropped. What was pending is gone.
    pub open spec fn closed() -> Self {
        QueueView { pending: Seq::empty(), open: false }
    }
}

/// What one receive took out of a queue, with the queue before and after it.
pub struct Received<S> {
    status: Option<S>,
    before: Ghost<QueueView<S>>,
    after: Ghost<QueueView<S>>,
}

impl<S> Received<S> {
    /// The queue before the receive.
    pub closed spec fn before(&self) -> QueueView<S> {
        self.before@
    }

    /// The queue after the receive.
    pub closed spec fn after(&self) -> QueueView<S> {
        self.after@
    }

    #[verifier::type_invariant]
    closed spec fn inv(self) -> bool {
        &&& self.status == self.before@.oldest()
        &&& self.after@ == self.before@.received()
    }

    /// The status that was taken out.
    pub(crate) fn into_status(self) -> (status: Option<S>)
        ensures
            status == self.before().oldest(),
            self.after() == self.before().received(),
    {
        proof {
            use_type_invariant(&self);
        }
        self.status
    }
}

/// What one drain took out of a queue, with the queue before and after it.
pub struct Drained<S> {
    statuses: VecDeque<S>,
    before: Ghost<QueueView<S>>,
    after: Ghost<QueueView<S>>,
}

impl<S> Drained<S> {
    /// The queue before the drain.
    pub closed spec fn before(&self) -> QueueView<S> {
        self.before@
    }

    /// The queue after the drain.
    pub closed spec fn after(&self) -> QueueView<S> {
        self.after@
    }

    #[verifier::type_invariant]
    closed spec fn inv(self) -> bool {
        &&& self.statuses@ == self.before@.pending
        &&& self.after@ == self.before@.drained()
    }

    /// The status that was sent last of all that were taken out.
    pub(crate) fn into_newest(self) -> (status: Option<S>)
        ensures
            status == self.before().newest(),
            self.after() == self.before().drained(),
    {
        proof {
            use_type_invariant(&self);
        }
        let mut statuses = self.statuses;
        statuses.pop_back()
    }
}

/// Pending statuses, first in, first out. A closed queue holds none.
pub struct Queue<S> {
    pending: Option<VecDeque<S>>,
}

impl<S> Held for Queue<S> {
    open spec fn kind() -> int {
        queues()
    }
}

impl<S> View for Queue<S> {
    type V = QueueView<S>;

    closed spec fn view(&self) -> QueueView<S> {
        match self.pending {
            Some(pending) => QueueView { pending: pending@, open: true },
            None => QueueView::closed(),
        }
    }
}

impl<S> Queue<S> {
    /// An open queue in which nothing is pending.
    pub fn new() -> (queue: Self)
        ensures
            queue@ == QueueView::<S>::empty(),
    {
        Queue { pending: Some(VecDeque::new()) }
    }

    /// Appends `s`. A closed queue gives it back instead.
    pub fn send(&mut self, s: S) -> (sent: Result<(), S>)
        ensures
            old(self)@.sends(s, sent is Ok, final(self)@),
            sent matches Err(rejected) ==> rejected == s,
    {
        match &mut self.pending {
            Some(pending) => {
                pending.push_back(s);
                Ok(())
            },
            None => Err(s),
        }
    }

    /// Removes the oldest pending status.
    pub fn receive(&mut self) -> (received: Received<S>)
        ensures
            received.before() == old(self)@,
            received.after() == final(self)@,
            final(self)@ == old(self)@.received(),
    {
        let ghost before = self@;
        let status = match &mut self.pending {
            Some(pending) => pending.pop_front(),
            None => None,
        };
        assert(self@ == before.received());
        Received { status, before: Ghost(before), after: Ghost(self@) }
    }

    /// Removes every pending status.
    pub fn drain(&mut self) -> (drained: Drained<S>)
        ensures
            drained.before() == old(self)@,
            drained.after() == final(self)@,
            final(self)@ == old(self)@.drained(),
    {
        let ghost before = self@;
        let mut statuses: VecDeque<S> = VecDeque::new();
        match &mut self.pending {
            Some(pending) => {
                statuses.append(pending);
            },
            None => {},
        }
        assert(statuses@ == before.pending);
        assert(self@ == before.drained());
        Drained { statuses, before: Ghost(before), after: Ghost(self@) }
    }

    /// Closes the queue, and gives what was pending for the caller to drop.
    pub fn close(&mut self) -> (dropped: Option<VecDeque<S>>)
        ensures
            final(self)@ == QueueView::<S>::closed(),
            dropped matches Some(statuses) ==> statuses@ == old(self)@.pending,
            dropped is Some == old(self)@.open,
        opens_invariants none
        no_unwind
    {
        let mut dropped: Option<VecDeque<S>> = None;
        std::mem::swap(&mut self.pending, &mut dropped);
        dropped
    }
}

/// How many statuses left a queue between `before` and `after`.
pub open spec fn taken<S>(before: QueueView<S>, after: QueueView<S>) -> int {
    before.pending.len() - after.pending.len()
}

/// The end of a channel that statuses are put into.
#[verifier::reject_recursive_types(S)]
pub(crate) struct Sender<S> {
    shared: Shared<S>,
}

/// The end of a channel that statuses are read from. Dropping it closes the queue.
#[verifier::reject_recursive_types(S)]
pub(crate) struct Receiver<S> {
    shared: Shared<S>,
}

/// Whether `queue` was empty when it was put under its lock.
pub closed spec fn starts_empty<S>(queue: Mutex<Queue<S>>) -> bool {
    exists|q: Queue<S>| #[trigger]
        call_ensures(Mutex::<Queue<S>>::new, (q,), queue) && q@ == QueueView::<S>::empty()
}

/// The two ends of a new, empty channel: what is put into the one comes out of
/// the other, since both lead to the same queue. With them comes the tally of what
/// has come out.
pub(crate) fn channel<S>() -> (ends: (Sender<S>, Receiver<S>, Tally))
    ensures
        ends.0.queue() == ends.1.queue(),
        starts_empty(ends.1.queue()),
        ends.2@ == 0,
{
    let empty = Queue::new();
    let mutex = Mutex::new(empty);
    assert(call_ensures(Mutex::<Queue<S>>::new, (empty,), mutex));
    let (shared, tally) = Shared::new(mutex);
    (Sender { shared: shared.another() }, Receiver { shared }, tally)
}

impl<S> Sender<S> {
    /// The queue that this end leads to.
    pub(crate) closed spec fn queue(&self) -> Mutex<Queue<S>> {
        self.shared.queue()
    }

    /// Whether [`Queue::send`] answered `sent` for `s`, called on the queue that this
    /// end leads to.
    pub(crate) closed spec fn put(&self, s: S, sent: Result<(), S>) -> bool {
        exists|opened: Opened<'_, S>| #[trigger]
            opened.put(s, sent) && opened.of(self.shared.queue())
    }

    /// Whether `queue` is the access to the queue of this end that locking it gave: its
    /// present value was found there, and its final value was left there.
    pub(crate) closed spec fn holds(&self, queue: &mut Queue<S>) -> bool {
        self.shared.opens(queue)
    }

    /// Appends `s` to the queue. Gives it back if nobody will read it, which is
    /// up to the thread that owns the other end.
    pub(crate) fn send(&self, s: S) -> (sent: Result<(), S>)
        ensures
            self.put(s, sent),
            sent matches Err(rejected) ==> rejected == s,
            exists|queue: &mut Queue<S>| #[trigger]
                self.holds(queue) && (*queue)@.sends(s, sent is Ok, (*final(queue))@),
    {
        let opened = self.shared.open();
        assert forall|queue: &mut Queue<S>| #[trigger] opened.access(queue) implies self.holds(
            queue,
        ) by {}
        opened.send(s)
    }
}

impl<S> Receiver<S> {
    /// The queue that this end leads to.
    pub(crate) closed spec fn queue(&self) -> Mutex<Queue<S>> {
        self.shared.queue()
    }

    /// Whether [`Queue::receive`] answered `received`, called on the queue that this
    /// end leads to.
    pub(crate) closed spec fn got(&self, received: Received<S>) -> bool {
        exists|opened: Opened<'_, S>| #[trigger]
            opened.got(received) && opened.of(self.shared.queue())
    }

    /// Whether [`Queue::drain`] answered `drained`, called on the queue that this end
    /// leads to.
    pub(crate) closed spec fn got_all(&self, drained: Drained<S>) -> bool {
        exists|opened: Opened<'_, S>| #[trigger]
            opened.got_all(drained) && opened.of(self.shared.queue())
    }

    /// Whether `queue` is the access to the queue of this end that locking it gave: its
    /// present value was found there, and its final value was left there.
    pub(crate) closed spec fn holds(&self, queue: &mut Queue<S>) -> bool {
        self.shared.opens(queue)
    }

    /// Whether `queue` is the access to the queue of this end that locking it for the
    /// last time gave.
    pub closed spec fn holds_last(&self, queue: &mut Queue<S>) -> bool {
        self.shared.opens_to_close(queue)
    }

    /// Whether the queue that this end leads to was closed with [`Queue::close`].
    pub closed spec fn shut(&self) -> bool {
        self.shared.shut()
    }

    /// Removes the oldest status that is pending now, and counts it.
    pub(crate) fn receive(&self, tally: &mut Tally) -> (received: Received<S>)
        ensures
            self.got(received),
            received.after() == received.before().received(),
            exists|queue: &mut Queue<S>| #[trigger]
                self.holds(queue) && (*queue)@ == received.before() && (*final(queue))@
                    == received.after(),
            final(tally)@ == old(tally)@ + taken(received.before(), received.after()),
    {
        let opened = self.shared.open();
        assert forall|queue: &mut Queue<S>| #[trigger] opened.access(queue) implies self.holds(
            queue,
        ) by {}
        opened.receive(tally)
    }

    /// Removes all statuses that are pending now, and counts them.
    pub(crate) fn drain(&self, tally: &mut Tally) -> (drained: Drained<S>)
        ensures
            self.got_all(drained),
            drained.after() == drained.before().drained(),
            exists|queue: &mut Queue<S>| #[trigger]
                self.holds(queue) && (*queue)@ == drained.before() && (*final(queue))@
                    == drained.after(),
            final(tally)@ == old(tally)@ + taken(drained.before(), drained.after()),
    {
        let opened = self.shared.open();
        assert forall|queue: &mut Queue<S>| #[trigger] opened.access(queue) implies self.holds(
            queue,
        ) by {}
        opened.drain(tally)
    }
}

/// `Mutex::lock`, like [`lock`](crate::sync::lock), for a queue that is to be closed.
///
/// Claims that the call does not unwind: `std` allows it to panic only if the calling
/// thread holds the mutex, and a thread that holds the mutex of a queue runs nothing
/// but the functions of [`Queue`], which drop no receiver.
#[verifier::external_body]
pub(crate) fn lock_to_close<S>(queue: &Mutex<Queue<S>>) -> (guard: MutexGuard<'_, Queue<S>>)
    opens_invariants none
    no_unwind
{
    match queue.lock() {
        Ok(guard) => guard,
        Err(poisoned) => poisoned.into_inner(),
    }
}

impl<S> Drop for Receiver<S> {
    fn drop(&mut self)
        ensures
            old(self).shut(),
            exists|queue: &mut Queue<S>| #[trigger]
                old(self).holds_last(queue) && (*final(queue))@ == QueueView::<S>::closed(),
        opens_invariants none
        no_unwind
    {
        // The statuses are dropped when the mutex is free again.
        let _dropped = self.shared.close();
        assert forall|queue: &mut Queue<S>| #[trigger]
            self.shared.opens_to_close(queue) implies old(self).holds_last(queue) by {}
    }
}

} // verus!
