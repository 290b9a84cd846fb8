//! A queue that threads share.
//!
//! The queue stands under a lock, and under that lock no code of the statuses runs:
//! they are only moved. Who has opened the queue can do one thing with it, once:
//! each operation consumes the [`Opened`] queue, and nothing but an opened queue
//! leads to what the lock holds.

use crate::access::queues;
use crate::channel::{lock_to_close, taken, Drained, Queue, QueueView, Received};
use crate::sync::{contents, lock};
use std::collections::VecDeque;
use std::sync::{Arc, Mutex, MutexGuard};
use vstd::prelude::*;

verus! {

/// A handle to a queue that other threads have handles to.
#[verifier::reject_recursive_types(S)]
pub(crate) struct Shared<S> {
    queue: Arc<Mutex<Queue<S>>>,
}

/// A shared queue that is locked, for one operation.
#[verifier::reject_recursive_types(S)]
pub(crate) struct Opened<'a, S> {
    guard: MutexGuard<'a, Queue<S>>,
}

/// Counts the statuses that left a shared queue for its reader.
///
/// No status is received without a tally, and each one that is received is counted
/// there, whatever becomes of it.
pub(crate) struct Tally {
    taken: Ghost<nat>,
}

impl View for Tally {
    type V = nat;

    closed spec fn view(&self) -> nat {
        self.taken@
    }
}

impl<S> Shared<S> {
    /// The queue that this handle leads to.
    pub(crate) closed spec fn queue(&self) -> Mutex<Queue<S>> {
        *self.queue
    }

    /// A handle to `queue`, the only one, and the tally for its reader.
    pub(crate) fn new(queue: Mutex<Queue<S>>) -> (shared: (Self, Tally))
        ensures
            shared.0.queue() == queue,
            shared.1@ == 0,
    {
        (Shared { queue: Arc::new(queue) }, Tally { taken: Ghost(0) })
    }

    /// Another handle to the same queue.
    pub(crate) fn another(&self) -> (shared: Self)
        ensures
            shared.queue() == self.queue(),
        opens_invariants none
    {
        Shared { queue: self.queue.clone() }
    }

    /// Locks the queue, for one operation.
    pub(crate) fn open(&self) -> (opened: Opened<'_, S>)
        ensures
            opened.of(self.queue()),
        opens_invariants [queues()]
    {
        Opened { guard: lock(&self.queue) }
    }

    /// Whether `queue` is the access to its contents that a lock of this queue gave. Its
    /// present value is what was found there, and its final value is what was left there.
    pub(crate) open spec fn opens(&self, queue: &mut Queue<S>) -> bool {
        exists|opened: Opened<'_, S>|
            #![trigger opened.access(queue)]
            opened.of(self.queue()) && opened.access(queue)
    }

    /// Whether `queue` is the access to its contents that locking the queue to close
    /// it gave.
    pub(crate) closed spec fn opens_to_close(&self, queue: &mut Queue<S>) -> bool {
        exists|guard: &mut MutexGuard<'_, Queue<S>>|
            #![trigger call_ensures(contents::<Queue<S>>, (guard,), queue)]
            call_ensures(lock_to_close::<S>, (&*self.queue,), *guard) && call_ensures(
                contents::<Queue<S>>,
                (guard,),
                queue,
            )
    }

    /// Whether the queue was closed with [`Queue::close`].
    pub(crate) closed spec fn shut(&self) -> bool {
        exists|
            guard: &mut MutexGuard<'_, Queue<S>>,
            queue: &mut Queue<S>,
            closed: &mut Queue<S>,
            dropped: Option<VecDeque<S>>,
        |
            #![trigger
                call_ensures(contents::<Queue<S>>, (guard,), queue),
                call_ensures(Queue::<S>::close, (closed,), dropped)]
            call_ensures(lock_to_close::<S>, (&*self.queue,), *guard) && call_ensures(
                contents::<Queue<S>>,
                (guard,),
                queue,
            ) && *closed == *queue && call_ensures(Queue::<S>::close, (closed,), dropped)
    }

    /// Closes the queue, and gives what was pending for the caller to drop when the
    /// queue is free again.
    pub(crate) fn close(&self) -> (dropped: Option<VecDeque<S>>)
        ensures
            self.shut(),
            exists|queue: &mut Queue<S>|
                #![trigger self.opens_to_close(queue)]
                self.opens_to_close(queue) && (*final(queue))@ == QueueView::<S>::closed() && (
                dropped matches Some(statuses) ==> statuses@ == (*queue)@.pending),
        opens_invariants none
        no_unwind
    {
        let mut guard = lock_to_close(&self.queue);
        let queue = contents(&mut guard);
        assert(self.opens_to_close(queue));
        queue.close()
    }
}

impl<'a, S> Opened<'a, S> {
    /// Whether the queue was opened with a lock of `mutex`.
    pub(crate) closed spec fn of(&self, mutex: Mutex<Queue<S>>) -> bool {
        call_ensures(lock::<Queue<S>>, (&mutex,), self.guard)
    }

    /// Whether `queue` is the access to its contents that the opened queue gave.
    pub(crate) closed spec fn access(&self, queue: &mut Queue<S>) -> bool {
        exists|guard: &mut MutexGuard<'_, Queue<S>>|
            #![trigger call_ensures(contents::<Queue<S>>, (guard,), queue)]
            *guard == self.guard && call_ensures(contents::<Queue<S>>, (guard,), queue)
    }

    /// Whether [`Queue::send`] answered `sent` for `s`, called on the opened queue.
    pub(crate) closed spec fn put(&self, s: S, sent: Result<(), S>) -> bool {
        exists|found: &mut Queue<S>, queue: &mut Queue<S>|
            #![trigger self.access(found), call_ensures(Queue::<S>::send, (queue, s), sent)]
            self.access(found) && *queue == *found && call_ensures(
                Queue::<S>::send,
                (queue, s),
                sent,
            )
    }

    /// Whether [`Queue::receive`] answered `received`, called on the opened queue.
    pub(crate) closed spec fn got(&self, received: Received<S>) -> bool {
        exists|found: &mut Queue<S>, queue: &mut Queue<S>|
            #![trigger self.access(found), call_ensures(Queue::<S>::receive, (queue,), received)]
            self.access(found) && *queue == *found && call_ensures(
                Queue::<S>::receive,
                (queue,),
                received,
            )
    }

    /// Whether [`Queue::drain`] answered `drained`, called on the opened queue.
    pub(crate) closed spec fn got_all(&self, drained: Drained<S>) -> bool {
        exists|found: &mut Queue<S>, queue: &mut Queue<S>|
            #![trigger self.access(found), call_ensures(Queue::<S>::drain, (queue,), drained)]
            self.access(found) && *queue == *found && call_ensures(
                Queue::<S>::drain,
                (queue,),
                drained,
            )
    }

    /// Appends `s`, or gives it back if the queue is closed.
    pub(crate) fn send(self, s: S) -> (sent: Result<(), S>)
        ensures
            self.put(s, sent),
            sent matches Err(rejected) ==> rejected == s,
            exists|queue: &mut Queue<S>| #[trigger]
                self.access(queue) && (*queue)@.sends(s, sent is Ok, (*final(queue))@),
    {
        let mut guard = self.guard;
        let queue = contents(&mut guard);
        assert(self.access(queue));
        queue.send(s)
    }

    /// Removes the oldest pending status, and counts it.
    pub(crate) fn receive(self, tally: &mut Tally) -> (received: Received<S>)
        ensures
            self.got(received),
            exists|queue: &mut Queue<S>| #[trigger]
                self.access(queue) && (*queue)@ == received.before() && (*final(queue))@
                    == received.after(),
            received.after() == received.before().received(),
            final(tally)@ == old(tally)@ + taken(received.before(), received.after()),
    {
        let mut guard = self.guard;
        let queue = contents(&mut guard);
        assert(self.access(queue));
        let received = queue.receive();
        let ghost count = tally@ + taken(received.before(), received.after());
        tally.taken = Ghost(count as nat);
        received
    }

    /// Removes all pending statuses, and counts them.
    pub(crate) fn drain(self, tally: &mut Tally) -> (drained: Drained<S>)
        ensures
            self.got_all(drained),
            exists|queue: &mut Queue<S>| #[trigger]
                self.access(queue) && (*queue)@ == drained.before() && (*final(queue))@
                    == drained.after(),
            drained.after() == drained.before().drained(),
            final(tally)@ == old(tally)@ + taken(drained.before(), drained.after()),
    {
        let mut guard = self.guard;
        let queue = contents(&mut guard);
        assert(self.access(queue));
        let drained = queue.drain();
        let ghost count = tally@ + taken(drained.before(), drained.after());
        tally.taken = Ghost(count as nat);
        drained
    }
}

} // verus!
