//! An executor that also shows how far its function has come.

use crate::access::{asking, awaiting, fetching, memories, reading, slots, taking};
use crate::channel::{Drained, Queue, QueueView, Received, Sender};
use crate::inbox::{looks, Inbox, Look, Seen};
use crate::internal_context::{Context, InternalContext, InternalData};
use crate::slot::{shown, Slot, SlotEvent};
use std::sync::{Arc, Mutex};
use vstd::pervasive::strictly_cloned;
use vstd::prelude::*;

verus! {

/// The statuses of a [`StatusExecutor`] at one moment.
#[verifier::ext_equal]
pub struct StatusView<S> {
    /// The statuses that were sent and not yet looked at.
    pub queue: QueueView<S>,
    /// A clone of the status that was looked at last.
    pub last: Option<S>,
}

/// One operation on the statuses of a [`StatusExecutor`], with its answer.
pub enum Event<S> {
    /// [`StatusSender::send`] was called with this status and returned this.
    Send(S, bool),
    /// [`StatusExecutor::status`] returned this.
    Status(Option<S>),
    /// [`StatusExecutor::latest_status`] returned this.
    Latest(Option<S>),
    /// The executor was dropped.
    Close,
}

/// How looking at the status `received` changes the memory of the last one: a
/// clone of it takes the place of `before`. Without a status nothing changes.
pub open spec fn noted<S: Clone>(before: Option<S>, received: Option<S>, after: Option<S>) -> bool {
    match received {
        Some(s) => after matches Some(l) && strictly_cloned(s, l),
        None => after == before,
    }
}

/// What is answered for the latest status: `newest` if there is a new one, and a
/// clone of the `last` one otherwise.
pub open spec fn latest<S: Clone>(newest: Option<S>, last: Option<S>, answer: Option<S>) -> bool {
    match newest {
        Some(s) => answer == Some(s),
        None => match last {
            Some(l) => answer matches Some(a) && strictly_cloned(l, a),
            None => answer is None,
        },
    }
}

impl<S: Clone> StatusView<S> {
    /// Nothing sent, nothing looked at.
    pub open spec fn initial() -> Self {
        StatusView { queue: QueueView::empty(), last: None }
    }

    /// Whether `event`, answer included, leads from these statuses to `after`.
    pub open spec fn steps_to(self, event: Event<S>, after: Self) -> bool {
        match event {
            Event::Send(s, delivered) => {
                &&& self.queue.sends(s, delivered, after.queue)
                &&& after.last == self.last
            },
            Event::Status(answer) => {
                &&& answer == self.queue.oldest()
                &&& after.queue == self.queue.received()
                &&& noted(self.last, answer, after.last)
            },
            Event::Latest(answer) => {
                &&& latest(self.queue.newest(), self.last, answer)
                &&& after.queue == self.queue.drained()
                &&& noted(self.last, self.queue.newest(), after.last)
            },
            Event::Close => {
                &&& after.queue == QueueView::<S>::closed()
                &&& after.last == self.last
            },
        }
    }
}

/// Remembers the status that was looked at last. Its view is the clone it keeps.
pub struct LastStatus<S> {
    last: Option<S>,
}

impl<S> View for LastStatus<S> {
    type V = Option<S>;

    closed spec fn view(&self) -> Option<S> {
        self.last
    }
}

impl<S> LastStatus<S> {
    /// No status was looked at.
    pub fn new() -> (memory: Self)
        ensures
            memory@ == None::<S>,
    {
        LastStatus { last: None }
    }
}

impl<S> LastStatus<S> where S: Clone {
    /// Looks at the status that a receive took out of a queue, and gives it.
    ///
    /// Receive and look are together one step of the statuses.
    pub fn look_at_oldest(&mut self, received: Received<S>) -> (answer: Option<S>)
        ensures
            (StatusView { queue: received.before(), last: old(self)@ }).steps_to(
                Event::Status(answer),
                (StatusView { queue: received.after(), last: final(self)@ }),
            ),
    {
        self.note(received.into_status())
    }

    /// Looks at the statuses that a drain took out of a queue, and gives the one
    /// that was sent last. Without any, gives a clone of the one looked at before.
    ///
    /// Drain and look are together one step of the statuses.
    pub fn look_at_all(&mut self, drained: Drained<S>) -> (answer: Option<S>)
        ensures
            (StatusView { queue: drained.before(), last: old(self)@ }).steps_to(
                Event::Latest(answer),
                (StatusView { queue: drained.after(), last: final(self)@ }),
            ),
    {
        match drained.into_newest() {
            Some(s) => self.note(Some(s)),
            None => match &self.last {
                Some(l) => Some(l.clone()),
                None => None,
            },
        }
    }

    /// Remembers a clone of `received`, if there is one, and gives it back.
    fn note(&mut self, received: Option<S>) -> (answer: Option<S>)
        ensures
            answer == received,
            noted(old(self)@, received, final(self)@),
    {
        match received {
            Some(s) => {
                self.last = Some(s.clone());
                Some(s)
            },
            None => None,
        }
    }
}

/// Sends statuses from a work function to its [`StatusExecutor`].
#[verifier::reject_recursive_types(S)]
pub struct StatusSender<S> {
    tx: Sender<S>,
}

impl<S> StatusSender<S> {
    /// The queue that the statuses go to.
    pub closed spec fn queue(&self) -> Mutex<Queue<S>> {
        self.tx.queue()
    }

    /// Whether `s` was put into the queue with [`Queue::send`], and `delivered` says
    /// whether the queue took it.
    pub closed spec fn posted(&self, s: S, delivered: bool) -> bool {
        exists|sent: Result<(), S>| #[trigger] self.tx.put(s, sent) && delivered == (sent is Ok)
    }

    /// Whether `queue` is the access to the queue that locking it gave: its present
    /// value was found there, and its final value was left there.
    pub closed spec fn holds(&self, queue: &mut Queue<S>) -> bool {
        self.tx.holds(queue)
    }
}

impl<S> StatusSender<S> where S: Send {
    /// Sends `s` to the executor.
    ///
    /// Returns `true` as long as the executor exists: the return value tells
    /// whether it was dropped.
    pub fn send(&self, s: S) -> (delivered: bool)
        ensures
            self.posted(s, delivered),
            exists|queue: &mut Queue<S>| #[trigger]
                self.holds(queue) && (*queue)@.sends(s, delivered, (*final(queue))@),
    {
        let sent = self.tx.send(s);
        assert forall|queue: &mut Queue<S>| #[trigger] self.tx.holds(queue) implies self.holds(
            queue,
        ) by {}
        sent.is_ok()
    }
}

/// Gives the call of `f` with `sender` to the context `e`, with `state` for its
/// result.
fn start_with<E, T, S, F>(e: &E, state: Arc<InternalData<T>>, f: F, sender: StatusSender<S>) where
    E: Context,
    T: Send + Sync + 'static,
    S: Send + 'static,
    F: FnOnce(StatusSender<S>) -> T + Send + 'static,

    requires
        f.requires((sender,)),
        forall|v: T| #[trigger] f.ensures((sender,), v) ==> state.may_yield(v),
    ensures
        e.accepted(state.signal()),
{
    let job = move || -> (v: T)
        ensures
            f.ensures((sender,), v),
    {
        f(sender)
    };
    e.execute(state, job);
}

/// Whether the call of `f` with `sender` was given to the context `e`, with `state`
/// for its result.
pub closed spec fn started_with<E, T, S, F>(
    e: E,
    state: Arc<InternalData<T>>,
    f: F,
    sender: StatusSender<S>,
) -> bool where
    E: Context,
    T: Send + Sync + 'static,
    S: Send + 'static,
    F: FnOnce(StatusSender<S>) -> T + Send + 'static,
 {
    call_ensures(start_with::<E, T, S, F>, (&e, state, f, sender), ())
}

/// Runs a function in some [`Context`], like [`Executor`](crate::Executor), and
/// receives the statuses that the function sends.
#[verifier::reject_recursive_types(T)]
#[verifier::reject_recursive_types(S)]
pub struct StatusExecutor<T, S> {
    state: Arc<InternalData<T>>,
    inbox: Inbox<S>,
}

impl<T, S> StatusExecutor<T, S> {
    /// The state that this executor shares with its worker.
    pub closed spec fn shared(&self) -> Arc<InternalData<T>> {
        self.state
    }

    /// Whether `v` is a result that the executed function may return.
    pub open spec fn may_yield(&self, v: T) -> bool {
        self.shared().may_yield(v)
    }

    /// The queue that the statuses come from.
    pub closed spec fn queue(&self) -> Mutex<Queue<S>> {
        self.inbox.queue()
    }

    /// Whether no status was pending and none remembered when this executor was made.
    pub closed spec fn starts_without_status(&self) -> bool {
        self.inbox.starts_without_status()
    }

    /// Whether `queue` and `seen` are the access to the statuses of this executor that
    /// locking them gave: their present values were found there, and their final
    /// values were left there.
    pub closed spec fn holds(&self, queue: &mut Queue<S>, seen: &mut Seen<S>) -> bool {
        exists|look: Look<'_, S>|
            #![trigger look.holds(queue, seen)]
            look.of(self.inbox) && look.holds(queue, seen)
    }

    /// Whether `status` is what [`LastStatus::look_at_oldest`] answered for a receive
    /// from the queue of this executor, with its memory of the last status.
    pub closed spec fn looked_at_oldest(&self, status: Option<S>) -> bool where S: Clone {
        exists|look: Look<'_, S>| #[trigger]
            look.looked_at_oldest(status) && look.of(self.inbox)
    }

    /// Whether `status` is what [`LastStatus::look_at_all`] answered for a drain of the
    /// queue of this executor, with its memory of the last status.
    pub closed spec fn looked_at_all(&self, status: Option<S>) -> bool where S: Clone {
        exists|look: Look<'_, S>| #[trigger] look.looked_at_all(status) && look.of(self.inbox)
    }
}

impl<T, S> StatusExecutor<T, S> where T: Send + Sync + 'static, S: Send + Clone + 'static {
    /// Runs `f` in the context `e`, with a sender for its statuses.
    ///
    /// The context is given the call of `f` with that sender and the state of this
    /// executor, which has no result yet. The sender puts its statuses into the queue
    /// that the executor reads, which is empty at first. What the executor hands out as
    /// results from then on are values that `f` may return for such a sender, and
    /// nothing else.
    pub fn new<E, F>(e: E, f: F) -> (executor: Self) where
        F: FnOnce(StatusSender<S>) -> T + Send + 'static,
        E: Context,

        requires
            forall|sender: StatusSender<S>| #[trigger] f.requires((sender,)),
        ensures
            exists|sender: StatusSender<S>|
                sender.queue() == executor.queue() && #[trigger] started_with(
                    e,
                    executor.shared(),
                    f,
                    sender,
                ),
            e.accepted(executor.shared().signal()),
            executor.shared().starts_empty(),
            executor.starts_without_status(),
            forall|v: T| #[trigger]
                executor.may_yield(v) <==> exists|sender: StatusSender<S>|
                    sender.queue() == executor.queue() && #[trigger] f.ensures((sender,), v),
    {
        let (tx, inbox) = Inbox::new();
        let sender = StatusSender { tx };
        let ghost values = |v: T|
            exists|sender: StatusSender<S>|
                sender.queue() == inbox.queue() && #[trigger] f.ensures((sender,), v);
        let state = Arc::new(InternalData::new(Ghost(values)));
        start_with(&e, state.clone(), f, sender);
        let executor = Self { state, inbox };
        assert(started_with(e, executor.shared(), f, sender));
        executor
    }

    /// Whether the function has returned.
    ///
    /// The answer is that of one moment. Once it is `true` it stays so, also after
    /// the result was taken.
    pub fn is_done(&self) -> (done: bool)
        ensures
            done ==> exists|v: T| #[trigger] self.may_yield(v),
            self.shared().read_as(SlotEvent::Done(done)),
            exists|slot: &mut Slot<T>|
                #![trigger self.shared().holds(slot)]
                self.shared().stepped(slot, SlotEvent::Done(done), *final(slot)),
        opens_invariants [slots(), asking()]
    {
        let done = self.state.is_done();
        proof {
            if done {
                let v = choose|v: T| #[trigger] self.state.may_yield(v);
                assert(self.may_yield(v));
            }
        }
        done
    }

    /// A handle to what the function returned, or `None` if there is no result now.
    pub fn result(&self) -> (result: Option<Arc<T>>)
        ensures
            result matches Some(a) ==> self.may_yield(*a),
            self.shared().read_as(SlotEvent::Read(shown(result))),
            exists|slot: &mut Slot<T>|
                #![trigger self.shared().holds(slot)]
                self.shared().stepped(slot, SlotEvent::Read(shown(result)), *final(slot)),
        opens_invariants [slots(), reading()]
    {
        self.state.result()
    }

    /// Gives up the executor for the result itself.
    ///
    /// There is none if the function has not returned. It then runs to its end,
    /// and its result is lost: ask [`is_done`](Self::is_done) first. There is none
    /// either if a handle that [`result`](Self::result) gave is still alive.
    pub fn take_result(self) -> (result: Option<T>)
        ensures
            result matches Some(v) ==> self.may_yield(v),
            exists|handle: Option<Arc<T>>| #[trigger]
                self.shared().gave_up(handle) && call_ensures(Slot::<T>::claim, (handle,), result),
            exists|slot: &mut Slot<T>, handle: Option<Arc<T>>|
                #![trigger
                    self.shared().holds(slot),
                    call_ensures(Slot::<T>::claim, (handle,), result)]
                self.shared().stepped(slot, SlotEvent::Take(shown(handle)), *final(slot))
                    && call_ensures(Slot::<T>::claim, (handle,), result),
        opens_invariants [slots(), taking()]
    {
        let handle = self.state.take();
        assert(self.shared().gave_up(handle));
        Slot::claim(handle)
    }

    /// Blocks until the function has returned, and gives a handle to its result.
    ///
    /// If the function never returns, or if its result has been taken with
    /// [`take_wait`](Self::take_wait), this blocks for ever.
    pub fn wait(&self) -> (result: Arc<T>)
        ensures
            self.may_yield(*result),
            self.shared().read_as(SlotEvent::Read(Some(*result))),
            exists|slot: &mut Slot<T>|
                #![trigger self.shared().holds(slot)]
                self.shared().stepped(slot, SlotEvent::Read(Some(*result)), *final(slot)),
        opens_invariants [slots(), awaiting()]
    {
        self.state.wait()
    }

    /// Blocks like [`wait`](Self::wait), and then takes the result itself, as
    /// [`take_result`](Self::take_result) does.
    ///
    /// There is none if another handle to it is still alive. Either way the
    /// function has returned, and the executor has no result afterwards.
    pub fn take_wait(&self) -> (result: Option<T>)
        ensures
            exists|handle: Arc<T>| #[trigger]
                self.shared().gave_up(Some(handle)) && self.may_yield(*handle) && call_ensures(
                    Slot::<T>::claim,
                    (Some(handle),),
                    result,
                ),
            result matches Some(v) ==> self.may_yield(v),
            exists|slot: &mut Slot<T>, handle: Arc<T>|
                #![trigger
                    self.shared().holds(slot),
                    call_ensures(Slot::<T>::claim, (Some(handle),), result)]
                self.shared().stepped(slot, SlotEvent::Take(Some(*handle)), *final(slot))
                    && call_ensures(Slot::<T>::claim, (Some(handle),), result),
        opens_invariants [slots(), fetching()]
    {
        let handle = self.state.wait_and_take();
        assert(self.shared().gave_up(Some(handle)));
        Slot::claim(Some(handle))
    }

    /// Locks the statuses of this executor, for one look at them.
    fn lock_status(&self) -> (look: Look<'_, S>)
        ensures
            look.of(self.inbox),
        opens_invariants [memories()]
    {
        self.inbox.look()
    }

    /// The oldest status that has not been looked at, or `None` if there is
    /// nothing new.
    ///
    /// The answer is that of one moment: a receive from the queue as other threads
    /// have left it, and [`LastStatus::look_at_oldest`].
    pub fn status(&self) -> (status: Option<S>)
        ensures
            self.looked_at_oldest(status),
            exists|before: StatusView<S>, after: StatusView<S>| #[trigger]
                before.steps_to(Event::Status(status), after),
            exists|queue: &mut Queue<S>, seen: &mut Seen<S>| #[trigger]
                self.holds(queue, seen) && looks(
                    *queue,
                    *seen,
                    Event::Status(status),
                    *final(queue),
                    *final(seen),
                ),
    {
        let look = self.lock_status();
        assert forall|queue: &mut Queue<S>, seen: &mut Seen<S>| #[trigger]
            look.holds(queue, seen) implies self.holds(queue, seen) by {}
        look.oldest()
    }

    /// The status that was sent last, new or not, or `None` if none ever was.
    ///
    /// Statuses that were pending before it are skipped. The answer is that of one
    /// moment: a drain of the queue as other threads have left it, and
    /// [`LastStatus::look_at_all`].
    pub fn latest_status(&self) -> (status: Option<S>)
        ensures
            self.looked_at_all(status),
            exists|before: StatusView<S>, after: StatusView<S>| #[trigger]
                before.steps_to(Event::Latest(status), after),
            exists|queue: &mut Queue<S>, seen: &mut Seen<S>| #[trigger]
                self.holds(queue, seen) && looks(
                    *queue,
                    *seen,
                    Event::Latest(status),
                    *final(queue),
                    *final(seen),
                ),
    {
        let look = self.lock_status();
        assert forall|queue: &mut Queue<S>, seen: &mut Seen<S>| #[trigger]
            look.holds(queue, seen) implies self.holds(queue, seen) by {}
        look.newest()
    }
}

} // verus!
