//! What holds of every history of a result slot, and of every history of the
//! statuses of an executor.
//!
//! A history is a sequence of events with their answers, and the states between
//! them. Each event is a step that the contract of the operation allows.
//!
//! Other laws speak of one or two calls: of what an operation found under a lock, what
//! it left there, and how the answer comes between the two.

use crate::channel::{Queue, QueueView};
use crate::inbox::{looks, Seen};
use crate::internal_context::InternalData;
use crate::slot::{shown, slot_step, Slot, SlotEvent, SlotView};
use crate::status::{Event, StatusView};
use std::sync::Arc;
use vstd::pervasive::strictly_cloned;
use vstd::prelude::*;

verus! {

/// Whether `states` are the views that a new slot goes through in `events`.
pub open spec fn slot_history<T>(states: Seq<SlotView<T>>, events: Seq<SlotEvent<T>>) -> bool {
    &&& states.len() == events.len() + 1
    &&& states[0] == SlotView::<T>::empty()
    &&& forall|i: int|
        #![trigger events[i]]
        0 <= i < events.len() ==> slot_step(states[i], events[i], states[i + 1])
}

/// There is no result before a function has returned: without a fill the slot is
/// empty, so it is not done and nothing can be read or taken.
pub proof fn law_nothing_before_fill<T>(states: Seq<SlotView<T>>, events: Seq<SlotEvent<T>>)
    requires
        slot_history(states, events),
        forall|i: int| 0 <= i < events.len() ==> !(#[trigger] events[i] is Fill),
    ensures
        states.last() == SlotView::<T>::empty(),
    decreases events.len(),
{
    if events.len() > 0 {
        let n = events.len() - 1;
        law_nothing_before_fill(states.drop_last(), events.drop_last());
        assert(slot_step(states[n], events[n], states[n + 1]));
    }
}

/// A result that is there stays there until it is taken: after a fill with `v`,
/// and as long as nothing is taken or filled, the slot holds `v`, so every read
/// gives `v`.
pub proof fn law_result_stays<T>(
    states: Seq<SlotView<T>>,
    events: Seq<SlotEvent<T>>,
    filled: int,
    v: T,
)
    requires
        slot_history(states, events),
        0 <= filled < events.len(),
        events[filled] == SlotEvent::Fill(v),
        forall|i: int|
            filled < i < events.len() ==> !(#[trigger] events[i] is Fill) && !(events[i] is Take),
    ensures
        states.last() == (SlotView { value: Some(v), done: true }),
    decreases events.len(),
{
    let n = events.len() - 1;
    assert(slot_step(states[n], events[n], states[n + 1]));
    if filled < n {
        law_result_stays(states.drop_last(), events.drop_last(), filled, v);
    }
}

/// A result is taken once: after a take, and as long as nothing is filled, there is
/// no result. So a second take gives nothing.
pub proof fn law_taken_once<T>(states: Seq<SlotView<T>>, events: Seq<SlotEvent<T>>, taken: int)
    requires
        slot_history(states, events),
        0 <= taken < events.len(),
        events[taken] is Take,
        forall|i: int| taken < i < events.len() ==> !(#[trigger] events[i] is Fill),
    ensures
        states.last().value is None,
    decreases events.len(),
{
    let n = events.len() - 1;
    assert(slot_step(states[n], events[n], states[n + 1]));
    if taken < n {
        law_taken_once(states.drop_last(), events.drop_last(), taken);
    }
}

/// A function that has returned has returned for good: after a fill the slot is
/// done, whatever is read or taken later.
pub proof fn law_done_for_good<T>(
    states: Seq<SlotView<T>>,
    events: Seq<SlotEvent<T>>,
    filled: int,
)
    requires
        slot_history(states, events),
        0 <= filled < events.len(),
        events[filled] is Fill,
    ensures
        states.last().done,
    decreases events.len(),
{
    let n = events.len() - 1;
    assert(slot_step(states[n], events[n], states[n + 1]));
    if filled < n {
        law_done_for_good(states.drop_last(), events.drop_last(), filled);
    }
}

/// A result that was read can be read again: after a read that showed `v`, and as
/// long as nothing is taken or filled, the slot holds `v` and is done. So every later
/// read and wait shows `v` too.
pub proof fn law_read_again<T>(
    states: Seq<SlotView<T>>,
    events: Seq<SlotEvent<T>>,
    read: int,
    v: T,
)
    requires
        slot_history(states, events),
        0 <= read < events.len(),
        events[read] == SlotEvent::Read(Some(v)),
        forall|i: int|
            read < i < events.len() ==> !(#[trigger] events[i] is Fill) && !(events[i] is Take),
    ensures
        states.last() == (SlotView { value: Some(v), done: true }),
    decreases events.len(),
{
    let n = events.len() - 1;
    assert(slot_step(states[n], events[n], states[n + 1]));
    if read < n {
        law_read_again(states.drop_last(), events.drop_last(), read, v);
    } else {
        lemma_result_means_done(states, events);
    }
}

/// A slot that holds a result is done.
proof fn lemma_result_means_done<T>(states: Seq<SlotView<T>>, events: Seq<SlotEvent<T>>)
    requires
        slot_history(states, events),
    ensures
        states.last().value is Some ==> states.last().done,
    decreases events.len(),
{
    if events.len() > 0 {
        let n = events.len() - 1;
        lemma_result_means_done(states.drop_last(), events.drop_last());
        assert(slot_step(states[n], events[n], states[n + 1]));
    }
}

/// A result goes to one taker: of two takes without a fill between them, the second
/// gives nothing.
pub proof fn law_one_taker<T>(
    states: Seq<SlotView<T>>,
    events: Seq<SlotEvent<T>>,
    first: int,
    second: int,
)
    requires
        slot_history(states, events),
        0 <= first < second < events.len(),
        events[first] is Take,
        events[second] is Take,
        forall|i: int| first < i < second ==> !(#[trigger] events[i] is Fill),
    ensures
        events[second] == SlotEvent::Take(None::<T>),
{
    law_taken_once(states.take(second + 1), events.take(second), first);
    assert(slot_step(states[second], events[second], states[second + 1]));
}

/// What is read or taken was stored: an answer that shows `v` comes after a fill with
/// `v`, and after no take since.
pub proof fn law_answers_come_from_fills<T>(
    states: Seq<SlotView<T>>,
    events: Seq<SlotEvent<T>>,
    asked: int,
    v: T,
)
    requires
        slot_history(states, events),
        0 <= asked < events.len(),
        events[asked] == SlotEvent::Read(Some(v)) || events[asked] == SlotEvent::Take(Some(v)),
    ensures
        exists|filled: int|
            0 <= filled < asked && #[trigger] events[filled] == SlotEvent::Fill(v) && forall|i: int|
                filled < i < asked ==> !(#[trigger] events[i] is Take),
{
    assert(slot_step(states[asked], events[asked], states[asked + 1]));
    lemma_value_was_filled(states.take(asked + 1), events.take(asked), v);
    let filled = choose|filled: int|
        0 <= filled < asked && #[trigger] events.take(asked)[filled] == SlotEvent::Fill(v)
            && forall|i: int|
            filled < i < asked ==> !(#[trigger] events.take(asked)[i] is Take);
    assert(events[filled] == SlotEvent::Fill(v));
    assert forall|i: int| filled < i < asked implies !(#[trigger] events[i] is Take) by {
        assert(events.take(asked)[i] == events[i]);
    }
}

/// A value that is there was filled in, and nothing was taken since.
proof fn lemma_value_was_filled<T>(states: Seq<SlotView<T>>, events: Seq<SlotEvent<T>>, v: T)
    requires
        slot_history(states, events),
        states.last().value == Some(v),
    ensures
        exists|filled: int|
            0 <= filled < events.len() && #[trigger] events[filled] == SlotEvent::Fill(v)
                && forall|i: int| filled < i < events.len() ==> !(#[trigger] events[i] is Take),
    decreases events.len(),
{
    assert(events.len() > 0);
    let n = events.len() - 1;
    assert(slot_step(states[n], events[n], states[n + 1]));
    if events[n] is Fill {
        assert(events[n] == SlotEvent::Fill(v));
    } else {
        let earlier = events.drop_last();
        lemma_value_was_filled(states.drop_last(), earlier, v);
        let filled = choose|filled: int|
            0 <= filled < n && #[trigger] earlier[filled] == SlotEvent::Fill(v) && forall|i: int|
                filled < i < n ==> !(#[trigger] earlier[i] is Take);
        assert(events[filled] == SlotEvent::Fill(v));
        assert forall|i: int| filled < i < events.len() implies !(#[trigger] events[i] is Take) by {
            if i < n {
                assert(earlier[i] == events[i]);
            }
        }
    }
}

/// A slot holds nothing but what a function returned: a result that is there was
/// stored by an earlier fill.
pub proof fn law_only_filled_results<T>(states: Seq<SlotView<T>>, events: Seq<SlotEvent<T>>)
    requires
        slot_history(states, events),
    ensures
        states.last().value matches Some(v) ==> events.contains(SlotEvent::Fill(v)),
    decreases events.len(),
{
    if events.len() > 0 {
        let n = events.len() - 1;
        law_only_filled_results(states.drop_last(), events.drop_last());
        assert(slot_step(states[n], events[n], states[n + 1]));
        if let Some(v) = states.last().value {
            if events[n] is Fill {
                assert(events[n] == SlotEvent::Fill(v));
            } else {
                assert(states[n].value == Some(v));
                let i = choose|i: int|
                    0 <= i < n && #[trigger] events.drop_last()[i] == SlotEvent::Fill(v);
                assert(events[i] == SlotEvent::Fill(v));
            }
        }
    }
}

/// Asking for a result, or for whether there is one, changes nothing: what is found
/// is left, and the answer is what was found.
pub proof fn law_reads_change_nothing<T>(
    data: InternalData<T>,
    found: Slot<T>,
    event: SlotEvent<T>,
    left: Slot<T>,
)
    requires
        data.steps(found, event, left),
        !data.foreign(found),
        event is Read || event is Done,
    ensures
        left@.value == found@.value,
        left@.done == found@.done,
        event matches SlotEvent::Read(answer) ==> answer == found@.value,
        event matches SlotEvent::Done(answer) ==> answer == found@.done,
{
}

/// A call takes once: what was in the slot when it was locked is what the taken
/// handle shows, and it is in the slot no more, so a take after it gets nothing. That
/// there was a result stays known.
pub proof fn law_one_take_empties<T>(
    data: InternalData<T>,
    found: Slot<T>,
    taken: Option<T>,
    left: Slot<T>,
    again: Option<T>,
    after: Slot<T>,
)
    requires
        data.steps(found, SlotEvent::Take(taken), left),
        data.steps(left, SlotEvent::Take(again), after),
        !data.foreign(found),
    ensures
        taken == found@.value,
        left@.value is None,
        left@.done == found@.done,
        again is None,
{
}

/// What is claimed is what was taken, and nothing that was taken is thrown away:
/// there is no result if and only if there was none in the slot, or `Arc::into_inner`
/// refused the very handle that came out of it.
pub proof fn law_claim_of_the_taken<T>(
    data: InternalData<T>,
    found: Slot<T>,
    handle: Option<Arc<T>>,
    left: Slot<T>,
    result: Option<T>,
)
    requires
        data.steps(found, SlotEvent::Take(shown(handle)), left),
        call_ensures(Slot::<T>::claim, (handle,), result),
        !data.foreign(found),
    ensures
        left@.value is None,
        result matches Some(v) ==> found@.value == Some(v),
        found@.value is None ==> handle is None && result is None,
        found@.value matches Some(v) ==> {
            &&& handle matches Some(a) && *a == v && Slot::<T>::let_go(a, result)
        },
{
}

/// Whether `states` are the statuses that a new executor goes through in `events`.
pub open spec fn status_history<S: Clone>(
    states: Seq<StatusView<S>>,
    events: Seq<Event<S>>,
) -> bool {
    &&& states.len() == events.len() + 1
    &&& states[0] == StatusView::<S>::initial()
    &&& forall|i: int|
        #![trigger events[i]]
        0 <= i < events.len() ==> states[i].steps_to(events[i], states[i + 1])
}

/// The statuses that `events` delivered, in the order they were sent.
pub open spec fn delivered<S>(events: Seq<Event<S>>) -> Seq<S>
    decreases events.len(),
{
    if events.len() == 0 {
        Seq::empty()
    } else {
        let before = delivered(events.drop_last());
        match events.last() {
            Event::Send(s, true) => before.push(s),
            _ => before,
        }
    }
}

/// How many delivered statuses are no longer pending after `events`.
pub open spec fn looked_at<S>(state: StatusView<S>, events: Seq<Event<S>>) -> int {
    delivered(events).len() - state.queue.pending.len()
}

/// No status is lost, repeated or reordered: what is pending are the statuses
/// delivered last, in the order they were sent. With the executor they all go.
pub proof fn law_pending_in_order<S: Clone>(states: Seq<StatusView<S>>, events: Seq<Event<S>>)
    requires
        status_history(states, events),
    ensures
        0 <= looked_at(states.last(), events) <= delivered(events).len(),
        states.last().queue.pending == delivered(events).skip(looked_at(states.last(), events)),
    decreases events.len(),
{
    let all = delivered(events);
    let now = states.last();
    if events.len() > 0 {
        let n = events.len() - 1;
        let earlier = events.drop_last();
        law_pending_in_order(states.drop_last(), earlier);
        let before = states[n];
        assert(states.drop_last().last() == before);
        assert(before.steps_to(events[n], now));
        assert(now.queue.pending =~= all.skip(looked_at(now, events)));
    } else {
        assert(now.queue.pending =~= all.skip(0));
    }
}

/// Statuses come in the order they were sent, each once: [`status`] answers with
/// the first delivered status that was not looked at, which then has been, and
/// with nothing if there is none.
///
/// [`status`]: crate::StatusExecutor::status
pub proof fn law_status_in_order<S: Clone>(
    states: Seq<StatusView<S>>,
    events: Seq<Event<S>>,
    answer: Option<S>,
)
    requires
        status_history(states, events),
        events.len() > 0,
        events.last() == Event::Status(answer),
    ensures
        ({
            let earlier = events.drop_last();
            let next = looked_at(states[events.len() - 1], earlier);
            if next < delivered(earlier).len() {
                &&& answer == Some(delivered(earlier)[next])
                &&& looked_at(states.last(), events) == next + 1
            } else {
                &&& answer is None
                &&& looked_at(states.last(), events) == next
            }
        }),
{
    let n = events.len() - 1;
    let earlier = events.drop_last();
    assert(states.drop_last().last() == states[n]);
    law_pending_in_order(states.drop_last(), earlier);
    assert(states[n].steps_to(events[n], states[n + 1]));
}

/// The status looked at last is remembered as long as the executor exists: a clone
/// of it is kept once there was one, whatever is sent or asked afterwards.
pub proof fn law_last_is_remembered<S: Clone>(states: Seq<StatusView<S>>, events: Seq<Event<S>>)
    requires
        status_history(states, events),
        forall|i: int| 0 <= i < events.len() ==> !(#[trigger] events[i] is Close),
    ensures
        ({
            let count = looked_at(states.last(), events);
            &&& count == 0 <==> states.last().last is None
            &&& states.last().last matches Some(l) ==> strictly_cloned(
                delivered(events)[count - 1],
                l,
            )
        }),
    decreases events.len(),
{
    if events.len() > 0 {
        let n = events.len() - 1;
        let earlier = events.drop_last();
        assert(states.drop_last().last() == states[n]);
        law_last_is_remembered(states.drop_last(), earlier);
        law_pending_in_order(states.drop_last(), earlier);
        law_pending_in_order(states, events);
        assert(states[n].steps_to(events[n], states[n + 1]));
    }
}

/// The latest status is the one sent last: [`latest_status`] answers with it if it
/// is new, and with a clone of the clone that was kept of it otherwise. It has an
/// answer as soon as a status was delivered, and looks at all there are.
///
/// [`latest_status`]: crate::StatusExecutor::latest_status
pub proof fn law_latest_is_newest<S: Clone>(
    states: Seq<StatusView<S>>,
    events: Seq<Event<S>>,
    answer: Option<S>,
)
    requires
        status_history(states, events),
        events.len() > 0,
        events.last() == Event::Latest(answer),
        forall|i: int| 0 <= i < events.len() ==> !(#[trigger] events[i] is Close),
    ensures
        looked_at(states.last(), events) == delivered(events).len(),
        answer is None <==> delivered(events).len() == 0,
        answer matches Some(a) ==> {
            let newest = delivered(events).last();
            if looked_at(states[events.len() - 1], events.drop_last()) < delivered(events).len() {
                a == newest
            } else {
                exists|kept: S| #[trigger] strictly_cloned(newest, kept) && strictly_cloned(kept, a)
            }
        },
{
    let n = events.len() - 1;
    let earlier = events.drop_last();
    assert(states.drop_last().last() == states[n]);
    law_pending_in_order(states.drop_last(), earlier);
    law_last_is_remembered(states.drop_last(), earlier);
    assert(states[n].steps_to(events[n], states[n + 1]));
    assert(delivered(events) == delivered(earlier));
    if states[n].queue.pending.len() == 0 {
        if let Some(kept) = states[n].last {
            assert(strictly_cloned(delivered(events).last(), kept));
        }
    }
}

/// A status is delivered exactly as long as the executor exists: every send is
/// answered with whether the executor was not dropped before it.
pub proof fn law_delivered_until_dropped<S: Clone>(
    states: Seq<StatusView<S>>,
    events: Seq<Event<S>>,
)
    requires
        status_history(states, events),
    ensures
        forall|i: int|
            0 <= i < events.len() ==> (#[trigger] events[i] matches Event::Send(_, answer)
                ==> answer == !events.take(i).contains(Event::Close)),
{
    assert forall|i: int| 0 <= i < events.len() implies (#[trigger] events[i] matches Event::Send(
        _,
        answer,
    ) ==> answer == !events.take(i).contains(Event::Close)) by {
        lemma_open_until_dropped(states.take(i + 1), events.take(i));
        assert(states[i].steps_to(events[i], states[i + 1]));
    }
}

/// A queue is open exactly as long as the executor was not dropped.
proof fn lemma_open_until_dropped<S: Clone>(states: Seq<StatusView<S>>, events: Seq<Event<S>>)
    requires
        status_history(states, events),
    ensures
        states.last().queue.open == !events.contains(Event::Close),
    decreases events.len(),
{
    if events.len() > 0 {
        let n = events.len() - 1;
        let earlier = events.drop_last();
        lemma_open_until_dropped(states.drop_last(), earlier);
        assert(states[n].steps_to(events[n], states[n + 1]));
        if earlier.contains(Event::Close) {
            let i = choose|i: int| 0 <= i < n && earlier[i] == Event::<S>::Close;
            assert(events[i] == Event::<S>::Close);
        }
        if events.contains(Event::Close) && !(events[n] is Close) {
            let i = choose|i: int| 0 <= i < events.len() && events[i] == Event::<S>::Close;
            assert(earlier[i] == Event::<S>::Close);
        }
        assert(events.last() == events[n]);
    }
}

/// A send adds its status behind all others, or changes nothing, and says which.
pub proof fn law_send_appends<S>(
    before: QueueView<S>,
    s: S,
    delivered: bool,
    after: QueueView<S>,
)
    requires
        before.sends(s, delivered, after),
    ensures
        delivered ==> after.pending == before.pending + seq![s],
        !delivered ==> after.pending == before.pending,
        delivered == before.open,
        after.open == before.open,
{
    assert(before.pending.push(s) =~= before.pending + seq![s]);
}

/// A receive takes one status and no more: what was pending is the status that came
/// out, followed by what is left.
pub proof fn law_receive_leaves_the_rest<S>(before: QueueView<S>, after: QueueView<S>)
    requires
        after == before.received(),
    ensures
        before.oldest() matches Some(s) ==> before.pending == seq![s] + after.pending,
        before.oldest() is None ==> before.pending.len() == 0 && after.pending.len() == 0,
        after.open == before.open,
{
    if before.pending.len() > 0 {
        assert(before.pending =~= seq![before.pending[0]] + after.pending);
    }
}

/// Receives give the statuses one by one: the statuses that two receives take, when
/// the second finds what the first left and what was sent in between, are the two
/// that stood in front.
pub proof fn law_receives_in_turn<S>(
    before: QueueView<S>,
    between: QueueView<S>,
    sent: Seq<S>,
    found: QueueView<S>,
    after: QueueView<S>,
)
    requires
        between == before.received(),
        found.pending == between.pending + sent,
        after == found.received(),
        before.pending.len() + sent.len() >= 2,
        before.pending.len() >= 1,
    ensures
        ({
            let all = before.pending + sent;
            &&& before.oldest() == Some(all[0])
            &&& found.oldest() == Some(all[1])
            &&& after.pending == all.skip(2)
        }),
{
    let all = before.pending + sent;
    assert(found.pending =~= all.skip(1));
    assert(after.pending =~= all.skip(2));
}

/// Statuses leave the queue in front, and only with the answer: what is left is what
/// was found without the first so many, these are all that was counted, and the last
/// of them is the answer. If none left, none was there.
pub proof fn law_only_the_answered_leave<S: Clone>(
    queue: Queue<S>,
    seen: Seen<S>,
    event: Event<S>,
    left: Queue<S>,
    after: Seen<S>,
)
    requires
        looks(queue, seen, event, left, after),
        event is Status || event is Latest,
    ensures
        ({
            let gone = after.count() - seen.count();
            let answer = match event {
                Event::Status(answer) => answer,
                Event::Latest(answer) => answer,
                _ => None,
            };
            &&& 0 <= gone <= queue@.pending.len()
            &&& left@.pending == queue@.pending.skip(gone)
            &&& left@.open == queue@.open
            &&& gone == 0 <==> queue@.pending.len() == 0
            &&& gone > 0 ==> answer == Some(queue@.pending[gone - 1])
            &&& gone == 0 ==> after.last() == seen.last()
            &&& event is Status ==> gone <= 1 && (answer is None <==> gone == 0)
            &&& event is Latest ==> left@.pending.len() == 0 && (answer is None <==> gone == 0
                && seen.last() is None)
        }),
{
    let gone = after.count() - seen.count();
    assert(left@.pending =~= queue@.pending.skip(gone));
}

/// Looks follow each other without a gap: when the second of two finds what the first
/// left and what was sent in between, the two together take the first so many of all
/// statuses there were, and the answer to the second is the last one that it took.
pub proof fn law_looks_in_turn<S: Clone>(
    queue: Queue<S>,
    seen: Seen<S>,
    first: Event<S>,
    between: Queue<S>,
    noted: Seen<S>,
    sent: Seq<S>,
    found: Queue<S>,
    second: Event<S>,
    left: Queue<S>,
    after: Seen<S>,
)
    requires
        looks(queue, seen, first, between, noted),
        looks(found, noted, second, left, after),
        found@.pending == between@.pending + sent,
        first is Status || first is Latest,
        second is Status || second is Latest,
    ensures
        ({
            let all = queue@.pending + sent;
            let start = noted.count() - seen.count();
            let end = after.count() - seen.count();
            &&& 0 <= start <= end <= all.len()
            &&& left@.pending == all.skip(end)
            &&& second matches Event::Status(answer) ==> answer == if start < all.len() {
                Some(all[start])
            } else {
                None
            }
            &&& second matches Event::Latest(answer) ==> end == all.len() && (start < end
                ==> answer == Some(all.last()))
        }),
{
    let all = queue@.pending + sent;
    let start = noted.count() - seen.count();
    law_only_the_answered_leave(queue, seen, first, between, noted);
    law_only_the_answered_leave(found, noted, second, left, after);
    assert(found@.pending =~= all.skip(start));
    assert(left@.pending =~= all.skip(after.count() - seen.count()));
}

} // verus!
