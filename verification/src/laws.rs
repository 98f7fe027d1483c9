//! What holds of every bus, whatever the sequence of joins, publishes,
//! receives and destructions: proved over the models that the contracts of
//! the bus state speak of.

use crate::flag::Flag;
use crate::roster::BusModel;
use crate::subscriber::SubscriberModel;
use std::sync::Arc;
use vstd::prelude::*;

verus! {

/// The first `min(|events|, room)` of `events`, where `room` is what a
/// mailbox can still take.
pub open spec fn accepted<T>(events: Seq<Arc<T>>, room: int) -> Seq<Arc<T>> {
    if events.len() <= room {
        events
    } else if room <= 0 {
        Seq::empty()
    } else {
        events.subrange(0, room)
    }
}

/// Offering a sequence of events to a record appends the longest prefix of
/// them that fits, in order and each once, and drops the rest; nothing else
/// about the record changes.
pub proof fn law_offers_keep_a_prefix<T>(r: SubscriberModel<T>, events: Seq<Arc<T>>)
    requires
        r.wf(),
    ensures
        r.offered_all(events).wf(),
        r.offered_all(events) == (SubscriberModel {
            queue: r.queue + accepted(events, r.capacity - r.queue.len()),
            ..r
        }),
    decreases events.len(),
{
    let room = r.capacity - r.queue.len();
    if events.len() == 0 {
        assert(r.queue + accepted(events, room) =~= r.queue);
    } else {
        let head = events.drop_last();
        law_offers_keep_a_prefix(r, head);
        let p = r.offered_all(head);
        assert(p.queue == r.queue + accepted(head, room));
        if events.len() <= room {
            assert(p.queue.push(events.last()) =~= r.queue + events);
        } else if head.len() <= room {
            assert(accepted(events, room) =~= head);
        } else {
            assert(accepted(events, room) =~= accepted(head, room));
        }
    }
}

/// Publishing keeps a bus well formed and touches only the queues of the
/// registered records: after a sequence of publishes on a live bus each of
/// them has been offered every event, in publish order; a dead bus, a free
/// slot and a record that the roster let go of are left as they were.
pub proof fn law_publishes_reach_every_registered_record<T>(m: BusModel<T>, events: Seq<Arc<T>>)
    requires
        m.wf(),
    ensures
        m.published_all(events).wf(),
        m.published_all(events).alive == m.alive,
        m.published_all(events).name == m.name,
        m.published_all(events).slots.len() == m.slots.len(),
        forall|s: int|
            0 <= s < m.slots.len() ==> #[trigger] m.published_all(events).slots[s] == if m.alive
                && m.listed(s) {
                Some(m.slots[s].unwrap().offered_all(events))
            } else {
                m.slots[s]
            },
    decreases events.len(),
{
    if events.len() > 0 {
        let head = events.drop_last();
        law_publishes_reach_every_registered_record(m, head);
        let p = m.published_all(head);
        let q = p.published(events.last());
        assert forall|s: int| 0 <= s < m.slots.len() implies #[trigger] q.slots[s] == if m.alive
            && m.listed(s) {
            Some(m.slots[s].unwrap().offered_all(events))
        } else {
            m.slots[s]
        } by {
            if m.alive && m.listed(s) {
                law_offers_keep_a_prefix(m.slots[s].unwrap(), head);
            }
        }
        assert forall|s: int| 0 <= s < q.slots.len() && (#[trigger] q.slots[s]) is Some implies q.slots[s].unwrap().wf() by {
            assert(m.slots[s] is Some);
            if m.alive && m.listed(s) {
                law_offers_keep_a_prefix(m.slots[s].unwrap(), events);
            }
        }
    }
}

/// A registered subscriber whose mailbox has room for all of them receives
/// every event published on a live bus, in publish order, exactly once: its
/// queue grows by exactly the published sequence.
pub proof fn law_every_event_once_in_order<T>(m: BusModel<T>, s: int, events: Seq<Arc<T>>)
    requires
        m.wf(),
        m.alive,
        m.listed(s),
        m.slots[s].unwrap().queue.len() + events.len() <= m.slots[s].unwrap().capacity,
    ensures
        m.published_all(events).occupied(s),
        m.published_all(events).slots[s].unwrap().queue == m.slots[s].unwrap().queue + events,
{
    law_publishes_reach_every_registered_record(m, events);
    law_offers_keep_a_prefix(m.slots[s].unwrap(), events);
}

/// Receiving is first in, first out: after `k` receives the next one returns
/// the event that stood at position `k`, and once the queue is drained a
/// receive returns nothing.
pub proof fn law_receives_follow_the_queue<T>(r: SubscriberModel<T>, k: nat)
    ensures
        r.advanced_by(k).queue == if k <= r.queue.len() {
            r.queue.subrange(k as int, r.queue.len() as int)
        } else {
            Seq::<Arc<T>>::empty()
        },
        r.advanced_by(k).next() == if k < r.queue.len() {
            Some(r.queue[k as int])
        } else {
            None::<Arc<T>>
        },
        r.advanced_by(k).capacity == r.capacity,
        r.advanced_by(k).live == r.live,
        r.advanced_by(k).registered == r.registered,
    decreases k,
{
    if k == 0 {
        assert(r.queue.subrange(0, r.queue.len() as int) =~= r.queue);
    } else {
        let a = r.advanced();
        law_receives_follow_the_queue(a, (k - 1) as nat);
        if r.queue.len() > 0 {
            if k <= r.queue.len() {
                assert(a.queue.subrange(k - 1, a.queue.len() as int) =~= r.queue.subrange(
                    k as int,
                    r.queue.len() as int,
                ));
            }
        } else {
            assert(r.queue =~= Seq::<Arc<T>>::empty());
        }
    }
}

/// Publishing `n` events to a registered subscriber with an empty mailbox of
/// at least `n` slots, and then draining it, yields exactly those events in
/// publish order: the receive after `k` earlier ones returns event `k`, and
/// the receive after `n` returns nothing.
pub proof fn law_publish_then_drain<T>(m: BusModel<T>, s: int, events: Seq<Arc<T>>, k: nat)
    requires
        m.wf(),
        m.alive,
        m.listed(s),
        m.slots[s].unwrap().queue.len() == 0,
        events.len() <= m.slots[s].unwrap().capacity,
    ensures
        m.published_all(events).occupied(s),
        m.published_all(events).slots[s].unwrap().advanced_by(k).next() == if k < events.len() {
            Some(events[k as int])
        } else {
            None::<Arc<T>>
        },
{
    law_every_event_once_in_order(m, s, events);
    assert(m.slots[s].unwrap().queue + events =~= events);
    law_receives_follow_the_queue(m.published_all(events).slots[s].unwrap(), k);
}

/// Publishing more events than an empty mailbox can hold leaves in it
/// exactly as many as its capacity: the first ones, in order. Draining it
/// then returns those and after them nothing.
pub proof fn law_overflow_drops_the_newest<T>(m: BusModel<T>, s: int, events: Seq<Arc<T>>)
    requires
        m.wf(),
        m.alive,
        m.listed(s),
        m.slots[s].unwrap().queue.len() == 0,
        m.slots[s].unwrap().capacity < events.len(),
    ensures
        m.published_all(events).occupied(s),
        m.published_all(events).slots[s].unwrap().queue == events.subrange(
            0,
            m.slots[s].unwrap().capacity as int,
        ),
        m.published_all(events).slots[s].unwrap().advanced_by(
            m.slots[s].unwrap().capacity,
        ).next() is None,
{
    let r = m.slots[s].unwrap();
    law_publishes_reach_every_registered_record(m, events);
    law_offers_keep_a_prefix(r, events);
    assert(r.queue + accepted(events, r.capacity as int) =~= events.subrange(
        0,
        r.capacity as int,
    ));
    law_receives_follow_the_queue(m.published_all(events).slots[s].unwrap(), r.capacity);
}

/// Once the bus handle is destroyed the bus is dead, a publish changes
/// nothing, and every subscriber whose handle still exists keeps what was
/// buffered for it: it receives exactly that, and then nothing.
pub proof fn law_a_dead_bus_delivers_nothing_new<T>(m: BusModel<T>, events: Seq<Arc<T>>)
    requires
        m.wf(),
    ensures
        m.torn_down().wf(),
        !m.torn_down().alive,
        m.torn_down().published_all(events) == m.torn_down(),
        forall|s: int|
            m.occupied(s) && (#[trigger] m.slots[s]).unwrap().live ==> m.torn_down().occupied(s)
                && m.torn_down().slots[s].unwrap().queue == m.slots[s].unwrap().queue
                && m.torn_down().next(s) == m.next(s),
    decreases events.len(),
{
    let d = m.torn_down();
    assert forall|i: int| 0 <= i < d.slots.len() && (#[trigger] d.slots[i]) is Some implies d.slots[i].unwrap().wf() by {
        assert(m.slots[i] is Some);
    }
    if events.len() > 0 {
        law_a_dead_bus_delivers_nothing_new(m, events.drop_last());
    }
}

/// No transition brings a dead bus back to life.
pub proof fn law_death_is_final<T>(
    m: BusModel<T>,
    s: int,
    name: Seq<char>,
    capacity: nat,
    handle: Flag,
    event: Arc<T>,
)
    requires
        !m.alive,
    ensures
        !m.joined(name, capacity, handle).alive,
        !m.published(event).alive,
        !m.collected().alive,
        !m.left(s).alive,
        !m.received(s).alive,
        !m.torn_down().alive,
{
}

/// Garbage collection removes exactly the records whose handle is gone.
/// Every other record is untouched, and what it is offered by a later
/// publish is what it would have been offered without the collection.
pub proof fn law_collection_removes_exactly_the_dead<T>(m: BusModel<T>, event: Arc<T>)
    requires
        m.wf(),
    ensures
        m.collected().wf(),
        m.collected().alive == m.alive,
        m.collected().slots.len() == m.slots.len(),
        forall|s: int|
            0 <= s < m.slots.len() ==> (#[trigger] m.collected().occupied(s)) == (m.occupied(s)
                && m.slots[s].unwrap().live),
        forall|s: int|
            m.occupied(s) && (#[trigger] m.slots[s]).unwrap().live ==> m.collected().slots[s]
                == m.slots[s] && m.collected().published(event).slots[s] == m.published(
                event,
            ).slots[s],
{
    let c = m.collected();
    assert forall|i: int| 0 <= i < c.slots.len() && (#[trigger] c.slots[i]) is Some implies c.slots[i].unwrap().wf() by {
        assert(m.slots[i] is Some);
    }
}

/// A subscriber never receives what was published before it joined: whatever
/// `earlier` events the bus had published, the mailbox of a new subscriber
/// starts empty, and after `later` events it holds the prefix of `later` that
/// fits (on a dead bus, nothing).
pub proof fn law_no_event_from_before_the_join<T>(
    m: BusModel<T>,
    earlier: Seq<Arc<T>>,
    name: Seq<char>,
    capacity: nat,
    handle: Flag,
    later: Seq<Arc<T>>,
)
    requires
        m.wf(),
    ensures
        ({
            let s = m.slots.len() as int;
            let joined = m.published_all(earlier).joined(name, capacity, handle);
            &&& joined.wf()
            &&& joined.listed(s)
            &&& joined.slots[s].unwrap().queue == Seq::<Arc<T>>::empty()
            &&& joined.published_all(later).occupied(s)
            &&& joined.published_all(later).slots[s].unwrap().queue == if m.alive {
                accepted(later, capacity as int)
            } else {
                Seq::<Arc<T>>::empty()
            }
        }),
{
    law_publishes_reach_every_registered_record(m, earlier);
    let before = m.published_all(earlier);
    let s = m.slots.len() as int;
    let joined = before.joined(name, capacity, handle);
    let fresh = SubscriberModel::<T>::fresh(name, capacity, handle);
    assert forall|i: int| 0 <= i < joined.slots.len() && (#[trigger] joined.slots[i]) is Some implies joined.slots[i].unwrap().wf() by {
        if i != s {
            assert(before.slots[i] is Some);
        }
    }
    law_publishes_reach_every_registered_record(joined, later);
    law_offers_keep_a_prefix(fresh, later);
    assert(fresh.queue + accepted(later, capacity as int) =~= accepted(later, capacity as int));
}

/// A join appends: the new record, empty, live and registered, stands after
/// all the others, and every other slot keeps its place and its content. So
/// the table is in the order in which the subscribers joined.
pub proof fn law_a_join_appends<T>(m: BusModel<T>, name: Seq<char>, capacity: nat, handle: Flag)
    ensures
        m.joined(name, capacity, handle).slots == m.slots.push(
            Some(SubscriberModel::<T>::fresh(name, capacity, handle)),
        ),
        m.joined(name, capacity, handle).slots.len() == m.slots.len() + 1,
        forall|s: int|
            0 <= s < m.slots.len() ==> #[trigger] m.joined(name, capacity, handle).slots[s]
                == m.slots[s],
        m.joined(name, capacity, handle).alive == m.alive,
        m.joined(name, capacity, handle).name == m.name,
{
}

/// One thing that happens to a bus.
pub enum Step<T> {
    /// A subscriber joins, with a name, a mailbox capacity and the flag of
    /// its handle.
    Join { name: Seq<char>, capacity: nat, handle: Flag },
    /// An event is published.
    Publish { event: Arc<T> },
    /// The subscriber of a slot receives once.
    Receive { slot: int },
    /// The subscriber handle of a slot is destroyed.
    Leave { slot: int },
    /// Dead registrations are collected.
    Collect,
    /// The bus handle is destroyed.
    Teardown,
}

/// The bus after one step.
pub open spec fn after<T>(m: BusModel<T>, step: Step<T>) -> BusModel<T> {
    match step {
        Step::Join { name, capacity, handle } => m.joined(name, capacity, handle),
        Step::Publish { event } => m.published(event),
        Step::Receive { slot } => m.received(slot),
        Step::Leave { slot } => m.left(slot),
        Step::Collect => m.collected(),
        Step::Teardown => m.torn_down(),
    }
}

/// The bus after a sequence of steps.
pub open spec fn after_all<T>(m: BusModel<T>, steps: Seq<Step<T>>) -> BusModel<T>
    decreases steps.len(),
{
    if steps.len() == 0 {
        m
    } else {
        after(after_all(m, steps.drop_last()), steps.last())
    }
}

/// The events that a sequence of steps publishes, in order.
pub open spec fn published_in<T>(steps: Seq<Step<T>>) -> Seq<Arc<T>>
    decreases steps.len(),
{
    if steps.len() == 0 {
        Seq::empty()
    } else {
        match steps.last() {
            Step::Publish { event } => published_in(steps.drop_last()).push(event),
            _ => published_in(steps.drop_last()),
        }
    }
}

/// The steps leave the subscriber of slot `s` and the bus handle alone: the
/// bus is not torn down, and that subscriber neither receives nor is destroyed.
pub open spec fn undisturbed<T>(steps: Seq<Step<T>>, s: int) -> bool {
    forall|i: int|
        0 <= i < steps.len() ==> match #[trigger] steps[i] {
            Step::Teardown => false,
            Step::Receive { slot } => slot != s,
            Step::Leave { slot } => slot != s,
            _ => true,
        }
}

/// Every step keeps a bus well formed.
pub proof fn law_steps_keep_the_bus_well_formed<T>(m: BusModel<T>, step: Step<T>)
    requires
        m.wf(),
    ensures
        after(m, step).wf(),
{
    let n = after(m, step);
    assert forall|i: int| 0 <= i < n.slots.len() && (#[trigger] n.slots[i]) is Some implies n.slots[i].unwrap().wf() by {
        if i < m.slots.len() {
            if m.slots[i] is Some {
                assert(m.slots[i].unwrap().wf());
            }
        }
    }
}

/// Whatever else happens on a live bus (others joining, receiving or being
/// destroyed, publishes, collections), a registered subscriber whose handle
/// exists is offered every event published after it joined, in publish
/// order and each once, and nothing else: its record after the steps is its
/// record before them, offered the published events.
pub proof fn law_a_subscriber_is_offered_every_event<T>(
    m: BusModel<T>,
    s: int,
    steps: Seq<Step<T>>,
)
    requires
        m.wf(),
        m.alive,
        m.listed(s),
        m.slots[s].unwrap().live,
        undisturbed(steps, s),
    ensures
        after_all(m, steps).wf(),
        after_all(m, steps).alive,
        after_all(m, steps).listed(s),
        after_all(m, steps).slots[s].unwrap() == m.slots[s].unwrap().offered_all(
            published_in(steps),
        ),
    decreases steps.len(),
{
    if steps.len() > 0 {
        let head = steps.drop_last();
        let last = steps.last();
        assert forall|i: int| 0 <= i < head.len() implies match #[trigger] head[i] {
            Step::Teardown => false,
            Step::Receive { slot } => slot != s,
            Step::Leave { slot } => slot != s,
            _ => true,
        } by {
            assert(head[i] == steps[i]);
        }
        law_a_subscriber_is_offered_every_event(m, s, head);
        let p = after_all(m, head);
        assert(steps[steps.len() - 1] == last);
        law_steps_keep_the_bus_well_formed(p, last);
        law_offers_keep_a_prefix(m.slots[s].unwrap(), published_in(head));
        match last {
            Step::Publish { event } => {
                assert(published_in(steps).drop_last() =~= published_in(head));
            },
            _ => {},
        }
    }
}

} // verus!
