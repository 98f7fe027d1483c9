use ebus::flag::Flag;
use ebus::mailbox::Mailbox;
use ebus::roster::EventBusCore;
use ebus::subscriber::EventSubscriberCore;
use ebus::EventBus;
use std::sync::Arc;

fn names(list: &[&str]) -> Option<Vec<String>> {
    Some(list.iter().map(|s| String::from(*s)).collect())
}

fn drain(sub: &ebus::EventSubscriber<u32>) -> Vec<u32> {
    let mut got = Vec::new();
    while let Some(v) = sub.get_next_event() {
        got.push(*v);
    }
    got
}

#[test]
fn sufficient_capacity_receives_everything_in_order() {
    let bus = EventBus::<u32>::new("bus");
    let publ = bus.join_as_publisher("pub");
    let sub = bus.join_as_subscriber("sub", 5);
    for i in 0..5 {
        assert_eq!(publ.publish(i), names(&[]));
    }
    assert_eq!(drain(&sub), vec![0, 1, 2, 3, 4]);
    assert!(sub.get_next_event().is_none());
}

#[test]
fn overflow_keeps_the_first_events() {
    let bus = EventBus::<u32>::new("bus");
    let publ = bus.join_as_publisher("pub");
    let sub = bus.join_as_subscriber("sub", 3);
    for i in 0..3 {
        assert_eq!(publ.publish(i), names(&[]));
    }
    for i in 3..10 {
        assert_eq!(publ.publish(i), names(&["sub"]));
    }
    assert_eq!(drain(&sub), vec![0, 1, 2]);
    assert!(sub.get_next_event().is_none());
}

#[test]
fn full_mailbox_does_not_affect_other_subscribers() {
    let bus = EventBus::<u32>::new("bus");
    let publ = bus.join_as_publisher("pub");
    let small = bus.join_as_subscriber("small", 1);
    let large = bus.join_as_subscriber("large", 4);
    assert_eq!(publ.publish(7), names(&[]));
    assert_eq!(publ.publish(8), names(&["small"]));
    assert_eq!(publ.publish(9), names(&["small"]));
    assert_eq!(drain(&small), vec![7]);
    assert_eq!(drain(&large), vec![7, 8, 9]);
    assert_eq!(publ.publish(10), names(&[]));
    assert_eq!(drain(&small), vec![10]);
    assert_eq!(drain(&large), vec![10]);
}

#[test]
fn zero_capacity_is_always_full_and_always_empty() {
    let bus = EventBus::<u32>::new("bus");
    let publ = bus.join_as_publisher("pub");
    let probe = bus.join_as_subscriber("probe", 0);
    assert_eq!(publ.publish(1), names(&["probe"]));
    assert!(probe.get_next_event().is_none());
    assert!(probe.is_bus_alive());
    drop(bus);
    assert!(!probe.is_bus_alive());
}

#[test]
fn subscribers_share_one_event() {
    let bus = EventBus::<String>::new("bus");
    let publ = bus.join_as_publisher("pub");
    let a = bus.join_as_subscriber("a", 2);
    let b = bus.join_as_subscriber("b", 2);
    publ.publish(String::from("hello"));
    let ea = a.get_next_event().unwrap();
    let eb = b.get_next_event().unwrap();
    assert!(Arc::ptr_eq(&ea, &eb));
    assert_eq!(*ea, "hello");
    assert_eq!(Arc::strong_count(&ea), 2);
}

#[test]
fn late_subscriber_sees_only_later_events() {
    let bus = EventBus::<u32>::new("bus");
    let publ = bus.join_as_publisher("pub");
    let early = bus.join_as_subscriber("early", 10);
    for i in 0..4 {
        publ.publish(i);
    }
    let late = bus.join_as_subscriber("late", 10);
    publ.publish(4);
    publ.publish(5);
    assert_eq!(drain(&late), vec![4, 5]);
    assert_eq!(drain(&early), vec![0, 1, 2, 3, 4, 5]);
}

#[test]
fn dead_bus_discards_and_buffered_events_stay() {
    let bus = EventBus::<u32>::new("bus");
    let publ = bus.join_as_publisher("pub");
    let sub = bus.join_as_subscriber("sub", 10);
    publ.publish(1);
    publ.publish(2);
    assert!(publ.is_bus_alive());
    assert!(sub.is_bus_alive());
    drop(bus);
    assert!(!publ.is_bus_alive());
    assert!(!sub.is_bus_alive());
    assert_eq!(publ.publish(3), None);
    assert_eq!(drain(&sub), vec![1, 2]);
    assert!(sub.get_next_event().is_none());
}

#[test]
fn garbage_collect_removes_only_dead_subscribers() {
    let bus = EventBus::<u32>::new("bus");
    let publ = bus.join_as_publisher("pub");
    let live = bus.join_as_subscriber("live", 10);
    let dead = bus.join_as_subscriber("dead", 0);
    publ.publish(1);
    drop(dead);
    // a dead record stays registered, and is still offered events, until collected
    assert_eq!(publ.publish(2), names(&["dead"]));
    bus.garbage_collect();
    assert_eq!(publ.publish(3), names(&[]));
    assert_eq!(drain(&live), vec![1, 2, 3]);
    bus.garbage_collect();
    assert_eq!(publ.publish(4), names(&[]));
    assert_eq!(drain(&live), vec![4]);
}

#[test]
fn handles_report_nothing_lost_after_subscriber_outlives_bus() {
    let bus = EventBus::<u32>::new("bus");
    let publ = bus.join_as_publisher("pub");
    let first = bus.join_as_subscriber("first", 2);
    publ.publish(11);
    drop(bus);
    drop(publ);
    assert_eq!(drain(&first), vec![11]);
}

#[test]
fn mailbox_is_bounded_fifo() {
    let mut m: Mailbox<u32> = Mailbox::new(2);
    assert_eq!(m.limit(), 2);
    assert_eq!(m.len(), 0);
    assert!(m.try_recv().is_none());
    assert!(m.try_send(Arc::new(1)).is_ok());
    assert!(m.try_send(Arc::new(2)).is_ok());
    let back = m.try_send(Arc::new(3));
    assert_eq!(back.map_err(|e| *e), Err(3));
    assert_eq!(m.len(), 2);
    assert_eq!(m.try_recv().map(|e| *e), Some(1));
    assert_eq!(m.try_recv().map(|e| *e), Some(2));
    assert_eq!(m.try_recv().map(|e| *e), None);
}

#[test]
fn record_tracks_liveness_and_drops_when_full() {
    let mut r: EventSubscriberCore<u32> = EventSubscriberCore::_new(String::from("sub"), 1, Flag::new());
    assert!(r._is_alive());
    assert!(r._is_registered());
    assert_eq!(r._debug_name(), "sub");
    assert!(r._try_send(Arc::new(5)));
    assert!(!r._try_send(Arc::new(6)));
    r._retire();
    assert!(!r._is_alive());
    assert_eq!(r._get_next_event().map(|e| *e), Some(5));
    assert!(r._get_next_event().is_none());
}

#[test]
fn bus_state_appends_every_new_subscriber() {
    let mut bus: EventBusCore<u32> = EventBusCore::_new(String::from("bus"));
    assert!(bus._is_alive());
    assert_eq!(bus._debug_name(), "bus");
    assert_eq!(bus._join(String::from("a"), 1, Flag::new()), 0);
    assert_eq!(bus._join(String::from("b"), 1, Flag::new()), 1);
    assert_eq!(bus._join(String::from("c"), 1, Flag::new()), 2);
    bus._leave(1);
    // dead, but still registered
    assert_eq!(bus._publish(Arc::new(1)), names(&[]));
    assert_eq!(bus._publish(Arc::new(2)), names(&["a", "b", "c"]));
    bus._garbage_collect();
    assert_eq!(bus._publish(Arc::new(3)), names(&["a", "c"]));
    // a collected slot is never taken again: a join appends
    assert_eq!(bus._join(String::from("d"), 0, Flag::new()), 3);
    assert_eq!(bus._join(String::from("e"), 0, Flag::new()), 4);
    assert_eq!(bus._publish(Arc::new(4)), names(&["a", "c", "d", "e"]));
    assert_eq!(bus._get_next_event(0).map(|e| *e), Some(1));
    assert!(bus._get_next_event(0).is_none());
    assert!(bus._get_next_event(1).is_none());
    assert!(bus._get_next_event(9).is_none());
    bus._leave(9);
}

#[test]
fn bus_state_teardown_keeps_live_mailboxes_only() {
    let mut bus: EventBusCore<u32> = EventBusCore::_new(String::from("bus"));
    let a = bus._join(String::from("a"), 4, Flag::new());
    let b = bus._join(String::from("b"), 4, Flag::new());
    assert_eq!(bus._publish(Arc::new(1)), names(&[]));
    bus._leave(b);
    bus._teardown();
    assert!(!bus._is_alive());
    assert_eq!(bus._publish(Arc::new(2)), None);
    assert_eq!(bus._get_next_event(a).map(|e| *e), Some(1));
    assert!(bus._get_next_event(a).is_none());
    assert!(bus._get_next_event(b).is_none());
    // joining a dead bus succeeds, and nothing is ever delivered
    let c = bus._join(String::from("c"), 4, Flag::new());
    assert_eq!(c, 2);
    assert_eq!(bus._publish(Arc::new(3)), None);
    assert!(bus._get_next_event(c).is_none());
    bus._leave(a);
    assert!(bus._get_next_event(a).is_none());
}

#[test]
fn flag_is_shared_and_stays_lowered() {
    let f = Flag::new();
    let g = f.share();
    assert!(f.is_raised());
    assert!(g.is_raised());
    g.lower();
    assert!(!f.is_raised());
    assert!(!g.is_raised());
    f.lower();
    assert!(!f.is_raised());
    assert!(!f.share().is_raised());
}

#[test]
fn bus_state_notices_destroyed_handles_only_when_it_looks() {
    let mut bus: EventBusCore<u32> = EventBusCore::_new(String::from("bus"));
    let fa = Flag::new();
    let fb = Flag::new();
    let a = bus._join(String::from("a"), 0, fa.share());
    let b = bus._join(String::from("b"), 0, fb.share());
    assert_eq!((a, b), (0, 1));
    fb.lower();
    bus._garbage_collect();
    assert_eq!(bus._publish(Arc::new(1)), names(&["a", "b"]));
    assert_eq!(bus._observe_departures(), vec![1]);
    // noticed, but still registered until collected
    assert_eq!(bus._publish(Arc::new(2)), names(&["a", "b"]));
    bus._garbage_collect();
    assert_eq!(bus._publish(Arc::new(3)), names(&["a"]));
    assert_eq!(bus._join(String::from("c"), 1, Flag::new()), 2);
    assert_eq!(bus._publish(Arc::new(4)), names(&["a"]));
    assert_eq!(bus._publish(Arc::new(5)), names(&["a", "c"]));
    assert!(bus._get_next_event(1).is_none());
    assert_eq!(bus._get_next_event(2).map(|e| *e), Some(4));
    fa.lower();
    assert_eq!(bus._observe_departures(), vec![0]);
    assert!(bus._observe_departures().is_empty());
    bus._teardown();
    assert!(bus._get_next_event(a).is_none());
    assert_eq!(bus._join(String::from("d"), 1, Flag::new()), 3);
}

#[test]
fn dropped_subscriber_is_offered_events_until_collected() {
    let bus = EventBus::<u32>::new("bus");
    let publ = bus.join_as_publisher("pub");
    let gone = bus.join_as_subscriber("gone", 1);
    drop(gone);
    assert_eq!(publ.publish(1), names(&[]));
    assert_eq!(publ.publish(2), names(&["gone"]));
    bus.garbage_collect();
    assert_eq!(publ.publish(3), names(&[]));
    let next = bus.join_as_subscriber("next", 1);
    assert_eq!(publ.publish(4), names(&[]));
    assert_eq!(publ.publish(5), names(&["next"]));
    assert_eq!(drain(&next), vec![4]);
}

#[test]
fn bus_state_settles_only_once_its_handle_is_gone() {
    let mut bus: EventBusCore<u32> = EventBusCore::_new(String::from("bus"));
    let fa = Flag::new();
    let fb = Flag::new();
    let a = bus._join(String::from("a"), 2, fa.share());
    let b = bus._join(String::from("b"), 2, fb.share());
    assert_eq!(bus._publish(Arc::new(1)), names(&[]));
    fb.lower();
    // while the bus handle exists, nothing is looked at
    assert!(bus._settle(true).is_empty());
    assert!(bus._is_alive());
    assert_eq!(bus._publish(Arc::new(2)), names(&[]));
    assert_eq!(bus._publish(Arc::new(3)), names(&["a", "b"]));
    // once it is gone: b is found gone and discarded, a keeps its events
    assert_eq!(bus._settle(false), vec![b]);
    assert!(!bus._is_alive());
    assert_eq!(bus._publish(Arc::new(4)), None);
    assert_eq!(bus._get_next_event(a).map(|e| *e), Some(1));
    assert_eq!(bus._get_next_event(a).map(|e| *e), Some(2));
    assert!(bus._get_next_event(a).is_none());
    assert!(bus._get_next_event(b).is_none());
    assert!(bus._settle(false).is_empty());
    fa.lower();
    assert_eq!(bus._settle(false), vec![a]);
    assert_eq!(bus._join(String::from("c"), 1, Flag::new()), 2);
}

#[test]
fn full_mailboxes_are_reported_in_the_order_of_joining() {
    let bus = EventBus::<u32>::new("bus");
    let publ = bus.join_as_publisher("pub");
    let a = bus.join_as_subscriber("a", 0);
    let _b = bus.join_as_subscriber("b", 0);
    assert_eq!(publ.publish(1), names(&["a", "b"]));
    drop(a);
    bus.garbage_collect();
    let _c = bus.join_as_subscriber("c", 0);
    assert_eq!(publ.publish(2), names(&["b", "c"]));
}

#[test]
fn bus_state_releases_exactly_the_live_records_found_absent() {
    let mut bus: EventBusCore<u32> = EventBusCore::_new(String::from("bus"));
    for name in ["a", "b", "c", "d"] {
        bus._join(String::from(name), 0, Flag::new());
    }
    // all present: nothing happens
    assert!(bus._note_departures(&vec![true, true, true, true]).is_empty());
    assert_eq!(bus._publish(Arc::new(1)), names(&["a", "b", "c", "d"]));
    // b and d absent: exactly they are released, and stay registered
    assert_eq!(bus._note_departures(&vec![true, false, true, false]), vec![1, 3]);
    assert_eq!(bus._publish(Arc::new(2)), names(&["a", "b", "c", "d"]));
    // already noticed: not released a second time
    assert_eq!(bus._note_departures(&vec![true, false, false, false]), vec![2]);
    bus._garbage_collect();
    assert_eq!(bus._publish(Arc::new(3)), names(&["a"]));
    // a free slot is never released, whatever was read for it
    assert!(bus._note_departures(&vec![true, false, false, false]).is_empty());
    bus._teardown();
    // a record that the roster let go of is discarded when its handle is gone
    assert_eq!(bus._note_departures(&vec![false, true, true, true]), vec![0]);
    assert!(bus._note_departures(&vec![false, false, false, false]).is_empty());
}
