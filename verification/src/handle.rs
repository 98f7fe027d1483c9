//! The handles through which threads use one shared bus.

use crate::flag::Flag;
use crate::pointer::share;
use crate::roster::EventBusCore;
use std::sync::Arc;
use vstd::prelude::*;
use vstd::rwlock::*;

verus! {

/// What the lock around the shared state guarantees to whoever acquires it:
/// a well-formed bus that carries the name it was created with.
pub struct BusInvariant {
    pub name: Seq<char>,
}

impl<T> RwLockPredicate<EventBusCore<T>> for BusInvariant {
    open spec fn inv(self, v: EventBusCore<T>) -> bool {
        v.wf() && v@.name == self.name
    }
}

/// The bus itself. Destroying it ends the bus for every other handle.
pub struct EventBus<T> {
    core: Arc<RwLock<EventBusCore<T>, BusInvariant>>,
    alive: Flag,
}

/// A handle that publishes events to a bus.
pub struct EventPublisher<T> {
    bus: Arc<RwLock<EventBusCore<T>, BusInvariant>>,
    bus_alive: Flag,
    name: String,
}

/// A handle that receives, from its own mailbox, the events published after
/// it joined. Destroying it makes its registration collectible.
pub struct EventSubscriber<T> {
    bus: Arc<RwLock<EventBusCore<T>, BusInvariant>>,
    bus_alive: Flag,
    here: Flag,
    slot: usize,
    name: String,
    capacity: usize,
}

impl<T> EventBus<T> {
    /// The lock around the state that all handles of this bus share.
    pub closed spec fn lock(&self) -> RwLock<EventBusCore<T>, BusInvariant> {
        *self.core
    }

    /// The flag that tells the other handles whether this handle exists.
    pub closed spec fn flag(&self) -> Flag {
        self.alive
    }

    /// The diagnostic name of the bus.
    pub open spec fn name(&self) -> Seq<char> {
        self.lock().pred().name
    }

    /// Creates a live bus that nobody has joined yet.
    pub fn new(debug_name: &str) -> (bus: Self)
        ensures
            bus.name() == debug_name@,
    {
        let state = EventBusCore::_new(debug_name.to_owned());
        let lock = RwLock::new(state, Ghost(BusInvariant { name: debug_name@ }));
        EventBus { core: Arc::new(lock), alive: Flag::new() }
    }

    /// Registers a subscriber with a mailbox of `buff_size` events and returns
    /// its handle. This succeeds on a dead bus too.
    pub fn join_as_subscriber(&self, debug_name: &str, buff_size: usize) -> (sub: EventSubscriber<T>)
        ensures
            sub.name() == debug_name@,
            sub.capacity() == buff_size,
            sub.lock() == self.lock(),
            sub.bus_flag() == self.flag(),
    {
        let here = Flag::new();
        let (mut state, guard) = self.core.acquire_write();
        let slot = state._join(debug_name.to_owned(), buff_size, here.share());
        guard.release_write(state);
        EventSubscriber::_new(
            share(&self.core),
            self.alive.share(),
            here,
            slot,
            debug_name.to_owned(),
            buff_size,
        )
    }

    /// Returns a publisher handle. The roster is not touched.
    pub fn join_as_publisher(&self, debug_name: &str) -> (publisher: EventPublisher<T>)
        ensures
            publisher.name() == debug_name@,
            publisher.lock() == self.lock(),
            publisher.bus_flag() == self.flag(),
    {
        EventPublisher::_new(share(&self.core), self.alive.share(), debug_name.to_owned())
    }

    /// Discards the registrations whose subscriber handle is gone, with
    /// whatever they still buffered.
    pub fn garbage_collect(&self) {
        let (mut state, guard) = self.core.acquire_write();
        state._observe_departures();
        state._garbage_collect();
        guard.release_write(state);
    }
}

impl<T> Drop for EventBus<T> {
    /// Destroying the bus handle marks the bus dead for every other handle.
    /// The roster is let go of by the first publish that finds the bus dead.
    fn drop(&mut self)
        opens_invariants none
        no_unwind
    {
        self.alive.lower();
    }
}

impl<T> EventPublisher<T> {
    /// The diagnostic name of the publisher.
    pub closed spec fn name(&self) -> Seq<char> {
        self.name@
    }

    /// The lock around the state of the bus that this handle publishes to.
    pub closed spec fn lock(&self) -> RwLock<EventBusCore<T>, BusInvariant> {
        *self.bus
    }

    /// The flag of the bus handle, which tells whether the bus is alive.
    pub closed spec fn bus_flag(&self) -> Flag {
        self.bus_alive
    }

    /// The diagnostic name of the bus.
    pub open spec fn bus_name(&self) -> Seq<char> {
        self.lock().pred().name
    }

    /// A publisher handle on the given bus.
    fn _new(
        bus: Arc<RwLock<EventBusCore<T>, BusInvariant>>,
        bus_alive: Flag,
        debug_name: String,
    ) -> (publisher: Self)
        ensures
            publisher.name() == debug_name@,
            publisher.lock() == *bus,
            publisher.bus_flag() == bus_alive,
    {
        EventPublisher { bus, bus_alive, name: debug_name }
    }

    /// Publishes one event to every subscriber registered at this moment.
    /// `None` says that the bus was dead and the event discarded; otherwise
    /// the names of the subscribers whose mailbox was full, for which alone
    /// the event was dropped.
    pub fn publish(&self, event: T) -> (dropped: Option<Vec<String>>) {
        let (mut state, guard) = self.bus.acquire_write();
        state._settle(self.bus_alive.is_raised());
        let dropped = state._publish(Arc::new(event));
        guard.release_write(state);
        dropped
    }

    /// Whether the bus was alive when asked.
    pub fn is_bus_alive(&self) -> (alive: bool) {
        self.bus_alive.is_raised()
    }
}

impl<T> EventSubscriber<T> {
    /// The diagnostic name of the subscriber.
    pub closed spec fn name(&self) -> Seq<char> {
        self.name@
    }

    /// The capacity of the subscriber's mailbox.
    pub closed spec fn capacity(&self) -> nat {
        self.capacity as nat
    }

    /// The lock around the state of the bus that this handle joined.
    pub closed spec fn lock(&self) -> RwLock<EventBusCore<T>, BusInvariant> {
        *self.bus
    }

    /// The flag of the bus handle, which tells whether the bus is alive.
    pub closed spec fn bus_flag(&self) -> Flag {
        self.bus_alive
    }

    /// The flag that this handle lowers when it is destroyed, and that its
    /// registration record holds too.
    pub closed spec fn own_flag(&self) -> Flag {
        self.here
    }

    /// The slot of the bus's table that holds this subscriber's record.
    pub closed spec fn slot(&self) -> nat {
        self.slot as nat
    }

    /// The diagnostic name of the bus.
    pub open spec fn bus_name(&self) -> Seq<char> {
        self.lock().pred().name
    }

    /// The handle of the subscriber registered in `slot` of the given bus.
    fn _new(
        bus: Arc<RwLock<EventBusCore<T>, BusInvariant>>,
        bus_alive: Flag,
        here: Flag,
        slot: usize,
        debug_name: String,
        buff_size: usize,
    ) -> (sub: Self)
        ensures
            sub.name() == debug_name@,
            sub.capacity() == buff_size,
            sub.lock() == *bus,
            sub.bus_flag() == bus_alive,
            sub.own_flag() == here,
            sub.slot() == slot,
    {
        EventSubscriber { bus, bus_alive, here, slot, name: debug_name, capacity: buff_size }
    }

    /// Takes the oldest event from this subscriber's mailbox, if there is one.
    pub fn get_next_event(&self) -> (event: Option<Arc<T>>) {
        let (mut state, guard) = self.bus.acquire_write();
        let event = state._get_next_event(self.slot);
        guard.release_write(state);
        event
    }

    /// Whether the bus was alive when asked.
    pub fn is_bus_alive(&self) -> (alive: bool) {
        self.bus_alive.is_raised()
    }
}

impl<T> Drop for EventSubscriber<T> {
    /// Destroying the subscriber handle makes its registration collectible.
    /// The registration itself, and what it buffered, stay until collected.
    fn drop(&mut self)
        opens_invariants none
        no_unwind
    {
        self.here.lower();
    }
}

} // verus!
