//! The bus state: a liveness flag and the table of registration records, with
//! the membership and delivery rules as transitions of a mathematical model.

use crate::flag::Flag;
use crate::pointer::share;
use crate::subscriber::EventSubscriberCore;
use crate::subscriber::SubscriberModel;
use std::sync::Arc;
use vstd::prelude::*;

verus! {

/// What a bus is: a diagnostic name, whether it is alive, and a table of
/// slots in the order in which the subscribers joined. A slot holds one
/// registration record, or nothing once that record was discarded.
pub struct BusModel<T> {
    pub name: Seq<char>,
    pub alive: bool,
    pub slots: Seq<Option<SubscriberModel<T>>>,
}

impl<T> BusModel<T> {
    /// Every record in the table is well formed.
    pub open spec fn wf(self) -> bool {
        forall|i: int|
            0 <= i < self.slots.len() && (#[trigger] self.slots[i]) is Some
                ==> self.slots[i].unwrap().wf()
    }

    /// A new bus: alive, with nobody registered.
    pub open spec fn fresh(name: Seq<char>) -> Self {
        BusModel { name, alive: true, slots: Seq::empty() }
    }

    /// Slot `s` holds a record.
    pub open spec fn occupied(self, s: int) -> bool {
        0 <= s < self.slots.len() && self.slots[s] is Some
    }

    /// Slot `s` holds a record that the roster refers to.
    pub open spec fn listed(self, s: int) -> bool {
        self.occupied(s) && self.slots[s].unwrap().registered
    }

    /// The bus after a subscriber joined: its record is appended, so the
    /// table keeps the order in which the subscribers joined.
    pub open spec fn joined(self, name: Seq<char>, capacity: nat, handle: Flag) -> Self {
        BusModel {
            slots: self.slots.push(Some(SubscriberModel::<T>::fresh(name, capacity, handle))),
            ..self
        }
    }

    /// One slot after a fan-out: a registered record gets a delivery attempt.
    pub open spec fn deliver(slot: Option<SubscriberModel<T>>, event: Arc<T>) -> Option<
        SubscriberModel<T>,
    > {
        match slot {
            Some(r) => if r.registered {
                Some(r.offered(event))
            } else {
                slot
            },
            None => None,
        }
    }

    /// The bus after one publish: a dead bus discards the event; a live one
    /// attempts a delivery to every registered record, each on its own.
    pub open spec fn published(self, event: Arc<T>) -> Self {
        if self.alive {
            BusModel {
                slots: Seq::new(self.slots.len(), |i: int| Self::deliver(self.slots[i], event)),
                ..self
            }
        } else {
            self
        }
    }

    /// The bus after publishing a sequence of events, in order.
    pub open spec fn published_all(self, events: Seq<Arc<T>>) -> Self
        decreases events.len(),
    {
        if events.len() == 0 {
            self
        } else {
            self.published_all(events.drop_last()).published(events.last())
        }
    }

    /// The names of the registered records among the first `n` slots whose
    /// mailbox is full, in slot order: those for which a publish drops the
    /// event.
    pub open spec fn saturated(self, n: int) -> Seq<Seq<char>>
        decreases n,
    {
        if n <= 0 || n > self.slots.len() {
            Seq::empty()
        } else {
            let rest = self.saturated(n - 1);
            let r = self.slots[n - 1];
            if r is Some && r.unwrap().registered && r.unwrap().queue.len() >= r.unwrap().capacity {
                rest.push(r.unwrap().name)
            } else {
                rest
            }
        }
    }

    /// One slot after garbage collection: a record whose handle is gone is
    /// discarded with whatever it still buffered.
    pub open spec fn sweep(slot: Option<SubscriberModel<T>>) -> Option<SubscriberModel<T>> {
        match slot {
            Some(r) => if r.live {
                slot
            } else {
                None
            },
            None => None,
        }
    }

    /// The bus after garbage collection.
    pub open spec fn collected(self) -> Self {
        BusModel {
            slots: Seq::new(self.slots.len(), |i: int| Self::sweep(self.slots[i])),
            ..self
        }
    }

    /// One slot after the bus was torn down: the roster lets go of the record,
    /// which survives only while its handle does.
    pub open spec fn detach(slot: Option<SubscriberModel<T>>) -> Option<SubscriberModel<T>> {
        match slot {
            Some(r) => if r.live {
                Some(r.unlisted())
            } else {
                None
            },
            None => None,
        }
    }

    /// The bus after its handle was destroyed.
    pub open spec fn torn_down(self) -> Self {
        BusModel {
            alive: false,
            slots: Seq::new(self.slots.len(), |i: int| Self::detach(self.slots[i])),
            ..self
        }
    }

    /// One slot after its subscriber handle was destroyed: the record stays
    /// while the roster refers to it.
    pub open spec fn release(slot: Option<SubscriberModel<T>>) -> Option<SubscriberModel<T>> {
        match slot {
            Some(r) => if r.registered {
                Some(r.retired())
            } else {
                None
            },
            None => None,
        }
    }

    /// The bus after the subscriber handle of slot `s` was destroyed.
    pub open spec fn left(self, s: int) -> Self {
        if self.occupied(s) {
            BusModel { slots: self.slots.update(s, Self::release(self.slots[s])), ..self }
        } else {
            self
        }
    }

    /// The record of slot `s` counts as live, and its handle was found gone:
    /// `present[s]` is what was read of that handle's flag.
    pub open spec fn departed(self, s: int, present: Seq<bool>) -> bool {
        self.occupied(s) && self.slots[s].unwrap().live && 0 <= s < present.len() && !present[s]
    }

    /// The bus after it took note of the handles found gone: each record
    /// that counted as live and whose handle is no longer present is
    /// released; every other slot stays as it is.
    pub open spec fn noted(self, present: Seq<bool>) -> Self {
        BusModel {
            slots: Seq::new(
                self.slots.len(),
                |s: int|
                    if self.departed(s, present) {
                        Self::release(self.slots[s])
                    } else {
                        self.slots[s]
                    },
            ),
            ..self
        }
    }

    /// The bus after the subscriber handles of the given slots were
    /// destroyed.
    pub open spec fn released(self, gone: Seq<usize>) -> Self {
        BusModel {
            slots: Seq::new(
                self.slots.len(),
                |s: int|
                    if gone.contains(s as usize) {
                        Self::release(self.slots[s])
                    } else {
                        self.slots[s]
                    },
            ),
            ..self
        }
    }

    /// The bus once it is known that its handle is gone: a live bus is torn
    /// down, a dead one stays as it is.
    pub open spec fn abandoned(self) -> Self {
        if self.alive {
            self.torn_down()
        } else {
            self
        }
    }

    /// `later` is this bus after the destruction of some subscriber handles,
    /// and nothing else.
    pub open spec fn departures_lead_to(self, later: Self) -> bool {
        &&& later.name == self.name
        &&& later.alive == self.alive
        &&& later.slots.len() == self.slots.len()
        &&& forall|s: int|
            0 <= s < self.slots.len() ==> #[trigger] later.slots[s] == self.slots[s]
                || later.slots[s] == Self::release(self.slots[s])
    }

    /// What the subscriber of slot `s` receives next.
    pub open spec fn next(self, s: int) -> Option<Arc<T>> {
        if self.occupied(s) {
            self.slots[s].unwrap().next()
        } else {
            None
        }
    }

    /// The bus after the subscriber of slot `s` received once.
    pub open spec fn received(self, s: int) -> Self {
        if self.occupied(s) {
            BusModel { slots: self.slots.update(s, Some(self.slots[s].unwrap().advanced())), ..self }
        } else {
            self
        }
    }
}

/// The model of one slot of the table.
pub open spec fn slot_model<T>(slot: Option<EventSubscriberCore<T>>) -> Option<SubscriberModel<T>> {
    match slot {
        Some(r) => Some(r@),
        None => None,
    }
}

/// The strings of a list, each as the sequence of its characters.
pub open spec fn names_of(list: Seq<String>) -> Seq<Seq<char>> {
    Seq::new(list.len(), |i: int| list[i]@)
}

/// The state that every handle of one bus shares.
pub struct EventBusCore<T> {
    name: String,
    alive: bool,
    slots: Vec<Option<EventSubscriberCore<T>>>,
}

impl<T> View for EventBusCore<T> {
    type V = BusModel<T>;

    closed spec fn view(&self) -> BusModel<T> {
        BusModel {
            name: self.name@,
            alive: self.alive,
            slots: Seq::new(self.slots@.len(), |i: int| slot_model(self.slots@[i])),
        }
    }
}

impl<T> EventBusCore<T> {
    /// Every record in the table is well formed.
    pub closed spec fn wf(&self) -> bool {
        forall|i: int|
            0 <= i < self.slots@.len() && (#[trigger] self.slots@[i]) is Some
                ==> self.slots@[i].unwrap().wf()
    }

    /// A well-formed bus has a well-formed model.
    pub proof fn lemma_wf_model(&self)
        requires
            self.wf(),
        ensures
            self@.wf(),
    {
        assert forall|i: int|
            0 <= i < self@.slots.len() && (#[trigger] self@.slots[i]) is Some implies self@.slots[i].unwrap().wf() by {
            assert(self.slots@[i] is Some);
            self.slots@[i].unwrap().lemma_wf_model();
        }
    }

    /// A new, live bus with an empty roster.
    pub fn _new(debug_name: String) -> (bus: Self)
        ensures
            bus.wf(),
            bus@ == BusModel::<T>::fresh(debug_name@),
    {
        let bus = EventBusCore { name: debug_name, alive: true, slots: Vec::new() };
        assert(bus@.slots =~= Seq::empty());
        bus
    }

    /// Whether the bus still counts as alive. The destruction of the bus
    /// handle is taken note of by `_settle`, on the next publish: until then
    /// this still reports `true`.
    pub fn _is_alive(&self) -> (b: bool)
        ensures
            b == self@.alive,
    {
        self.alive
    }

    /// The diagnostic name.
    pub fn _debug_name(&self) -> (name: &String)
        ensures
            name@ == self@.name,
    {
        &self.name
    }

    /// Registers a new subscriber with an empty mailbox of `buff_size` slots,
    /// on a live bus and on a dead one alike: its record is appended to the
    /// table, whose index is returned. `handle` is the flag that the
    /// subscriber's handle lowers when it goes.
    pub fn _join(&mut self, debug_name: String, buff_size: usize, handle: Flag) -> (slot: usize)
        requires
            old(self).wf(),
        ensures
            final(self).wf(),
            slot == old(self)@.slots.len(),
            final(self)@ == old(self)@.joined(debug_name@, buff_size as nat, handle),
    {
        let rec = EventSubscriberCore::_new(debug_name, buff_size, handle);
        let slot: usize = self.slots.len();
        self.slots.push(Some(rec));
        assert(self@.slots =~= old(self)@.joined(debug_name@, buff_size as nat, handle).slots);
        slot
    }

    /// Publishes one event. A dead bus discards it and `None` is returned. A
    /// live bus offers a pointer to the event to every registered record;
    /// a full mailbox drops it for that record alone, and the names of the
    /// records for which it was dropped are returned, in slot order.
    pub fn _publish(&mut self, event: Arc<T>) -> (dropped: Option<Vec<String>>)
        requires
            old(self).wf(),
        ensures
            final(self).wf(),
            final(self)@ == old(self)@.published(event),
            (dropped is Some) == old(self)@.alive,
            dropped is Some ==> names_of(dropped.unwrap()@) == old(self)@.saturated(
                old(self)@.slots.len() as int,
            ),
    {
        if !self.alive {
            return None;
        }
        let ghost before = self@;
        let n: usize = self.slots.len();
        let mut i: usize = 0;
        let mut dropped: Vec<String> = Vec::new();
        assert(names_of(dropped@) =~= before.saturated(0));
        while i < n
            invariant
                i <= n,
                n == self.slots@.len(),
                n == before.slots.len(),
                self.wf(),
                self@.name == before.name,
                self@.alive == before.alive,
                forall|j: int|
                    0 <= j < i ==> slot_model(#[trigger] self.slots@[j]) == BusModel::<T>::deliver(
                        before.slots[j],
                        event,
                    ),
                forall|j: int|
                    i <= j < n ==> slot_model(#[trigger] self.slots@[j]) == before.slots[j],
                names_of(dropped@) == before.saturated(i as int),
            decreases n - i,
        {
            match &mut self.slots[i] {
                Some(rec) => {
                    if rec._is_registered() {
                        let accepted = rec._try_send(share(&event));
                        if !accepted {
                            let ghost listed = dropped@;
                            dropped.push(rec._debug_name().clone());
                            assert(names_of(dropped@) =~= names_of(listed).push(rec@.name));
                        }
                    }
                },
                None => {},
            }
            i += 1;
        }
        assert(self@.slots =~= before.published(event).slots);
        Some(dropped)
    }

    /// Discards every record whose subscriber handle is gone, with whatever
    /// it still buffered, and leaves every other record as it is.
    pub fn _garbage_collect(&mut self)
        requires
            old(self).wf(),
        ensures
            final(self).wf(),
            final(self)@ == old(self)@.collected(),
    {
        let ghost before = self@;
        let n: usize = self.slots.len();
        let mut i: usize = 0;
        while i < n
            invariant
                i <= n,
                n == self.slots@.len(),
                n == before.slots.len(),
                self.wf(),
                self@.name == before.name,
                self@.alive == before.alive,
                forall|j: int|
                    0 <= j < i ==> slot_model(#[trigger] self.slots@[j]) == BusModel::<T>::sweep(
                        before.slots[j],
                    ),
                forall|j: int|
                    i <= j < n ==> slot_model(#[trigger] self.slots@[j]) == before.slots[j],
            decreases n - i,
        {
            let gone = match &self.slots[i] {
                Some(rec) => !rec._is_alive(),
                None => false,
            };
            if gone {
                self.slots[i] = None;
            }
            i += 1;
        }
        assert(self@.slots =~= before.collected().slots);
    }

    /// Ends the bus: it is marked dead and the roster lets go of every
    /// record. A record whose handle still exists keeps its buffered events
    /// for that handle; the others are discarded.
    pub fn _teardown(&mut self)
        requires
            old(self).wf(),
        ensures
            final(self).wf(),
            final(self)@ == old(self)@.torn_down(),
    {
        let ghost before = self@;
        self.alive = false;
        let n: usize = self.slots.len();
        let mut i: usize = 0;
        while i < n
            invariant
                i <= n,
                n == self.slots@.len(),
                n == before.slots.len(),
                self.wf(),
                self@.name == before.name,
                !self@.alive,
                forall|j: int|
                    0 <= j < i ==> slot_model(#[trigger] self.slots@[j]) == BusModel::<T>::detach(
                        before.slots[j],
                    ),
                forall|j: int|
                    i <= j < n ==> slot_model(#[trigger] self.slots@[j]) == before.slots[j],
            decreases n - i,
        {
            let mut gone = false;
            match &mut self.slots[i] {
                Some(rec) => {
                    if rec._is_alive() {
                        rec._unlist();
                    } else {
                        gone = true;
                    }
                },
                None => {},
            }
            if gone {
                self.slots[i] = None;
            }
            i += 1;
        }
        assert(self@.slots =~= before.torn_down().slots);
    }

    /// Records that the subscriber handle of `slot` is gone. The record stays,
    /// and goes on receiving events, until the roster lets go of it; a record
    /// that the roster already let go of is discarded. A free slot, or one
    /// beyond the table, changes nothing.
    pub fn _leave(&mut self, slot: usize)
        requires
            old(self).wf(),
        ensures
            final(self).wf(),
            final(self)@ == old(self)@.left(slot as int),
    {
        if slot >= self.slots.len() {
            return ;
        }
        let mut gone = false;
        match &mut self.slots[slot] {
            Some(rec) => {
                if rec._is_registered() {
                    rec._retire();
                } else {
                    gone = true;
                }
            },
            None => {},
        }
        if gone {
            self.slots[slot] = None;
        }
        assert(self@.slots =~= old(self)@.left(slot as int).slots);
    }

    /// Takes note of the subscriber handles found gone. `present` holds, slot
    /// by slot, what was read of each handle's flag. Every record that counts
    /// as live and whose handle is no longer present is released, as `_leave`
    /// does; every other slot is left as it was. The slots of the released
    /// records are returned, in ascending order.
    pub fn _note_departures(&mut self, present: &Vec<bool>) -> (gone: Vec<usize>)
        requires
            old(self).wf(),
            present@.len() == old(self)@.slots.len(),
        ensures
            final(self).wf(),
            final(self)@ == old(self)@.noted(present@),
            final(self)@ == old(self)@.released(gone@),
            forall|s: int|
                0 <= s < old(self)@.slots.len() ==> (gone@.contains(s as usize) <==> old(
                    self,
                )@.departed(s, present@)),
            forall|k: int|
                0 <= k < gone@.len() ==> old(self)@.departed(#[trigger] gone@[k] as int, present@),
            forall|k: int, l: int| 0 <= k < l < gone@.len() ==> gone@[k] < gone@[l],
    {
        let ghost before = self@;
        let n: usize = self.slots.len();
        let mut gone: Vec<usize> = Vec::new();
        let mut i: usize = 0;
        while i < n
            invariant
                i <= n,
                n == self.slots@.len(),
                n == present@.len(),
                n == before.slots.len(),
                self.wf(),
                self@.name == before.name,
                self@.alive == before.alive,
                forall|j: int|
                    0 <= j < i ==> #[trigger] self@.slots[j] == before.noted(present@).slots[j],
                forall|j: int| i <= j < n ==> #[trigger] self@.slots[j] == before.slots[j],
                forall|k: int|
                    0 <= k < gone@.len() ==> (#[trigger] gone@[k]) < i && before.departed(
                        gone@[k] as int,
                        present@,
                    ),
                forall|s: int|
                    0 <= s < i && before.departed(s, present@) ==> gone@.contains(s as usize),
                forall|k: int, l: int| 0 <= k < l < gone@.len() ==> gone@[k] < gone@[l],
            decreases n - i,
        {
            let counted_live = match &self.slots[i] {
                Some(rec) => rec._is_alive(),
                None => false,
            };
            assert(self@.slots[i as int] == before.slots[i as int]);
            if counted_live && !present[i] {
                let ghost listed = gone@;
                self._leave(i);
                gone.push(i);
                assert(gone@[listed.len() as int] == i);
                assert forall|s: int|
                    0 <= s < i + 1 && before.departed(s, present@) implies gone@.contains(
                    s as usize,
                ) by {
                    if s < i {
                        let k = choose|k: int| 0 <= k < listed.len() && listed[k] == s as usize;
                        assert(gone@[k] == s as usize);
                    }
                }
            }
            assert(self@.slots.len() == self.slots@.len());
            i += 1;
        }
        assert(self@.slots =~= before.noted(present@).slots);
        assert(self@.slots =~= before.released(gone@).slots);
        gone
    }

    /// Reads the flag of every subscriber handle and takes note, as
    /// `_note_departures` does, of those found gone. What is read depends on
    /// the other threads; the records of the returned slots, and no others,
    /// are released.
    pub fn _observe_departures(&mut self) -> (gone: Vec<usize>)
        requires
            old(self).wf(),
        ensures
            final(self).wf(),
            final(self)@ == old(self)@.released(gone@),
            old(self)@.departures_lead_to(final(self)@),
            forall|k: int|
                0 <= k < gone@.len() ==> old(self)@.occupied(#[trigger] gone@[k] as int) && old(
                    self,
                )@.slots[gone@[k] as int].unwrap().live,
            forall|k: int, l: int| 0 <= k < l < gone@.len() ==> gone@[k] < gone@[l],
    {
        let n: usize = self.slots.len();
        let mut present: Vec<bool> = Vec::new();
        let mut i: usize = 0;
        while i < n
            invariant
                i <= n,
                n == self.slots@.len(),
                present@.len() == i,
            decreases n - i,
        {
            let found = match &self.slots[i] {
                Some(rec) => rec._handle_exists(),
                None => true,
            };
            present.push(found);
            i += 1;
        }
        let gone = self._note_departures(&present);
        gone
    }

    /// Brings the bus up to date before a publish. While the bus handle exists
    /// nothing changes. Once it is gone, the destroyed subscriber handles are
    /// taken note of, as `_observe_departures` does, and a bus that still
    /// counts as alive is torn down; the slots of the subscribers found gone
    /// are returned.
    pub fn _settle(&mut self, bus_handle_exists: bool) -> (gone: Vec<usize>)
        requires
            old(self).wf(),
        ensures
            final(self).wf(),
            final(self)@.name == old(self)@.name,
            bus_handle_exists ==> gone@.len() == 0 && final(self)@ == old(self)@,
            !bus_handle_exists ==> final(self)@ == old(self)@.released(gone@).abandoned(),
            forall|k: int|
                0 <= k < gone@.len() ==> old(self)@.occupied(#[trigger] gone@[k] as int) && old(
                    self,
                )@.slots[gone@[k] as int].unwrap().live,
            forall|k: int, l: int| 0 <= k < l < gone@.len() ==> gone@[k] < gone@[l],
    {
        if bus_handle_exists {
            return Vec::new();
        }
        let gone = self._observe_departures();
        if self.alive {
            self._teardown();
        }
        gone
    }

    /// Takes the oldest event buffered for the subscriber of `slot`, if there
    /// is one. A free slot, or one beyond the table, gives `None`.
    pub fn _get_next_event(&mut self, slot: usize) -> (event: Option<Arc<T>>)
        requires
            old(self).wf(),
        ensures
            final(self).wf(),
            event == old(self)@.next(slot as int),
            final(self)@ == old(self)@.received(slot as int),
    {
        if slot >= self.slots.len() {
            return None;
        }
        let event = match &mut self.slots[slot] {
            Some(rec) => rec._get_next_event(),
            None => None,
        };
        assert(self@.slots =~= old(self)@.received(slot as int).slots);
        event
    }
}

} // verus!
