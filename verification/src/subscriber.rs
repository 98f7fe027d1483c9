//! The registration record of one subscriber and its mathematical model.

use crate::flag::Flag;
use crate::mailbox::Mailbox;
use std::sync::Arc;
use vstd::prelude::*;

verus! {

/// What a registration record is: a diagnostic name, a bounded queue of shared
/// events (oldest first), the flag that its handle lowers when it is
/// destroyed, whether the bus still counts that handle as existing, and
/// whether the roster still refers to the record.
pub struct SubscriberModel<T> {
    pub name: Seq<char>,
    pub handle: Flag,
    pub capacity: nat,
    pub queue: Seq<Arc<T>>,
    pub live: bool,
    pub registered: bool,
}

impl<T> SubscriberModel<T> {
    /// The queue respects its capacity, and somebody still owns the record.
    pub open spec fn wf(self) -> bool {
        self.queue.len() <= self.capacity && (self.live || self.registered)
    }

    /// A freshly joined record: empty, live and registered.
    pub open spec fn fresh(name: Seq<char>, capacity: nat, handle: Flag) -> Self {
        SubscriberModel {
            name,
            handle,
            capacity,
            queue: Seq::empty(),
            live: true,
            registered: true,
        }
    }

    /// One delivery attempt: the event is appended unless the queue is full,
    /// in which case it is dropped and nothing changes.
    pub open spec fn offered(self, event: Arc<T>) -> Self {
        if self.queue.len() < self.capacity {
            SubscriberModel { queue: self.queue.push(event), ..self }
        } else {
            self
        }
    }

    /// Delivery attempts for a whole sequence of events, in order.
    pub open spec fn offered_all(self, events: Seq<Arc<T>>) -> Self
        decreases events.len(),
    {
        if events.len() == 0 {
            self
        } else {
            self.offered_all(events.drop_last()).offered(events.last())
        }
    }

    /// The event that the next receive returns, if any.
    pub open spec fn next(self) -> Option<Arc<T>> {
        if self.queue.len() > 0 {
            Some(self.queue[0])
        } else {
            None
        }
    }

    /// The record after one receive.
    pub open spec fn advanced(self) -> Self {
        if self.queue.len() > 0 {
            SubscriberModel { queue: self.queue.subrange(1, self.queue.len() as int), ..self }
        } else {
            self
        }
    }

    /// The record after `n` receives.
    pub open spec fn advanced_by(self, n: nat) -> Self
        decreases n,
    {
        if n == 0 {
            self
        } else {
            self.advanced().advanced_by((n - 1) as nat)
        }
    }

    /// The record once its handle is gone.
    pub open spec fn retired(self) -> Self {
        SubscriberModel { live: false, ..self }
    }

    /// The record once the roster no longer refers to it.
    pub open spec fn unlisted(self) -> Self {
        SubscriberModel { registered: false, ..self }
    }
}

/// One subscriber's registration record. Its handle lowers `handle` when it
/// is destroyed; `alive` is what the bus has made of that so far.
pub struct EventSubscriberCore<T> {
    name: String,
    mailbox: Mailbox<T>,
    handle: Flag,
    alive: bool,
    registered: bool,
}

impl<T> View for EventSubscriberCore<T> {
    type V = SubscriberModel<T>;

    closed spec fn view(&self) -> SubscriberModel<T> {
        SubscriberModel {
            name: self.name@,
            handle: self.handle,
            capacity: self.mailbox.capacity(),
            queue: self.mailbox.queue(),
            live: self.alive,
            registered: self.registered,
        }
    }
}

impl<T> EventSubscriberCore<T> {
    /// The record's invariant, stated on its model.
    pub closed spec fn wf(&self) -> bool {
        self@.wf() && self.mailbox.wf()
    }

    /// A well-formed record has a well-formed model.
    pub proof fn lemma_wf_model(&self)
        requires
            self.wf(),
        ensures
            self@.wf(),
    {
    }

    /// A new record with an empty mailbox of `buff_size` slots, for the
    /// subscriber handle that holds the other end of `handle`.
    pub fn _new(debug_name: String, buff_size: usize, handle: Flag) -> (rec: Self)
        ensures
            rec.wf(),
            rec@ == SubscriberModel::<T>::fresh(debug_name@, buff_size as nat, handle),
    {
        EventSubscriberCore {
            name: debug_name,
            mailbox: Mailbox::new(buff_size),
            handle,
            alive: true,
            registered: true,
        }
    }

    /// Whether the subscriber's handle still existed when asked. It may be
    /// destroyed at any moment, on another thread.
    pub fn _handle_exists(&self) -> (b: bool) {
        self.handle.is_raised()
    }

    /// Whether the record still counts as held by its handle.
    pub fn _is_alive(&self) -> (b: bool)
        ensures
            b == self@.live,
    {
        self.alive
    }

    /// Whether the roster still refers to the record.
    pub fn _is_registered(&self) -> (b: bool)
        ensures
            b == self@.registered,
    {
        self.registered
    }

    /// The diagnostic name.
    pub fn _debug_name(&self) -> (name: &String)
        ensures
            name@ == self@.name,
    {
        &self.name
    }

    /// Attempts to deliver one event; reports whether the mailbox took it.
    pub fn _try_send(&mut self, event: Arc<T>) -> (accepted: bool)
        requires
            old(self).wf(),
        ensures
            final(self).wf(),
            final(self)@ == old(self)@.offered(event),
            accepted == (old(self)@.queue.len() < old(self)@.capacity),
    {
        match self.mailbox.try_send(event) {
            Ok(()) => true,
            Err(_) => false,
        }
    }

    /// Takes the oldest buffered event, if there is one.
    pub fn _get_next_event(&mut self) -> (event: Option<Arc<T>>)
        requires
            old(self).wf(),
        ensures
            final(self).wf(),
            event == old(self)@.next(),
            final(self)@ == old(self)@.advanced(),
    {
        self.mailbox.try_recv()
    }

    /// Marks the record as no longer held by a handle.
    pub fn _retire(&mut self)
        requires
            old(self).wf(),
            old(self)@.registered,
        ensures
            final(self).wf(),
            final(self)@ == old(self)@.retired(),
    {
        self.alive = false;
    }

    /// Marks the record as no longer referred to by the roster.
    pub fn _unlist(&mut self)
        requires
            old(self).wf(),
            old(self)@.live,
        ensures
            final(self).wf(),
            final(self)@ == old(self)@.unlisted(),
    {
        self.registered = false;
    }
}

} // verus!
