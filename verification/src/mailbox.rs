//! A bounded first-in, first-out buffer of shared events.

use std::collections::VecDeque;
use std::sync::Arc;
use vstd::prelude::*;

verus! {

/// A subscriber's private buffer: at most `capacity` shared events, oldest first.
pub struct Mailbox<T> {
    slots: VecDeque<Arc<T>>,
    capacity: usize,
}

impl<T> Mailbox<T> {
    /// The buffered events, oldest first.
    pub closed spec fn queue(&self) -> Seq<Arc<T>> {
        self.slots@
    }

    /// The fixed number of events the buffer can hold.
    pub closed spec fn capacity(&self) -> nat {
        self.capacity as nat
    }

    /// A buffer never holds more than its capacity.
    pub closed spec fn wf(&self) -> bool {
        self.slots@.len() <= self.capacity
    }

    /// An empty buffer of the given capacity.
    pub fn new(capacity: usize) -> (m: Self)
        ensures
            m.wf(),
            m.queue() == Seq::<Arc<T>>::empty(),
            m.capacity() == capacity,
    {
        Mailbox { slots: VecDeque::new(), capacity }
    }

    /// The capacity the buffer was made with.
    pub fn limit(&self) -> (c: usize)
        ensures
            c == self.capacity(),
    {
        self.capacity
    }

    /// The number of buffered events.
    pub fn len(&self) -> (n: usize)
        ensures
            n == self.queue().len(),
    {
        self.slots.len()
    }

    /// Appends the event unless the buffer is full; a full buffer is left as it
    /// was and the event is handed back.
    pub fn try_send(&mut self, event: Arc<T>) -> (r: Result<(), Arc<T>>)
        requires
            old(self).wf(),
        ensures
            final(self).wf(),
            final(self).capacity() == old(self).capacity(),
            old(self).queue().len() < old(self).capacity() ==> r is Ok
                && final(self).queue() == old(self).queue().push(event),
            old(self).queue().len() >= old(self).capacity() ==> r == Err::<(), Arc<T>>(event)
                && final(self).queue() == old(self).queue(),
    {
        if self.slots.len() < self.capacity {
            self.slots.push_back(event);
            Ok(())
        } else {
            Err(event)
        }
    }

    /// Removes and returns the oldest event, if there is one.
    pub fn try_recv(&mut self) -> (r: Option<Arc<T>>)
        requires
            old(self).wf(),
        ensures
            final(self).wf(),
            final(self).capacity() == old(self).capacity(),
            old(self).queue().len() == 0 ==> r is None && final(self).queue() == old(self).queue(),
            old(self).queue().len() > 0 ==> r == Some(old(self).queue()[0])
                && final(self).queue() == old(self).queue().subrange(
                1,
                old(self).queue().len() as int,
            ),
    {
        self.slots.pop_front()
    }
}

} // verus!
