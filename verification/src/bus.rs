use vstd::prelude::*;

use crate::domain::WorkerMessage;

verus! {

/// The bounded multi-producer single-consumer queue that carries lifecycle
/// messages from the workers to the manager, first in, first out. A full bus
/// accepts nothing: a producer blocks (here: retries) until the consumer has
/// drained a message.
pub struct MessageBus {
    queue: Vec<WorkerMessage>,
    capacity: usize,
}

impl MessageBus {
    /// The queued messages, oldest first.
    pub closed spec fn spec_messages(&self) -> Seq<WorkerMessage> {
        self.queue@
    }

    /// The bound on how many messages the bus holds at once.
    pub closed spec fn spec_capacity(&self) -> usize {
        self.capacity
    }

    /// The queue never exceeds its capacity, and the capacity is positive.
    pub open spec fn wf(&self) -> bool {
        self.spec_messages().len() <= self.spec_capacity() && self.spec_capacity() > 0
    }

    /// Creates an empty bus with the given capacity bound.
    pub fn new(capacity: usize) -> (bus: MessageBus)
        requires
            capacity > 0,
        ensures
            bus.wf(),
            bus.spec_messages() == Seq::<WorkerMessage>::empty(),
            bus.spec_capacity() == capacity,
    {
        MessageBus { queue: Vec::new(), capacity }
    }

    /// How many messages are queued.
    pub fn len(&self) -> (n: usize)
        ensures
            n == self.spec_messages().len(),
    {
        self.queue.len()
    }

    /// Whether the bus is at capacity.
    pub fn is_full(&self) -> (r: bool)
        ensures
            r == (self.spec_messages().len() >= self.spec_capacity()),
    {
        self.queue.len() >= self.capacity
    }

    /// Enqueues a message when there is room; a full bus rejects it
    /// unchanged, and the producer must retry after the consumer drains.
    pub fn try_send(&mut self, msg: WorkerMessage) -> (accepted: bool)
        requires
            old(self).wf(),
        ensures
            final(self).wf(),
            final(self).spec_capacity() == old(self).spec_capacity(),
            accepted == (old(self).spec_messages().len() < old(self).spec_capacity()),
            if accepted {
                final(self).spec_messages() == old(self).spec_messages().push(msg)
            } else {
                final(self).spec_messages() == old(self).spec_messages()
            },
    {
        if self.queue.len() < self.capacity {
            self.queue.push(msg);
            true
        } else {
            false
        }
    }

    /// Dequeues the oldest message, or nothing when the bus is empty.
    pub fn recv(&mut self) -> (msg: Option<WorkerMessage>)
        requires
            old(self).wf(),
        ensures
            final(self).wf(),
            final(self).spec_capacity() == old(self).spec_capacity(),
            if old(self).spec_messages().len() == 0 {
                msg is None && final(self).spec_messages() == old(self).spec_messages()
            } else {
                &&& msg matches Some(m) && m == old(self).spec_messages()[0]
                &&& final(self).spec_messages() == old(self).spec_messages().skip(1)
            },
    {
        if self.queue.len() == 0 {
            None
        } else {
            let msg = self.queue.remove(0);
            proof {
                assert(self.queue@ =~= old(self).queue@.skip(1));
            }
            Some(msg)
        }
    }
}

} // verus!
