//! A bounded FIFO queue mediating decoupled delivery to one consumer.
//!
//! The producer side never blocks: a full queue drops the message and reports
//! `Full`, and a queue whose consumer has closed it reports `Closed`, which is
//! the disconnect signal the broadcast core uses for pruning. A closed mailbox
//! still yields the messages enqueued before closing (drain-before-close).

use vstd::prelude::*;
use crate::message::Message;

verus! {

/// The producer-side result of a non-blocking enqueue attempt.
pub enum SendOutcome {
    /// The message was enqueued.
    Sent,
    /// The bounded queue had no room; the message was dropped for this
    /// consumer only. A full mailbox is not a disconnect.
    Full,
    /// The consumer end is gone; no message will ever be accepted again.
    Closed,
}

/// The consumer-side result of a polling receive.
pub enum ReceiveOutcome {
    /// The oldest queued message.
    Received(Message),
    /// The queue is empty but may still be sent to; try again later.
    TimedOut,
    /// The queue is empty and closed: no further message will ever arrive.
    Closed,
}

/// The mathematical state of a mailbox: the queued payloads (oldest first),
/// the fixed bound, and whether the consumer end is gone.
pub struct MailboxModel {
    pub queue: Seq<Seq<u8>>,
    pub capacity: nat,
    pub closed: bool,
}

impl MailboxModel {
    /// Capacity is fixed at creation and at least one; the queue never
    /// exceeds it.
    pub open spec fn wf(self) -> bool {
        &&& self.queue.len() <= self.capacity
        &&& 1 <= self.capacity
    }

    /// What an enqueue attempt reports, as a function of the state alone.
    pub open spec fn send_result(self) -> SendOutcome {
        if self.closed {
            SendOutcome::Closed
        } else if self.queue.len() >= self.capacity {
            SendOutcome::Full
        } else {
            SendOutcome::Sent
        }
    }

    /// The state after an enqueue attempt of `m`: appended when accepted,
    /// unchanged when full or closed.
    pub open spec fn send_step(self, m: Seq<u8>) -> MailboxModel {
        if self.send_result() is Sent {
            MailboxModel { queue: self.queue.push(m), ..self }
        } else {
            self
        }
    }
}

/// A bounded FIFO queue of messages with an explicit liveness flag.
pub struct Mailbox {
    queue: Vec<Message>,
    capacity: usize,
    closed: bool,
}

impl View for Mailbox {
    type V = MailboxModel;

    closed spec fn view(&self) -> MailboxModel {
        MailboxModel {
            queue: self.queue@.map_values(|m: Message| m@),
            capacity: self.capacity as nat,
            closed: self.closed,
        }
    }
}

impl Mailbox {
    pub fn new(capacity: usize) -> (mb: Mailbox)
        requires
            1 <= capacity,
        ensures
            mb@ == (MailboxModel { queue: Seq::<Seq<u8>>::empty(), capacity: capacity as nat, closed: false }),
            mb@.wf(),
    {
        let mb = Mailbox { queue: Vec::new(), capacity, closed: false };
        proof {
            assert(mb@.queue =~= Seq::<Seq<u8>>::empty());
        }
        mb
    }

    /// Non-blocking enqueue attempt; never blocks on a slow consumer.
    pub fn send(&mut self, m: &Message) -> (r: SendOutcome)
        ensures
            r == old(self)@.send_result(),
            final(self)@ == old(self)@.send_step(m@),
    {
        if self.closed {
            SendOutcome::Closed
        } else if self.queue.len() >= self.capacity {
            SendOutcome::Full
        } else {
            self.queue.push(m.clone());
            proof {
                assert(self@.queue =~= old(self)@.queue.push(m@));
            }
            SendOutcome::Sent
        }
    }

    /// Polling receive: yields the oldest queued message if any (even after
    /// the mailbox was closed), reports `Closed` only once the queue has been
    /// drained, and `TimedOut` when the queue is merely empty.
    pub fn receive(&mut self) -> (r: ReceiveOutcome)
        ensures
            old(self)@.queue.len() > 0 ==> {
                &&& r matches ReceiveOutcome::Received(m) && m@ == old(self)@.queue[0]
                &&& final(self)@ == (MailboxModel { queue: old(self)@.queue.drop_first(), ..old(self)@ })
            },
            old(self)@.queue.len() == 0 && old(self)@.closed ==> r is Closed && final(self)@ == old(self)@,
            old(self)@.queue.len() == 0 && !old(self)@.closed ==> r is TimedOut && final(self)@ == old(self)@,
    {
        if self.queue.len() > 0 {
            let m = self.queue.remove(0);
            proof {
                assert(self@.queue =~= old(self)@.queue.drop_first());
            }
            ReceiveOutcome::Received(m)
        } else if self.closed {
            ReceiveOutcome::Closed
        } else {
            ReceiveOutcome::TimedOut
        }
    }

    /// Consumer-side disposal: the mailbox is permanently closed and every
    /// later `send` reports `Closed`.
    pub fn close(&mut self)
        ensures
            final(self)@ == (MailboxModel { closed: true, ..old(self)@ }),
    {
        self.closed = true;
    }

    pub fn is_closed(&self) -> (r: bool)
        ensures
            r == self@.closed,
    {
        self.closed
    }

    pub fn len(&self) -> (n: usize)
        ensures
            n == self@.queue.len(),
    {
        self.queue.len()
    }

    pub fn capacity(&self) -> (n: usize)
        ensures
            n == self@.capacity,
    {
        self.capacity
    }
}

} // verus!
