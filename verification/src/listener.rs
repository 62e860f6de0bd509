//! Synchronous callback subscribers.
//!
//! A callback subscriber is any type implementing [`Listener`]; its exact
//! reaction to a payload is pinned down by two spec functions, so that the
//! broadcast core can state precisely what a publish did to every subscriber.

use vstd::prelude::*;
use crate::message::Message;

verus! {

/// What a callback reports back for one delivered message.
pub enum CallbackResult {
    /// The message was handled.
    Accepted,
    /// The handler raised an error. This is a per-subscriber delivery failure,
    /// not a disconnect: the subscriber stays registered.
    Failed,
    /// The handler asks to be disconnected; treated like a closed mailbox.
    Disconnect,
}

/// A synchronous callback subscriber. `response` fixes what the callback
/// reports for a payload, `step` fixes how its state changes; `on_message`
/// must realise both, so every implementation is a deterministic state
/// machine that the broadcast core's contracts can quantify over.
pub trait Listener: Sized + View {
    /// What the callback reports when `m` is delivered in state `v`.
    spec fn response(v: Self::V, m: Seq<u8>) -> CallbackResult;

    /// The callback's state after `m` is delivered in state `v`.
    spec fn step(v: Self::V, m: Seq<u8>) -> Self::V;

    /// Deliver one message synchronously.
    fn on_message(&mut self, m: &Message) -> (r: CallbackResult)
        ensures
            r == Self::response(old(self)@, m@),
            final(self)@ == Self::step(old(self)@, m@),
    ;
}

/// The mathematical state of a [`RecordingListener`]: the payloads accepted
/// so far, and the payloads it is scripted to refuse.
pub struct RecordingModel {
    pub received: Seq<Seq<u8>>,
    pub fail_on: Option<Seq<u8>>,
    pub leave_on: Option<Seq<u8>>,
}

/// A callback subscriber that appends every accepted payload to a log, and
/// can be scripted to report an error, or to ask for disconnection, on one
/// chosen payload — enough to exercise every delivery outcome.
pub struct RecordingListener {
    received: Vec<Message>,
    fail_on: Option<Vec<u8>>,
    leave_on: Option<Vec<u8>>,
}

impl View for RecordingListener {
    type V = RecordingModel;

    closed spec fn view(&self) -> RecordingModel {
        RecordingModel {
            received: self.received@.map_values(|m: Message| m@),
            fail_on: match self.fail_on {
                Some(b) => Some(b@),
                None => None,
            },
            leave_on: match self.leave_on {
                Some(b) => Some(b@),
                None => None,
            },
        }
    }
}

/// True when `scripted` names exactly the payload `m`.
pub open spec fn triggers(scripted: Option<Seq<u8>>, m: Seq<u8>) -> bool {
    scripted matches Some(b) && b == m
}

impl Listener for RecordingListener {
    open spec fn response(v: RecordingModel, m: Seq<u8>) -> CallbackResult {
        if triggers(v.leave_on, m) {
            CallbackResult::Disconnect
        } else if triggers(v.fail_on, m) {
            CallbackResult::Failed
        } else {
            CallbackResult::Accepted
        }
    }

    open spec fn step(v: RecordingModel, m: Seq<u8>) -> RecordingModel {
        if Self::response(v, m) is Accepted {
            RecordingModel { received: v.received.push(m), ..v }
        } else {
            v
        }
    }

    fn on_message(&mut self, m: &Message) -> (r: CallbackResult) {
        if matches_scripted(&self.leave_on, m) {
            CallbackResult::Disconnect
        } else if matches_scripted(&self.fail_on, m) {
            CallbackResult::Failed
        } else {
            self.received.push(m.clone());
            proof {
                assert(self@.received =~= old(self)@.received.push(m@));
            }
            CallbackResult::Accepted
        }
    }
}

impl RecordingListener {
    /// A listener that accepts and records everything.
    pub fn new() -> (l: RecordingListener)
        ensures
            l@ == (RecordingModel { received: Seq::<Seq<u8>>::empty(), fail_on: None, leave_on: None }),
    {
        let l = RecordingListener { received: Vec::new(), fail_on: None, leave_on: None };
        proof {
            assert(l@.received =~= Seq::<Seq<u8>>::empty());
        }
        l
    }

    /// A listener that reports an error on the one payload `bytes`.
    pub fn failing_on(bytes: Vec<u8>) -> (l: RecordingListener)
        ensures
            l@ == (RecordingModel { received: Seq::<Seq<u8>>::empty(), fail_on: Some(bytes@), leave_on: None }),
    {
        let l = RecordingListener { received: Vec::new(), fail_on: Some(bytes), leave_on: None };
        proof {
            assert(l@.received =~= Seq::<Seq<u8>>::empty());
        }
        l
    }

    /// A listener that asks to be disconnected on the one payload `bytes`.
    pub fn leaving_on(bytes: Vec<u8>) -> (l: RecordingListener)
        ensures
            l@ == (RecordingModel { received: Seq::<Seq<u8>>::empty(), fail_on: None, leave_on: Some(bytes@) }),
    {
        let l = RecordingListener { received: Vec::new(), fail_on: None, leave_on: Some(bytes) };
        proof {
            assert(l@.received =~= Seq::<Seq<u8>>::empty());
        }
        l
    }

    pub fn received_count(&self) -> (n: usize)
        ensures
            n == self@.received.len(),
    {
        self.received.len()
    }

    pub fn received_at(&self, i: usize) -> (m: &Message)
        requires
            i < self@.received.len(),
        ensures
            m@ == self@.received[i as int],
    {
        &self.received[i]
    }
}

/// True exactly when the scripted payload is present and equals `m`'s bytes.
fn matches_scripted(scripted: &Option<Vec<u8>>, m: &Message) -> (r: bool)
    ensures
        r == triggers(
            match *scripted {
                Some(b) => Some(b@),
                None => None,
            },
            m@,
        ),
{
    match scripted {
        Some(b) => bytes_eq(b, m.payload()),
        None => false,
    }
}

/// Byte-for-byte equality of two payloads.
fn bytes_eq(a: &Vec<u8>, b: &Vec<u8>) -> (r: bool)
    ensures
        r == (a@ == b@),
{
    if a.len() != b.len() {
        return false;
    }
    let mut i: usize = 0;
    while i < a.len()
        invariant
            i <= a.len(),
            a@.len() == b@.len(),
            forall|j: int| 0 <= j < i ==> a@[j] == b@[j],
        decreases a@.len() - i,
    {
        if a[i] != b[i] {
            return false;
        }
        i = i + 1;
    }
    proof {
        assert(a@ =~= b@);
    }
    true
}

} // verus!
