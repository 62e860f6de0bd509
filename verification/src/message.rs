//! The payload carried by one publish call.

use vstd::prelude::*;

verus! {

/// An opaque, immutable payload. The broadcast machinery never inspects its
/// contents; it only copies it into mailboxes and hands it to callbacks.
pub struct Message {
    bytes: Vec<u8>,
}

impl View for Message {
    type V = Seq<u8>;

    closed spec fn view(&self) -> Seq<u8> {
        self.bytes@
    }
}

impl Message {
    pub fn new(bytes: Vec<u8>) -> (m: Message)
        ensures
            m@ == bytes@,
    {
        Message { bytes }
    }

    pub fn payload(&self) -> (b: &Vec<u8>)
        ensures
            b@ == self@,
    {
        &self.bytes
    }
}

impl Clone for Message {
    fn clone(&self) -> (m: Message)
        ensures
            m@ == self@,
    {
        let bytes = self.bytes.clone();
        proof {
            assert forall|i: int| 0 <= i < self.bytes@.len() implies bytes@[i] == self.bytes@[i] by {
                assert(cloned::<u8>(self.bytes@[i], bytes@[i]));
            }
            assert(bytes@ =~= self.bytes@);
        }
        Message { bytes }
    }
}

} // verus!
