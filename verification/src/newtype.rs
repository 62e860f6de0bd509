//! The newtype pattern: wrapping raw integers so user and account ids cannot
//! be mixed up at a call site.

use vstd::prelude::*;

verus! {

/// A user's identity, distinct from any other id type.
#[derive(Clone, Copy, PartialEq, Eq, Structural)]
pub struct UserId {
    id: u64,
}

impl View for UserId {
    type V = u64;

    closed spec fn view(&self) -> u64 {
        self.id
    }
}

impl UserId {
    pub fn new(id: u64) -> (r: UserId)
        ensures
            r@ == id,
    {
        UserId { id }
    }

    pub fn value(&self) -> (v: u64)
        ensures
            v == self@,
    {
        self.id
    }
}

/// An account's identity, distinct from any other id type.
#[derive(Clone, Copy, PartialEq, Eq, Structural)]
pub struct AccountId {
    id: u64,
}

impl View for AccountId {
    type V = u64;

    closed spec fn view(&self) -> u64 {
        self.id
    }
}

impl AccountId {
    pub fn new(id: u64) -> (r: AccountId)
        ensures
            r@ == id,
    {
        AccountId { id }
    }

    pub fn value(&self) -> (v: u64)
        ensures
            v == self@,
    {
        self.id
    }
}

} // verus!
