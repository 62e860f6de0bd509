//! The store of subscription records.
//!
//! Tokens are minted monotonically and never reused; the token therefore
//! doubles as the registration sequence number (`created_order`), and the
//! record sequence is kept strictly ordered by it. Mutation (insert, remove,
//! purge) is a short exclusive operation; iteration for delivery works over a
//! snapshot, never over the live store.

use vstd::prelude::*;
use crate::mailbox::{Mailbox, MailboxModel};

verus! {

/// The opaque, unique handle identifying one subscription; the only means a
/// caller has to unsubscribe. Never reused after release.
#[derive(Clone, Copy, PartialEq, Eq, Structural)]
pub struct Token {
    id: u64,
}

impl View for Token {
    type V = u64;

    closed spec fn view(&self) -> u64 {
        self.id
    }
}

impl Token {
    pub fn value(&self) -> (v: u64)
        ensures
            v == self@,
    {
        self.id
    }

    pub(crate) fn mint(id: u64) -> (t: Token)
        ensures
            t@ == id,
    {
        Token { id }
    }
}

/// Why a subscribe call failed. Subscribing never fails for a
/// subscriber-side reason, only for these caller-side ones.
#[derive(Clone, Copy, PartialEq, Eq, Structural, Debug)]
pub enum SubscribeError {
    /// The store can mint no further token.
    CapacityExhausted,
    /// A mailbox subscription asked for a zero-capacity queue.
    InvalidCapacity,
}

/// The delivery kind of one subscriber: a synchronous callback, or a bounded
/// mailbox drained independently by its consumer.
pub enum SubscriberKind<L> {
    Callback(L),
    Mailbox(Mailbox),
}

/// One registered party: identity token plus delivery kind. The token is also
/// the registration sequence number that fixes fan-out order.
pub struct Subscription<L> {
    pub token: Token,
    pub kind: SubscriberKind<L>,
}

/// The mathematical state of one subscription.
pub enum SubscriberModel<LV> {
    Callback(LV),
    Mailbox(MailboxModel),
}

/// The mathematical state of one registry record.
pub struct EntryModel<LV> {
    pub token: u64,
    pub kind: SubscriberModel<LV>,
}

impl<L: View> View for Subscription<L> {
    type V = EntryModel<L::V>;

    open spec fn view(&self) -> EntryModel<L::V> {
        EntryModel {
            token: self.token@,
            kind: match self.kind {
                SubscriberKind::Callback(l) => SubscriberModel::Callback(l@),
                SubscriberKind::Mailbox(mb) => SubscriberModel::Mailbox(mb@),
            },
        }
    }
}

impl<L: View> Subscription<L> {
    pub fn token(&self) -> (t: Token)
        ensures
            t@ == self@.token,
    {
        self.token
    }
}

/// True when some record in `s` carries token `t`.
pub open spec fn has_token<LV>(s: Seq<EntryModel<LV>>, t: u64) -> bool {
    exists|i: int| 0 <= i < s.len() && s[i].token == t
}

/// `s` without its records carrying token `t` (order preserved).
pub open spec fn remove_token<LV>(s: Seq<EntryModel<LV>>, t: u64) -> Seq<EntryModel<LV>>
    decreases s.len(),
{
    if s.len() == 0 {
        s
    } else if s.last().token == t {
        remove_token(s.drop_last(), t)
    } else {
        remove_token(s.drop_last(), t).push(s.last())
    }
}

/// `s` without every record whose token occurs in `ts` (order preserved).
/// Tokens in `ts` that match nothing are ignored.
pub open spec fn purge_tokens<LV>(s: Seq<EntryModel<LV>>, ts: Seq<u64>) -> Seq<EntryModel<LV>>
    decreases s.len(),
{
    if s.len() == 0 {
        s
    } else if ts.contains(s.last().token) {
        purge_tokens(s.drop_last(), ts)
    } else {
        purge_tokens(s.drop_last(), ts).push(s.last())
    }
}

/// A mailbox record holds a well-formed mailbox; callback records always are.
pub open spec fn entry_wf<LV>(e: EntryModel<LV>) -> bool {
    match e.kind {
        SubscriberModel::Callback(_) => true,
        SubscriberModel::Mailbox(mb) => mb.wf(),
    }
}

/// Well-formedness of the record sequence against the next token to mint:
/// strictly ordered by token (hence unique, in registration order), every
/// token already minted, and every mailbox well-formed.
pub open spec fn entries_wf<LV>(s: Seq<EntryModel<LV>>, next: u64) -> bool {
    &&& forall|i: int, j: int| 0 <= i < j < s.len() ==> s[i].token < s[j].token
    &&& forall|i: int| 0 <= i < s.len() ==> (#[trigger] s[i]).token < next
    &&& forall|i: int| 0 <= i < s.len() ==> entry_wf(#[trigger] s[i])
}

/// The model of a kind value before it is stored.
pub open spec fn spec_kind_model<L: View>(kind: SubscriberKind<L>) -> SubscriberModel<L::V> {
    match kind {
        SubscriberKind::Callback(l) => SubscriberModel::Callback(l@),
        SubscriberKind::Mailbox(mb) => SubscriberModel::Mailbox(mb@),
    }
}

/// A lightweight copy of one record's identity, safe to iterate while the
/// registry is mutated: the token (which is also the registration order) and
/// the delivery kind.
#[derive(Clone, Copy, PartialEq, Eq, Structural)]
pub struct SnapshotEntry {
    pub token: Token,
    pub is_mailbox: bool,
}

/// The store of subscription records, ordered by registration.
pub struct Registry<L> {
    entries: Vec<Subscription<L>>,
    next_id: u64,
}

impl<L: View> View for Registry<L> {
    type V = Seq<EntryModel<L::V>>;

    closed spec fn view(&self) -> Seq<EntryModel<L::V>> {
        self.entries@.map_values(|s: Subscription<L>| s@)
    }
}

impl<L: View> Registry<L> {
    /// The next token value to be minted; tokens at or above it are fresh.
    pub closed spec fn next_id(self) -> u64 {
        self.next_id
    }

    pub open spec fn wf(self) -> bool {
        entries_wf(self@, self.next_id())
    }

    pub fn new() -> (r: Registry<L>)
        ensures
            r@ == Seq::<EntryModel<L::V>>::empty(),
            r.next_id() == 0,
            r.wf(),
    {
        let r = Registry { entries: Vec::new(), next_id: 0 };
        proof {
            assert(r@ =~= Seq::<EntryModel<L::V>>::empty());
        }
        r
    }

    pub fn len(&self) -> (n: usize)
        ensures
            n == self@.len(),
    {
        self.entries.len()
    }

    /// Allocates a fresh token and appends a record with it. Fails only on
    /// token exhaustion, and then changes nothing.
    pub fn subscribe(&mut self, kind: SubscriberKind<L>) -> (r: Result<Token, SubscribeError>)
        requires
            old(self).wf(),
            entry_wf(EntryModel { token: old(self).next_id(), kind: spec_kind_model(kind) }),
        ensures
            final(self).wf(),
            old(self).next_id() < u64::MAX ==> {
                &&& r matches Ok(t) && t@ == old(self).next_id()
                &&& final(self)@ == old(self)@.push(EntryModel { token: old(self).next_id(), kind: spec_kind_model(kind) })
                &&& final(self).next_id() == old(self).next_id() + 1
            },
            old(self).next_id() == u64::MAX ==> {
                &&& r == Result::<Token, SubscribeError>::Err(SubscribeError::CapacityExhausted)
                &&& *final(self) == *old(self)
            },
    {
        if self.next_id == u64::MAX {
            return Err(SubscribeError::CapacityExhausted);
        }
        let token = Token::mint(self.next_id);
        self.next_id = self.next_id + 1;
        let ghost model = EntryModel { token: token@, kind: spec_kind_model(kind) };
        self.entries.push(Subscription { token, kind });
        proof {
            assert(self@ =~= old(self)@.push(model));
        }
        Ok(token)
    }

    /// Lends the record at position `i`.
    pub(crate) fn get_at(&self, i: usize) -> (s: &Subscription<L>)
        requires
            i < self@.len(),
        ensures
            s@ == self@[i as int],
    {
        &self.entries[i]
    }

    /// Lifts the record at position `i` out of the store, to hand it to a
    /// delivery step; `put_back` returns it.
    pub(crate) fn take_at(&mut self, i: usize) -> (s: Subscription<L>)
        requires
            i < old(self)@.len(),
        ensures
            s@ == old(self)@[i as int],
            final(self)@ == old(self)@.remove(i as int),
            final(self).next_id() == old(self).next_id(),
    {
        let s = self.entries.remove(i);
        proof {
            lemma_map_values_remove(old(self).entries@, i as int);
        }
        s
    }

    /// Returns a record lifted out by `take_at` to its position.
    pub(crate) fn put_back(&mut self, i: usize, s: Subscription<L>)
        requires
            i <= old(self)@.len(),
        ensures
            final(self)@ == old(self)@.insert(i as int, s@),
            final(self).next_id() == old(self).next_id(),
    {
        let ghost sv = s@;
        self.entries.insert(i, s);
        proof {
            assert(self@ =~= old(self)@.insert(i as int, sv));
        }
    }

    /// The position of the record carrying `token`, if any.
    pub(crate) fn find(&self, token: Token) -> (r: Option<usize>)
        ensures
            r matches Some(i) ==> i < self@.len() && self@[i as int].token == token@,
            r is None ==> !has_token(self@, token@),
    {
        let mut i: usize = 0;
        let n = self.entries.len();
        while i < n
            invariant
                i <= n,
                n == self@.len(),
                self.entries@.len() == n,
                forall|j: int| 0 <= j < i ==> (#[trigger] self@[j]).token != token@,
            decreases n - i,
        {
            if self.entries[i].token.value() == token.value() {
                proof {
                    assert(self@[i as int].token == token@);
                }
                return Some(i);
            }
            i = i + 1;
        }
        None
    }

    /// Whether a record carrying `token` is currently registered.
    pub fn contains(&self, token: Token) -> (r: bool)
        ensures
            r == has_token(self@, token@),
    {
        match self.find(token) {
            Some(_) => true,
            None => false,
        }
    }

    /// Removes the record carrying `token` if present; reports whether one
    /// was removed. Removing an unknown or already-removed token is a no-op
    /// that reports `false`, never an error.
    pub fn unsubscribe(&mut self, token: Token) -> (r: bool)
        requires
            old(self).wf(),
        ensures
            final(self).wf(),
            r == has_token(old(self)@, token@),
            final(self)@ == remove_token(old(self)@, token@),
            final(self).next_id() == old(self).next_id(),
    {
        match self.find(token) {
            Some(i) => {
                self.entries.remove(i);
                proof {
                    lemma_map_values_remove(old(self).entries@, i as int);
                    lemma_remove_token_at(old(self)@, token@, i as int);
                }
                true
            },
            None => {
                proof {
                    lemma_remove_token_absent(self@, token@);
                }
                false
            },
        }
    }

    /// Removes every record whose token occurs in `tokens`; used to apply
    /// disconnect outcomes after a publish pass. Tokens already removed, or
    /// never present, are ignored.
    pub fn purge(&mut self, tokens: &Vec<Token>)
        requires
            old(self).wf(),
        ensures
            final(self).wf(),
            final(self)@ == purge_tokens(old(self)@, tokens@.map_values(|t: Token| t@)),
            final(self).next_id() == old(self).next_id(),
    {
        let ghost orig = old(self)@;
        let ghost ids = tokens@.map_values(|t: Token| t@);
        let mut k: usize = 0;
        let n = tokens.len();
        proof {
            lemma_purge_tokens_none(orig, ids.take(0));
        }
        while k < n
            invariant
                k <= n,
                n == tokens@.len(),
                ids == tokens@.map_values(|t: Token| t@),
                ids.len() == n,
                self.wf(),
                self@ == purge_tokens(orig, ids.take(k as int)),
                self.next_id() == old(self).next_id(),
            decreases n - k,
        {
            self.unsubscribe(tokens[k]);
            proof {
                assert(ids[k as int] == tokens@[k as int]@);
                assert(ids.take(k as int + 1) =~= ids.take(k as int).push(ids[k as int]));
                lemma_purge_tokens_extend(orig, ids.take(k as int), ids[k as int]);
            }
            k = k + 1;
        }
        proof {
            assert(ids.take(n as int) =~= ids);
        }
    }

    /// A consistent, registration-ordered copy of the store's identity
    /// information, safe to iterate while the store is mutated: mutation
    /// after the snapshot never changes the snapshot's content.
    pub fn snapshot(&self) -> (r: Vec<SnapshotEntry>)
        ensures
            r@.len() == self@.len(),
            forall|i: int| 0 <= i < r@.len() ==> (#[trigger] r@[i]).token@ == self@[i].token,
            forall|i: int| 0 <= i < r@.len()
                ==> (#[trigger] r@[i]).is_mailbox == (self@[i].kind is Mailbox),
    {
        let mut r: Vec<SnapshotEntry> = Vec::new();
        let mut i: usize = 0;
        let n = self.entries.len();
        while i < n
            invariant
                i <= n,
                n == self@.len(),
                self.entries@.len() == n,
                r@.len() == i,
                forall|j: int| 0 <= j < i ==> (#[trigger] r@[j]).token@ == self@[j].token,
                forall|j: int| 0 <= j < i ==> (#[trigger] r@[j]).is_mailbox == (self@[j].kind is Mailbox),
            decreases n - i,
        {
            let e = &self.entries[i];
            let is_mailbox = match &e.kind {
                SubscriberKind::Callback(_) => false,
                SubscriberKind::Mailbox(_) => true,
            };
            r.push(SnapshotEntry { token: e.token, is_mailbox });
            i = i + 1;
        }
        r
    }
}

/// Viewing commutes with removing one element.
proof fn lemma_map_values_remove<L: View>(s: Seq<Subscription<L>>, i: int)
    requires
        0 <= i < s.len(),
    ensures
        s.remove(i).map_values(|x: Subscription<L>| x@)
            == s.map_values(|x: Subscription<L>| x@).remove(i),
{
    assert(s.remove(i).map_values(|x: Subscription<L>| x@)
        =~= s.map_values(|x: Subscription<L>| x@).remove(i));
}

/// When `t` occurs exactly at position `i` of a strictly ordered sequence,
/// removing by token is removing at `i`.
proof fn lemma_remove_token_at<LV>(s: Seq<EntryModel<LV>>, t: u64, i: int)
    requires
        0 <= i < s.len(),
        s[i].token == t,
        forall|p: int, q: int| 0 <= p < q < s.len() ==> s[p].token < s[q].token,
    ensures
        remove_token(s, t) == s.remove(i),
    decreases s.len(),
{
    if i == s.len() - 1 {
        assert forall|j: int| 0 <= j < s.drop_last().len() implies
            (#[trigger] s.drop_last()[j]).token != t by {
            assert(s[j].token < s[i].token);
        }
        lemma_remove_token_absent(s.drop_last(), t);
        assert(s.remove(i) =~= s.drop_last());
    } else {
        assert(s.last().token != t);
        assert(s.drop_last()[i] == s[i]);
        lemma_remove_token_at(s.drop_last(), t, i);
        assert(remove_token(s, t) == s.drop_last().remove(i).push(s.last()));
        assert(s.drop_last().remove(i).push(s.last()) =~= s.remove(i));
    }
}

/// Removing a token that occurs nowhere changes nothing.
proof fn lemma_remove_token_absent<LV>(s: Seq<EntryModel<LV>>, t: u64)
    requires
        forall|i: int| 0 <= i < s.len() ==> (#[trigger] s[i]).token != t,
    ensures
        remove_token(s, t) == s,
    decreases s.len(),
{
    if s.len() > 0 {
        assert forall|i: int| 0 <= i < s.drop_last().len() implies
            (#[trigger] s.drop_last()[i]).token != t by {
            assert(s.drop_last()[i] == s[i]);
        }
        lemma_remove_token_absent(s.drop_last(), t);
        assert(remove_token(s, t) == s.drop_last().push(s.last()));
        assert(s.drop_last().push(s.last()) =~= s);
    }
}

/// Unsubscribing is idempotent: removing a token leaves no record carrying
/// it, so removing it a second time changes nothing — and the exec
/// `unsubscribe` therefore reports `true` at most once per token.
pub proof fn lemma_unsubscribe_idempotent<LV>(s: Seq<EntryModel<LV>>, t: u64)
    ensures
        !has_token(remove_token(s, t), t),
        remove_token(remove_token(s, t), t) == remove_token(s, t),
    decreases s.len(),
{
    if s.len() > 0 {
        lemma_unsubscribe_idempotent(s.drop_last(), t);
        let rp = remove_token(s.drop_last(), t);
        if s.last().token != t {
            assert forall|i: int| 0 <= i < rp.push(s.last()).len() implies
                (#[trigger] rp.push(s.last())[i]).token != t by {
                if i < rp.len() {
                    assert(!has_token(rp, t));
                    assert(rp[i].token != t);
                }
            }
        }
    }
    assert forall|i: int| 0 <= i < remove_token(s, t).len() implies
        (#[trigger] remove_token(s, t)[i]).token != t by {
        assert(!has_token(remove_token(s, t), t));
    }
    lemma_remove_token_absent(remove_token(s, t), t);
}

/// Purging an empty token batch changes nothing.
proof fn lemma_purge_tokens_none<LV>(s: Seq<EntryModel<LV>>, ts: Seq<u64>)
    requires
        ts.len() == 0,
    ensures
        purge_tokens(s, ts) == s,
    decreases s.len(),
{
    if s.len() > 0 {
        lemma_purge_tokens_none(s.drop_last(), ts);
        assert(!ts.contains(s.last().token));
        assert(s.drop_last().push(s.last()) =~= s);
    }
}

/// Purging one more token is removing it from the purged rest.
proof fn lemma_purge_tokens_extend<LV>(s: Seq<EntryModel<LV>>, ts: Seq<u64>, t: u64)
    ensures
        purge_tokens(s, ts.push(t)) == remove_token(purge_tokens(s, ts), t),
    decreases s.len(),
{
    let tsp = ts.push(t);
    if s.len() > 0 {
        lemma_purge_tokens_extend(s.drop_last(), ts, t);
        let x = s.last();
        assert(tsp.contains(x.token) <==> ts.contains(x.token) || x.token == t) by {
            if ts.contains(x.token) {
                let i = choose|i: int| 0 <= i < ts.len() && ts[i] == x.token;
                assert(tsp[i] == x.token);
            }
            if tsp.contains(x.token) {
                let i = choose|i: int| 0 <= i < tsp.len() && tsp[i] == x.token;
                if i < ts.len() {
                    assert(ts[i] == x.token);
                }
            }
            assert(tsp[ts.len() as int] == t);
        }
        let p = purge_tokens(s.drop_last(), ts);
        if ts.contains(x.token) {
            assert(purge_tokens(s, tsp) == purge_tokens(s.drop_last(), tsp));
            assert(purge_tokens(s, ts) == p);
        } else if x.token == t {
            assert(purge_tokens(s, tsp) == purge_tokens(s.drop_last(), tsp));
            assert(purge_tokens(s, ts) == p.push(x));
            assert(p.push(x).drop_last() =~= p);
            assert(p.push(x).last() == x);
            assert(remove_token(p.push(x), t) == remove_token(p, t));
        } else {
            assert(!tsp.contains(x.token));
            assert(purge_tokens(s, tsp) == purge_tokens(s.drop_last(), tsp).push(x));
            assert(purge_tokens(s, ts) == p.push(x));
            assert(p.push(x).drop_last() =~= p);
            assert(p.push(x).last() == x);
            assert(remove_token(p.push(x), t) == remove_token(p, t).push(x));
        }
    }
}

} // verus!
