//! The broadcast core: fan-out publish with per-subscriber outcome
//! aggregation and disconnect pruning.
//!
//! `publish` walks the records in registration order under exclusive access —
//! the live sequence is therefore exactly the snapshot a concurrent embedding
//! would take — delivers the message to each subscriber independently,
//! collects every outcome, and then purges the disconnected tokens. One
//! failing subscriber never aborts delivery to the rest, and a publish call
//! itself never fails.

use vstd::prelude::*;
use crate::listener::{CallbackResult, Listener};
use crate::mailbox::{Mailbox, MailboxModel, ReceiveOutcome, SendOutcome};
use crate::message::Message;
use crate::registry::{
    entries_wf, entry_wf, has_token, purge_tokens, remove_token, EntryModel, Registry, SubscribeError,
    SubscriberKind, SubscriberModel, Subscription, SnapshotEntry, Token,
};

verus! {

/// How one delivery attempt ended, from the publisher's point of view.
pub enum DeliveryOutcome {
    /// The message reached the subscriber (callback accepted, or enqueued).
    Delivered,
    /// The message was dropped for this subscriber only (callback error, or
    /// full mailbox); the subscriber stays registered.
    Failed,
    /// The subscriber's consumer side is gone (closed mailbox, or a callback
    /// asking to leave); it is pruned after the pass.
    Disconnected,
}

/// How delivering `m` to the record `e` ends, as a function of the record's
/// state alone: one subscriber's outcome never depends on another's.
pub open spec fn entry_outcome<L: Listener>(e: EntryModel<L::V>, m: Seq<u8>) -> DeliveryOutcome {
    match e.kind {
        SubscriberModel::Callback(lv) => match L::response(lv, m) {
            CallbackResult::Accepted => DeliveryOutcome::Delivered,
            CallbackResult::Failed => DeliveryOutcome::Failed,
            CallbackResult::Disconnect => DeliveryOutcome::Disconnected,
        },
        SubscriberModel::Mailbox(mb) => match mb.send_result() {
            SendOutcome::Sent => DeliveryOutcome::Delivered,
            SendOutcome::Full => DeliveryOutcome::Failed,
            SendOutcome::Closed => DeliveryOutcome::Disconnected,
        },
    }
}

/// The record `e` after `m` was delivered to it: the callback steps, an open
/// mailbox with room enqueues, everything else is unchanged.
pub open spec fn entry_after<L: Listener>(e: EntryModel<L::V>, m: Seq<u8>) -> EntryModel<L::V> {
    EntryModel {
        token: e.token,
        kind: match e.kind {
            SubscriberModel::Callback(lv) => SubscriberModel::Callback(L::step(lv, m)),
            SubscriberModel::Mailbox(mb) => SubscriberModel::Mailbox(mb.send_step(m)),
        },
    }
}

/// The tokens of the records in `s` whose delivery of `m` ends as `oc`, in
/// registration order.
pub open spec fn report_tokens<L: Listener>(
    s: Seq<EntryModel<L::V>>,
    m: Seq<u8>,
    oc: DeliveryOutcome,
) -> Seq<u64>
    decreases s.len(),
{
    if s.len() == 0 {
        Seq::empty()
    } else {
        let rest = report_tokens::<L>(s.drop_last(), m, oc);
        if entry_outcome::<L>(s.last(), m) == oc {
            rest.push(s.last().token)
        } else {
            rest
        }
    }
}

/// Every record after `m` was delivered to it, disconnected ones included.
pub open spec fn all_after<L: Listener>(s: Seq<EntryModel<L::V>>, m: Seq<u8>) -> Seq<EntryModel<L::V>>
    decreases s.len(),
{
    if s.len() == 0 {
        Seq::empty()
    } else {
        all_after::<L>(s.drop_last(), m).push(entry_after::<L>(s.last(), m))
    }
}

/// The records that remain registered after a publish of `m` to `s`: each
/// surviving record stepped by the delivery, the disconnected ones pruned.
pub open spec fn entries_after_publish<L: Listener>(
    s: Seq<EntryModel<L::V>>,
    m: Seq<u8>,
) -> Seq<EntryModel<L::V>>
    decreases s.len(),
{
    if s.len() == 0 {
        Seq::empty()
    } else {
        let rest = entries_after_publish::<L>(s.drop_last(), m);
        if entry_outcome::<L>(s.last(), m) == DeliveryOutcome::Disconnected {
            rest
        } else {
            rest.push(entry_after::<L>(s.last(), m))
        }
    }
}

/// The index of the record carrying `t`; meaningful when `has_token(s, t)`.
pub open spec fn token_index<LV>(s: Seq<EntryModel<LV>>, t: u64) -> int {
    choose|i: int| 0 <= i < s.len() && s[i].token == t
}

/// The record carrying `t`, if any.
pub open spec fn find_token<LV>(s: Seq<EntryModel<LV>>, t: u64) -> Option<EntryModel<LV>> {
    if has_token(s, t) {
        Some(s[token_index(s, t)])
    } else {
        None
    }
}

/// The views of a token list.
pub open spec fn token_views(ts: Seq<Token>) -> Seq<u64> {
    ts.map_values(|t: Token| t@)
}

/// The mathematical content of a delivery report: the tokens of each
/// category, in registration order.
pub struct ReportModel {
    pub delivered: Seq<u64>,
    pub failed: Seq<u64>,
    pub disconnected: Seq<u64>,
}

/// The per-publish outcome summary: a partition of the attempted subscribers
/// into delivered, failed and disconnected, so a caller can observe partial
/// failure without the publish call itself failing.
pub struct DeliveryReport {
    pub delivered: Vec<Token>,
    pub failed: Vec<Token>,
    pub disconnected: Vec<Token>,
}

impl View for DeliveryReport {
    type V = ReportModel;

    open spec fn view(&self) -> ReportModel {
        ReportModel {
            delivered: token_views(self.delivered@),
            failed: token_views(self.failed@),
            disconnected: token_views(self.disconnected@),
        }
    }
}

impl DeliveryReport {
    pub fn delivered_count(&self) -> (n: usize)
        ensures
            n == self@.delivered.len(),
    {
        self.delivered.len()
    }

    pub fn failed_count(&self) -> (n: usize)
        ensures
            n == self@.failed.len(),
    {
        self.failed.len()
    }

    pub fn disconnected_count(&self) -> (n: usize)
        ensures
            n == self@.disconnected.len(),
    {
        self.disconnected.len()
    }
}

/// The consumer's own end of a mailbox subscription: an opaque handle that
/// can drain and close the mailbox but grants no other access to the core.
pub struct MailboxHandle {
    token: Token,
}

impl View for MailboxHandle {
    type V = u64;

    closed spec fn view(&self) -> u64 {
        self.token@
    }
}

/// The broadcast core: owns the registry and orchestrates fan-out.
pub struct BroadcastCore<L> {
    registry: Registry<L>,
}

impl<L: View> View for BroadcastCore<L> {
    type V = Seq<EntryModel<L::V>>;

    closed spec fn view(&self) -> Seq<EntryModel<L::V>> {
        self.registry@
    }
}

impl<L: View> BroadcastCore<L> {
    /// The next token value to be minted.
    pub closed spec fn next_id(self) -> u64 {
        self.registry.next_id()
    }

    pub closed spec fn wf(self) -> bool {
        self.registry.wf()
    }

    /// What well-formedness of the core means for its model.
    pub proof fn lemma_wf_entries(self)
        ensures
            self.wf() <==> entries_wf(self@, self.next_id()),
    {
    }

    pub fn new() -> (c: BroadcastCore<L>)
        ensures
            c@ == Seq::<EntryModel<L::V>>::empty(),
            c.next_id() == 0,
            c.wf(),
    {
        BroadcastCore { registry: Registry::new() }
    }

    pub fn subscriber_count(&self) -> (n: usize)
        ensures
            n == self@.len(),
    {
        self.registry.len()
    }

    /// Registers a synchronous callback subscriber under a fresh token.
    pub fn subscribe_callback(&mut self, listener: L) -> (r: Result<Token, SubscribeError>)
        requires
            old(self).wf(),
        ensures
            final(self).wf(),
            old(self).next_id() < u64::MAX ==> {
                &&& r matches Ok(t) && t@ == old(self).next_id()
                &&& final(self)@ == old(self)@.push(
                    EntryModel { token: old(self).next_id(), kind: SubscriberModel::Callback(listener@) },
                )
                &&& final(self).next_id() == old(self).next_id() + 1
            },
            old(self).next_id() == u64::MAX ==> {
                &&& r == Result::<Token, SubscribeError>::Err(SubscribeError::CapacityExhausted)
                &&& final(self)@ == old(self)@
                &&& final(self).next_id() == old(self).next_id()
            },
    {
        self.registry.subscribe(SubscriberKind::Callback(listener))
    }

    /// Registers a mailbox subscriber with the given bound; hands back the
    /// token and the consumer's handle. A zero capacity is a caller error.
    pub fn subscribe_mailbox(&mut self, capacity: usize) -> (r: Result<(Token, MailboxHandle), SubscribeError>)
        requires
            old(self).wf(),
        ensures
            final(self).wf(),
            capacity == 0 ==> {
                &&& r == Result::<(Token, MailboxHandle), SubscribeError>::Err(SubscribeError::InvalidCapacity)
                &&& final(self)@ == old(self)@
                &&& final(self).next_id() == old(self).next_id()
            },
            capacity >= 1 && old(self).next_id() < u64::MAX ==> {
                &&& r matches Ok((t, h)) && t@ == old(self).next_id() && h@ == t@
                &&& final(self)@ == old(self)@.push(
                    EntryModel {
                        token: old(self).next_id(),
                        kind: SubscriberModel::Mailbox(
                            MailboxModel { queue: Seq::empty(), capacity: capacity as nat, closed: false },
                        ),
                    },
                )
                &&& final(self).next_id() == old(self).next_id() + 1
            },
            capacity >= 1 && old(self).next_id() == u64::MAX ==> {
                &&& r == Result::<(Token, MailboxHandle), SubscribeError>::Err(SubscribeError::CapacityExhausted)
                &&& final(self)@ == old(self)@
                &&& final(self).next_id() == old(self).next_id()
            },
    {
        if capacity == 0 {
            return Err(SubscribeError::InvalidCapacity);
        }
        let mb = Mailbox::new(capacity);
        match self.registry.subscribe(SubscriberKind::Mailbox(mb)) {
            Ok(t) => Ok((t, MailboxHandle { token: t })),
            Err(e) => Err(e),
        }
    }

    /// Removes the subscription under `token`; reports whether one was
    /// removed. Idempotent: a second call for the same token reports `false`.
    pub fn unsubscribe(&mut self, token: Token) -> (r: bool)
        requires
            old(self).wf(),
        ensures
            final(self).wf(),
            r == has_token(old(self)@, token@),
            final(self)@ == remove_token(old(self)@, token@),
            final(self).next_id() == old(self).next_id(),
    {
        self.registry.unsubscribe(token)
    }

    /// Whether a subscription under `token` is currently registered.
    pub fn contains(&self, token: Token) -> (r: bool)
        ensures
            r == has_token(self@, token@),
    {
        self.registry.contains(token)
    }

    /// A registration-ordered copy of the current identities, safe to keep
    /// while the core is mutated.
    pub fn snapshot(&self) -> (r: Vec<SnapshotEntry>)
        ensures
            r@.len() == self@.len(),
            forall|i: int| 0 <= i < r@.len() ==> (#[trigger] r@[i]).token@ == self@[i].token,
            forall|i: int| 0 <= i < r@.len()
                ==> (#[trigger] r@[i]).is_mailbox == (self@[i].kind is Mailbox),
    {
        self.registry.snapshot()
    }

    /// Lends the state of the callback subscriber under `token`, if that
    /// token names a callback subscription.
    pub fn callback_state(&self, token: Token) -> (r: Option<&L>)
        requires
            self.wf(),
        ensures
            match find_token(self@, token@) {
                Some(e) => match e.kind {
                    SubscriberModel::Callback(lv) => r matches Some(l) && l@ == lv,
                    SubscriberModel::Mailbox(_) => r is None,
                },
                None => r is None,
            },
    {
        match self.registry.find(token) {
            None => None,
            Some(i) => {
                proof {
                    lemma_token_index_unique(self@, token@, i as int);
                }
                match &self.registry.get_at(i).kind {
                    SubscriberKind::Callback(l) => Some(l),
                    SubscriberKind::Mailbox(_) => None,
                }
            },
        }
    }
}

impl<L: Listener> BroadcastCore<L> {
    /// Delivers `m` to every currently registered subscriber, in registration
    /// order, collecting each outcome; then purges the disconnected tokens.
    /// Per-subscriber failures are isolated: the pass always runs to
    /// completion and the call itself never fails.
    pub fn publish(&mut self, m: &Message) -> (r: DeliveryReport)
        requires
            old(self).wf(),
        ensures
            final(self).wf(),
            r@.delivered == report_tokens::<L>(old(self)@, m@, DeliveryOutcome::Delivered),
            r@.failed == report_tokens::<L>(old(self)@, m@, DeliveryOutcome::Failed),
            r@.disconnected == report_tokens::<L>(old(self)@, m@, DeliveryOutcome::Disconnected),
            final(self)@ == entries_after_publish::<L>(old(self)@, m@),
            final(self).next_id() == old(self).next_id(),
    {
        let ghost orig = self@;
        let ghost mm = m@;
        let mut delivered: Vec<Token> = Vec::new();
        let mut failed: Vec<Token> = Vec::new();
        let mut disconnected: Vec<Token> = Vec::new();
        let n = self.registry.len();
        let mut i: usize = 0;
        proof {
            assert(token_views(delivered@) =~= Seq::<u64>::empty());
            assert(token_views(failed@) =~= Seq::<u64>::empty());
            assert(token_views(disconnected@) =~= Seq::<u64>::empty());
        }
        while i < n
            invariant
                i <= n,
                n == orig.len(),
                mm == m@,
                self.registry@.len() == n,
                forall|j: int| i <= j < n ==> self.registry@[j] == orig[j],
                forall|j: int| 0 <= j < i ==> self.registry@[j] == entry_after::<L>(orig[j], mm),
                token_views(delivered@) == report_tokens::<L>(orig.take(i as int), mm, DeliveryOutcome::Delivered),
                token_views(failed@) == report_tokens::<L>(orig.take(i as int), mm, DeliveryOutcome::Failed),
                token_views(disconnected@) == report_tokens::<L>(orig.take(i as int), mm, DeliveryOutcome::Disconnected),
                self.registry.next_id() == old(self).next_id(),
            decreases n - i,
        {
            proof {
                assert(self.registry@[i as int] == orig[i as int]);
            }
            let ghost pre = self.registry@;
            let sub = self.registry.take_at(i);
            proof {
                assert(sub@ == orig[i as int]);
            }
            let token = sub.token;
            let Subscription { token: t2, kind } = sub;
            let (kind2, oc) = match kind {
                SubscriberKind::Callback(mut l) => {
                    let ghost lv0 = l@;
                    proof {
                        assert(orig[i as int].kind == SubscriberModel::Callback(lv0));
                    }
                    let cr = l.on_message(m);
                    proof {
                        assert(cr == L::response(lv0, mm));
                        assert(l@ == L::step(lv0, mm));
                    }
                    let oc = match cr {
                        CallbackResult::Accepted => DeliveryOutcome::Delivered,
                        CallbackResult::Failed => DeliveryOutcome::Failed,
                        CallbackResult::Disconnect => DeliveryOutcome::Disconnected,
                    };
                    proof {
                        assert(oc == entry_outcome::<L>(orig[i as int], mm));
                        assert(SubscriberModel::Callback(l@) == entry_after::<L>(orig[i as int], mm).kind);
                    }
                    (SubscriberKind::Callback(l), oc)
                },
                SubscriberKind::Mailbox(mut mb) => {
                    let ghost mb0 = mb@;
                    proof {
                        assert(orig[i as int].kind == SubscriberModel::<L::V>::Mailbox(mb0));
                    }
                    let sr = mb.send(m);
                    proof {
                        assert(sr == mb0.send_result());
                        assert(mb@ == mb0.send_step(mm));
                    }
                    let oc = match sr {
                        SendOutcome::Sent => DeliveryOutcome::Delivered,
                        SendOutcome::Full => DeliveryOutcome::Failed,
                        SendOutcome::Closed => DeliveryOutcome::Disconnected,
                    };
                    proof {
                        assert(oc == entry_outcome::<L>(orig[i as int], mm));
                        assert(SubscriberModel::<L::V>::Mailbox(mb@) == entry_after::<L>(orig[i as int], mm).kind);
                    }
                    (SubscriberKind::Mailbox(mb), oc)
                },
            };
            let stepped = Subscription { token: t2, kind: kind2 };
            proof {
                assert(stepped@ == entry_after::<L>(orig[i as int], mm));
                assert(oc == entry_outcome::<L>(orig[i as int], mm));
            }
            self.registry.put_back(i, stepped);
            proof {
                assert forall|j: int| 0 <= j < n implies self.registry@[j] == (if j == i as int {
                    entry_after::<L>(orig[j], mm)
                } else {
                    pre[j]
                }) by {
                    if j < i as int {
                        assert(self.registry@[j] == pre.remove(i as int)[j]);
                    } else if j > i as int {
                        assert(self.registry@[j] == pre.remove(i as int)[j - 1]);
                    }
                }
                assert(orig.take(i as int + 1).drop_last() =~= orig.take(i as int));
                assert(orig.take(i as int + 1).last() == orig[i as int]);
            }
            match oc {
                DeliveryOutcome::Delivered => {
                    delivered.push(token);
                    proof {
                        assert(token_views(delivered@) =~= report_tokens::<L>(orig.take(i as int), mm, DeliveryOutcome::Delivered).push(token@));
                    }
                },
                DeliveryOutcome::Failed => {
                    failed.push(token);
                    proof {
                        assert(token_views(failed@) =~= report_tokens::<L>(orig.take(i as int), mm, DeliveryOutcome::Failed).push(token@));
                    }
                },
                DeliveryOutcome::Disconnected => {
                    disconnected.push(token);
                    proof {
                        assert(token_views(disconnected@) =~= report_tokens::<L>(orig.take(i as int), mm, DeliveryOutcome::Disconnected).push(token@));
                    }
                },
            }
            i = i + 1;
        }
        proof {
            assert(orig.take(n as int) =~= orig);
            lemma_all_after_index::<L>(orig, mm);
            assert(self.registry@ =~= all_after::<L>(orig, mm));
            assert(entries_wf(orig, old(self).next_id()));
            assert forall|j: int| 0 <= j < n implies entry_wf(#[trigger] self.registry@[j]) by {
                assert(entry_wf(orig[j]));
                assert(self.registry@[j] == entry_after::<L>(orig[j], mm));
            }
            assert(entries_wf(self.registry@, self.registry.next_id()));
        }
        self.registry.purge(&disconnected);
        proof {
            lemma_publish_residue::<L>(orig, mm);
        }
        DeliveryReport { delivered, failed, disconnected }
    }
}

impl MailboxHandle {
    /// The token of the subscription this handle belongs to.
    pub fn token(&self) -> (t: Token)
        ensures
            t@ == self@,
    {
        self.token
    }

    /// Polling receive from this handle's mailbox: the oldest queued message
    /// if any (even after closing), `Closed` once the subscription is gone or
    /// drained-and-closed, `TimedOut` when the queue is merely empty. Waiting
    /// out a timeout is the embedding's affair: it re-polls until then.
    pub fn receive<L: View>(&self, core: &mut BroadcastCore<L>) -> (r: ReceiveOutcome)
        requires
            old(core).wf(),
        ensures
            final(core).wf(),
            final(core).next_id() == old(core).next_id(),
            match find_token(old(core)@, self@) {
                None => r is Closed && final(core)@ == old(core)@,
                Some(e) => match e.kind {
                    SubscriberModel::Callback(_) => r is Closed && final(core)@ == old(core)@,
                    SubscriberModel::Mailbox(mb) => {
                        &&& mb.queue.len() > 0 ==> {
                            &&& r matches ReceiveOutcome::Received(msg) && msg@ == mb.queue[0]
                            &&& final(core)@ == old(core)@.update(
                                token_index(old(core)@, self@),
                                EntryModel {
                                    token: self@,
                                    kind: SubscriberModel::Mailbox(MailboxModel { queue: mb.queue.drop_first(), ..mb }),
                                },
                            )
                        }
                        &&& mb.queue.len() == 0 && mb.closed ==> r is Closed && final(core)@ == old(core)@
                        &&& mb.queue.len() == 0 && !mb.closed ==> r is TimedOut && final(core)@ == old(core)@
                    },
                },
            },
    {
        match core.registry.find(self.token) {
            None => ReceiveOutcome::Closed,
            Some(i) => {
                proof {
                    lemma_token_index_unique(core@, self@, i as int);
                }
                let ghost pre = core.registry@;
                let sub = core.registry.take_at(i);
                let Subscription { token, kind } = sub;
                let (kind2, r) = match kind {
                    SubscriberKind::Callback(l) => (SubscriberKind::Callback(l), ReceiveOutcome::Closed),
                    SubscriberKind::Mailbox(mut mb) => {
                        let r = mb.receive();
                        (SubscriberKind::Mailbox(mb), r)
                    },
                };
                let ghost stepped = (Subscription { token, kind: kind2 })@;
                core.registry.put_back(i, Subscription { token, kind: kind2 });
                proof {
                    assert(core.registry@ =~= pre.update(i as int, stepped));
                    if stepped == pre[i as int] {
                        assert(core.registry@ =~= pre);
                    }
                    assert forall|j: int| 0 <= j < core.registry@.len() implies entry_wf(#[trigger] core.registry@[j]) by {
                        assert(entry_wf(pre[j]));
                    }
                }
                r
            },
        }
    }

    /// Consumer-side disposal: marks this handle's mailbox permanently
    /// closed. Later `send`s report `Closed`, so the next publish prunes the
    /// subscription; messages already queued can still be drained until then.
    pub fn close<L: View>(&self, core: &mut BroadcastCore<L>)
        requires
            old(core).wf(),
        ensures
            final(core).wf(),
            final(core).next_id() == old(core).next_id(),
            match find_token(old(core)@, self@) {
                None => final(core)@ == old(core)@,
                Some(e) => match e.kind {
                    SubscriberModel::Callback(_) => final(core)@ == old(core)@,
                    SubscriberModel::Mailbox(mb) => final(core)@ == old(core)@.update(
                        token_index(old(core)@, self@),
                        EntryModel {
                            token: self@,
                            kind: SubscriberModel::Mailbox(MailboxModel { closed: true, ..mb }),
                        },
                    ),
                },
            },
    {
        match core.registry.find(self.token) {
            None => {},
            Some(i) => {
                proof {
                    lemma_token_index_unique(core@, self@, i as int);
                }
                let ghost pre = core.registry@;
                let sub = core.registry.take_at(i);
                let Subscription { token, kind } = sub;
                let kind2 = match kind {
                    SubscriberKind::Callback(l) => SubscriberKind::Callback(l),
                    SubscriberKind::Mailbox(mut mb) => {
                        mb.close();
                        SubscriberKind::Mailbox(mb)
                    },
                };
                let ghost stepped = (Subscription { token, kind: kind2 })@;
                core.registry.put_back(i, Subscription { token, kind: kind2 });
                proof {
                    assert(core.registry@ =~= pre.update(i as int, stepped));
                    if stepped == pre[i as int] {
                        assert(core.registry@ =~= pre);
                    }
                    assert forall|j: int| 0 <= j < core.registry@.len() implies entry_wf(#[trigger] core.registry@[j]) by {
                        assert(entry_wf(pre[j]));
                    }
                }
            },
        }
    }
}

/// In a strictly ordered record sequence, the chosen index of a present token
/// is its only index.
pub proof fn lemma_token_index_unique<LV>(s: Seq<EntryModel<LV>>, t: u64, i: int)
    requires
        forall|p: int, q: int| 0 <= p < q < s.len() ==> s[p].token < s[q].token,
        0 <= i < s.len(),
        s[i].token == t,
    ensures
        has_token(s, t),
        token_index(s, t) == i,
        find_token(s, t) == Some(s[i]),
{
    assert(has_token(s, t));
    let j = token_index(s, t);
    assert(0 <= j < s.len() && s[j].token == t);
    if j < i {
        assert(s[j].token < s[i].token);
    }
    if i < j {
        assert(s[i].token < s[j].token);
    }
}

/// `all_after` steps every record pointwise and keeps positions.
proof fn lemma_all_after_index<L: Listener>(s: Seq<EntryModel<L::V>>, m: Seq<u8>)
    ensures
        all_after::<L>(s, m).len() == s.len(),
        forall|j: int| 0 <= j < s.len() ==> all_after::<L>(s, m)[j] == entry_after::<L>(s[j], m),
    decreases s.len(),
{
    if s.len() > 0 {
        lemma_all_after_index::<L>(s.drop_last(), m);
        assert forall|j: int| 0 <= j < s.len() implies all_after::<L>(s, m)[j] == entry_after::<L>(s[j], m) by {
            if j < s.len() - 1 {
                assert(all_after::<L>(s, m)[j] == all_after::<L>(s.drop_last(), m)[j]);
                assert(s.drop_last()[j] == s[j]);
            }
        }
    }
}

/// A reported token always belongs to some record with that outcome, and
/// every record's token is reported under its own outcome.
pub proof fn lemma_report_membership<L: Listener>(s: Seq<EntryModel<L::V>>, m: Seq<u8>, oc: DeliveryOutcome)
    ensures
        forall|t: u64| report_tokens::<L>(s, m, oc).contains(t)
            <==> exists|j: int| 0 <= j < s.len() && (#[trigger] s[j]).token == t && entry_outcome::<L>(s[j], m) == oc,
    decreases s.len(),
{
    if s.len() > 0 {
        lemma_report_membership::<L>(s.drop_last(), m, oc);
        let rt = report_tokens::<L>(s, m, oc);
        let rp = report_tokens::<L>(s.drop_last(), m, oc);
        assert forall|t: u64| rt.contains(t) implies
            exists|j: int| 0 <= j < s.len() && (#[trigger] s[j]).token == t && entry_outcome::<L>(s[j], m) == oc by {
            let k = choose|k: int| 0 <= k < rt.len() && rt[k] == t;
            if entry_outcome::<L>(s.last(), m) == oc && k == rt.len() - 1 {
                assert(s[s.len() - 1].token == t && entry_outcome::<L>(s[s.len() - 1], m) == oc);
            } else {
                assert(rp[k] == t);
                assert(rp.contains(t));
                let j = choose|j: int| 0 <= j < s.drop_last().len() && (#[trigger] s.drop_last()[j]).token == t
                    && entry_outcome::<L>(s.drop_last()[j], m) == oc;
                assert(s[j].token == t && entry_outcome::<L>(s[j], m) == oc);
            }
        }
        assert forall|t: u64| (exists|j: int| 0 <= j < s.len() && (#[trigger] s[j]).token == t
            && entry_outcome::<L>(s[j], m) == oc) implies rt.contains(t) by {
            let j = choose|j: int| 0 <= j < s.len() && (#[trigger] s[j]).token == t && entry_outcome::<L>(s[j], m) == oc;
            if j == s.len() - 1 {
                assert(rt.last() == t);
            } else {
                assert(s.drop_last()[j] == s[j]);
                assert(rp.contains(t));
                let k = choose|k: int| 0 <= k < rp.len() && rp[k] == t;
                assert(rt[k] == t);
            }
        }
    }
}

/// Purging a token that occurs nowhere in `u` changes nothing.
proof fn lemma_purge_extra_token<LV>(u: Seq<EntryModel<LV>>, ids: Seq<u64>, t: u64)
    requires
        forall|j: int| 0 <= j < u.len() ==> (#[trigger] u[j]).token != t,
    ensures
        purge_tokens(u, ids.push(t)) == purge_tokens(u, ids),
    decreases u.len(),
{
    if u.len() > 0 {
        assert forall|j: int| 0 <= j < u.drop_last().len() implies
            (#[trigger] u.drop_last()[j]).token != t by {
            assert(u.drop_last()[j] == u[j]);
        }
        lemma_purge_extra_token(u.drop_last(), ids, t);
        let x = u.last();
        assert(x.token != t);
        assert(ids.push(t).contains(x.token) <==> ids.contains(x.token)) by {
            if ids.contains(x.token) {
                let i = choose|i: int| 0 <= i < ids.len() && ids[i] == x.token;
                assert(ids.push(t)[i] == x.token);
            }
            if ids.push(t).contains(x.token) {
                let i = choose|i: int| 0 <= i < ids.push(t).len() && ids.push(t)[i] == x.token;
                assert(i < ids.len());
                assert(ids[i] == x.token);
            }
        }
    }
}

/// Fan-out order is deterministic: within one publish, every report list is
/// strictly ascending in token — and the token is the registration sequence
/// number, so subscribers are reached in the order they were registered.
pub proof fn lemma_report_ordered<L: Listener>(s: Seq<EntryModel<L::V>>, m: Seq<u8>, oc: DeliveryOutcome)
    requires
        forall|p: int, q: int| 0 <= p < q < s.len() ==> s[p].token < s[q].token,
    ensures
        forall|p: int, q: int| 0 <= p < q < report_tokens::<L>(s, m, oc).len()
            ==> report_tokens::<L>(s, m, oc)[p] < report_tokens::<L>(s, m, oc)[q],
    decreases s.len(),
{
    if s.len() > 0 {
        let sp = s.drop_last();
        assert forall|p: int, q: int| 0 <= p < q < sp.len() implies sp[p].token < sp[q].token by {
            assert(sp[p] == s[p] && sp[q] == s[q]);
        }
        lemma_report_ordered::<L>(sp, m, oc);
        lemma_report_membership::<L>(sp, m, oc);
        let rt = report_tokens::<L>(s, m, oc);
        let rp = report_tokens::<L>(sp, m, oc);
        if entry_outcome::<L>(s.last(), m) == oc {
            assert forall|p: int, q: int| 0 <= p < q < rt.len() implies rt[p] < rt[q] by {
                if q == rt.len() - 1 {
                    assert(rt[p] == rp[p]);
                    assert(rp.contains(rp[p]));
                    let j = choose|j: int| 0 <= j < sp.len() && (#[trigger] sp[j]).token == rp[p]
                        && entry_outcome::<L>(sp[j], m) == oc;
                    assert(s[j].token < s[s.len() - 1].token);
                }
            }
        }
    }
}

/// Every record's token is reported under exactly its own outcome: what one
/// subscriber's delivery reports never depends on any other subscriber.
pub proof fn lemma_entry_reported<L: Listener>(s: Seq<EntryModel<L::V>>, m: Seq<u8>, k: int, oc: DeliveryOutcome)
    requires
        forall|p: int, q: int| 0 <= p < q < s.len() ==> s[p].token < s[q].token,
        0 <= k < s.len(),
    ensures
        report_tokens::<L>(s, m, oc).contains(s[k].token) <==> entry_outcome::<L>(s[k], m) == oc,
{
    lemma_report_membership::<L>(s, m, oc);
    if report_tokens::<L>(s, m, oc).contains(s[k].token) {
        let j = choose|j: int| 0 <= j < s.len() && (#[trigger] s[j]).token == s[k].token
            && entry_outcome::<L>(s[j], m) == oc;
        if j < k {
            assert(s[j].token < s[k].token);
        }
        if k < j {
            assert(s[k].token < s[j].token);
        }
    }
}

/// At-most-once delivery: within one publish, no token is ever reported
/// twice — each report list is duplicate-free and the three lists are
/// pairwise disjoint, so no subscriber sees the same message twice.
pub proof fn lemma_at_most_once<L: Listener>(s: Seq<EntryModel<L::V>>, m: Seq<u8>)
    requires
        forall|p: int, q: int| 0 <= p < q < s.len() ==> s[p].token < s[q].token,
    ensures
        forall|oc: DeliveryOutcome, p: int, q: int|
            0 <= p < q < report_tokens::<L>(s, m, oc).len()
                ==> report_tokens::<L>(s, m, oc)[p] != report_tokens::<L>(s, m, oc)[q],
        forall|oc1: DeliveryOutcome, oc2: DeliveryOutcome, t: u64|
            report_tokens::<L>(s, m, oc1).contains(t) && report_tokens::<L>(s, m, oc2).contains(t)
                ==> oc1 == oc2,
{
    assert forall|oc: DeliveryOutcome, p: int, q: int|
        0 <= p < q < report_tokens::<L>(s, m, oc).len()
            implies report_tokens::<L>(s, m, oc)[p] != report_tokens::<L>(s, m, oc)[q] by {
        lemma_report_ordered::<L>(s, m, oc);
    }
    assert forall|oc1: DeliveryOutcome, oc2: DeliveryOutcome, t: u64|
        report_tokens::<L>(s, m, oc1).contains(t) && report_tokens::<L>(s, m, oc2).contains(t)
            implies oc1 == oc2 by {
        lemma_report_membership::<L>(s, m, oc1);
        lemma_report_membership::<L>(s, m, oc2);
        let j1 = choose|j: int| 0 <= j < s.len() && (#[trigger] s[j]).token == t
            && entry_outcome::<L>(s[j], m) == oc1;
        let j2 = choose|j: int| 0 <= j < s.len() && (#[trigger] s[j]).token == t
            && entry_outcome::<L>(s[j], m) == oc2;
        if j1 < j2 {
            assert(s[j1].token < s[j2].token);
        }
        if j2 < j1 {
            assert(s[j2].token < s[j1].token);
        }
    }
}

/// A token survives a publish exactly when its record's own delivery did not
/// end in a disconnect.
pub proof fn lemma_surviving_tokens<L: Listener>(s: Seq<EntryModel<L::V>>, m: Seq<u8>)
    requires
        forall|p: int, q: int| 0 <= p < q < s.len() ==> s[p].token < s[q].token,
    ensures
        forall|t: u64| has_token(entries_after_publish::<L>(s, m), t)
            <==> exists|j: int| 0 <= j < s.len() && (#[trigger] s[j]).token == t
                && entry_outcome::<L>(s[j], m) != DeliveryOutcome::Disconnected,
    decreases s.len(),
{
    if s.len() > 0 {
        let sp = s.drop_last();
        assert forall|p: int, q: int| 0 <= p < q < sp.len() implies sp[p].token < sp[q].token by {
            assert(sp[p] == s[p] && sp[q] == s[q]);
        }
        lemma_surviving_tokens::<L>(sp, m);
        let e = entries_after_publish::<L>(s, m);
        let ep = entries_after_publish::<L>(sp, m);
        let x = s.last();
        let xa = entry_after::<L>(x, m);
        assert forall|t: u64| has_token(e, t) implies
            exists|j: int| 0 <= j < s.len() && (#[trigger] s[j]).token == t
                && entry_outcome::<L>(s[j], m) != DeliveryOutcome::Disconnected by {
            let k = choose|k: int| 0 <= k < e.len() && e[k].token == t;
            if entry_outcome::<L>(x, m) != DeliveryOutcome::Disconnected && k == e.len() - 1 {
                assert(s[s.len() - 1].token == t);
            } else {
                assert(e[k] == ep[k]);
                assert(has_token(ep, t));
                let j = choose|j: int| 0 <= j < sp.len() && (#[trigger] sp[j]).token == t
                    && entry_outcome::<L>(sp[j], m) != DeliveryOutcome::Disconnected;
                assert(s[j].token == t && entry_outcome::<L>(s[j], m) != DeliveryOutcome::Disconnected);
            }
        }
        assert forall|t: u64| (exists|j: int| 0 <= j < s.len() && (#[trigger] s[j]).token == t
            && entry_outcome::<L>(s[j], m) != DeliveryOutcome::Disconnected) implies has_token(e, t) by {
            let j = choose|j: int| 0 <= j < s.len() && (#[trigger] s[j]).token == t
                && entry_outcome::<L>(s[j], m) != DeliveryOutcome::Disconnected;
            if j == s.len() - 1 {
                assert(e.last() == xa);
                assert(e[e.len() - 1].token == t);
            } else {
                assert(sp[j] == s[j]);
                assert(has_token(ep, t));
                let k = choose|k: int| 0 <= k < ep.len() && ep[k].token == t;
                assert(e[k] == ep[k]);
            }
        }
    }
}

/// A record whose delivery did not disconnect survives the publish as its
/// stepped self.
pub proof fn lemma_survivor_state<L: Listener>(s: Seq<EntryModel<L::V>>, m: Seq<u8>, i: int)
    requires
        0 <= i < s.len(),
        entry_outcome::<L>(s[i], m) != DeliveryOutcome::Disconnected,
    ensures
        exists|k: int| 0 <= k < entries_after_publish::<L>(s, m).len()
            && entries_after_publish::<L>(s, m)[k] == entry_after::<L>(s[i], m),
    decreases s.len(),
{
    let e = entries_after_publish::<L>(s, m);
    if i == s.len() - 1 {
        assert(e.last() == entry_after::<L>(s[i], m));
        assert(e[e.len() - 1] == entry_after::<L>(s[i], m));
    } else {
        let sp = s.drop_last();
        assert(sp[i] == s[i]);
        lemma_survivor_state::<L>(sp, m, i);
        let ep = entries_after_publish::<L>(sp, m);
        let k = choose|k: int| 0 <= k < ep.len() && ep[k] == entry_after::<L>(sp[i], m);
        assert(e[k] == ep[k]);
    }
}

/// A token registered nowhere is never reported and never appears afterwards:
/// once unsubscribed (or never subscribed), a token observes nothing of any
/// later publish.
pub proof fn lemma_unsubscribed_unreported<L: Listener>(s: Seq<EntryModel<L::V>>, m: Seq<u8>, t: u64)
    requires
        forall|p: int, q: int| 0 <= p < q < s.len() ==> s[p].token < s[q].token,
        !has_token(s, t),
    ensures
        !report_tokens::<L>(s, m, DeliveryOutcome::Delivered).contains(t),
        !report_tokens::<L>(s, m, DeliveryOutcome::Failed).contains(t),
        !report_tokens::<L>(s, m, DeliveryOutcome::Disconnected).contains(t),
        !has_token(entries_after_publish::<L>(s, m), t),
{
    lemma_report_membership::<L>(s, m, DeliveryOutcome::Delivered);
    lemma_report_membership::<L>(s, m, DeliveryOutcome::Failed);
    lemma_report_membership::<L>(s, m, DeliveryOutcome::Disconnected);
    lemma_surviving_tokens::<L>(s, m);
}

/// Mailbox backpressure: delivering to a full, open mailbox is reported as a
/// failure, not a disconnect; the record — the queue contents included — is
/// unchanged and the subscriber stays registered.
pub proof fn lemma_full_mailbox_retained<L: Listener>(s: Seq<EntryModel<L::V>>, m: Seq<u8>, i: int)
    requires
        forall|p: int, q: int| 0 <= p < q < s.len() ==> s[p].token < s[q].token,
        0 <= i < s.len(),
        s[i].kind matches SubscriberModel::Mailbox(mb) && !mb.closed && mb.queue.len() >= mb.capacity,
    ensures
        report_tokens::<L>(s, m, DeliveryOutcome::Failed).contains(s[i].token),
        !report_tokens::<L>(s, m, DeliveryOutcome::Disconnected).contains(s[i].token),
        has_token(entries_after_publish::<L>(s, m), s[i].token),
        exists|k: int| 0 <= k < entries_after_publish::<L>(s, m).len()
            && entries_after_publish::<L>(s, m)[k] == s[i],
{
    assert(entry_outcome::<L>(s[i], m) == DeliveryOutcome::Failed);
    lemma_entry_reported::<L>(s, m, i, DeliveryOutcome::Failed);
    lemma_entry_reported::<L>(s, m, i, DeliveryOutcome::Disconnected);
    lemma_surviving_tokens::<L>(s, m);
    assert(entry_after::<L>(s[i], m) == s[i]);
    lemma_survivor_state::<L>(s, m, i);
}

/// Disconnect pruning: delivering to a closed mailbox is reported as a
/// disconnect and the record is gone afterwards — a following publish (see
/// `lemma_unsubscribed_unreported`) no longer references its token at all.
pub proof fn lemma_closed_mailbox_pruned<L: Listener>(s: Seq<EntryModel<L::V>>, m: Seq<u8>, i: int)
    requires
        forall|p: int, q: int| 0 <= p < q < s.len() ==> s[p].token < s[q].token,
        0 <= i < s.len(),
        s[i].kind matches SubscriberModel::Mailbox(mb) && mb.closed,
    ensures
        report_tokens::<L>(s, m, DeliveryOutcome::Disconnected).contains(s[i].token),
        !report_tokens::<L>(s, m, DeliveryOutcome::Delivered).contains(s[i].token),
        !has_token(entries_after_publish::<L>(s, m), s[i].token),
{
    assert(entry_outcome::<L>(s[i], m) == DeliveryOutcome::Disconnected);
    lemma_entry_reported::<L>(s, m, i, DeliveryOutcome::Disconnected);
    lemma_entry_reported::<L>(s, m, i, DeliveryOutcome::Delivered);
    lemma_surviving_tokens::<L>(s, m);
    if has_token(entries_after_publish::<L>(s, m), s[i].token) {
        let j = choose|j: int| 0 <= j < s.len() && (#[trigger] s[j]).token == s[i].token
            && entry_outcome::<L>(s[j], m) != DeliveryOutcome::Disconnected;
        if j < i {
            assert(s[j].token < s[i].token);
        }
        if i < j {
            assert(s[i].token < s[j].token);
        }
    }
}

/// Isolation of callback failure: a callback that reports an error is
/// recorded as failed but stays registered, and every other subscriber's
/// outcome and reporting are exactly what its own record dictates — one
/// failing callback never aborts the publish for the rest.
pub proof fn lemma_callback_failure_isolated<L: Listener>(s: Seq<EntryModel<L::V>>, m: Seq<u8>, i: int, j: int)
    requires
        forall|p: int, q: int| 0 <= p < q < s.len() ==> s[p].token < s[q].token,
        0 <= i < s.len(),
        0 <= j < s.len(),
        i != j,
        s[i].kind matches SubscriberModel::Callback(lv) && L::response(lv, m) == CallbackResult::Failed,
    ensures
        report_tokens::<L>(s, m, DeliveryOutcome::Failed).contains(s[i].token),
        !report_tokens::<L>(s, m, DeliveryOutcome::Disconnected).contains(s[i].token),
        has_token(entries_after_publish::<L>(s, m), s[i].token),
        report_tokens::<L>(s, m, DeliveryOutcome::Delivered).contains(s[j].token)
            <==> entry_outcome::<L>(s[j], m) == DeliveryOutcome::Delivered,
        report_tokens::<L>(s, m, DeliveryOutcome::Disconnected).contains(s[j].token)
            <==> entry_outcome::<L>(s[j], m) == DeliveryOutcome::Disconnected,
{
    assert(entry_outcome::<L>(s[i], m) == DeliveryOutcome::Failed);
    lemma_entry_reported::<L>(s, m, i, DeliveryOutcome::Failed);
    lemma_entry_reported::<L>(s, m, i, DeliveryOutcome::Disconnected);
    lemma_entry_reported::<L>(s, m, j, DeliveryOutcome::Delivered);
    lemma_entry_reported::<L>(s, m, j, DeliveryOutcome::Disconnected);
    lemma_surviving_tokens::<L>(s, m);
}

/// Delivering to every record and then purging the disconnected tokens is
/// exactly `entries_after_publish`.
proof fn lemma_publish_residue<L: Listener>(s: Seq<EntryModel<L::V>>, m: Seq<u8>)
    requires
        forall|p: int, q: int| 0 <= p < q < s.len() ==> s[p].token < s[q].token,
    ensures
        purge_tokens(all_after::<L>(s, m), report_tokens::<L>(s, m, DeliveryOutcome::Disconnected))
            == entries_after_publish::<L>(s, m),
    decreases s.len(),
{
    if s.len() > 0 {
        let sp = s.drop_last();
        assert forall|p: int, q: int| 0 <= p < q < sp.len() implies sp[p].token < sp[q].token by {
            assert(sp[p] == s[p] && sp[q] == s[q]);
        }
        lemma_publish_residue::<L>(sp, m);
        lemma_all_after_index::<L>(s, m);
        lemma_all_after_index::<L>(sp, m);
        lemma_report_membership::<L>(sp, m, DeliveryOutcome::Disconnected);
        let x = s.last();
        let xa = entry_after::<L>(x, m);
        let dp = report_tokens::<L>(sp, m, DeliveryOutcome::Disconnected);
        let d = report_tokens::<L>(s, m, DeliveryOutcome::Disconnected);
        let ap = all_after::<L>(sp, m);
        let a = all_after::<L>(s, m);
        assert(a == ap.push(xa));
        // every token in the stepped prefix differs from the last token
        assert forall|j: int| 0 <= j < ap.len() implies (#[trigger] ap[j]).token != x.token by {
            assert(ap[j] == entry_after::<L>(sp[j], m));
            assert(sp[j].token < x.token);
        }
        assert(a.drop_last() =~= ap);
        assert(a.last() == xa);
        if entry_outcome::<L>(x, m) == DeliveryOutcome::Disconnected {
            assert(d == dp.push(x.token));
            assert(d.contains(x.token)) by {
                assert(d.last() == x.token);
            }
            assert(xa.token == x.token);
            assert(purge_tokens(a, d) == purge_tokens(ap, d));
            lemma_purge_extra_token(ap, dp, x.token);
            assert(purge_tokens(ap, dp.push(x.token)) == purge_tokens(ap, dp));
        } else {
            assert(d == dp);
            assert(!d.contains(xa.token)) by {
                if d.contains(x.token) {
                    let j = choose|j: int| 0 <= j < sp.len() && (#[trigger] sp[j]).token == x.token
                        && entry_outcome::<L>(sp[j], m) == DeliveryOutcome::Disconnected;
                    assert(sp[j].token < x.token);
                }
            }
            assert(purge_tokens(a, d) == purge_tokens(ap, d).push(xa));
        }
    }
}

} // verus!
