//! Two message-passing styles of the observer idea: a subject that owns its
//! observers and drives them by callback, and a channel-style subject that
//! fans a message out into per-subscriber mailboxes, silently dropping a
//! subscriber whose consumer end is gone. The broadcast core refines the
//! latter by telling a full queue apart from a closed one.

use vstd::prelude::*;
use crate::broadcast::{find_token, lemma_token_index_unique};
use crate::mailbox::{Mailbox, MailboxModel, ReceiveOutcome, SendOutcome};
use crate::message::Message;
use crate::observer::Observer;
use crate::registry::{
    entries_wf, entry_wf, has_token, remove_token, EntryModel, Registry, SubscribeError,
    SubscriberKind, SubscriberModel, Subscription, Token,
};

verus! {

/// The record `e` after `m` was shown to it: callback observers step by
/// their own `updated` function; anything else is untouched.
pub open spec fn entry_notified<O: Observer>(e: EntryModel<O::V>, m: Seq<char>) -> EntryModel<O::V> {
    match e.kind {
        SubscriberModel::Callback(v) => EntryModel {
            token: e.token,
            kind: SubscriberModel::Callback(O::updated(v, m)),
        },
        SubscriberModel::Mailbox(_) => e,
    }
}

/// A subject whose observers subscribe and unsubscribe by token, and are
/// notified in subscription order.
pub struct Subject<O> {
    registry: Registry<O>,
}

impl<O: View> View for Subject<O> {
    type V = Seq<EntryModel<O::V>>;

    closed spec fn view(&self) -> Seq<EntryModel<O::V>> {
        self.registry@
    }
}

impl<O: Observer> Subject<O> {
    pub closed spec fn next_id(self) -> u64 {
        self.registry.next_id()
    }

    pub closed spec fn wf(self) -> bool {
        self.registry.wf()
    }

    /// What well-formedness of the subject means for its model.
    pub proof fn lemma_wf_entries(self)
        ensures
            self.wf() <==> entries_wf(self@, self.next_id()),
    {
    }

    pub fn new() -> (s: Subject<O>)
        ensures
            s@ == Seq::<EntryModel<O::V>>::empty(),
            s.next_id() == 0,
            s.wf(),
    {
        Subject { registry: Registry::new() }
    }

    /// Registers an observer under a fresh token.
    pub fn subscribe(&mut self, observer: O) -> (r: Result<Token, SubscribeError>)
        requires
            old(self).wf(),
        ensures
            final(self).wf(),
            old(self).next_id() < u64::MAX ==> {
                &&& r matches Ok(t) && t@ == old(self).next_id()
                &&& final(self)@ == old(self)@.push(
                    EntryModel { token: old(self).next_id(), kind: SubscriberModel::Callback(observer@) },
                )
                &&& final(self).next_id() == old(self).next_id() + 1
            },
            old(self).next_id() == u64::MAX ==> {
                &&& r == Result::<Token, SubscribeError>::Err(SubscribeError::CapacityExhausted)
                &&& final(self)@ == old(self)@
                &&& final(self).next_id() == old(self).next_id()
            },
    {
        self.registry.subscribe(SubscriberKind::Callback(observer))
    }

    /// Removes the observer under `token`; reports whether one was removed.
    pub fn unsubscribe(&mut self, token: Token) -> (r: bool)
        requires
            old(self).wf(),
        ensures
            final(self).wf(),
            r == has_token(old(self)@, token@),
            final(self)@ == remove_token(old(self)@, token@),
            final(self).next_id() == old(self).next_id(),
    {
        self.registry.unsubscribe(token)
    }

    pub fn observer_count(&self) -> (n: usize)
        ensures
            n == self@.len(),
    {
        self.registry.len()
    }

    /// Lends the state of the observer under `token`, if it is registered.
    pub fn observer_state(&self, token: Token) -> (r: Option<&O>)
        requires
            self.wf(),
        ensures
            match find_token(self@, token@) {
                Some(e) => match e.kind {
                    SubscriberModel::Callback(v) => r matches Some(o) && o@ == v,
                    SubscriberModel::Mailbox(_) => r is None,
                },
                None => r is None,
            },
    {
        match self.registry.find(token) {
            None => None,
            Some(i) => {
                proof {
                    lemma_token_index_unique(self@, token@, i as int);
                }
                match &self.registry.get_at(i).kind {
                    SubscriberKind::Callback(o) => Some(o),
                    SubscriberKind::Mailbox(_) => None,
                }
            },
        }
    }

    /// Shows `message` to every registered observer, in subscription order.
    pub fn notify(&mut self, message: &str)
        requires
            old(self).wf(),
        ensures
            final(self).wf(),
            final(self)@.len() == old(self)@.len(),
            forall|j: int| 0 <= j < old(self)@.len()
                ==> final(self)@[j] == entry_notified::<O>(old(self)@[j], message@),
            final(self).next_id() == old(self).next_id(),
    {
        let ghost orig = self@;
        let ghost mm = message@;
        let n = self.registry.len();
        let mut i: usize = 0;
        while i < n
            invariant
                i <= n,
                n == orig.len(),
                mm == message@,
                self.registry@.len() == n,
                forall|j: int| i <= j < n ==> self.registry@[j] == orig[j],
                forall|j: int| 0 <= j < i ==> self.registry@[j] == entry_notified::<O>(orig[j], mm),
                self.registry.next_id() == old(self).next_id(),
            decreases n - i,
        {
            proof {
                assert(self.registry@[i as int] == orig[i as int]);
            }
            let ghost pre = self.registry@;
            let sub = self.registry.take_at(i);
            proof {
                assert(sub@ == orig[i as int]);
            }
            let Subscription { token, kind } = sub;
            let kind2 = match kind {
                SubscriberKind::Callback(mut o) => {
                    let ghost v0 = o@;
                    o.update(message);
                    proof {
                        assert(o@ == O::updated(v0, mm));
                    }
                    SubscriberKind::Callback(o)
                },
                SubscriberKind::Mailbox(mb) => SubscriberKind::Mailbox(mb),
            };
            let stepped = Subscription { token, kind: kind2 };
            proof {
                assert(stepped@ == entry_notified::<O>(orig[i as int], mm));
            }
            self.registry.put_back(i, stepped);
            proof {
                assert forall|j: int| 0 <= j < n implies self.registry@[j] == (if j == i as int {
                    entry_notified::<O>(orig[j], mm)
                } else {
                    pre[j]
                }) by {
                    if j < i as int {
                        assert(self.registry@[j] == pre.remove(i as int)[j]);
                    } else if j > i as int {
                        assert(self.registry@[j] == pre.remove(i as int)[j - 1]);
                    }
                }
            }
            i = i + 1;
        }
        proof {
            assert forall|j: int| 0 <= j < n implies entry_wf(#[trigger] self.registry@[j])
                && self.registry@[j].token == orig[j].token by {
                assert(self.registry@[j] == entry_notified::<O>(orig[j], mm));
                assert(entry_wf(orig[j]));
            }
            assert(entries_wf(self.registry@, self.registry.next_id()));
        }
    }
}

/// The subscribers of a channel-style subject whose consumer end is still
/// attached after `m` was fanned out: a closed mailbox is silently dropped,
/// every other one takes `m` subject to its bound.
pub open spec fn channel_after(s: Seq<MailboxModel>, m: Seq<u8>) -> Seq<MailboxModel>
    decreases s.len(),
{
    if s.len() == 0 {
        Seq::empty()
    } else {
        let rest = channel_after(s.drop_last(), m);
        if s.last().closed {
            rest
        } else {
            rest.push(s.last().send_step(m))
        }
    }
}

/// A subject that fans messages out into one bounded mailbox per subscriber
/// and drops a subscriber as soon as its consumer end is gone.
pub struct ChannelSubject {
    subscribers: Vec<Mailbox>,
}

impl View for ChannelSubject {
    type V = Seq<MailboxModel>;

    closed spec fn view(&self) -> Seq<MailboxModel> {
        self.subscribers@.map_values(|mb: Mailbox| mb@)
    }
}

impl ChannelSubject {
    pub fn new() -> (s: ChannelSubject)
        ensures
            s@ == Seq::<MailboxModel>::empty(),
    {
        let s = ChannelSubject { subscribers: Vec::new() };
        proof {
            assert(s@ =~= Seq::<MailboxModel>::empty());
        }
        s
    }

    /// Attaches one more subscriber with a queue of the given bound; hands
    /// back its position.
    pub fn subscribe(&mut self, capacity: usize) -> (r: usize)
        requires
            1 <= capacity,
        ensures
            final(self)@ == old(self)@.push(
                MailboxModel { queue: Seq::empty(), capacity: capacity as nat, closed: false },
            ),
            r == old(self)@.len(),
    {
        let r = self.subscribers.len();
        self.subscribers.push(Mailbox::new(capacity));
        proof {
            assert(self@ =~= old(self)@.push(self.subscribers@.last()@));
        }
        r
    }

    pub fn subscriber_count(&self) -> (n: usize)
        ensures
            n == self@.len(),
    {
        self.subscribers.len()
    }

    /// Fans `message` out to every subscriber and drops those whose consumer
    /// end is gone, exactly as `channel_after` says.
    pub fn notify(&mut self, message: &Message)
        ensures
            final(self)@ == channel_after(old(self)@, message@),
    {
        let ghost orig = self@;
        let ghost mm = message@;
        let ghost n: int = orig.len() as int;
        let mut kept: Vec<Mailbox> = Vec::new();
        proof {
            assert(kept@.map_values(|mb: Mailbox| mb@) =~= channel_after(orig.take(0), mm));
        }
        while self.subscribers.len() > 0
            invariant
                mm == message@,
                self@.len() <= n,
                n == orig.len(),
                self@ =~= orig.skip(n - self@.len()),
                kept@.map_values(|mb: Mailbox| mb@) == channel_after(orig.take(n - self@.len()), mm),
            decreases self@.len(),
        {
            let ghost p = n - self@.len();
            proof {
                assert(orig.take(p + 1).drop_last() =~= orig.take(p));
                assert(orig.take(p + 1).last() == orig[p]);
                assert(self.subscribers@[0]@ == orig.skip(p)[0]);
            }
            let mut mb = self.subscribers.remove(0);
            proof {
                assert(mb@ == orig[p]);
                assert(self@ =~= orig.skip(p + 1)) by {
                    assert forall|j: int| 0 <= j < self@.len() implies self@[j] == orig.skip(p + 1)[j] by {
                        assert(self.subscribers@[j]@ == orig.skip(p)[j + 1]);
                    }
                }
            }
            let r = mb.send(message);
            match r {
                SendOutcome::Closed => {
                    proof {
                        assert(orig[p].closed);
                        assert(channel_after(orig.take(p + 1), mm) == channel_after(orig.take(p), mm));
                    }
                },
                _ => {
                    kept.push(mb);
                    proof {
                        assert(!orig[p].closed);
                        assert(kept@.map_values(|x: Mailbox| x@)
                            =~= channel_after(orig.take(p), mm).push(orig[p].send_step(mm)));
                    }
                },
            }
        }
        proof {
            assert(orig.take(n) =~= orig);
        }
        self.subscribers = kept;
    }

    /// Polling receive from the subscriber at position `i`.
    pub fn receive_from(&mut self, i: usize) -> (r: ReceiveOutcome)
        requires
            i < old(self)@.len(),
        ensures
            final(self)@.len() == old(self)@.len(),
            forall|j: int| 0 <= j < old(self)@.len() && j != i ==> final(self)@[j] == old(self)@[j],
            ({
                let mb = old(self)@[i as int];
                &&& mb.queue.len() > 0 ==> {
                    &&& r matches ReceiveOutcome::Received(m) && m@ == mb.queue[0]
                    &&& final(self)@[i as int] == (MailboxModel { queue: mb.queue.drop_first(), ..mb })
                }
                &&& mb.queue.len() == 0 && mb.closed ==> r is Closed && final(self)@[i as int] == mb
                &&& mb.queue.len() == 0 && !mb.closed ==> r is TimedOut && final(self)@[i as int] == mb
            }),
    {
        let ghost obs_pre = self.subscribers@;
        let mut mb = self.subscribers.remove(i);
        let r = mb.receive();
        let ghost mb2 = mb@;
        self.subscribers.insert(i, mb);
        proof {
            assert forall|j: int| 0 <= j < self@.len() implies self@[j] == (if j == i as int {
                mb2
            } else {
                obs_pre[j]@
            }) by {
                if j < i as int {
                    assert(self.subscribers@[j] == obs_pre.remove(i as int)[j]);
                } else if j > i as int {
                    assert(self.subscribers@[j] == obs_pre.remove(i as int)[j - 1]);
                }
            }
        }
        r
    }

    /// Releases the consumer end of the subscriber at position `i`: its
    /// mailbox is permanently closed and the next notify drops it.
    pub fn close_at(&mut self, i: usize)
        requires
            i < old(self)@.len(),
        ensures
            final(self)@.len() == old(self)@.len(),
            forall|j: int| 0 <= j < old(self)@.len() && j != i ==> final(self)@[j] == old(self)@[j],
            final(self)@[i as int] == (MailboxModel { closed: true, ..old(self)@[i as int] }),
    {
        let ghost obs_pre = self.subscribers@;
        let mut mb = self.subscribers.remove(i);
        mb.close();
        let ghost mb2 = mb@;
        self.subscribers.insert(i, mb);
        proof {
            assert forall|j: int| 0 <= j < self@.len() implies self@[j] == (if j == i as int {
                mb2
            } else {
                obs_pre[j]@
            }) by {
                if j < i as int {
                    assert(self.subscribers@[j] == obs_pre.remove(i as int)[j]);
                } else if j > i as int {
                    assert(self.subscribers@[j] == obs_pre.remove(i as int)[j - 1]);
                }
            }
        }
    }
}

} // verus!
