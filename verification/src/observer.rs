//! The observer pattern: a subject notifies every attached observer in
//! attachment order; each observer's reaction is pinned down by a spec-level
//! step function.

use vstd::prelude::*;

verus! {

/// An observer is a deterministic state machine over the messages it is
/// shown; `updated` fixes exactly how one message changes its state.
pub trait Observer: Sized + View {
    /// The observer's state after seeing `m` in state `v`.
    spec fn updated(v: Self::V, m: Seq<char>) -> Self::V;

    fn update(&mut self, message: &str)
        ensures
            final(self)@ == Self::updated(old(self)@, message@),
    ;
}

/// The mathematical state of a [`ConcreteObserver`]: its name and every
/// message received so far, oldest first.
pub struct ObserverModel {
    pub name: Seq<char>,
    pub received: Seq<Seq<char>>,
}

/// An observer that appends every message it is shown to a log.
pub struct ConcreteObserver {
    name: String,
    received: Vec<String>,
}

impl View for ConcreteObserver {
    type V = ObserverModel;

    closed spec fn view(&self) -> ObserverModel {
        ObserverModel {
            name: self.name@,
            received: self.received@.map_values(|s: String| s@),
        }
    }
}

impl Observer for ConcreteObserver {
    open spec fn updated(v: ObserverModel, m: Seq<char>) -> ObserverModel {
        ObserverModel { received: v.received.push(m), ..v }
    }

    fn update(&mut self, message: &str) {
        self.received.push(message.to_owned());
        proof {
            assert(self@.received =~= old(self)@.received.push(message@));
        }
    }
}

impl ConcreteObserver {
    pub fn new(name: &str) -> (o: ConcreteObserver)
        ensures
            o@ == (ObserverModel { name: name@, received: Seq::<Seq<char>>::empty() }),
    {
        let o = ConcreteObserver { name: name.to_owned(), received: Vec::new() };
        proof {
            assert(o@.received =~= Seq::<Seq<char>>::empty());
        }
        o
    }

    pub fn name(&self) -> (n: &String)
        ensures
            n@ == self@.name,
    {
        &self.name
    }

    pub fn received_count(&self) -> (n: usize)
        ensures
            n == self@.received.len(),
    {
        self.received.len()
    }

    pub fn received_at(&self, i: usize) -> (m: &String)
        requires
            i < self@.received.len(),
        ensures
            m@ == self@.received[i as int],
    {
        &self.received[i]
    }
}

/// The subject: owns its observers and notifies them in attachment order.
pub struct Subject<O> {
    observers: Vec<O>,
}

impl<O: View> View for Subject<O> {
    type V = Seq<O::V>;

    closed spec fn view(&self) -> Seq<O::V> {
        self.observers@.map_values(|o: O| o@)
    }
}

impl<O: Observer> Subject<O> {
    pub fn new() -> (s: Subject<O>)
        ensures
            s@ == Seq::<O::V>::empty(),
    {
        let s = Subject { observers: Vec::new() };
        proof {
            assert(s@ =~= Seq::<O::V>::empty());
        }
        s
    }

    pub fn add_observer(&mut self, observer: O)
        ensures
            final(self)@ == old(self)@.push(observer@),
    {
        self.observers.push(observer);
        proof {
            assert(self@ =~= old(self)@.push(self.observers@.last()@));
        }
    }

    pub fn observer_count(&self) -> (n: usize)
        ensures
            n == self@.len(),
    {
        self.observers.len()
    }

    /// Lends the observer at attachment position `i`.
    pub fn observer_at(&self, i: usize) -> (o: &O)
        requires
            i < self@.len(),
        ensures
            o@ == self@[i as int],
    {
        &self.observers[i]
    }

    /// Shows `message` to every observer, in attachment order; each observer
    /// steps by its own `updated` function.
    pub fn notify_observers(&mut self, message: &str)
        ensures
            final(self)@.len() == old(self)@.len(),
            forall|j: int| 0 <= j < old(self)@.len()
                ==> final(self)@[j] == O::updated(old(self)@[j], message@),
    {
        let ghost orig = self@;
        let n = self.observers.len();
        let mut i: usize = 0;
        while i < n
            invariant
                i <= n,
                n == orig.len(),
                self.observers@.len() == n,
                forall|j: int| i <= j < n ==> self@[j] == orig[j],
                forall|j: int| 0 <= j < i ==> self@[j] == O::updated(orig[j], message@),
            decreases n - i,
        {
            proof {
                assert(self@[i as int] == orig[i as int]);
            }
            let ghost pre = self@;
            let ghost obs_pre = self.observers@;
            let mut o = self.observers.remove(i);
            proof {
                assert(o@ == orig[i as int]);
            }
            o.update(message);
            let ghost o2 = o;
            self.observers.insert(i, o);
            proof {
                assert forall|j: int| 0 <= j < n implies self@[j] == (if j == i as int {
                    O::updated(orig[j], message@)
                } else {
                    pre[j]
                }) by {
                    if j < i as int {
                        assert(self.observers@[j] == obs_pre.remove(i as int)[j]);
                        assert(obs_pre.remove(i as int)[j] == obs_pre[j]);
                    } else if j == i as int {
                        assert(self.observers@[j] == o2);
                    } else {
                        assert(self.observers@[j] == obs_pre.remove(i as int)[j - 1]);
                        assert(obs_pre.remove(i as int)[j - 1] == obs_pre[j]);
                    }
                }
            }
            i = i + 1;
        }
    }
}

} // verus!
