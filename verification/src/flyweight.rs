//! The flyweight pattern: a factory that keeps one flyweight per shared
//! state and hands the same one out again instead of minting a duplicate.

use vstd::prelude::*;
use crate::text::str_eq;

verus! {

/// What a flyweight displays for its shared state and a caller's unique one.
pub open spec fn flyweight_display(shared: Seq<char>, unique: Seq<char>) -> Seq<char> {
    "Flyweight: Displaying shared ("@ + shared + ") and unique ("@ + unique + ") state."@
}

/// Carries one shared state.
pub struct Flyweight {
    shared_state: String,
}

impl View for Flyweight {
    type V = Seq<char>;

    closed spec fn view(&self) -> Seq<char> {
        self.shared_state@
    }
}

impl Clone for Flyweight {
    fn clone(&self) -> (r: Flyweight)
        ensures
            r@ == self@,
    {
        Flyweight { shared_state: self.shared_state.clone() }
    }
}

impl Flyweight {
    pub fn new(shared_state: &str) -> (f: Flyweight)
        ensures
            f@ == shared_state@,
    {
        Flyweight { shared_state: shared_state.to_owned() }
    }

    /// Combines the shared state with the caller's unique state.
    pub fn operation(&self, unique_state: &str) -> (r: String)
        ensures
            r@ == flyweight_display(self@, unique_state@),
    {
        let mut r = "Flyweight: Displaying shared (".to_owned();
        r.append(self.shared_state.as_str());
        r.append(") and unique (");
        r.append(unique_state);
        r.append(") state.");
        proof {
            assert(r@ =~= flyweight_display(self@, unique_state@));
        }
        r
    }
}

/// True when some kept flyweight carries `state`.
pub open spec fn has_state(s: Seq<Seq<char>>, state: Seq<char>) -> bool {
    exists|i: int| 0 <= i < s.len() && s[i] == state
}

/// Keeps one flyweight per shared state, in creation order.
pub struct FlyweightFactory {
    flyweights: Vec<Flyweight>,
}

impl View for FlyweightFactory {
    type V = Seq<Seq<char>>;

    closed spec fn view(&self) -> Seq<Seq<char>> {
        self.flyweights@.map_values(|f: Flyweight| f@)
    }
}

impl FlyweightFactory {
    /// No two kept flyweights share a state.
    pub open spec fn wf(self) -> bool {
        forall|i: int, j: int| 0 <= i < j < self@.len() ==> self@[i] != self@[j]
    }

    pub fn new() -> (f: FlyweightFactory)
        ensures
            f@ == Seq::<Seq<char>>::empty(),
            f.wf(),
    {
        let f = FlyweightFactory { flyweights: Vec::new() };
        proof {
            assert(f@ =~= Seq::<Seq<char>>::empty());
        }
        f
    }

    pub fn count(&self) -> (n: usize)
        ensures
            n == self@.len(),
    {
        self.flyweights.len()
    }

    /// The flyweight for `shared_state`: the kept one when it exists, a
    /// newly minted (and kept) one otherwise.
    pub fn get_flyweight(&mut self, shared_state: &str) -> (f: Flyweight)
        requires
            old(self).wf(),
        ensures
            final(self).wf(),
            f@ == shared_state@,
            has_state(old(self)@, shared_state@) ==> final(self)@ == old(self)@,
            !has_state(old(self)@, shared_state@) ==> final(self)@ == old(self)@.push(shared_state@),
    {
        let n = self.flyweights.len();
        let mut i: usize = 0;
        while i < n
            invariant
                i <= n,
                n == self@.len(),
                self.flyweights@.len() == n,
                *self == *old(self),
                self.wf(),
                forall|j: int| 0 <= j < i ==> self@[j] != shared_state@,
            decreases n - i,
        {
            if str_eq(self.flyweights[i].shared_state.as_str(), shared_state) {
                proof {
                    assert(self@[i as int] == shared_state@);
                }
                return self.flyweights[i].clone();
            }
            i = i + 1;
        }
        proof {
            assert(!has_state(self@, shared_state@));
        }
        let f = Flyweight::new(shared_state);
        self.flyweights.push(f.clone());
        proof {
            assert(self@ =~= old(self)@.push(self.flyweights@.last()@));
            assert forall|p: int, q: int| 0 <= p < q < self@.len() implies self@[p] != self@[q] by {
                if q < self@.len() - 1 {
                    assert(old(self)@[p] != old(self)@[q]);
                } else {
                    assert(self@[q] == shared_state@);
                    assert(old(self)@[p] != shared_state@);
                }
            }
        }
        f
    }
}

} // verus!
