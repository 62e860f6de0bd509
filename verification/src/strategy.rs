//! The strategy pattern: a context that delegates its work to an
//! interchangeable strategy, each pinned down by its spec-level output.

use vstd::prelude::*;

verus! {

/// A strategy is a pure transformation of its input, fixed by `output`.
pub trait Strategy: Sized {
    /// What the strategy produces for `data`.
    spec fn output(&self, data: Seq<char>) -> Seq<char>;

    fn execute(&self, data: &str) -> (r: String)
        ensures
            r@ == self.output(data@),
    ;
}

/// Tags its input with its own name.
pub struct ConcreteStrategyA {}

impl Strategy for ConcreteStrategyA {
    open spec fn output(&self, data: Seq<char>) -> Seq<char> {
        "ConcreteStrategyA: "@ + data
    }

    fn execute(&self, data: &str) -> (r: String) {
        let mut s = "ConcreteStrategyA: ".to_owned();
        s.append(data);
        s
    }
}

/// Tags its input with its own name.
pub struct ConcreteStrategyB {}

impl Strategy for ConcreteStrategyB {
    open spec fn output(&self, data: Seq<char>) -> Seq<char> {
        "ConcreteStrategyB: "@ + data
    }

    fn execute(&self, data: &str) -> (r: String) {
        let mut s = "ConcreteStrategyB: ".to_owned();
        s.append(data);
        s
    }
}

/// The context delegates to whatever strategy it currently holds.
pub struct Context<S> {
    strategy: S,
}

impl<S: Strategy> Context<S> {
    /// The strategy currently held.
    pub closed spec fn strategy(self) -> S {
        self.strategy
    }

    pub fn new(strategy: S) -> (c: Context<S>)
        ensures
            c.strategy() == strategy,
    {
        Context { strategy }
    }

    pub fn set_strategy(&mut self, strategy: S)
        ensures
            final(self).strategy() == strategy,
    {
        self.strategy = strategy;
    }

    pub fn execute_strategy(&self, data: &str) -> (r: String)
        ensures
            r@ == self.strategy().output(data@),
    {
        self.strategy.execute(data)
    }
}

} // verus!
