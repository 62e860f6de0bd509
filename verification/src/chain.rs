//! The chain-of-responsibility pattern: each handler either handles the
//! request or passes it on; the result says who, if anyone, handled it.

use vstd::prelude::*;
use crate::text::str_eq;

verus! {

/// Which handler ended up handling a request.
#[derive(Clone, Copy, PartialEq, Eq, Structural)]
pub enum HandledBy {
    HandlerA,
    HandlerB,
}

/// A handler in the chain, tagged by what it handles.
pub enum Handler {
    A(ConcreteHandlerA),
    B(ConcreteHandlerB),
}

/// Handles exactly the request `A`, passing everything else on.
pub struct ConcreteHandlerA {
    pub next: Option<Box<Handler>>,
}

/// Handles exactly the request `B`, passing everything else on.
pub struct ConcreteHandlerB {
    pub next: Option<Box<Handler>>,
}

/// A neutral chain head: handles nothing itself, only forwards.
pub struct BaseHandler {
    pub next: Option<Box<Handler>>,
}

/// Who handles `request` when it enters the chain at `h`.
pub open spec fn chain_outcome(h: Handler, request: Seq<char>) -> Option<HandledBy>
    decreases h,
{
    match h {
        Handler::A(a) => if request == "A"@ {
            Some(HandledBy::HandlerA)
        } else {
            next_outcome(a.next, request)
        },
        Handler::B(b) => if request == "B"@ {
            Some(HandledBy::HandlerB)
        } else {
            next_outcome(b.next, request)
        },
    }
}

/// Who handles `request` when it is passed on to `next`.
pub open spec fn next_outcome(next: Option<Box<Handler>>, request: Seq<char>) -> Option<HandledBy>
    decreases next,
{
    match next {
        Some(h) => chain_outcome(*h, request),
        None => None,
    }
}

impl Handler {
    /// Runs the chain from this handler.
    pub fn handle(&self, request: &str) -> (r: Option<HandledBy>)
        ensures
            r == chain_outcome(*self, request@),
        decreases *self,
    {
        match self {
            Handler::A(a) => a.handle(request),
            Handler::B(b) => b.handle(request),
        }
    }
}

impl ConcreteHandlerA {
    pub fn set_next(&mut self, next: Box<Handler>)
        ensures
            final(self).next == Some(next),
    {
        self.next = Some(next);
    }

    /// Handles `A` itself; anything else goes to the next handler.
    pub fn handle(&self, request: &str) -> (r: Option<HandledBy>)
        ensures
            r == chain_outcome(Handler::A(*self), request@),
        decreases *self,
    {
        if str_eq(request, "A") {
            Some(HandledBy::HandlerA)
        } else {
            match &self.next {
                Some(h) => h.handle(request),
                None => None,
            }
        }
    }
}

impl ConcreteHandlerB {
    pub fn set_next(&mut self, next: Box<Handler>)
        ensures
            final(self).next == Some(next),
    {
        self.next = Some(next);
    }

    /// Handles `B` itself; anything else goes to the next handler.
    pub fn handle(&self, request: &str) -> (r: Option<HandledBy>)
        ensures
            r == chain_outcome(Handler::B(*self), request@),
        decreases *self,
    {
        if str_eq(request, "B") {
            Some(HandledBy::HandlerB)
        } else {
            match &self.next {
                Some(h) => h.handle(request),
                None => None,
            }
        }
    }
}

impl BaseHandler {
    /// A chain head with nothing attached.
    pub fn new() -> (h: BaseHandler)
        ensures
            h.next is None,
    {
        BaseHandler { next: None }
    }

    pub fn set_next(&mut self, next: Box<Handler>)
        ensures
            final(self).next == Some(next),
    {
        self.next = Some(next);
    }

    /// Forwards the request into the chain.
    pub fn handle(&self, request: &str) -> (r: Option<HandledBy>)
        ensures
            r == next_outcome(self.next, request@),
    {
        match &self.next {
            Some(h) => h.handle(request),
            None => None,
        }
    }
}

} // verus!
