//! The adapter pattern: an adaptee with its own interface, made to fit the
//! target interface without changing what it answers.

use vstd::prelude::*;

verus! {

/// The interface clients program against; each implementation's answer is
/// pinned down by `response`.
pub trait Target: Sized {
    /// What this target answers.
    spec fn response(&self) -> Seq<char>;

    fn request(&self) -> (r: String)
        ensures
            r@ == self.response(),
    ;
}

/// The existing component with an incompatible interface.
pub struct Adaptee {}

impl Adaptee {
    pub fn specific_request(&self) -> (r: String)
        ensures
            r@ == "specific request"@,
    {
        "specific request".to_owned()
    }
}

/// Translates the target interface onto the adaptee, answer unchanged.
pub struct Adapter {
    adaptee: Adaptee,
}

impl Adapter {
    pub fn new(adaptee: Adaptee) -> (a: Adapter) {
        Adapter { adaptee }
    }
}

impl Target for Adapter {
    open spec fn response(&self) -> Seq<char> {
        "specific request"@
    }

    fn request(&self) -> (r: String) {
        self.adaptee.specific_request()
    }
}

} // verus!
