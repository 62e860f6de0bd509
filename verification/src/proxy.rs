//! The proxy pattern: a stand-in that forwards requests to the real subject
//! and answers exactly what it would.

use vstd::prelude::*;

verus! {

/// Anything that can answer a request; the answer is pinned down per type.
pub trait Subject: Sized {
    /// What this subject answers.
    spec fn response(&self) -> Seq<char>;

    fn request(&self) -> (r: String)
        ensures
            r@ == self.response(),
    ;
}

/// The object doing the real work.
pub struct RealSubject {}

impl Subject for RealSubject {
    open spec fn response(&self) -> Seq<char> {
        "RealSubject: Handling request."@
    }

    fn request(&self) -> (r: String) {
        "RealSubject: Handling request.".to_owned()
    }
}

/// Controls access to the real subject; forwarding changes no answer.
pub struct Proxy {
    pub real_subject: RealSubject,
}

impl Proxy {
    pub fn new() -> (p: Proxy) {
        Proxy { real_subject: RealSubject {} }
    }
}

impl Subject for Proxy {
    open spec fn response(&self) -> Seq<char> {
        self.real_subject.response()
    }

    fn request(&self) -> (r: String) {
        self.real_subject.request()
    }
}

} // verus!
