//! The typestate pattern: operations only exist in the states that allow
//! them, so illegal transitions fail to compile — and each transition's
//! effect on the carried data is stated exactly.

use vstd::prelude::*;
use core::marker::PhantomData;
use crate::text::{dec_digits, u64_to_string};

verus! {

/// A document still being written.
pub struct Draft {}

/// A document waiting for approval.
pub struct Review {}

/// A document readers can see.
pub struct Published {}

/// A document whose lifecycle state is a type parameter; the content is the
/// only data and every transition keeps it intact.
pub struct Document<State> {
    content: String,
    _state: PhantomData<State>,
}

impl<State> View for Document<State> {
    type V = Seq<char>;

    closed spec fn view(&self) -> Seq<char> {
        self.content@
    }
}

impl Document<Draft> {
    /// A fresh draft is empty.
    pub fn new() -> (d: Document<Draft>)
        ensures
            d@ == Seq::<char>::empty(),
    {
        Document { content: String::new(), _state: PhantomData }
    }

    /// Appends to the draft.
    pub fn write(&mut self, text: &str)
        ensures
            final(self)@ == old(self)@ + text@,
    {
        self.content.append(text);
    }

    /// Draft to review; the content is unchanged.
    pub fn submit_for_review(self) -> (d: Document<Review>)
        ensures
            d@ == self@,
    {
        Document { content: self.content, _state: PhantomData }
    }
}

impl Document<Review> {
    /// Back to draft for rework; the content is unchanged. The feedback is
    /// for the author and plays no part in the state.
    pub fn request_changes(self, _feedback: &str) -> (d: Document<Draft>)
        ensures
            d@ == self@,
    {
        Document { content: self.content, _state: PhantomData }
    }

    /// Review to published; the content is unchanged.
    pub fn approve(self) -> (d: Document<Published>)
        ensures
            d@ == self@,
    {
        Document { content: self.content, _state: PhantomData }
    }
}

impl Document<Published> {
    /// The published content.
    pub fn read(&self) -> (s: &str)
        ensures
            s@ == self@,
    {
        self.content.as_str()
    }

    /// A new draft seeded with the published content.
    pub fn create_revision(self) -> (d: Document<Draft>)
        ensures
            d@ == self@,
    {
        Document { content: self.content, _state: PhantomData }
    }
}

impl<State> Document<State> {
    /// The content's length in characters, available in every state.
    pub fn content_length(&self) -> (n: usize)
        ensures
            n == self@.len(),
    {
        self.content.as_str().unicode_len()
    }
}

/// The field has not been provided yet.
pub struct Missing {}

/// The field has been provided.
pub struct Provided {}

/// A builder whose type tracks which required fields are set: `build` only
/// exists once both host and port are. The contracts additionally track the
/// carried values, so `build`'s output is exact.
pub struct ConnectionBuilder<HostState, PortState> {
    host: Option<String>,
    port: Option<u16>,
    timeout: u32,
    _host_state: PhantomData<HostState>,
    _port_state: PhantomData<PortState>,
}

impl<HostState, PortState> ConnectionBuilder<HostState, PortState> {
    pub closed spec fn spec_host(self) -> Option<Seq<char>> {
        match self.host {
            Some(h) => Some(h@),
            None => None,
        }
    }

    pub closed spec fn spec_port(self) -> Option<u16> {
        self.port
    }

    pub closed spec fn spec_timeout(self) -> u32 {
        self.timeout
    }

    /// Adjusts the optional timeout, available in any state.
    pub fn timeout(self, timeout: u32) -> (b: Self)
        ensures
            b.spec_host() == self.spec_host(),
            b.spec_port() == self.spec_port(),
            b.spec_timeout() == timeout,
    {
        ConnectionBuilder { timeout, ..self }
    }
}

impl ConnectionBuilder<Missing, Missing> {
    /// A builder with nothing set and the default timeout of thirty seconds.
    pub fn new() -> (b: ConnectionBuilder<Missing, Missing>)
        ensures
            b.spec_host() is None,
            b.spec_port() is None,
            b.spec_timeout() == 30,
    {
        ConnectionBuilder {
            host: None,
            port: None,
            timeout: 30,
            _host_state: PhantomData,
            _port_state: PhantomData,
        }
    }
}

impl<PortState> ConnectionBuilder<Missing, PortState> {
    pub fn host(self, host: &str) -> (b: ConnectionBuilder<Provided, PortState>)
        ensures
            b.spec_host() == Some(host@),
            b.spec_port() == self.spec_port(),
            b.spec_timeout() == self.spec_timeout(),
    {
        ConnectionBuilder {
            host: Some(host.to_owned()),
            port: self.port,
            timeout: self.timeout,
            _host_state: PhantomData,
            _port_state: PhantomData,
        }
    }
}

impl<HostState> ConnectionBuilder<HostState, Missing> {
    pub fn port(self, port: u16) -> (b: ConnectionBuilder<HostState, Provided>)
        ensures
            b.spec_host() == self.spec_host(),
            b.spec_port() == Some(port),
            b.spec_timeout() == self.spec_timeout(),
    {
        ConnectionBuilder {
            host: self.host,
            port: Some(port),
            timeout: self.timeout,
            _host_state: PhantomData,
            _port_state: PhantomData,
        }
    }
}

/// The summary `build` produces for the given parts.
pub open spec fn connection_summary(host: Seq<char>, port: u16, timeout: u32) -> Seq<char> {
    "Connection to "@ + host + ":"@ + dec_digits(port as nat) + " (timeout: "@
        + dec_digits(timeout as nat) + "s)"@
}

impl ConnectionBuilder<Provided, Provided> {
    /// Only a builder whose host and port are both set can build; the
    /// summary carries exactly the accumulated values.
    pub fn build(self) -> (r: String)
        requires
            self.spec_host() is Some,
            self.spec_port() is Some,
        ensures
            r@ == connection_summary(
                self.spec_host()->0,
                self.spec_port()->0,
                self.spec_timeout(),
            ),
    {
        let mut r = "Connection to ".to_owned();
        match self.host {
            Some(h) => {
                r.append(h.as_str());
            },
            None => {
                proof {
                    assert(false);
                }
            },
        }
        r.append(":");
        match self.port {
            Some(p) => {
                let ps = u64_to_string(p as u64);
                r.append(ps.as_str());
            },
            None => {
                proof {
                    assert(false);
                }
            },
        }
        r.append(" (timeout: ");
        let ts = u64_to_string(self.timeout as u64);
        r.append(ts.as_str());
        r.append("s)");
        proof {
            assert(r@ =~= connection_summary(
                self.spec_host()->0,
                self.spec_port()->0,
                self.spec_timeout(),
            ));
        }
        r
    }
}

} // verus!
