//! A connection whose queries answer exactly according to its liveness. The
//! embedding's scope guard (its `Drop` glue) calls `disconnect` when the
//! connection goes out of scope.

use vstd::prelude::*;
use crate::text::dec_digits;
use crate::text::u64_to_string;

verus! {

/// What a query answers: the full result line while connected, a fixed
/// refusal afterwards.
pub open spec fn query_output(id: u64, connected: bool, sql: Seq<char>) -> Seq<char> {
    if connected {
        "Result from connection "@ + dec_digits(id as nat) + ": executed '"@ + sql + "'"@
    } else {
        "Not connected"@
    }
}

/// A database connection with an id and a liveness flag.
pub struct DatabaseConnection {
    connection_id: u32,
    is_connected: bool,
}

impl View for DatabaseConnection {
    type V = (u64, bool);

    closed spec fn view(&self) -> (u64, bool) {
        (self.connection_id as u64, self.is_connected)
    }
}

impl DatabaseConnection {
    /// Opens connection `id`.
    pub fn new(id: u32) -> (c: DatabaseConnection)
        ensures
            c@ == (id as u64, true),
    {
        DatabaseConnection { connection_id: id, is_connected: true }
    }

    /// Runs `sql`; the answer is `query_output` of the connection's state.
    pub fn query(&self, sql: &str) -> (r: String)
        ensures
            r@ == query_output(self@.0, self@.1, sql@),
    {
        if self.is_connected {
            let mut r = "Result from connection ".to_owned();
            let id = u64_to_string(self.connection_id as u64);
            r.append(id.as_str());
            r.append(": executed '");
            r.append(sql);
            r.append("'");
            proof {
                assert(r@ =~= query_output(self@.0, self@.1, sql@));
            }
            r
        } else {
            "Not connected".to_owned()
        }
    }

    /// Releases the connection; later queries answer `Not connected`. The
    /// embedding's cleanup calls this exactly once, when the owner is done.
    pub fn disconnect(&mut self)
        ensures
            final(self)@ == (old(self)@.0, false),
    {
        self.is_connected = false;
    }

    pub fn is_connected(&self) -> (r: bool)
        ensures
            r == self@.1,
    {
        self.is_connected
    }
}

} // verus!
