//! Wire protocol of the broker.

use vstd::prelude::*;

use crate::text::str_equals;

pub mod codec;
pub mod data;
pub mod error;
pub mod frame;
pub mod retcode;
pub mod types;

pub use types::{RetCode, RexCommand};

verus! {

/// Transport protocols that endpoints and clients speak.
#[derive(Debug, Clone, Copy, Eq, PartialEq, Hash, Structural)]
pub enum Protocol {
    Tcp,
    Quic,
    WebSocket,
}

/// The lowercase name of each protocol.
pub open spec fn protocol_name(p: Protocol) -> Seq<char> {
    match p {
        Protocol::Tcp => "tcp"@,
        Protocol::Quic => "quic"@,
        Protocol::WebSocket => "websocket"@,
    }
}

impl Protocol {
    /// Parses the lowercase name of a protocol.
    pub fn from(s: &str) -> (p: Option<Protocol>)
        ensures
            p matches Some(q) <==> (s@ == "tcp"@ || s@ == "quic"@ || s@ == "websocket"@),
            p matches Some(q) ==> protocol_name(q) == s@,
    {
        if str_equals(s, "tcp") {
            Some(Protocol::Tcp)
        } else if str_equals(s, "quic") {
            Some(Protocol::Quic)
        } else if str_equals(s, "websocket") {
            Some(Protocol::WebSocket)
        } else {
            None
        }
    }
}

} // verus!
