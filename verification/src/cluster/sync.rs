//! Synchronising client registrations between nodes.
//!
//! A registration travels as an entry whose key is `client:<id>` (the id in
//! decimal) and whose value names the node. Applying an entry records the
//! client on that node; applying a deletion forgets the client. Entries
//! with another key are ignored.

use vstd::prelude::*;
use vstd::utf8::encode_utf8;

use crate::cluster::route_table::{after_register, after_unregister, GlobalRouteTable};
use crate::text::{decimal_string_u128, decimal_text, parse_u128_text, unsigned_of};

verus! {

/// A change of shared state.
#[derive(Debug, Clone)]
pub struct StateUpdate {
    pub update_type: StateUpdateType,
    /// The key, such as `client:<id>`.
    pub key: String,
    pub value: Option<Vec<u8>>,
}

/// The kind of a change of shared state.
#[derive(Debug, Clone, Copy, PartialEq, Eq, Structural)]
pub enum StateUpdateType {
    ClientRegister,
    ClientUnregister,
    TitleRegister,
    TitleUnregister,
}

/// The value of a synchronised entry.
#[derive(Debug, Clone)]
pub enum StateValue {
    ClientRegister { node_id: String },
}

/// The key of a client's registration.
pub open spec fn client_key_text(client_id: u128) -> Seq<char> {
    "client:"@ + decimal_text(client_id as nat)
}

/// The client that a key names: `client:` then a `u128` as `str::parse`
/// reads it.
pub open spec fn client_of_key(key: Seq<char>) -> Option<u128> {
    if key.len() >= 7 && key.subrange(0, 7) == "client:"@ {
        match unsigned_of(encode_utf8(key.subrange(7, key.len() as int)), u128::MAX as nat) {
            Some(n) => Some(n as u128),
            None => None,
        }
    } else {
        None
    }
}

/// The key of a client's registration: `client:<id>`.
pub fn client_key(client_id: u128) -> (r: String)
    ensures
        r@ == client_key_text(client_id),
{
    let mut s = String::from_str("client:");
    s.append(decimal_string_u128(client_id).as_str());
    s
}

/// The client that a key names, if it is a client key.
pub fn parse_client_key(key: &str) -> (r: Option<u128>)
    ensures
        r == client_of_key(key@),
{
    proof {
        reveal_strlit("client:");
    }
    let chars = crate::text::chars_of(key);
    if chars.len() < 7 || chars[0] != 'c' || chars[1] != 'l' || chars[2] != 'i' || chars[3] != 'e'
        || chars[4] != 'n' || chars[5] != 't' || chars[6] != ':' {
        proof {
            if chars@.len() >= 7 {
                let p = chars@.subrange(0, 7);
                assert(p[0] == chars@[0] && p[1] == chars@[1] && p[2] == chars@[2] && p[3]
                    == chars@[3] && p[4] == chars@[4] && p[5] == chars@[5] && p[6] == chars@[6]);
            }
        }
        return None;
    }
    assert(chars@.subrange(0, 7) =~= "client:"@);
    let rest = crate::bridge::text::string_from_chars(&chars.as_slice()[7..chars.len()]);
    parse_u128_text(rest.as_str())
}

/// Records the client that a `client:<id>` key names on the given node; any
/// other key changes nothing.
pub fn apply_client_register(table: &mut GlobalRouteTable, key: &str, node_id: &str)
    requires
        old(table).well_formed(),
        old(table).view().version < u64::MAX,
    ensures
        final(table).well_formed(),
        match client_of_key(key@) {
            Some(c) => final(table).view() == after_register(old(table).view(), c, node_id@),
            None => final(table).view() == old(table).view(),
        },
{
    match parse_client_key(key) {
        Some(client_id) => table.register_client(client_id, node_id),
        None => {},
    }
}

/// Forgets the client that a `client:<id>` key names; any other key changes
/// nothing.
pub fn apply_client_delete(table: &mut GlobalRouteTable, key: &str)
    requires
        old(table).well_formed(),
        old(table).view().version < u64::MAX,
    ensures
        final(table).well_formed(),
        match client_of_key(key@) {
            Some(c) => final(table).view() == after_unregister(old(table).view(), c),
            None => final(table).view() == old(table).view(),
        },
{
    match parse_client_key(key) {
        Some(client_id) => table.unregister_client(&client_id),
        None => {},
    }
}

/// The key of a client's registration names that client: reading the key
/// back gives the id.
pub proof fn lemma_client_key_roundtrip(client_id: u128)
    ensures
        client_of_key(client_key_text(client_id)) == Some(client_id),
{
    reveal_strlit("client:");
    let k = client_key_text(client_id);
    let digits = decimal_text(client_id as nat);
    assert(k.subrange(0, 7) =~= "client:"@);
    assert(k.subrange(7, k.len() as int) =~= digits);
    crate::text::lemma_decimal_text_bytes(client_id as nat);
    crate::text::lemma_decimal_digits_value(client_id as nat);
}

} // verus!
