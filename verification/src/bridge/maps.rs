//! `dashmap::DashMap`, the concurrent hash map that holds the routing tables.
//!
//! Each map that the library keeps has a name for its contents and one
//! wrapper per method that the library calls. The wrappers take the map by
//! `&mut` where the method changes it, so that a change is visible to the
//! verifier. Walking a map yields its entries in an order that depends on
//! the hasher's per-process seed; the wrappers that walk state only which
//! entries come out.

use dashmap::DashMap;

use crate::cluster::failover::{HealthView, NodeHealth, NodeStatus};
use crate::client::base::{AckInfoView, PendingAckInfo};
use crate::cluster::forward::{PendingForward, PendingView};
use crate::cluster::types::{NodeInfo, NodeInfoView};
use vstd::prelude::*;

verus! {

/// `dashmap::DashMap`.
#[verifier::external_type_specification]
#[verifier::external_body]
#[verifier::reject_recursive_types(K)]
#[verifier::reject_recursive_types(V)]
#[verifier::reject_recursive_types(S)]
pub struct ExDashMap<K, V, S>(DashMap<K, V, S>);

// --- client id -> node id ---------------------------------------------------

/// The empty map from client ids to node ids.
pub open spec fn empty_routes() -> Map<u128, Seq<char>> {
    Map::empty()
}

/// What a map from client ids to node ids holds.
pub uninterp spec fn client_routes(m: DashMap<u128, String>) -> Map<u128, Seq<char>>;

/// `DashMap::new`: an empty map.
#[verifier::external_body]
pub(crate) fn client_routes_new() -> (r: DashMap<u128, String>)
    ensures
        client_routes(r) == empty_routes(),
{
    DashMap::new()
}

/// `DashMap::insert`: maps the key to the value, replacing any earlier one.
#[verifier::external_body]
pub(crate) fn client_routes_insert(m: &mut DashMap<u128, String>, k: u128, v: String)
    ensures
        client_routes(*final(m)) == client_routes(*old(m)).insert(k, v@),
{
    m.insert(k, v);
}

/// `DashMap::remove`: removes the key, if present.
#[verifier::external_body]
pub(crate) fn client_routes_remove(m: &mut DashMap<u128, String>, k: &u128)
    ensures
        client_routes(*final(m)) == client_routes(*old(m)).remove(*k),
{
    m.remove(k);
}

/// `DashMap::get`, with the value cloned.
#[verifier::external_body]
pub(crate) fn client_routes_get(m: &DashMap<u128, String>, k: &u128) -> (r: Option<String>)
    ensures
        match r {
            Some(v) => client_routes(*m).contains_key(*k) && v@ == client_routes(*m)[*k],
            None => !client_routes(*m).contains_key(*k),
        },
{
    m.get(k).map(|e| e.value().clone())
}

/// `DashMap::clear`: removes every entry.
#[verifier::external_body]
pub(crate) fn client_routes_clear(m: &mut DashMap<u128, String>)
    ensures
        client_routes(*final(m)) == empty_routes(),
{
    m.clear();
}

/// `DashMap::iter`, collected: every entry once, in an unspecified order.
#[verifier::external_body]
pub(crate) fn client_routes_entries(m: &DashMap<u128, String>) -> (r: Vec<(u128, String)>)
    ensures
        forall|k: u128|
            client_routes(*m).contains_key(k) ==> exists|i: int| 0 <= i < r@.len() && r@[i].0 == k,
        forall|i: int, j: int| 0 <= i < j < r@.len() ==> r@[i].0 != r@[j].0,
        forall|i: int|
            0 <= i < r@.len() ==> client_routes(*m).contains_key(#[trigger] r@[i].0)
                && client_routes(*m)[r@[i].0] == r@[i].1@,
{
    let mut out = Vec::new();
    for e in m.iter() {
        out.push((*e.key(), e.value().clone()));
    }
    out
}

// --- node id -> address -----------------------------------------------------

/// The empty map from node ids to addresses.
pub open spec fn empty_addrs() -> Map<Seq<char>, Seq<char>> {
    Map::empty()
}

/// What a map from node ids to addresses holds.
pub uninterp spec fn node_addrs(m: DashMap<String, String>) -> Map<Seq<char>, Seq<char>>;

/// `DashMap::new`: an empty map.
#[verifier::external_body]
pub(crate) fn node_addrs_new() -> (r: DashMap<String, String>)
    ensures
        node_addrs(r) == empty_addrs(),
{
    DashMap::new()
}

/// `DashMap::insert`: maps the key to the value, replacing any earlier one.
#[verifier::external_body]
pub(crate) fn node_addrs_insert(m: &mut DashMap<String, String>, k: String, v: String)
    ensures
        node_addrs(*final(m)) == node_addrs(*old(m)).insert(k@, v@),
{
    m.insert(k, v);
}

/// `DashMap::remove`: removes the key, if present.
#[verifier::external_body]
pub(crate) fn node_addrs_remove(m: &mut DashMap<String, String>, k: &str)
    ensures
        node_addrs(*final(m)) == node_addrs(*old(m)).remove(k@),
{
    m.remove(k);
}

/// `DashMap::get`, with the value cloned.
#[verifier::external_body]
pub(crate) fn node_addrs_get(m: &DashMap<String, String>, k: &str) -> (r: Option<String>)
    ensures
        match r {
            Some(v) => node_addrs(*m).contains_key(k@) && v@ == node_addrs(*m)[k@],
            None => !node_addrs(*m).contains_key(k@),
        },
{
    m.get(k).map(|e| e.value().clone())
}

/// `DashMap::clear`: removes every entry.
#[verifier::external_body]
pub(crate) fn node_addrs_clear(m: &mut DashMap<String, String>)
    ensures
        node_addrs(*final(m)) == empty_addrs(),
{
    m.clear();
}

/// `DashMap::iter`, collected: every entry once, in an unspecified order.
#[verifier::external_body]
pub(crate) fn node_addrs_entries(m: &DashMap<String, String>) -> (r: Vec<(String, String)>)
    ensures
        forall|k: Seq<char>|
            node_addrs(*m).contains_key(k) ==> exists|i: int| 0 <= i < r@.len() && r@[i].0@ == k,
        forall|i: int, j: int| 0 <= i < j < r@.len() ==> r@[i].0@ != r@[j].0@,
        forall|i: int|
            0 <= i < r@.len() ==> node_addrs(*m).contains_key(#[trigger] r@[i].0@)
                && node_addrs(*m)[r@[i].0@] == r@[i].1@,
{
    let mut out = Vec::new();
    for e in m.iter() {
        out.push((e.key().clone(), e.value().clone()));
    }
    out
}

} // verus!

verus! {

// --- node id -> health ------------------------------------------------------

/// What a map from node ids to health records holds.
pub uninterp spec fn health_entries(m: DashMap<String, NodeHealth>) -> Map<Seq<char>, HealthView>;

/// The empty map from node ids to health records.
pub open spec fn empty_health() -> Map<Seq<char>, HealthView> {
    Map::empty()
}

/// `DashMap::new`: an empty map.
#[verifier::external_body]
pub(crate) fn health_new() -> (r: DashMap<String, NodeHealth>)
    ensures
        health_entries(r) == empty_health(),
{
    DashMap::new()
}

/// `DashMap::insert`: maps the key to the value, replacing any earlier one.
#[verifier::external_body]
pub(crate) fn health_insert(m: &mut DashMap<String, NodeHealth>, k: String, v: NodeHealth)
    ensures
        health_entries(*final(m)) == health_entries(*old(m)).insert(k@, v.view()),
{
    m.insert(k, v);
}

/// `DashMap::remove`: removes the key, if present.
#[verifier::external_body]
pub(crate) fn health_remove(m: &mut DashMap<String, NodeHealth>, k: &str)
    ensures
        health_entries(*final(m)) == health_entries(*old(m)).remove(k@),
{
    m.remove(k);
}

/// `DashMap::get`, with the value cloned.
#[verifier::external_body]
pub(crate) fn health_get(m: &DashMap<String, NodeHealth>, k: &str) -> (r: Option<NodeHealth>)
    ensures
        match r {
            Some(v) => health_entries(*m).contains_key(k@) && v.view() == health_entries(*m)[k@],
            None => !health_entries(*m).contains_key(k@),
        },
{
    m.get(k).map(|e| e.value().clone())
}

/// `DashMap::iter`, collected as node ids with their status: every entry
/// once, in an unspecified order.
#[verifier::external_body]
pub(crate) fn health_statuses(m: &DashMap<String, NodeHealth>) -> (r: Vec<(String, NodeStatus)>)
    ensures
        forall|i: int, j: int| 0 <= i < j < r@.len() ==> r@[i].0@ != r@[j].0@,
        forall|i: int|
            0 <= i < r@.len() ==> health_entries(*m).contains_key(#[trigger] r@[i].0@)
                && health_entries(*m)[r@[i].0@].status == r@[i].1,
        forall|k: Seq<char>|
            health_entries(*m).contains_key(k) ==> exists|i: int| 0 <= i < r@.len() && r@[i].0@ == k,
{
    let mut out = Vec::new();
    for e in m.iter() {
        out.push((e.key().clone(), e.value().status.clone()));
    }
    out
}

} // verus!

verus! {

// --- forward id -> pending forward ------------------------------------------

/// What a map from forward ids to pending forwards holds.
pub uninterp spec fn pending_forwards(m: DashMap<u64, PendingForward>) -> Map<u64, PendingView>;

/// The empty map from forward ids to pending forwards.
pub open spec fn empty_forwards() -> Map<u64, PendingView> {
    Map::empty()
}

/// `DashMap::new`: an empty map.
#[verifier::external_body]
pub(crate) fn forwards_new() -> (r: DashMap<u64, PendingForward>)
    ensures
        pending_forwards(r) == empty_forwards(),
{
    DashMap::new()
}

/// `DashMap::insert`: maps the key to the value, replacing any earlier one.
#[verifier::external_body]
pub(crate) fn forwards_insert(m: &mut DashMap<u64, PendingForward>, k: u64, v: PendingForward)
    ensures
        pending_forwards(*final(m)) == pending_forwards(*old(m)).insert(k, v.view()),
{
    m.insert(k, v);
}

/// `DashMap::remove`: removes the key and hands back its value, if present.
#[verifier::external_body]
pub(crate) fn forwards_remove(m: &mut DashMap<u64, PendingForward>, k: u64) -> (r: Option<PendingForward>)
    ensures
        pending_forwards(*final(m)) == pending_forwards(*old(m)).remove(k),
        match r {
            Some(v) => pending_forwards(*old(m)).contains_key(k) && v.view() == pending_forwards(*old(m))[k],
            None => !pending_forwards(*old(m)).contains_key(k),
        },
{
    m.remove(&k).map(|(_, v)| v)
}

/// `DashMap::iter`, collected: every entry once, in an unspecified order.
#[verifier::external_body]
pub(crate) fn forwards_entries(m: &DashMap<u64, PendingForward>) -> (r: Vec<(u64, PendingForward)>)
    ensures
        forall|i: int, j: int| 0 <= i < j < r@.len() ==> r@[i].0 != r@[j].0,
        forall|i: int|
            0 <= i < r@.len() ==> pending_forwards(*m).contains_key(#[trigger] r@[i].0)
                && pending_forwards(*m)[r@[i].0] == r@[i].1.view(),
        forall|k: u64|
            pending_forwards(*m).contains_key(k) ==> exists|i: int| 0 <= i < r@.len() && r@[i].0 == k,
{
    let mut out = Vec::new();
    for e in m.iter() {
        out.push((*e.key(), e.value().clone()));
    }
    out
}

} // verus!

verus! {

// --- message id -> pending acknowledgement ----------------------------------

/// What a map from message ids to pending acknowledgements holds.
pub uninterp spec fn pending_acks(m: DashMap<u64, PendingAckInfo>) -> Map<u64, AckInfoView>;

/// The empty map from message ids to pending acknowledgements.
pub open spec fn empty_acks() -> Map<u64, AckInfoView> {
    Map::empty()
}

/// `DashMap::new`: an empty map.
#[verifier::external_body]
pub(crate) fn acks_new() -> (r: DashMap<u64, PendingAckInfo>)
    ensures
        pending_acks(r) == empty_acks(),
{
    DashMap::new()
}

/// `DashMap::insert`: maps the key to the value, replacing any earlier one.
#[verifier::external_body]
pub(crate) fn acks_insert(m: &mut DashMap<u64, PendingAckInfo>, k: u64, v: PendingAckInfo)
    ensures
        pending_acks(*final(m)) == pending_acks(*old(m)).insert(k, v.view()),
{
    m.insert(k, v);
}

/// `DashMap::remove`: removes the key; tells whether it was present.
#[verifier::external_body]
pub(crate) fn acks_remove(m: &mut DashMap<u64, PendingAckInfo>, k: u64) -> (r: bool)
    ensures
        pending_acks(*final(m)) == pending_acks(*old(m)).remove(k),
        r == pending_acks(*old(m)).contains_key(k),
{
    m.remove(&k).is_some()
}

} // verus!

verus! {

// --- node id -> known node --------------------------------------------------

/// What a map from node ids to known nodes holds.
pub uninterp spec fn known_nodes(m: DashMap<String, NodeInfo>) -> Map<Seq<char>, NodeInfoView>;

/// The empty map from node ids to known nodes.
pub open spec fn empty_known() -> Map<Seq<char>, NodeInfoView> {
    Map::empty()
}

/// `DashMap::new`: an empty map.
#[verifier::external_body]
pub(crate) fn known_new() -> (r: DashMap<String, NodeInfo>)
    ensures
        known_nodes(r) == empty_known(),
{
    DashMap::new()
}

/// `DashMap::insert`: maps the key to the value, replacing any earlier one.
#[verifier::external_body]
pub(crate) fn known_insert(m: &mut DashMap<String, NodeInfo>, k: String, v: NodeInfo)
    ensures
        known_nodes(*final(m)) == known_nodes(*old(m)).insert(k@, v.view()),
{
    m.insert(k, v);
}

/// `DashMap::get`, with the value cloned.
#[verifier::external_body]
pub(crate) fn known_get(m: &DashMap<String, NodeInfo>, k: &str) -> (r: Option<NodeInfo>)
    ensures
        match r {
            Some(v) => known_nodes(*m).contains_key(k@) && v.view() == known_nodes(*m)[k@],
            None => !known_nodes(*m).contains_key(k@),
        },
{
    m.get(k).map(|e| e.value().clone())
}

} // verus!
