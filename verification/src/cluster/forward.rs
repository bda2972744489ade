//! Forwarding messages to the node that serves their client or title.
//!
//! The forwarder decides where a message goes and what is sent; the caller
//! sends it and reports a failure back. Forwards that ask for an
//! acknowledgement are kept until the acknowledgement comes or they time
//! out.

use dashmap::DashMap;
use vstd::prelude::*;

use crate::bridge::maps::{
    forwards_entries, forwards_insert, forwards_new, forwards_remove, pending_forwards,
};
use crate::client::inner::other_than;
use crate::cluster::hash_ring::{owner_at, start_index, walk};
use crate::cluster::route_table::GlobalRouteTable;
use crate::cluster::types::{ForwardMessage, NodeId};
use crate::text::str_equals;

verus! {

/// A forward waiting for its acknowledgement.
#[derive(Debug, Clone)]
pub struct PendingForward {
    pub forward_id: u64,
    pub target_node: String,
    pub original_source: u128,
    pub title: String,
    /// When it was sent, in milliseconds since the Unix epoch.
    pub created_at: u64,
}

/// A pending forward as plain values.
#[verifier::ext_equal]
pub ghost struct PendingView {
    pub forward_id: u64,
    pub target_node: Seq<char>,
    pub original_source: u128,
    pub title: Seq<char>,
    pub created_at: u64,
}

impl PendingForward {
    pub open spec fn view(&self) -> PendingView {
        PendingView {
            forward_id: self.forward_id,
            target_node: self.target_node@,
            original_source: self.original_source,
            title: self.title@,
            created_at: self.created_at,
        }
    }
}

/// A message to deliver to the local clients.
#[derive(Debug, Clone)]
pub struct ForwardedMessage {
    pub source_client_id: u128,
    pub target_client_id: u128,
    pub title: String,
    pub payload: Vec<u8>,
    pub is_group: bool,
    pub is_broadcast: bool,
    pub require_ack: bool,
    /// The forward that brought it; 0 when it never left this node.
    pub forward_id: u64,
}

/// Where a message goes.
#[derive(Debug, Clone)]
pub enum ForwardPlan {
    /// No node serves the client or the title.
    NoRoute,
    /// This node serves it: deliver here.
    Local(ForwardedMessage),
    /// Send this to that node.
    Remote { target_node: String, message: ForwardMessage },
}

/// The fields of a message that a forward carries.
pub open spec fn carries(
    m: ForwardMessage,
    source: u128,
    target: u128,
    title: Seq<char>,
    payload: Seq<u8>,
    is_group: bool,
    is_broadcast: bool,
    require_ack: bool,
) -> bool {
    &&& m.original_source == source
    &&& m.target_client_id == target
    &&& m.title@ == title
    &&& m.payload@ == payload
    &&& m.is_group == is_group
    &&& m.is_broadcast == is_broadcast
    &&& m.require_ack == require_ack
}

/// The message that a forward delivers locally.
pub open spec fn delivers(f: ForwardedMessage, m: ForwardMessage) -> bool {
    &&& f.source_client_id == m.original_source
    &&& f.target_client_id == m.target_client_id
    &&& f.title@ == m.title@
    &&& f.payload@ == m.payload@
    &&& f.is_group == m.is_group
    &&& f.is_broadcast == m.is_broadcast
    &&& f.require_ack == m.require_ack
    &&& f.forward_id == m.forward_id
}

/// Forwards messages between nodes.
pub struct MessageForwarder {
    local_node_id: NodeId,
    pending_forwards: DashMap<u64, PendingForward>,
    forward_id_counter: u64,
}

impl MessageForwarder {
    /// The forwards awaiting acknowledgement, by id.
    pub closed spec fn pending(&self) -> Map<u64, PendingView> {
        pending_forwards(self.pending_forwards)
    }

    /// The last forward id handed out.
    pub closed spec fn counter(&self) -> u64 {
        self.forward_id_counter
    }

    /// This node.
    pub closed spec fn local(&self) -> Seq<char> {
        self.local_node_id@
    }

    /// A forwarder for this node, with nothing pending.
    pub fn new(local_node_id: NodeId) -> (r: Self)
        ensures
            r.pending() == Map::<u64, PendingView>::empty(),
            r.counter() == 0,
            r.local() == local_node_id@,
    {
        MessageForwarder { local_node_id, pending_forwards: forwards_new(), forward_id_counter: 0 }
    }

    /// Decides where a message goes: the node that holds the target client,
    /// else a node that serves the title. A message for this node is
    /// delivered here under forward id 0. A message for another node gets
    /// the next forward id and, if it asks for an acknowledgement, is kept
    /// as pending from time `now`.
    pub fn forward_message(
        &mut self,
        table: &GlobalRouteTable,
        original_source: u128,
        target_client_id: u128,
        title: String,
        payload: Vec<u8>,
        is_group: bool,
        is_broadcast: bool,
        require_ack: bool,
        now: u64,
    ) -> (r: ForwardPlan)
        requires
            table.well_formed(),
            old(self).counter() < u64::MAX,
        ensures
            final(self).local() == old(self).local(),
            table.view().clients.contains_key(target_client_id) ==> (r matches ForwardPlan::Remote {
                target_node,
                ..
            } ==> target_node@ == table.view().clients[target_client_id]),
            table.view().clients.contains_key(target_client_id) ==> !(r is NoRoute),
            !table.view().clients.contains_key(target_client_id) ==> (r is NoRoute
                <==> table.view().nodes.len() == 0),
            !table.view().clients.contains_key(target_client_id) ==> (r matches ForwardPlan::Remote {
                target_node,
                ..
            } ==> table.view().nodes.contains(target_node@) && exists|h: u64|
                target_node@ == owner_at(table.ring().ring_view(), h)),
            r is Local ==> (table.view().clients.contains_key(target_client_id) ==> table.view().clients[target_client_id]
                == old(self).local()),
            r is Local ==> (!table.view().clients.contains_key(target_client_id) ==> table.view().nodes.contains(
                old(self).local(),
            ) && exists|h: u64| old(self).local() == owner_at(table.ring().ring_view(), h)),
            match r {
                ForwardPlan::NoRoute => final(self).pending() == old(self).pending()
                    && final(self).counter() == old(self).counter(),
                ForwardPlan::Local(f) => {
                    &&& f.source_client_id == original_source
                    &&& f.target_client_id == target_client_id
                    &&& f.title@ == title@
                    &&& f.payload@ == payload@
                    &&& f.is_group == is_group
                    &&& f.is_broadcast == is_broadcast
                    &&& f.require_ack == require_ack
                    &&& f.forward_id == 0
                    &&& final(self).pending() == old(self).pending()
                    &&& final(self).counter() == old(self).counter()
                },
                ForwardPlan::Remote { target_node, message } => {
                    &&& target_node@ != old(self).local()
                    &&& message.forward_id == old(self).counter() + 1
                    &&& final(self).counter() == old(self).counter() + 1
                    &&& carries(
                        message,
                        original_source,
                        target_client_id,
                        title@,
                        payload@,
                        is_group,
                        is_broadcast,
                        require_ack,
                    )
                    &&& final(self).pending() == if require_ack {
                        old(self).pending().insert(
                            message.forward_id,
                            PendingView {
                                forward_id: message.forward_id,
                                target_node: target_node@,
                                original_source,
                                title: title@,
                                created_at: now,
                            },
                        )
                    } else {
                        old(self).pending()
                    }
                },
            },
    {
        let target_node = match table.get_node_by_client(&target_client_id) {
            Some(node) => node,
            None => match table.get_node_by_title(title.as_str()) {
                Some(node) => node,
                None => {
                    return ForwardPlan::NoRoute;
                },
            },
        };
        if str_equals(target_node.as_str(), self.local_node_id.as_str()) {
            return ForwardPlan::Local(
                ForwardedMessage {
                    source_client_id: original_source,
                    target_client_id,
                    title,
                    payload,
                    is_group,
                    is_broadcast,
                    require_ack,
                    forward_id: 0,
                },
            );
        }
        self.forward_id_counter = self.forward_id_counter + 1;
        let forward_id = self.forward_id_counter;
        if require_ack {
            let pending = PendingForward {
                forward_id,
                target_node: target_node.clone(),
                original_source,
                title: title.clone(),
                created_at: now,
            };
            forwards_insert(&mut self.pending_forwards, forward_id, pending);
        }
        let message = ForwardMessage {
            forward_id,
            original_source,
            target_client_id,
            title,
            payload,
            is_group,
            is_broadcast,
            require_ack,
        };
        ForwardPlan::Remote { target_node, message }
    }

    /// Forgets a forward whose sending failed.
    pub fn forward_failed(&mut self, forward_id: u64)
        ensures
            final(self).pending() == old(self).pending().remove(forward_id),
            final(self).counter() == old(self).counter(),
            final(self).local() == old(self).local(),
    {
        let _ = forwards_remove(&mut self.pending_forwards, forward_id);
    }

    /// The nodes that forwards go to, in order.
    pub open spec fn sent_nodes(r: Seq<(String, ForwardMessage)>) -> Seq<Seq<char>> {
        r.map_values(|p: (String, ForwardMessage)| p.0@)
    }

    /// The forwards that a broadcast on a title sends: one to each of up to
    /// three nodes serving the title, other than this one, each with the
    /// next forward id, addressed to no particular client.
    pub fn broadcast_to_nodes(
        &mut self,
        table: &GlobalRouteTable,
        original_source: u128,
        title: String,
        payload: Vec<u8>,
        is_broadcast: bool,
        require_ack: bool,
    ) -> (r: Vec<(String, ForwardMessage)>)
        requires
            table.well_formed(),
            old(self).counter() <= u64::MAX - 3,
        ensures
            final(self).pending() == old(self).pending(),
            final(self).local() == old(self).local(),
            final(self).counter() == old(self).counter() + r@.len(),
            r@.len() <= 3,
            forall|i: int| 0 <= i < r@.len() ==> {
                let (node, m) = #[trigger] r@[i];
                &&& table.view().nodes.contains(node@)
                &&& node@ != old(self).local()
                &&& m.forward_id == old(self).counter() + i + 1
                &&& carries(m, original_source, 0, title@, payload@, false, is_broadcast, require_ack)
            },
            forall|i: int, j: int| 0 <= i < j < r@.len() ==> r@[i].0@ != r@[j].0@,
            exists|t: Seq<Seq<char>>|
                {
                    &&& t.len() == if 3 < table.view().nodes.len() {
                        3
                    } else {
                        table.view().nodes.len()
                    }
                    &&& t.no_duplicates()
                    &&& forall|i: int| 0 <= i < t.len() ==> table.view().nodes.contains(#[trigger] t[i])
                    &&& table.view().nodes.len() > 0 ==> exists|h: u64|
                        t == walk(
                            table.ring().ring_view(),
                            table.ring().sorted_view(),
                            start_index(table.ring().sorted_view(), h),
                            3,
                            table.view().nodes.len(),
                            table.ring().sorted_view().len(),
                            Seq::<Seq<char>>::empty(),
                        )
                    &&& Self::sent_nodes(r@) == t.filter(other_than(old(self).local()))
                },
    {
        let targets = table.get_nodes_by_title(title.as_str(), 3);
        let ghost tv = targets@.map_values(|s: String| s@);
        proof {
            reveal(Seq::filter);
            assert(tv.take(0) =~= Seq::<Seq<char>>::empty());
            assert(Self::sent_nodes(Seq::<(String, ForwardMessage)>::empty()) =~= Seq::<Seq<char>>::empty());
        }
        let ghost start = self.forward_id_counter;
        let mut out: Vec<(String, ForwardMessage)> = Vec::new();
        let mut i: usize = 0;
        while i < targets.len()
            invariant
                i <= targets@.len(),
                targets@.len() <= 3,
                out@.len() <= i,
                self.forward_id_counter == start + out@.len(),
                start <= u64::MAX - 3,
                pending_forwards(self.pending_forwards) == old(self).pending(),
                self.local_node_id@ == old(self).local(),
                start == old(self).counter(),
                tv == targets@.map_values(|s: String| s@),
                Self::sent_nodes(out@) == tv.take(i as int).filter(other_than(old(self).local())),
                forall|j: int, k: int| 0 <= j < k < targets@.len() ==> targets@[j]@ != targets@[k]@,
                forall|j: int| 0 <= j < targets@.len() ==> table.view().nodes.contains(#[trigger] targets@[j]@),
                forall|k: int| 0 <= k < out@.len() ==> exists|j: int| 0 <= j < i && (#[trigger] out@[k]).0@ == targets@[j]@,
                forall|k: int, l: int| 0 <= k < l < out@.len() ==> out@[k].0@ != out@[l].0@,
                forall|k: int| 0 <= k < out@.len() ==> {
                    let (node, m) = #[trigger] out@[k];
                    &&& table.view().nodes.contains(node@)
                    &&& node@ != old(self).local()
                    &&& m.forward_id == start + k + 1
                    &&& carries(m, original_source, 0, title@, payload@, false, is_broadcast, require_ack)
                },
            decreases targets@.len() - i,
        {
            let node = &targets[i];
            proof {
                reveal(Seq::filter);
                assert(tv.take(i + 1).drop_last() =~= tv.take(i as int));
                assert(tv.take(i + 1).last() == targets@[i as int]@);
            }
            if !str_equals(node.as_str(), self.local_node_id.as_str()) {
                self.forward_id_counter = self.forward_id_counter + 1;
                let m = ForwardMessage {
                    forward_id: self.forward_id_counter,
                    original_source,
                    target_client_id: 0,
                    title: title.clone(),
                    payload: payload.clone(),
                    is_group: false,
                    is_broadcast,
                    require_ack,
                };
                let ghost before = out@;
                out.push((node.clone(), m));
                proof {
                    assert(Self::sent_nodes(out@) =~= Self::sent_nodes(before).push(node@));
                    assert forall|k: int, l: int| 0 <= k < l < out@.len() implies out@[k].0@ != out@[l].0@ by {
                        if l == out@.len() - 1 {
                            let j = choose|j: int| 0 <= j < i && before[k].0@ == targets@[j]@;
                            assert(out@[k] == before[k]);
                        }
                    }
                    assert forall|k: int| 0 <= k < out@.len() implies exists|j: int|
                        0 <= j < i + 1 && (#[trigger] out@[k]).0@ == targets@[j]@ by {
                        if k < out@.len() - 1 {
                            assert(out@[k] == before[k]);
                            let j = choose|j: int| 0 <= j < i && before[k].0@ == targets@[j]@;
                        } else {
                            assert(out@[k].0@ == targets@[i as int]@);
                        }
                    }
                }
            }
            i = i + 1;
        }
        proof {
            assert(tv.take(i as int) =~= tv);
            assert forall|a: int, b: int| 0 <= a < b < tv.len() implies tv[a] != tv[b] by {
                assert(tv[a] == targets@[a]@ && tv[b] == targets@[b]@);
            }
            assert forall|k: int| 0 <= k < tv.len() implies table.view().nodes.contains(#[trigger] tv[k]) by {
                assert(tv[k] == targets@[k]@);
            }
            assert(tv.no_duplicates());
            assert(tv.len() == targets@.len());
            assert(Self::sent_nodes(out@) == tv.filter(other_than(old(self).local())));
        }
        out
    }

    /// The message that an incoming forward delivers to the local clients.
    pub fn handle_forwarded_message(&self, forward: ForwardMessage) -> (r: ForwardedMessage)
        ensures
            delivers(r, forward),
    {
        ForwardedMessage {
            source_client_id: forward.original_source,
            target_client_id: forward.target_client_id,
            title: forward.title,
            payload: forward.payload,
            is_group: forward.is_group,
            is_broadcast: forward.is_broadcast,
            require_ack: forward.require_ack,
            forward_id: forward.forward_id,
        }
    }

    /// Settles the forward that an acknowledgement names: it is no longer
    /// pending, and is handed back if it was.
    pub fn handle_ack(&mut self, forward_id: u64) -> (r: Option<PendingForward>)
        ensures
            final(self).pending() == old(self).pending().remove(forward_id),
            final(self).counter() == old(self).counter(),
            final(self).local() == old(self).local(),
            match r {
                Some(p) => old(self).pending().contains_key(forward_id) && p.view() == old(
                    self,
                ).pending()[forward_id],
                None => !old(self).pending().contains_key(forward_id),
            },
    {
        forwards_remove(&mut self.pending_forwards, forward_id)
    }

    /// Drops the forwards pending for longer than `timeout_ms` at time
    /// `now`, and hands them back.
    pub fn cleanup_timeout(&mut self, now: u64, timeout_ms: u64) -> (r: Vec<PendingForward>)
        requires
            forall|k: u64| #[trigger] old(self).pending().contains_key(k) ==> old(self).pending()[k].created_at <= now,
        ensures
            final(self).counter() == old(self).counter(),
            final(self).local() == old(self).local(),
            forall|k: u64|
                #[trigger] final(self).pending().contains_key(k) <==> (old(self).pending().contains_key(k)
                    && !expired(old(self).pending()[k], now, timeout_ms)),
            forall|k: u64|
                #[trigger] final(self).pending().contains_key(k) ==> final(self).pending()[k] == old(
                    self,
                ).pending()[k],
            forall|b: int|
                0 <= b < r@.len() ==> is_expired_entry(old(self).pending(), (#[trigger] r@[b]).view(), now, timeout_ms),
            forall|k: u64|
                #[trigger] old(self).pending().contains_key(k) && expired(old(self).pending()[k], now, timeout_ms)
                    ==> exists|b: int| 0 <= b < r@.len() && r@[b].view() == old(self).pending()[k],
    {
        let entries = forwards_entries(&self.pending_forwards);
        let ghost p0 = old(self).pending();
        let ghost es = entries@;
        let mut out: Vec<PendingForward> = Vec::new();
        let mut i: usize = 0;
        while i < entries.len()
            invariant
                i <= es.len(),
                es == entries@,
                p0 == old(self).pending(),
                forall|k: u64| #[trigger] p0.contains_key(k) ==> p0[k].created_at <= now,
                forall|a: int, b: int| 0 <= a < b < es.len() ==> es[a].0 != es[b].0,
                forall|a: int|
                    0 <= a < es.len() ==> p0.contains_key(#[trigger] es[a].0) && p0[es[a].0]
                        == es[a].1.view(),
                self.forward_id_counter == old(self).counter(),
                self.local_node_id@ == old(self).local(),
                forall|k: u64|
                    #[trigger] pending_forwards(self.pending_forwards).contains_key(k) <==> (p0.contains_key(k)
                        && !(expired(p0[k], now, timeout_ms) && seen_before(es, k, i as int))),
                forall|k: u64|
                    #[trigger] pending_forwards(self.pending_forwards).contains_key(k) ==> pending_forwards(
                        self.pending_forwards,
                    )[k] == p0[k],
                forall|b: int|
                    0 <= b < out@.len() ==> is_expired_entry(p0, (#[trigger] out@[b]).view(), now, timeout_ms),
                forall|a: int|
                    0 <= a < i && #[trigger] expired(p0[es[a].0], now, timeout_ms) ==> exists|b: int|
                        0 <= b < out@.len() && out@[b].view() == p0[es[a].0],
            decreases es.len() - i,
        {
            let id = entries[i].0;
            let created = entries[i].1.created_at;
            let ghost cur = pending_forwards(self.pending_forwards);
            let ghost out0 = out@;
            proof {
                assert(p0.contains_key(es[i as int].0));
                assert forall|k: u64| seen_before(es, k, i + 1) <==> (seen_before(es, k, i as int) || k == id) by {
                    if seen_before(es, k, i + 1) {
                        let a = choose|a: int| 0 <= a < i + 1 && es[a].0 == k;
                    }
                    if k == id {
                        assert(es[i as int].0 == k);
                    }
                    if seen_before(es, k, i as int) {
                        let a = choose|a: int| 0 <= a < i && es[a].0 == k;
                        assert(0 <= a < i + 1 && es[a].0 == k);
                    }
                }
                assert(!seen_before(es, id, i as int)) by {
                    if seen_before(es, id, i as int) {
                        let a = choose|a: int| 0 <= a < i && es[a].0 == id;
                    }
                }
            }
            if now - created > timeout_ms {
                let removed = forwards_remove(&mut self.pending_forwards, id);
                match removed {
                    Some(p) => {
                        out.push(p);
                        proof {
                            assert(out@[out@.len() - 1].view() == p0[id]);
                            assert forall|b: int| 0 <= b < out@.len() implies is_expired_entry(
                                p0,
                                (#[trigger] out@[b]).view(),
                                now,
                                timeout_ms,
                            ) by {
                                if b < out0.len() {
                                    assert(out@[b] == out0[b]);
                                    assert(is_expired_entry(p0, out0[b].view(), now, timeout_ms));
                                } else {
                                    assert(p0.contains_key(id) && expired(p0[id], now, timeout_ms) && out@[b].view() == p0[id]);
                                }
                            }
                            assert forall|a: int|
                                0 <= a < i + 1 && #[trigger] expired(p0[es[a].0], now, timeout_ms) implies exists|b: int|
                                    0 <= b < out@.len() && out@[b].view() == p0[es[a].0] by {
                                if a < i {
                                    let b = choose|b: int| 0 <= b < out0.len() && out0[b].view() == p0[es[a].0];
                                    assert(out@[b] == out0[b]);
                                } else {
                                    assert(out@[out@.len() - 1].view() == p0[es[a].0]);
                                }
                            }
                        }
                    },
                    None => {
                        assert(cur.contains_key(id));
                    },
                }
            } else {
                proof {
                    assert forall|a: int|
                        0 <= a < i + 1 && #[trigger] expired(p0[es[a].0], now, timeout_ms) implies exists|b: int|
                            0 <= b < out@.len() && out@[b].view() == p0[es[a].0] by {
                        if a == i {
                            assert(!expired(p0[es[a].0], now, timeout_ms));
                        }
                    }
                }
            }
            i = i + 1;
        }
        proof {
            assert forall|k: u64| #[trigger] p0.contains_key(k) implies seen_before(es, k, es.len() as int) by {
                let a = choose|a: int| 0 <= a < es.len() && es[a].0 == k;
            }
            assert forall|k: u64|
                #[trigger] p0.contains_key(k) && expired(p0[k], now, timeout_ms) implies exists|b: int|
                    0 <= b < out@.len() && out@[b].view() == p0[k] by {
                let a = choose|a: int| 0 <= a < es.len() && es[a].0 == k;
                assert(expired(p0[es[a].0], now, timeout_ms));
            }
        }
        out
    }
}

/// A pending forward has waited longer than the timeout.
pub open spec fn expired(p: PendingView, now: u64, timeout_ms: u64) -> bool {
    now - p.created_at > timeout_ms
}

/// `v` is a pending forward of `p` that has expired.
pub open spec fn is_expired_entry(p: Map<u64, PendingView>, v: PendingView, now: u64, timeout_ms: u64) -> bool {
    exists|k: u64| p.contains_key(k) && expired(p[k], now, timeout_ms) && v == p[k]
}

/// Key `k` is among the first `i` entries.
pub open spec fn seen_before(es: Seq<(u64, PendingForward)>, k: u64, i: int) -> bool {
    exists|a: int| 0 <= a < i && es[a].0 == k
}

} // verus!
