//! The cluster-wide route table: which node serves a title (by consistent
//! hashing), which node holds a client, and where each node listens.
//!
//! Every change bumps a version number, so that peers can tell which of two
//! tables is newer.

use dashmap::DashMap;
use vstd::prelude::*;

use crate::bridge::maps::{
    client_routes, client_routes_clear, client_routes_entries, client_routes_get,
    client_routes_insert, client_routes_new, client_routes_remove, node_addrs, node_addrs_clear,
    node_addrs_entries, node_addrs_get, node_addrs_insert, node_addrs_new, node_addrs_remove,
};
use crate::cluster::hash_ring::{owner_at, start_index, str_views, walk, HashRing};
use crate::cluster::types::NodeId;
use crate::text::str_equals;

verus! {

/// The route table as plain values. The points of the hash ring, which decide
/// the node of a title, are reached through `GlobalRouteTable::ring`.
#[verifier::ext_equal]
pub ghost struct RouteTableView {
    /// The nodes on the hash ring, in the order they joined.
    pub nodes: Seq<Seq<char>>,
    /// Client id to node id.
    pub clients: Map<u128, Seq<char>>,
    /// Node id to address.
    pub addrs: Map<Seq<char>, Seq<char>>,
    /// This node, if set.
    pub local: Option<Seq<char>>,
    pub version: u64,
}

/// The route table.
#[derive(Debug)]
pub struct GlobalRouteTable {
    title_to_nodes: HashRing,
    client_id_to_node: DashMap<u128, String>,
    node_id_to_addr: DashMap<String, String>,
    local_node_id: Option<NodeId>,
    version: u64,
}

/// The route table's content, as peers exchange it.
#[derive(Debug, Clone)]
pub struct RouteTableState {
    pub version: u64,
    pub client_id_to_node: Vec<(u128, String)>,
    pub node_id_to_addr: Vec<(String, String)>,
}

/// The map that a list of pairs builds, later pairs overriding earlier ones.
pub open spec fn client_pairs_map(s: Seq<(u128, Seq<char>)>) -> Map<u128, Seq<char>>
    decreases s.len(),
{
    if s.len() == 0 {
        Map::empty()
    } else {
        client_pairs_map(s.drop_last()).insert(s.last().0, s.last().1)
    }
}

/// The map that a list of pairs builds, later pairs overriding earlier ones.
pub open spec fn addr_pairs_map(s: Seq<(Seq<char>, Seq<char>)>) -> Map<Seq<char>, Seq<char>>
    decreases s.len(),
{
    if s.len() == 0 {
        Map::empty()
    } else {
        addr_pairs_map(s.drop_last()).insert(s.last().0, s.last().1)
    }
}

/// The items, each kept at its first occurrence.
pub open spec fn dedup(s: Seq<Seq<char>>) -> Seq<Seq<char>>
    decreases s.len(),
{
    if s.len() == 0 {
        Seq::empty()
    } else {
        let p = dedup(s.drop_last());
        if p.contains(s.last()) {
            p
        } else {
            p.push(s.last())
        }
    }
}

/// The table after a node joins with an address.
pub open spec fn after_add_node(v: RouteTableView, id: Seq<char>, addr: Seq<char>) -> RouteTableView {
    RouteTableView {
        nodes: if v.nodes.contains(id) {
            v.nodes
        } else {
            v.nodes.push(id)
        },
        addrs: v.addrs.insert(id, addr),
        version: (v.version + 1) as u64,
        ..v
    }
}

/// `w` is the table `v` after a node leaves: it is off the ring (the other
/// nodes keep their order up to the gap) and its address is gone.
pub open spec fn after_remove_node(v: RouteTableView, w: RouteTableView, id: Seq<char>) -> bool {
    &&& w.nodes.to_set() == v.nodes.to_set().remove(id)
    &&& w.addrs == v.addrs.remove(id)
    &&& w.clients == v.clients
    &&& w.local == v.local
    &&& w.version == v.version + 1
}

/// The table after a client is recorded on a node.
pub open spec fn after_register(v: RouteTableView, client: u128, node: Seq<char>) -> RouteTableView {
    RouteTableView { clients: v.clients.insert(client, node), version: (v.version + 1) as u64, ..v }
}

/// The table after a client is forgotten.
pub open spec fn after_unregister(v: RouteTableView, client: u128) -> RouteTableView {
    RouteTableView { clients: v.clients.remove(client), version: (v.version + 1) as u64, ..v }
}

/// The client pairs of a state, as plain values.
pub open spec fn state_clients(st: RouteTableState) -> Seq<(u128, Seq<char>)> {
    st.client_id_to_node@.map_values(|p: (u128, String)| (p.0, p.1@))
}

/// The address pairs of a state, as plain values.
pub open spec fn state_addrs(st: RouteTableState) -> Seq<(Seq<char>, Seq<char>)> {
    st.node_id_to_addr@.map_values(|p: (String, String)| (p.0@, p.1@))
}

/// `st` lists the table's clients and addresses, each key once, and its
/// version.
pub open spec fn exports(v: RouteTableView, st: RouteTableState) -> bool {
    let cs = state_clients(st);
    let ads = state_addrs(st);
    &&& st.version == v.version
    &&& forall|i: int, j: int| 0 <= i < j < cs.len() ==> cs[i].0 != cs[j].0
    &&& forall|i: int| 0 <= i < cs.len() ==> v.clients.contains_key(#[trigger] cs[i].0) && v.clients[cs[i].0] == cs[i].1
    &&& forall|k: u128| v.clients.contains_key(k) ==> exists|i: int| 0 <= i < cs.len() && cs[i].0 == k
    &&& forall|i: int, j: int| 0 <= i < j < ads.len() ==> ads[i].0 != ads[j].0
    &&& forall|i: int| 0 <= i < ads.len() ==> v.addrs.contains_key(#[trigger] ads[i].0) && v.addrs[ads[i].0] == ads[i].1
    &&& forall|k: Seq<char>| v.addrs.contains_key(k) ==> exists|i: int| 0 <= i < ads.len() && ads[i].0 == k
}

/// The table that importing `st` leaves, the local node kept from `v`.
pub open spec fn imported(v: RouteTableView, st: RouteTableState) -> RouteTableView {
    RouteTableView {
        nodes: dedup(state_addrs(st).map_values(|p: (Seq<char>, Seq<char>)| p.0)),
        clients: client_pairs_map(state_clients(st)),
        addrs: addr_pairs_map(state_addrs(st)),
        local: v.local,
        version: st.version,
    }
}

impl GlobalRouteTable {
    /// The table as plain values.
    pub closed spec fn view(&self) -> RouteTableView {
        RouteTableView {
            nodes: self.title_to_nodes.node_list(),
            clients: client_routes(self.client_id_to_node),
            addrs: node_addrs(self.node_id_to_addr),
            local: match self.local_node_id {
                Some(n) => Some(n@),
                None => None,
            },
            version: self.version,
        }
    }

    /// The hash ring that places titles on nodes; its nodes are `view().nodes`.
    pub closed spec fn ring(&self) -> HashRing {
        self.title_to_nodes
    }

    /// The ring holds exactly the nodes that have an address.
    pub closed spec fn well_formed(&self) -> bool {
        &&& self.title_to_nodes.well_formed()
        &&& self.title_to_nodes.vnodes() == 150
        &&& forall|k: Seq<char>| self.view().addrs.contains_key(k) <==> self.view().nodes.contains(k)
    }

    /// An empty table with no local node.
    pub fn new() -> (r: Self)
        ensures
            r.well_formed(),
            r.view() == (RouteTableView {
                nodes: Seq::empty(),
                clients: Map::empty(),
                addrs: Map::empty(),
                local: None,
                version: 0,
            }),
    {
        GlobalRouteTable {
            title_to_nodes: HashRing::new(),
            client_id_to_node: client_routes_new(),
            node_id_to_addr: node_addrs_new(),
            local_node_id: None,
            version: 0,
        }
    }

    /// An empty table for the given local node.
    pub fn with_local_node(node_id: NodeId) -> (r: Self)
        ensures
            r.well_formed(),
            r.view() == (RouteTableView {
                nodes: Seq::empty(),
                clients: Map::empty(),
                addrs: Map::empty(),
                local: Some(node_id@),
                version: 0,
            }),
    {
        let mut t = Self::new();
        t.local_node_id = Some(node_id);
        t
    }

    /// Sets the local node. The version does not change.
    pub fn set_local_node(&mut self, node_id: NodeId)
        requires
            old(self).well_formed(),
        ensures
            final(self).well_formed(),
            final(self).view() == (RouteTableView { local: Some(node_id@), ..old(self).view() }),
    {
        self.local_node_id = Some(node_id);
    }

    /// Adds a node with its address (replacing an earlier address) and puts
    /// it on the ring if it is not there yet.
    pub fn add_node(&mut self, node_id: String, addr: String)
        requires
            old(self).well_formed(),
            old(self).view().version < u64::MAX,
        ensures
            final(self).well_formed(),
            final(self).view() == after_add_node(old(self).view(), node_id@, addr@),
    {
        let key = node_id.clone();
        node_addrs_insert(&mut self.node_id_to_addr, key, addr);
        self.title_to_nodes.add_node(node_id);
        self.version = self.version + 1;
        proof {
            let v = self.view();
            assert forall|k: Seq<char>| v.addrs.contains_key(k) <==> v.nodes.contains(k) by {
                if k == node_id@ {
                    if !old(self).view().nodes.contains(node_id@) {
                        assert(v.nodes[v.nodes.len() - 1] == k);
                    }
                } else if old(self).view().nodes.contains(k) && !old(self).view().nodes.contains(
                    node_id@,
                ) {
                    let i = choose|i: int| 0 <= i < old(self).view().nodes.len() && old(self).view().nodes[i] == k;
                    assert(v.nodes[i] == k);
                }
            }
        }
    }

    /// Removes a node: its address and its place on the ring.
    pub fn remove_node(&mut self, node_id: &str)
        requires
            old(self).well_formed(),
            old(self).view().version < u64::MAX,
        ensures
            final(self).well_formed(),
            after_remove_node(old(self).view(), final(self).view(), node_id@),
    {
        node_addrs_remove(&mut self.node_id_to_addr, node_id);
        let ghost before = self.title_to_nodes.node_list();
        proof {
            self.title_to_nodes.lemma_well_formed();
        }
        self.title_to_nodes.remove_node(node_id);
        self.version = self.version + 1;
        proof {
            let after = self.title_to_nodes.node_list();
            if before.contains(node_id@) {
                let idx = before.index_of(node_id@);
                assert(after == before.remove(idx));
                assert forall|k: Seq<char>| after.contains(k) <==> (before.contains(k) && k != node_id@) by {
                    if after.contains(k) {
                        let i = choose|i: int| 0 <= i < after.len() && after[i] == k;
                        let oi = if i < idx { i } else { i + 1 };
                        assert(before[oi] == k);
                    }
                    if before.contains(k) && k != node_id@ {
                        let i = choose|i: int| 0 <= i < before.len() && before[i] == k;
                        assert(i != idx);
                        let ni = if i < idx { i } else { i - 1 };
                        assert(after[ni] == k);
                    }
                }
            } else {
                assert forall|k: Seq<char>| after.contains(k) <==> (before.contains(k) && k != node_id@) by {}
            }
            assert(after.to_set() =~= before.to_set().remove(node_id@));
            let v = self.view();
            assert forall|k: Seq<char>| v.addrs.contains_key(k) <==> v.nodes.contains(k) by {
                assert(before == old(self).view().nodes);
                assert(old(self).view().addrs.contains_key(k) <==> old(self).view().nodes.contains(k));
            }
        }
    }

    /// Records that a client is held by a node.
    pub fn register_client(&mut self, client_id: u128, node_id: &str)
        requires
            old(self).well_formed(),
            old(self).view().version < u64::MAX,
        ensures
            final(self).well_formed(),
            final(self).view() == after_register(old(self).view(), client_id, node_id@),
    {
        client_routes_insert(&mut self.client_id_to_node, client_id, String::from_str(node_id));
        self.version = self.version + 1;
    }

    /// Forgets a client.
    pub fn unregister_client(&mut self, client_id: &u128)
        requires
            old(self).well_formed(),
            old(self).view().version < u64::MAX,
        ensures
            final(self).well_formed(),
            final(self).view() == after_unregister(old(self).view(), *client_id),
    {
        client_routes_remove(&mut self.client_id_to_node, client_id);
        self.version = self.version + 1;
    }

    /// The node that serves a title: the owner of the ring's successor point
    /// of the title's hash; none when there are no nodes.
    pub fn get_node_by_title(&self, title: &str) -> (r: Option<String>)
        requires
            self.well_formed(),
        ensures
            r is Some <==> self.view().nodes.len() > 0,
            r matches Some(s) ==> self.view().nodes.contains(s@) && exists|h: u64|
                s@ == owner_at(self.ring().ring_view(), h),
    {
        proof {
            self.title_to_nodes.lemma_points_iff_nodes();
        }
        match self.title_to_nodes.get(title) {
            Some(s) => {
                let r = String::from_str(s);
                proof {
                    let h = choose|h: u64| s@ == owner_at(self.title_to_nodes.ring_view(), h);
                    assert(r@ == owner_at(self.ring().ring_view(), h));
                }
                Some(r)
            },
            None => None,
        }
    }

    /// The node that holds a client, if it is known.
    pub fn get_node_by_client(&self, client_id: &u128) -> (r: Option<String>)
        ensures
            match r {
                Some(s) => self.view().clients.contains_key(*client_id) && s@ == self.view().clients[*client_id],
                None => !self.view().clients.contains_key(*client_id),
            },
    {
        client_routes_get(&self.client_id_to_node, client_id)
    }

    /// The address of a node, if it is known.
    pub fn get_node_addr(&self, node_id: &str) -> (r: Option<String>)
        ensures
            match r {
                Some(s) => self.view().addrs.contains_key(node_id@) && s@ == self.view().addrs[node_id@],
                None => !self.view().addrs.contains_key(node_id@),
            },
    {
        node_addrs_get(&self.node_id_to_addr, node_id)
    }

    /// Every node with an address, once each, in an unspecified order.
    pub fn get_all_nodes(&self) -> (r: Vec<String>)
        ensures
            forall|i: int, j: int| 0 <= i < j < r@.len() ==> r@[i]@ != r@[j]@,
            forall|k: Seq<char>|
                self.view().addrs.contains_key(k) <==> exists|i: int| 0 <= i < r@.len() && r@[i]@ == k,
    {
        let entries = node_addrs_entries(&self.node_id_to_addr);
        let mut out: Vec<String> = Vec::new();
        let mut i: usize = 0;
        while i < entries.len()
            invariant
                i <= entries@.len(),
                out@.len() == i,
                forall|j: int| 0 <= j < i ==> out@[j]@ == entries@[j].0@,
            decreases entries@.len() - i,
        {
            out.push(entries[i].0.clone());
            i = i + 1;
        }
        proof {
            assert forall|k: Seq<char>|
                self.view().addrs.contains_key(k) <==> exists|i: int| 0 <= i < out@.len() && out@[i]@ == k by {
                if exists|i: int| 0 <= i < out@.len() && out@[i]@ == k {
                    let i = choose|i: int| 0 <= i < out@.len() && out@[i]@ == k;
                    assert(entries@[i].0@ == k);
                }
                if self.view().addrs.contains_key(k) {
                    let i = choose|i: int| 0 <= i < entries@.len() && entries@[i].0@ == k;
                    assert(out@[i]@ == k);
                }
            }
        }
        out
    }

    /// Up to `n` distinct nodes for a title, in ring order from the title's
    /// place, for replication.
    pub fn get_nodes_by_title(&self, title: &str, n: usize) -> (r: Vec<String>)
        requires
            self.well_formed(),
        ensures
            self.view().nodes.len() > 0 ==> exists|h: u64|
                r@.map_values(|s: String| s@) == walk(
                    self.ring().ring_view(),
                    self.ring().sorted_view(),
                    start_index(self.ring().sorted_view(), h),
                    n as nat,
                    self.view().nodes.len(),
                    self.ring().sorted_view().len(),
                    Seq::<Seq<char>>::empty(),
                ),
            forall|i: int, j: int| 0 <= i < j < r@.len() ==> r@[i]@ != r@[j]@,
            forall|i: int| 0 <= i < r@.len() ==> self.view().nodes.contains(#[trigger] r@[i]@),
            r@.len() == if n < self.view().nodes.len() {
                n as nat
            } else {
                self.view().nodes.len()
            },
    {
        let picked = self.title_to_nodes.get_n(title, n);
        let mut out: Vec<String> = Vec::new();
        let mut i: usize = 0;
        while i < picked.len()
            invariant
                i <= picked@.len(),
                out@.len() == i,
                forall|j: int| 0 <= j < i ==> out@[j]@ == picked@[j]@,
            decreases picked@.len() - i,
        {
            out.push(String::from_str(picked[i]));
            i = i + 1;
        }
        proof {
            assert forall|a: int, b: int| 0 <= a < b < out@.len() implies out@[a]@ != out@[b]@ by {
                assert(str_views(picked@)[a] == picked@[a]@);
                assert(str_views(picked@)[b] == picked@[b]@);
            }
            assert(out@.map_values(|s: String| s@) =~= str_views(picked@));
            if self.view().nodes.len() > 0 {
                self.title_to_nodes.lemma_points_iff_nodes();
                let ring = self.title_to_nodes;
                let h = choose|h: u64|
                    str_views(picked@) == walk(
                        ring.ring_view(),
                        ring.sorted_view(),
                        start_index(ring.sorted_view(), h),
                        n as nat,
                        ring.node_list().len(),
                        ring.sorted_view().len(),
                        Seq::<Seq<char>>::empty(),
                    );
                assert(out@.map_values(|s: String| s@) == walk(
                    self.ring().ring_view(),
                    self.ring().sorted_view(),
                    start_index(self.ring().sorted_view(), h),
                    n as nat,
                    self.view().nodes.len(),
                    self.ring().sorted_view().len(),
                    Seq::<Seq<char>>::empty(),
                ));
            }
        }
        out
    }

    /// Whether a client is held by the local node. False when either is
    /// unknown.
    pub fn is_client_local(&self, client_id: &u128) -> (r: bool)
        ensures
            r <==> (self.view().local matches Some(l) && self.view().clients.contains_key(*client_id)
                && self.view().clients[*client_id] == l),
    {
        match &self.local_node_id {
            Some(local) => match self.get_node_by_client(client_id) {
                Some(node) => str_equals(node.as_str(), local.as_str()),
                None => false,
            },
            None => false,
        }
    }

    /// The version: the number of changes made, or the version imported.
    pub fn version(&self) -> (r: u64)
        ensures
            r == self.view().version,
    {
        self.version
    }

    /// The local node, if set.
    pub fn local_node(&self) -> (r: Option<NodeId>)
        ensures
            match r {
                Some(n) => self.view().local == Some(n@),
                None => self.view().local is None,
            },
    {
        match &self.local_node_id {
            Some(n) => Some(NodeId(n.0.clone())),
            None => None,
        }
    }

    /// The clients, the addresses and the version, for a peer.
    pub fn export_state(&self) -> (r: RouteTableState)
        ensures
            exports(self.view(), r),
    {
        let client_id_to_node = client_routes_entries(&self.client_id_to_node);
        let node_id_to_addr = node_addrs_entries(&self.node_id_to_addr);
        let r = RouteTableState { version: self.version, client_id_to_node, node_id_to_addr };
        proof {
            let cs = state_clients(r);
            let ads = state_addrs(r);
            assert forall|i: int| 0 <= i < cs.len() implies cs[i] == (
            r.client_id_to_node@[i].0,
            r.client_id_to_node@[i].1@,
            ) by {}
            assert forall|i: int| 0 <= i < ads.len() implies ads[i] == (
            r.node_id_to_addr@[i].0@,
            r.node_id_to_addr@[i].1@,
            ) by {}
            assert forall|k: u128| self.view().clients.contains_key(k) implies exists|i: int|
                0 <= i < cs.len() && cs[i].0 == k by {
                let i = choose|i: int| 0 <= i < r.client_id_to_node@.len() && r.client_id_to_node@[i].0 == k;
                assert(cs[i].0 == k);
            }
            assert forall|k: Seq<char>| self.view().addrs.contains_key(k) implies exists|i: int|
                0 <= i < ads.len() && ads[i].0 == k by {
                let i = choose|i: int| 0 <= i < r.node_id_to_addr@.len() && r.node_id_to_addr@[i].0@ == k;
                assert(ads[i].0 == k);
            }
        }
        r
    }

    /// Replaces the ring, the clients, the addresses and the version with
    /// those of a peer's state. The local node stays.
    pub fn import_state(&mut self, state: RouteTableState)
        requires
            old(self).well_formed(),
        ensures
            final(self).well_formed(),
            final(self).view() == imported(old(self).view(), state),
    {
        let ghost addrs_in = state_addrs(state);
        let ghost keys_in = addrs_in.map_values(|p: (Seq<char>, Seq<char>)| p.0);
        let ghost clients_in = state_clients(state);
        let mut ring = HashRing::new();
        client_routes_clear(&mut self.client_id_to_node);
        node_addrs_clear(&mut self.node_id_to_addr);
        proof {
            assert(keys_in.take(0) =~= Seq::<Seq<char>>::empty());
            assert(addrs_in.take(0) =~= Seq::<(Seq<char>, Seq<char>)>::empty());
            assert(clients_in.take(0) =~= Seq::<(u128, Seq<char>)>::empty());
        }
        let mut i: usize = 0;
        while i < state.node_id_to_addr.len()
            invariant
                i <= state.node_id_to_addr@.len(),
                addrs_in == state_addrs(state),
                keys_in == addrs_in.map_values(|p: (Seq<char>, Seq<char>)| p.0),
                ring.well_formed(),
                ring.vnodes() == 150,
                ring.node_list() == dedup(keys_in.take(i as int)),
                node_addrs(self.node_id_to_addr) == addr_pairs_map(addrs_in.take(i as int)),
                client_routes(self.client_id_to_node) == crate::bridge::maps::empty_routes(),
                self.local_node_id == old(self).local_node_id,
            decreases state.node_id_to_addr@.len() - i,
        {
            proof {
                assert(keys_in.take(i + 1).drop_last() =~= keys_in.take(i as int));
                assert(addrs_in.take(i + 1).drop_last() =~= addrs_in.take(i as int));
                assert(addrs_in[i as int] == (state.node_id_to_addr@[i as int].0@, state.node_id_to_addr@[i as int].1@));
            }
            ring.add_node(state.node_id_to_addr[i].0.clone());
            node_addrs_insert(
                &mut self.node_id_to_addr,
                state.node_id_to_addr[i].0.clone(),
                state.node_id_to_addr[i].1.clone(),
            );
            i = i + 1;
        }
        proof {
            assert(addrs_in.take(addrs_in.len() as int) =~= addrs_in);
        }
        let mut j: usize = 0;
        while j < state.client_id_to_node.len()
            invariant
                j <= state.client_id_to_node@.len(),
                clients_in == state_clients(state),
                client_routes(self.client_id_to_node) == client_pairs_map(clients_in.take(j as int)),
                node_addrs(self.node_id_to_addr) == addr_pairs_map(addrs_in),
                self.local_node_id == old(self).local_node_id,
            decreases state.client_id_to_node@.len() - j,
        {
            proof {
                assert(clients_in.take(j + 1).drop_last() =~= clients_in.take(j as int));
                assert(clients_in[j as int] == (state.client_id_to_node@[j as int].0, state.client_id_to_node@[j as int].1@));
            }
            client_routes_insert(
                &mut self.client_id_to_node,
                state.client_id_to_node[j].0,
                state.client_id_to_node[j].1.clone(),
            );
            j = j + 1;
        }
        proof {
            assert(keys_in.take(keys_in.len() as int) =~= keys_in);
            assert(addrs_in.take(addrs_in.len() as int) =~= addrs_in);
            assert(clients_in.take(clients_in.len() as int) =~= clients_in);
            lemma_dedup_keys(addrs_in);
        }
        self.title_to_nodes = ring;
        self.version = state.version;
    }
}

impl Default for GlobalRouteTable {
    fn default() -> (r: Self)
        ensures
            r.well_formed(),
            r.view().nodes.len() == 0,
            r.view().clients.len() == 0,
            r.view().version == 0,
    {
        Self::new()
    }
}

/// The keys that the pairs map has are those that the deduplicated key list
/// holds.
/// A list of pairs with distinct keys builds the map that holds exactly
/// those pairs.
proof fn lemma_client_pairs_map(s: Seq<(u128, Seq<char>)>)
    requires
        forall|i: int, j: int| 0 <= i < j < s.len() ==> s[i].0 != s[j].0,
    ensures
        forall|i: int|
            0 <= i < s.len() ==> client_pairs_map(s).contains_key(#[trigger] s[i].0)
                && client_pairs_map(s)[s[i].0] == s[i].1,
        forall|k: u128|
            client_pairs_map(s).contains_key(k) ==> exists|i: int| 0 <= i < s.len() && s[i].0 == k,
    decreases s.len(),
{
    if s.len() > 0 {
        let p = s.drop_last();
        lemma_client_pairs_map(p);
        assert forall|k: u128| client_pairs_map(s).contains_key(k) implies exists|i: int|
            0 <= i < s.len() && s[i].0 == k by {
            if k != s.last().0 {
                assert(client_pairs_map(s) == client_pairs_map(p).insert(s.last().0, s.last().1));
                assert(client_pairs_map(p).contains_key(k));
                let i = choose|i: int| 0 <= i < p.len() && p[i].0 == k;
                assert(p[i] == s[i]);
                assert(s[i].0 == k);
            } else {
                assert(s[s.len() - 1].0 == k);
            }
        }
        assert forall|i: int| 0 <= i < s.len() implies client_pairs_map(s).contains_key(
            #[trigger] s[i].0,
        ) && client_pairs_map(s)[s[i].0] == s[i].1 by {
            if i < s.len() - 1 {
                assert(p[i] == s[i]);
                assert(s[i].0 != s.last().0);
            }
        }
    }
}

/// A list of pairs with distinct keys builds the map that holds exactly
/// those pairs.
proof fn lemma_addr_pairs_map(s: Seq<(Seq<char>, Seq<char>)>)
    requires
        forall|i: int, j: int| 0 <= i < j < s.len() ==> s[i].0 != s[j].0,
    ensures
        forall|i: int|
            0 <= i < s.len() ==> addr_pairs_map(s).contains_key(#[trigger] s[i].0)
                && addr_pairs_map(s)[s[i].0] == s[i].1,
        forall|k: Seq<char>|
            addr_pairs_map(s).contains_key(k) ==> exists|i: int| 0 <= i < s.len() && s[i].0 == k,
    decreases s.len(),
{
    if s.len() > 0 {
        let p = s.drop_last();
        lemma_addr_pairs_map(p);
        assert forall|k: Seq<char>| addr_pairs_map(s).contains_key(k) implies exists|i: int|
            0 <= i < s.len() && s[i].0 == k by {
            if k != s.last().0 {
                assert(addr_pairs_map(s) == addr_pairs_map(p).insert(s.last().0, s.last().1));
                assert(addr_pairs_map(p).contains_key(k));
                let i = choose|i: int| 0 <= i < p.len() && p[i].0 == k;
                assert(p[i] == s[i]);
                assert(s[i].0 == k);
            } else {
                assert(s[s.len() - 1].0 == k);
            }
        }
        assert forall|i: int| 0 <= i < s.len() implies addr_pairs_map(s).contains_key(
            #[trigger] s[i].0,
        ) && addr_pairs_map(s)[s[i].0] == s[i].1 by {
            if i < s.len() - 1 {
                assert(p[i] == s[i]);
                assert(s[i].0 != s.last().0);
            }
        }
    }
}

/// Importing what a table exports restores its clients, its addresses and
/// its version, and puts the same nodes on the ring (in the order of the
/// export); the importing table keeps its own local node.
pub proof fn lemma_export_import_roundtrip(v: RouteTableView, st: RouteTableState, other: RouteTableView)
    requires
        exports(v, st),
        forall|k: Seq<char>| v.addrs.contains_key(k) <==> v.nodes.contains(k),
    ensures
        imported(other, st).clients == v.clients,
        imported(other, st).addrs == v.addrs,
        imported(other, st).version == v.version,
        imported(other, st).nodes.to_set() == v.nodes.to_set(),
        imported(other, st).local == other.local,
{
    let cs = state_clients(st);
    let ads = state_addrs(st);
    lemma_client_pairs_map(cs);
    lemma_addr_pairs_map(ads);
    lemma_dedup_keys(ads);
    let cm = client_pairs_map(cs);
    let am = addr_pairs_map(ads);
    assert forall|k: u128| cm.contains_key(k) <==> v.clients.contains_key(k) by {
        if v.clients.contains_key(k) {
            let i = choose|i: int| 0 <= i < cs.len() && cs[i].0 == k;
            assert(cm.contains_key(cs[i].0));
        }
        if cm.contains_key(k) {
            let i = choose|i: int| 0 <= i < cs.len() && cs[i].0 == k;
            assert(v.clients.contains_key(cs[i].0));
        }
    }
    assert forall|k: u128| cm.contains_key(k) implies cm[k] == v.clients[k] by {
        let i = choose|i: int| 0 <= i < cs.len() && cs[i].0 == k;
        assert(cm[cs[i].0] == cs[i].1);
        assert(v.clients[cs[i].0] == cs[i].1);
    }
    assert(cm =~= v.clients);
    assert forall|k: Seq<char>| am.contains_key(k) <==> v.addrs.contains_key(k) by {
        if v.addrs.contains_key(k) {
            let i = choose|i: int| 0 <= i < ads.len() && ads[i].0 == k;
            assert(am.contains_key(ads[i].0));
        }
        if am.contains_key(k) {
            let i = choose|i: int| 0 <= i < ads.len() && ads[i].0 == k;
            assert(v.addrs.contains_key(ads[i].0));
        }
    }
    assert forall|k: Seq<char>| am.contains_key(k) implies am[k] == v.addrs[k] by {
        let i = choose|i: int| 0 <= i < ads.len() && ads[i].0 == k;
        assert(am[ads[i].0] == ads[i].1);
        assert(v.addrs[ads[i].0] == ads[i].1);
    }
    assert(am =~= v.addrs);
    assert(imported(other, st).nodes.to_set() =~= v.nodes.to_set());
}

/// After a client is recorded on a node, looking the client up gives that
/// node.
pub proof fn lemma_register_then_lookup(v: RouteTableView, client: u128, node: Seq<char>)
    ensures
        after_register(v, client, node).clients.contains_key(client),
        after_register(v, client, node).clients[client] == node,
{
}

/// After a client is recorded and then forgotten, looking it up finds
/// nothing; every other client is as before.
pub proof fn lemma_register_then_unregister(v: RouteTableView, client: u128, node: Seq<char>)
    ensures
        !after_unregister(after_register(v, client, node), client).clients.contains_key(client),
        after_unregister(after_register(v, client, node), client).clients == v.clients.remove(client),
{
    assert(after_unregister(after_register(v, client, node), client).clients =~= v.clients.remove(client));
}

/// A node that joins and then leaves has neither an address nor a place on
/// the ring.
pub proof fn lemma_add_then_remove(v: RouteTableView, id: Seq<char>, addr: Seq<char>, w: RouteTableView)
    requires
        after_remove_node(after_add_node(v, id, addr), w, id),
    ensures
        !w.addrs.contains_key(id),
        !w.nodes.contains(id),
{
    assert(!w.nodes.to_set().contains(id));
}

/// Every change to the table raises its version by one.
pub proof fn lemma_changes_bump_version(
    v: RouteTableView,
    id: Seq<char>,
    addr: Seq<char>,
    client: u128,
    node: Seq<char>,
)
    requires
        v.version < u64::MAX,
    ensures
        after_add_node(v, id, addr).version == v.version + 1,
        after_register(v, client, node).version == v.version + 1,
        after_unregister(v, client).version == v.version + 1,
{
}

proof fn lemma_dedup_keys(s: Seq<(Seq<char>, Seq<char>)>)
    ensures
        forall|k: Seq<char>|
            addr_pairs_map(s).contains_key(k) <==> dedup(
                s.map_values(|p: (Seq<char>, Seq<char>)| p.0),
            ).contains(k),
    decreases s.len(),
{
    if s.len() > 0 {
        let p = s.drop_last();
        lemma_dedup_keys(p);
        let ks = s.map_values(|p: (Seq<char>, Seq<char>)| p.0);
        let kp = p.map_values(|p: (Seq<char>, Seq<char>)| p.0);
        assert(ks.drop_last() =~= kp);
        let last = ks.last();
        assert(last == s.last().0);
        let d = dedup(kp);
        assert(dedup(ks) == if d.contains(last) { d } else { d.push(last) });
        assert forall|k: Seq<char>|
            addr_pairs_map(s).contains_key(k) <==> dedup(ks).contains(k) by {
            assert(addr_pairs_map(s) == addr_pairs_map(p).insert(last, s.last().1));
            if !d.contains(last) {
                let dd = d.push(last);
                if dd.contains(k) && k != last {
                    let i = choose|i: int| 0 <= i < dd.len() && dd[i] == k;
                    assert(i < d.len());
                    assert(d[i] == k);
                }
                if d.contains(k) {
                    let i = choose|i: int| 0 <= i < d.len() && d[i] == k;
                    assert(dd[i] == k);
                }
                if k == last {
                    assert(dd[d.len() as int] == k);
                }
            }
        }
    }
}

} // verus!
