//! Cluster membership as one node sees it: the peers that joined, the
//! messages this node sends to announce itself, and what each incoming
//! message changes.
//!
//! Listening, connecting and the heartbeat timer belong to the caller, which
//! hands each received message to `handle_message`.

use dashmap::DashMap;
use vstd::prelude::*;

use crate::bridge::maps::{empty_known, known_get, known_insert, known_new, known_nodes};
use crate::cluster::types::{ClusterConfig, ClusterMessage, HeartbeatMessage, NodeId, NodeInfo, NodeInfoView};
use crate::net::{socket_text, SocketAddress};

verus! {

/// The known peers after a message: a join records the joining node under
/// its id, replacing what was known of it; no other message changes them.
pub open spec fn after_message(
    nodes: Map<Seq<char>, NodeInfoView>,
    message: ClusterMessage,
) -> Map<Seq<char>, NodeInfoView> {
    match message {
        ClusterMessage::Join(info) => nodes.insert(info.node_id@, info.view()),
        _ => nodes,
    }
}

/// The key under which a seed is first connected, before its own id is
/// known: `seed-` and the seed's address.
pub open spec fn seed_key_text(addr: SocketAddress) -> Seq<char> {
    "seed-"@ + socket_text(addr)
}

/// The membership state of one node.
pub struct NodeManager {
    config: ClusterConfig,
    nodes: DashMap<String, NodeInfo>,
}

impl NodeManager {
    /// The peers known, by node id.
    pub closed spec fn known(&self) -> Map<Seq<char>, NodeInfoView> {
        known_nodes(self.nodes)
    }

    /// This node's configuration.
    pub closed spec fn config_view(&self) -> ClusterConfig {
        self.config
    }

    /// A node that knows no peer yet.
    pub fn new(config: ClusterConfig) -> (r: Self)
        ensures
            r.known() == empty_known(),
            r.config_view() == config,
    {
        NodeManager { config, nodes: known_new() }
    }

    /// This node's configuration.
    pub fn config(&self) -> (r: &ClusterConfig)
        ensures
            *r == self.config_view(),
    {
        &self.config
    }

    /// Takes a received message into account (see `after_message`).
    pub fn handle_message(&mut self, message: ClusterMessage)
        ensures
            final(self).known() == after_message(old(self).known(), message),
            final(self).config_view() == old(self).config_view(),
    {
        match message {
            ClusterMessage::Join(info) => {
                let id = info.node_id.to_string();
                known_insert(&mut self.nodes, id, info);
            },
            _ => {},
        }
    }

    /// What is known of a peer, if it joined.
    pub fn known_node(&self, node_id: &str) -> (r: Option<NodeInfo>)
        ensures
            match r {
                Some(info) => self.known().contains_key(node_id@) && info.view() == self.known()[node_id@],
                None => !self.known().contains_key(node_id@),
            },
    {
        known_get(&self.nodes, node_id)
    }

    /// The message that announces this node to a seed: its id and the
    /// address it listens on, not yet heard from.
    pub fn join_message(&self) -> (r: ClusterMessage)
        ensures
            r matches ClusterMessage::Join(info) && info.node_id@ == self.config_view().node_id@
                && info.listen_addr == self.config_view().listen_addr && info.last_heartbeat == 0,
    {
        ClusterMessage::Join(NodeInfo::new(NodeId::new(self.config.node_id.as_str()), self.config.listen_addr))
    }

    /// The periodic sign of life, naming this node.
    pub fn heartbeat_message(&self) -> (r: ClusterMessage)
        ensures
            r matches ClusterMessage::Heartbeat(h) && h.leader_id@ == self.config_view().node_id@,
    {
        ClusterMessage::Heartbeat(HeartbeatMessage { leader_id: NodeId::new(self.config.node_id.as_str()) })
    }
}

/// The key under which a seed is first connected (see `seed_key_text`).
pub fn seed_key(addr: &SocketAddress) -> (r: String)
    ensures
        r@ == seed_key_text(*addr),
{
    let mut s = String::from_str("seed-");
    proof {
        reveal_strlit("seed-");
    }
    s.append(addr.to_string().as_str());
    s
}

/// A node that joins is known afterwards, with what it said of itself; a
/// later join of the same node replaces it; other messages leave the known
/// peers as they were.
pub proof fn lemma_join_then_known(
    nodes: Map<Seq<char>, NodeInfoView>,
    info: NodeInfo,
    other: ClusterMessage,
)
    requires
        !(other is Join),
    ensures
        after_message(nodes, ClusterMessage::Join(info)).contains_key(info.node_id@),
        after_message(nodes, ClusterMessage::Join(info))[info.node_id@] == info.view(),
        after_message(after_message(nodes, ClusterMessage::Join(info)), other) == after_message(
            nodes,
            ClusterMessage::Join(info),
        ),
        forall|k: Seq<char>|
            k != info.node_id@ ==> (#[trigger] after_message(nodes, ClusterMessage::Join(info)).contains_key(k)
                <==> nodes.contains_key(k)),
{
}

} // verus!
