//! The values that cluster nodes exchange and keep about each other.

use vstd::prelude::*;

use crate::bridge::random::random_u128;
use crate::net::SocketAddress;
use crate::text::{decimal_string_u128, decimal_text};

verus! {

/// The identifier of a cluster node.
#[derive(Debug, Clone, PartialEq, Eq, Hash)]
pub struct NodeId(pub String);

impl View for NodeId {
    type V = Seq<char>;

    open spec fn view(&self) -> Seq<char> {
        self.0@
    }
}

impl NodeId {
    /// A node id with the given text.
    pub fn new(id: &str) -> (r: NodeId)
        ensures
            r@ == id@,
    {
        NodeId(String::from_str(id))
    }

    /// The text of the id.
    pub fn as_str(&self) -> (r: &str)
        ensures
            r@ == self@,
    {
        self.0.as_str()
    }

    /// The text of the id, owned.
    pub fn to_string(&self) -> (r: String)
        ensures
            r@ == self@,
    {
        self.0.clone()
    }
}

impl From<String> for NodeId {
    fn from(s: String) -> (r: NodeId) {
        NodeId(s)
    }
}

impl vstd::std_specs::convert::FromSpecImpl<String> for NodeId {
    open spec fn obeys_from_spec() -> bool {
        true
    }

    open spec fn from_spec(s: String) -> NodeId {
        NodeId(s)
    }
}

/// What a node knows of another node.
#[derive(Debug, Clone)]
pub struct NodeInfo {
    pub node_id: NodeId,
    pub listen_addr: SocketAddress,
    /// Last heartbeat, in milliseconds since the Unix epoch.
    pub last_heartbeat: u64,
}

/// What is known of a node, as plain values.
pub ghost struct NodeInfoView {
    pub node_id: Seq<char>,
    pub listen_addr: SocketAddress,
    pub last_heartbeat: u64,
}

impl NodeInfo {
    /// The record as plain values.
    pub open spec fn view(&self) -> NodeInfoView {
        NodeInfoView {
            node_id: self.node_id@,
            listen_addr: self.listen_addr,
            last_heartbeat: self.last_heartbeat,
        }
    }

    /// A node not yet heard from.
    pub fn new(node_id: NodeId, listen_addr: SocketAddress) -> (r: NodeInfo)
        ensures
            r.node_id == node_id,
            r.listen_addr == listen_addr,
            r.last_heartbeat == 0,
    {
        NodeInfo { node_id, listen_addr, last_heartbeat: 0 }
    }
}

/// How a node takes part in a cluster.
#[derive(Debug, Clone)]
pub struct ClusterConfig {
    pub enabled: bool,
    pub node_id: NodeId,
    pub listen_addr: SocketAddress,
    pub seed_nodes: Vec<SocketAddress>,
    pub communication_timeout_ms: u64,
    pub heartbeat_interval_ms: u64,
    pub max_retries: u32,
}

/// `127.0.0.1:0`: the loopback address, any port.
pub open spec fn loopback_any() -> SocketAddress {
    SocketAddress { ip: crate::net::IpAddress::V4(127, 0, 0, 1), port: 0, scope_id: 0 }
}

/// The defaults of every field but the node id.
pub open spec fn default_cluster_fields(c: ClusterConfig) -> bool {
    &&& !c.enabled
    &&& c.listen_addr == loopback_any()
    &&& c.seed_nodes@.len() == 0
    &&& c.communication_timeout_ms == 1000
    &&& c.heartbeat_interval_ms == 1000
    &&& c.max_retries == 3
}

impl Default for ClusterConfig {
    /// Cluster mode off, a random decimal node id, loopback with any port.
    fn default() -> (r: Self)
        ensures
            default_cluster_fields(r),
            exists|n: u128| r.node_id@ == decimal_text(n as nat),
    {
        let n = random_u128();
        ClusterConfig {
            enabled: false,
            node_id: NodeId(decimal_string_u128(n)),
            listen_addr: SocketAddress::v4(127, 0, 0, 1, 0),
            seed_nodes: Vec::new(),
            communication_timeout_ms: 1000,
            heartbeat_interval_ms: 1000,
            max_retries: 3,
        }
    }
}

impl ClusterConfig {
    /// Cluster mode on for this node, the other fields at their defaults.
    pub fn new(node_id: NodeId, listen_addr: SocketAddress) -> (r: Self)
        ensures
            r.enabled,
            r.node_id == node_id,
            r.listen_addr == listen_addr,
            r.seed_nodes@.len() == 0,
            r.communication_timeout_ms == 1000,
            r.heartbeat_interval_ms == 1000,
            r.max_retries == 3,
    {
        ClusterConfig {
            enabled: true,
            node_id,
            listen_addr,
            seed_nodes: Vec::new(),
            communication_timeout_ms: 1000,
            heartbeat_interval_ms: 1000,
            max_retries: 3,
        }
    }

    /// Replaces the seed nodes.
    pub fn with_seed_nodes(self, seeds: Vec<SocketAddress>) -> (r: Self)
        ensures
            r.seed_nodes@ == seeds@,
            r.enabled == self.enabled,
            r.node_id == self.node_id,
            r.listen_addr == self.listen_addr,
            r.communication_timeout_ms == self.communication_timeout_ms,
            r.heartbeat_interval_ms == self.heartbeat_interval_ms,
            r.max_retries == self.max_retries,
    {
        let mut s = self;
        s.seed_nodes = seeds;
        s
    }

    /// Replaces the heartbeat interval.
    pub fn with_heartbeat_interval(self, ms: u64) -> (r: Self)
        ensures
            r.heartbeat_interval_ms == ms,
            r.seed_nodes@ == self.seed_nodes@,
            r.enabled == self.enabled,
            r.node_id == self.node_id,
            r.listen_addr == self.listen_addr,
            r.communication_timeout_ms == self.communication_timeout_ms,
            r.max_retries == self.max_retries,
    {
        let mut s = self;
        s.heartbeat_interval_ms = ms;
        s
    }
}

/// The messages that nodes send each other.
#[derive(Debug, Clone)]
pub enum ClusterMessage {
    /// A node asks to join; it describes itself.
    Join(NodeInfo),
    /// The known nodes, in answer to a join.
    NodeList(Vec<NodeInfo>),
    /// A periodic sign of life.
    Heartbeat(HeartbeatMessage),
    /// A message for a client on another node.
    Forward(ForwardMessage),
    /// The outcome of a forward.
    ForwardAck(ForwardAckMessage),
    /// A health probe.
    Ping(PingMessage),
    /// A title was registered on a node.
    TitleRegister(TitleRegisterMessage),
    /// A title was unregistered on a node.
    TitleUnregister(TitleUnregisterMessage),
}

/// A periodic sign of life from the sending node.
#[derive(Debug, Clone)]
pub struct HeartbeatMessage {
    pub leader_id: NodeId,
}

/// A health probe, stamped for round-trip measurement.
#[derive(Debug, Clone)]
pub struct PingMessage {
    pub node_id: String,
    pub timestamp: u64,
}

/// A message handed to another node for delivery.
#[derive(Debug, Clone)]
pub struct ForwardMessage {
    pub forward_id: u64,
    pub original_source: u128,
    pub target_client_id: u128,
    pub title: String,
    pub payload: Vec<u8>,
    pub is_group: bool,
    pub is_broadcast: bool,
    pub require_ack: bool,
}

/// The receiving node's answer to a forward.
#[derive(Debug, Clone)]
pub struct ForwardAckMessage {
    pub forward_id: u64,
    pub from_node_id: String,
    pub original_source: u128,
    pub success: bool,
    pub error: Option<String>,
}

/// A title registered on a node.
#[derive(Debug, Clone)]
pub struct TitleRegisterMessage {
    pub node_id: String,
    pub title: String,
    pub client_id: u128,
}

/// A title unregistered on a node.
#[derive(Debug, Clone)]
pub struct TitleUnregisterMessage {
    pub node_id: String,
    pub title: String,
}

} // verus!
