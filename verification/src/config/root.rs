//! The configuration schema and its defaults.

use vstd::prelude::*;

use crate::net::{IpAddress, SocketAddress};
use crate::protocol::Protocol;

verus! {

/// The whole configuration of a broker.
#[derive(Debug, Clone)]
pub struct RexConfig {
    pub server: ServerSection,
    pub endpoints: Vec<EndpointConfig>,
    pub cluster: ClusterSection,
    pub persistence: PersistenceSection,
    pub ack: AckSection,
    pub observability: ObservabilityConfig,
}

/// `[server]`: identity and timing of the broker.
#[derive(Debug, Clone)]
pub struct ServerSection {
    pub server_id: String,
    pub shutdown_grace: u64,
    pub check_interval: u64,
    pub client_timeout: u64,
}

/// `[[endpoints]]`: one listening socket.
#[derive(Debug, Clone, Copy, PartialEq, Eq, Structural)]
pub struct EndpointConfig {
    pub protocol: Protocol,
    pub address: SocketAddress,
    pub enabled: bool,
    pub max_buffer_size: usize,
    pub max_concurrent_handlers: usize,
}

/// `[cluster]`: membership of a broker cluster.
#[derive(Debug, Clone)]
pub struct ClusterSection {
    pub enabled: bool,
    pub cluster_addr: Option<SocketAddress>,
    pub node_id: String,
    pub seed_nodes: Vec<SocketAddress>,
}

/// `[persistence]`: on-disk storage.
#[derive(Debug, Clone)]
pub struct PersistenceSection {
    pub enabled: bool,
    pub path: String,
    pub offline: OfflineSection,
}

/// `[persistence.offline]`: messages kept for clients that are away.
#[derive(Debug, Clone, Copy, PartialEq, Eq, Structural)]
pub struct OfflineSection {
    pub enabled: bool,
    pub ttl_secs: u64,
    pub ghost_ttl_secs: u64,
}

/// `[ack]`: delivery acknowledgements.
#[derive(Debug, Clone, Copy, PartialEq, Eq, Structural)]
pub struct AckSection {
    pub enabled: bool,
    pub timeout_ms: u64,
    pub retries: u32,
}

/// How log records are written.
#[derive(Debug, Clone, Copy, PartialEq, Eq, Structural)]
pub enum TracingFormat {
    Pretty,
    Json,
}

/// `[observability]`: the admin server and logging.
#[derive(Debug, Clone)]
pub struct ObservabilityConfig {
    pub admin_addr: SocketAddress,
    pub admin_token: Option<String>,
    pub tracing_format: TracingFormat,
    pub single_node_cluster_ok: bool,
}

/// A configuration as plain values: each field of each section.
#[verifier::ext_equal]
pub ghost struct ConfigView {
    pub server_id: Seq<char>,
    pub shutdown_grace: u64,
    pub check_interval: u64,
    pub client_timeout: u64,
    pub endpoints: Seq<EndpointConfig>,
    pub cluster_enabled: bool,
    pub cluster_addr: Option<SocketAddress>,
    pub node_id: Seq<char>,
    pub seed_nodes: Seq<SocketAddress>,
    pub persistence_enabled: bool,
    pub persistence_path: Seq<char>,
    pub offline: OfflineSection,
    pub ack: AckSection,
    pub admin_addr: SocketAddress,
    pub admin_token: Option<Seq<char>>,
    pub tracing_format: TracingFormat,
    pub single_node_cluster_ok: bool,
}

/// The text of an optional string.
pub open spec fn opt_text(s: Option<String>) -> Option<Seq<char>> {
    match s {
        Some(t) => Some(t@),
        None => None,
    }
}

impl View for RexConfig {
    type V = ConfigView;

    open spec fn view(&self) -> ConfigView {
        ConfigView {
            server_id: self.server.server_id@,
            shutdown_grace: self.server.shutdown_grace,
            check_interval: self.server.check_interval,
            client_timeout: self.server.client_timeout,
            endpoints: self.endpoints@,
            cluster_enabled: self.cluster.enabled,
            cluster_addr: self.cluster.cluster_addr,
            node_id: self.cluster.node_id@,
            seed_nodes: self.cluster.seed_nodes@,
            persistence_enabled: self.persistence.enabled,
            persistence_path: self.persistence.path@,
            offline: self.persistence.offline,
            ack: self.ack,
            admin_addr: self.observability.admin_addr,
            admin_token: opt_text(self.observability.admin_token),
            tracing_format: self.observability.tracing_format,
            single_node_cluster_ok: self.observability.single_node_cluster_ok,
        }
    }
}

/// Default `[server].shutdown_grace`, in seconds.
pub fn default_shutdown_grace() -> (r: u64)
    ensures
        r == 10,
{
    10
}

/// Default `[server].check_interval`, in seconds.
pub fn default_check_interval() -> (r: u64)
    ensures
        r == 15,
{
    15
}

/// Default `[server].client_timeout`, in seconds.
pub fn default_client_timeout() -> (r: u64)
    ensures
        r == 45,
{
    45
}

/// Default `enabled` of an endpoint.
pub fn default_enabled() -> (r: bool)
    ensures
        r,
{
    true
}

/// Default buffer size of an endpoint: 8 MiB.
pub fn default_max_buffer_size() -> (r: usize)
    ensures
        r == 8 * 1024 * 1024,
{
    8 * 1024 * 1024
}

/// Default number of concurrent handlers of an endpoint.
pub fn default_max_concurrent_handlers() -> (r: usize)
    ensures
        r == 1000,
{
    1000
}

/// Default `[cluster].node_id`: chosen at start-up.
pub fn default_node_id() -> (r: String)
    ensures
        r@ == "auto"@,
{
    String::from_str("auto")
}

/// The value `true`, the default of several switches.
pub fn default_true() -> (r: bool)
    ensures
        r,
{
    true
}

/// Default `[persistence].path`.
pub fn default_persistence_path() -> (r: String)
    ensures
        r@ == "./.rex_sled"@,
{
    String::from_str("./.rex_sled")
}

/// Default `[persistence.offline].ttl_secs`: seven days.
pub fn default_offline_ttl() -> (r: u64)
    ensures
        r == 7 * 86_400,
{
    7 * 86_400
}

/// Default `[persistence.offline].ghost_ttl_secs`: one day.
pub fn default_ghost_ttl() -> (r: u64)
    ensures
        r == 86_400,
{
    86_400
}

/// Default `[ack].timeout_ms`.
pub fn default_ack_timeout() -> (r: u64)
    ensures
        r == 5_000,
{
    5_000
}

/// Default `[ack].retries`.
pub fn default_ack_retries() -> (r: u32)
    ensures
        r == 3,
{
    3
}

/// An endpoint on all interfaces with the default limits.
pub open spec fn default_endpoint_spec(protocol: Protocol, port: u16) -> EndpointConfig {
    EndpointConfig {
        protocol,
        address: SocketAddress { ip: IpAddress::V4(0, 0, 0, 0), port, scope_id: 0 },
        enabled: true,
        max_buffer_size: 8_388_608usize,
        max_concurrent_handlers: 1000usize,
    }
}

/// An enabled endpoint listening on `0.0.0.0:port`.
pub fn default_endpoint(protocol: Protocol, port: u16) -> (r: EndpointConfig)
    ensures
        r == default_endpoint_spec(protocol, port),
{
    EndpointConfig {
        protocol,
        address: SocketAddress::v4(0, 0, 0, 0, port),
        enabled: true,
        max_buffer_size: 8 * 1024 * 1024,
        max_concurrent_handlers: 1000,
    }
}

/// The default admin address: `127.0.0.1:9090`.
pub open spec fn default_admin_addr() -> SocketAddress {
    SocketAddress { ip: IpAddress::V4(127, 0, 0, 1), port: 9090, scope_id: 0 }
}

/// The defaults of `[observability]`.
pub open spec fn is_default_observability(o: ObservabilityConfig) -> bool {
    &&& o.admin_addr == default_admin_addr()
    &&& o.admin_token is None
    &&& o.tracing_format == TracingFormat::Pretty
    &&& o.single_node_cluster_ok
}

impl Default for ObservabilityConfig {
    fn default() -> (r: Self)
        ensures
            is_default_observability(r),
    {
        ObservabilityConfig {
            admin_addr: SocketAddress::v4(127, 0, 0, 1, 9090),
            admin_token: None,
            tracing_format: TracingFormat::Pretty,
            single_node_cluster_ok: true,
        }
    }
}

impl Default for OfflineSection {
    /// All zero: what an absent `[persistence.offline]` table reads as.
    fn default() -> (r: Self)
        ensures
            r == (OfflineSection { enabled: false, ttl_secs: 0, ghost_ttl_secs: 0 }),
    {
        OfflineSection { enabled: false, ttl_secs: 0, ghost_ttl_secs: 0 }
    }
}

/// The documented default configuration.
pub open spec fn default_view() -> ConfigView {
    ConfigView {
        server_id: "rex-server"@,
        shutdown_grace: 10,
        check_interval: 15,
        client_timeout: 45,
        endpoints: seq![
            default_endpoint_spec(Protocol::Tcp, 8881),
            default_endpoint_spec(Protocol::Quic, 8882),
            default_endpoint_spec(Protocol::WebSocket, 8883),
        ],
        cluster_enabled: false,
        cluster_addr: Some(SocketAddress { ip: IpAddress::V4(0, 0, 0, 0), port: 19882, scope_id: 0 }),
        node_id: "auto"@,
        seed_nodes: Seq::empty(),
        persistence_enabled: true,
        persistence_path: "./.rex_sled"@,
        offline: OfflineSection { enabled: true, ttl_secs: 604_800, ghost_ttl_secs: 86_400 },
        ack: AckSection { enabled: false, timeout_ms: 5_000, retries: 3 },
        admin_addr: default_admin_addr(),
        admin_token: None,
        tracing_format: TracingFormat::Pretty,
        single_node_cluster_ok: true,
    }
}

impl Default for RexConfig {
    fn default() -> (r: Self)
        ensures
            r@ == default_view(),
    {
        let endpoints = vec![
            default_endpoint(Protocol::Tcp, 8_881),
            default_endpoint(Protocol::Quic, 8_882),
            default_endpoint(Protocol::WebSocket, 8_883),
        ];
        RexConfig {
            server: ServerSection {
                server_id: String::from_str("rex-server"),
                shutdown_grace: 10,
                check_interval: 15,
                client_timeout: 45,
            },
            endpoints,
            cluster: ClusterSection {
                enabled: false,
                cluster_addr: Some(SocketAddress::v4(0, 0, 0, 0, 19_882)),
                node_id: String::from_str("auto"),
                seed_nodes: Vec::new(),
            },
            persistence: PersistenceSection {
                enabled: true,
                path: String::from_str("./.rex_sled"),
                offline: OfflineSection { enabled: true, ttl_secs: 7 * 86_400, ghost_ttl_secs: 86_400 },
            },
            ack: AckSection { enabled: false, timeout_ms: 5_000, retries: 3 },
            observability: ObservabilityConfig::default(),
        }
    }
}

} // verus!
