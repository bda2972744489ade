//! The environment layer: a variable `REX__SECTION__KEY=value` overrides one
//! field of the configuration. A value that does not parse for its field
//! leaves the field as it was and yields a warning; names that match no
//! field are ignored.

use vstd::prelude::*;
use vstd::utf8::encode_utf8;

use crate::bridge::text::{
    lowercase_text, str_debug, str_debug_string, str_to_lowercase, string_from_chars,
};
use crate::config::error::{error_message, ConfigError};
use crate::config::root::{AckSection, ConfigView, OfflineSection, RexConfig, TracingFormat};
use crate::config::validate::is_invalid_value;
use crate::net::{parse_socket_address, socket_of, SocketAddress};
use crate::text::{
    char_end, chars_of, first_char_at, parse_unsigned, str_equals, trim, trim_bounds, unsigned_of,
};

verus! {

/// The ghost outcome of merging one value into a configuration.
pub ghost enum MergeOutcome {
    /// The field took the value (or the name matched no field).
    Applied(ConfigView),
    /// The value was refused: the offending text and the reason.
    Rejected(Seq<char>, Seq<char>),
}

/// `true`/`1`/`yes` and `false`/`0`/`no`.
pub open spec fn bool_of(t: Seq<char>) -> Option<bool> {
    if t == "true"@ || t == "1"@ || t == "yes"@ {
        Some(true)
    } else if t == "false"@ || t == "0"@ || t == "no"@ {
        Some(false)
    } else {
        None
    }
}

/// A `u64` as `str::parse` reads it.
pub open spec fn u64_of(t: Seq<char>) -> Option<u64> {
    match unsigned_of(encode_utf8(t), u64::MAX as nat) {
        Some(n) => Some(n as u64),
        None => None,
    }
}

/// A `u32` as `str::parse` reads it.
pub open spec fn u32_of(t: Seq<char>) -> Option<u32> {
    match unsigned_of(encode_utf8(t), u32::MAX as nat) {
        Some(n) => Some(n as u32),
        None => None,
    }
}

/// An `ip:port` address.
pub open spec fn address_of(t: Seq<char>) -> Option<SocketAddress> {
    socket_of(encode_utf8(t))
}

/// The end of the first comma-separated piece of `t`.
pub open spec fn piece_end(t: Seq<char>) -> int {
    char_end(t, ',')
}

/// The addresses of a comma-separated list. Each piece is trimmed and empty
/// pieces are skipped; the first piece that is no address is the error.
pub open spec fn seeds_of(t: Seq<char>) -> Result<Seq<SocketAddress>, Seq<char>>
    decreases t.len(),
{
    let i = piece_end(t);
    let p = trim(t.subrange(0, i));
    let head: Result<Seq<SocketAddress>, Seq<char>> = if p.len() == 0 {
        Ok(Seq::empty())
    } else {
        match address_of(p) {
            Some(a) => Ok(seq![a]),
            None => Err(p),
        }
    };
    match head {
        Err(x) => Err(x),
        Ok(h) => if 0 <= i < t.len() {
            match seeds_of(t.subrange(i + 1, t.len() as int)) {
                Ok(l) => Ok(h + l),
                Err(x) => Err(x),
            }
        } else {
            Ok(h)
        },
    }
}

/// What merging `value` into the field `section.key` gives.
pub open spec fn merge_outcome(
    c: ConfigView,
    section: Seq<char>,
    key: Seq<char>,
    value: Seq<char>,
) -> MergeOutcome {
    let not_int = "must be a non-negative integer"@;
    let not_bool = "must be true/false/1/0/yes/no"@;
    let not_addr = "must parse as SocketAddr"@;
    if section == "server"@ && key == "server_id"@ {
        MergeOutcome::Applied(ConfigView { server_id: value, ..c })
    } else if section == "server"@ && key == "shutdown_grace"@ {
        match u64_of(value) {
            Some(n) => MergeOutcome::Applied(ConfigView { shutdown_grace: n, ..c }),
            None => MergeOutcome::Rejected(value, not_int),
        }
    } else if section == "server"@ && key == "check_interval"@ {
        match u64_of(value) {
            Some(n) => MergeOutcome::Applied(ConfigView { check_interval: n, ..c }),
            None => MergeOutcome::Rejected(value, not_int),
        }
    } else if section == "server"@ && key == "client_timeout"@ {
        match u64_of(value) {
            Some(n) => MergeOutcome::Applied(ConfigView { client_timeout: n, ..c }),
            None => MergeOutcome::Rejected(value, not_int),
        }
    } else if section == "cluster"@ && key == "enabled"@ {
        match bool_of(value) {
            Some(b) => MergeOutcome::Applied(ConfigView { cluster_enabled: b, ..c }),
            None => MergeOutcome::Rejected(value, not_bool),
        }
    } else if section == "cluster"@ && key == "cluster_addr"@ {
        match address_of(value) {
            Some(a) => MergeOutcome::Applied(ConfigView { cluster_addr: Some(a), ..c }),
            None => MergeOutcome::Rejected(value, not_addr),
        }
    } else if section == "cluster"@ && key == "node_id"@ {
        MergeOutcome::Applied(ConfigView { node_id: value, ..c })
    } else if section == "cluster"@ && key == "seed_nodes"@ {
        match seeds_of(value) {
            Ok(l) => MergeOutcome::Applied(ConfigView { seed_nodes: l, ..c }),
            Err(p) => MergeOutcome::Rejected(p, "must parse as ip:port"@),
        }
    } else if section == "persistence"@ && key == "enabled"@ {
        match bool_of(value) {
            Some(b) => MergeOutcome::Applied(ConfigView { persistence_enabled: b, ..c }),
            None => MergeOutcome::Rejected(value, not_bool),
        }
    } else if section == "persistence"@ && key == "path"@ {
        MergeOutcome::Applied(ConfigView { persistence_path: value, ..c })
    } else if section == "persistence.offline"@ && key == "enabled"@ {
        match bool_of(value) {
            Some(b) => MergeOutcome::Applied(
                ConfigView { offline: OfflineSection { enabled: b, ..c.offline }, ..c },
            ),
            None => MergeOutcome::Rejected(value, not_bool),
        }
    } else if section == "persistence.offline"@ && key == "ttl_secs"@ {
        match u64_of(value) {
            Some(n) => MergeOutcome::Applied(
                ConfigView { offline: OfflineSection { ttl_secs: n, ..c.offline }, ..c },
            ),
            None => MergeOutcome::Rejected(value, not_int),
        }
    } else if section == "persistence.offline"@ && key == "ghost_ttl_secs"@ {
        match u64_of(value) {
            Some(n) => MergeOutcome::Applied(
                ConfigView { offline: OfflineSection { ghost_ttl_secs: n, ..c.offline }, ..c },
            ),
            None => MergeOutcome::Rejected(value, not_int),
        }
    } else if section == "ack"@ && key == "enabled"@ {
        match bool_of(value) {
            Some(b) => MergeOutcome::Applied(
                ConfigView { ack: AckSection { enabled: b, ..c.ack }, ..c },
            ),
            None => MergeOutcome::Rejected(value, not_bool),
        }
    } else if section == "ack"@ && key == "timeout_ms"@ {
        match u64_of(value) {
            Some(n) => MergeOutcome::Applied(
                ConfigView { ack: AckSection { timeout_ms: n, ..c.ack }, ..c },
            ),
            None => MergeOutcome::Rejected(value, not_int),
        }
    } else if section == "ack"@ && key == "retries"@ {
        match u32_of(value) {
            Some(n) => MergeOutcome::Applied(
                ConfigView { ack: AckSection { retries: n, ..c.ack }, ..c },
            ),
            None => MergeOutcome::Rejected(value, not_int),
        }
    } else if section == "observability"@ && key == "admin_token"@ {
        MergeOutcome::Applied(
            ConfigView {
                admin_token: if value.len() == 0 {
                    None
                } else {
                    Some(value)
                },
                ..c
            },
        )
    } else if section == "observability"@ && key == "admin_addr"@ {
        match address_of(value) {
            Some(a) => MergeOutcome::Applied(ConfigView { admin_addr: a, ..c }),
            None => MergeOutcome::Rejected(value, not_addr),
        }
    } else if section == "observability"@ && key == "tracing_format"@ {
        if value == "pretty"@ {
            MergeOutcome::Applied(ConfigView { tracing_format: TracingFormat::Pretty, ..c })
        } else if value == "json"@ {
            MergeOutcome::Applied(ConfigView { tracing_format: TracingFormat::Json, ..c })
        } else {
            MergeOutcome::Rejected(value, "must be 'pretty' or 'json'"@)
        }
    } else if section == "observability"@ && key == "single_node_cluster_ok"@ {
        match bool_of(value) {
            Some(b) => MergeOutcome::Applied(ConfigView { single_node_cluster_ok: b, ..c }),
            None => MergeOutcome::Rejected(value, not_bool),
        }
    } else {
        MergeOutcome::Applied(c)
    }
}


fn invalid_value(section: &str, key: &str, value: String, reason: &str) -> (e: ConfigError)
    ensures
        is_invalid_value(e, section@, key@, value@, reason@),
{
    ConfigError::InvalidValue {
        section: String::from_str(section),
        key: String::from_str(key),
        value,
        reason: String::from_str(reason),
    }
}

/// Reads `true`/`1`/`yes` or `false`/`0`/`no`; anything else is an invalid
/// value of `section.key`.
pub fn parse_bool(section: &str, key: &str, s: &str) -> (r: Result<bool, ConfigError>)
    ensures
        match bool_of(s@) {
            Some(b) => r matches Ok(x) && x == b,
            None => r matches Err(e) && is_invalid_value(
                e,
                section@,
                key@,
                s@,
                "must be true/false/1/0/yes/no"@,
            ),
        },
{
    if str_equals(s, "true") || str_equals(s, "1") || str_equals(s, "yes") {
        Ok(true)
    } else if str_equals(s, "false") || str_equals(s, "0") || str_equals(s, "no") {
        Ok(false)
    } else {
        Err(invalid_value(section, key, String::from_str(s), "must be true/false/1/0/yes/no"))
    }
}

/// Reads a `u64`; anything else is an invalid value of `section.key`.
pub fn parse_u64(section: &str, key: &str, s: &str) -> (r: Result<u64, ConfigError>)
    ensures
        match u64_of(s@) {
            Some(n) => r matches Ok(x) && x == n,
            None => r matches Err(e) && is_invalid_value(
                e,
                section@,
                key@,
                s@,
                "must be a non-negative integer"@,
            ),
        },
{
    match parse_unsigned(s, u64::MAX) {
        Some(v) => Ok(v),
        None => Err(invalid_value(section, key, String::from_str(s), "must be a non-negative integer")),
    }
}

/// Reads a `u32`; anything else is an invalid value of `section.key`.
pub fn parse_u32(section: &str, key: &str, s: &str) -> (r: Result<u32, ConfigError>)
    ensures
        match u32_of(s@) {
            Some(n) => r matches Ok(x) && x == n,
            None => r matches Err(e) && is_invalid_value(
                e,
                section@,
                key@,
                s@,
                "must be a non-negative integer"@,
            ),
        },
{
    match parse_unsigned(s, u32::MAX as u64) {
        Some(v) => Ok(v as u32),
        None => Err(invalid_value(section, key, String::from_str(s), "must be a non-negative integer")),
    }
}

/// Reads an address from a text.
fn address_from(t: &str) -> (r: Option<SocketAddress>)
    ensures
        r == address_of(t@),
{
    parse_socket_address(t)
}

/// The addresses of the comma-separated list `v[lo..]`.
fn seeds_from(v: &[char], lo: usize) -> (r: Result<Vec<SocketAddress>, String>)
    requires
        lo <= v@.len(),
    ensures
        match seeds_of(v@.subrange(lo as int, v@.len() as int)) {
            Ok(l) => r matches Ok(x) && x@ == l,
            Err(p) => r matches Err(x) && x@ == p,
        },
    decreases v@.len() - lo,
{
    let ghost t = v@.subrange(lo as int, v@.len() as int);
    let mut i = lo;
    while i < v.len() && v[i] != ','
        invariant
            lo <= i <= v@.len(),
            t == v@.subrange(lo as int, v@.len() as int),
            forall|j: int| 0 <= j < i - lo ==> t[j] != ',',
        decreases v@.len() - i,
    {
        i = i + 1;
    }
    proof {
        if i < v@.len() {
            assert(first_char_at(t, ',', i - lo));
            let k = choose|k: int| first_char_at(t, ',', k);
            if k < i - lo {
                assert(t[k] != ',');
            } else if k > i - lo {
                assert(t[i - lo] != ',');
            }
        } else {
            assert forall|k: int| !first_char_at(t, ',', k) by {
                if first_char_at(t, ',', k) {
                    assert(t[k] != ',');
                }
            }
        }
        assert(piece_end(t) == i - lo);
        assert(t.subrange(0, i - lo) =~= v@.subrange(lo as int, i as int));
    }
    let (a, b) = trim_bounds(v, lo, i);
    let mut out: Vec<SocketAddress> = Vec::new();
    if a < b {
        let piece = string_from_chars(&v[a..b]);
        match address_from(piece.as_str()) {
            Some(addr) => {
                out.push(addr);
            },
            None => {
                return Err(piece);
            },
        }
    }
    assert(out@ =~= (if a < b { seq![out@[0]] } else { Seq::empty() }));
    if i < v.len() {
        proof {
            assert(t.subrange(i - lo + 1, t.len() as int) =~= v@.subrange(i + 1, v@.len() as int));
        }
        match seeds_from(v, i + 1) {
            Ok(rest) => {
                let mut rest = rest;
                let ghost head = out@;
                out.append(&mut rest);
                Ok(out)
            },
            Err(p) => Err(p),
        }
    } else {
        Ok(out)
    }
}

/// Reads a comma-separated list of `ip:port` addresses. Pieces are trimmed
/// and empty ones skipped; the first piece that is no address is an invalid
/// value of `section.key`, with that piece as the value.
pub fn parse_seed_nodes(section: &str, key: &str, s: &str) -> (r: Result<
    Vec<SocketAddress>,
    ConfigError,
>)
    ensures
        match seeds_of(s@) {
            Ok(l) => r matches Ok(x) && x@ == l,
            Err(p) => r matches Err(e) && is_invalid_value(
                e,
                section@,
                key@,
                p,
                "must parse as ip:port"@,
            ),
        },
{
    let v = chars_of(s);
    assert(v@.subrange(0, v@.len() as int) =~= s@);
    match seeds_from(v.as_slice(), 0) {
        Ok(l) => Ok(l),
        Err(p) => Err(invalid_value(section, key, p, "must parse as ip:port")),
    }
}


/// A field of the configuration that a variable can set.
pub ghost enum ConfigField {
    ServerId,
    ShutdownGrace,
    CheckInterval,
    ClientTimeout,
    ClusterEnabled,
    ClusterAddr,
    NodeId,
    SeedNodes,
    PersistenceEnabled,
    PersistencePath,
    OfflineEnabled,
    OfflineTtl,
    OfflineGhostTtl,
    AckEnabled,
    AckTimeout,
    AckRetries,
    AdminToken,
    AdminAddr,
    TracingFormat,
    SingleNodeClusterOk,
}

/// The field that `section.key` names in the configuration file, if any.
pub open spec fn field_named(section: Seq<char>, key: Seq<char>) -> Option<ConfigField> {
    if section == "server"@ && key == "server_id"@ {
        Some(ConfigField::ServerId)
    } else if section == "server"@ && key == "shutdown_grace"@ {
        Some(ConfigField::ShutdownGrace)
    } else if section == "server"@ && key == "check_interval"@ {
        Some(ConfigField::CheckInterval)
    } else if section == "server"@ && key == "client_timeout"@ {
        Some(ConfigField::ClientTimeout)
    } else if section == "cluster"@ && key == "enabled"@ {
        Some(ConfigField::ClusterEnabled)
    } else if section == "cluster"@ && key == "cluster_addr"@ {
        Some(ConfigField::ClusterAddr)
    } else if section == "cluster"@ && key == "node_id"@ {
        Some(ConfigField::NodeId)
    } else if section == "cluster"@ && key == "seed_nodes"@ {
        Some(ConfigField::SeedNodes)
    } else if section == "persistence"@ && key == "enabled"@ {
        Some(ConfigField::PersistenceEnabled)
    } else if section == "persistence"@ && key == "path"@ {
        Some(ConfigField::PersistencePath)
    } else if section == "persistence.offline"@ && key == "enabled"@ {
        Some(ConfigField::OfflineEnabled)
    } else if section == "persistence.offline"@ && key == "ttl_secs"@ {
        Some(ConfigField::OfflineTtl)
    } else if section == "persistence.offline"@ && key == "ghost_ttl_secs"@ {
        Some(ConfigField::OfflineGhostTtl)
    } else if section == "ack"@ && key == "enabled"@ {
        Some(ConfigField::AckEnabled)
    } else if section == "ack"@ && key == "timeout_ms"@ {
        Some(ConfigField::AckTimeout)
    } else if section == "ack"@ && key == "retries"@ {
        Some(ConfigField::AckRetries)
    } else if section == "observability"@ && key == "admin_token"@ {
        Some(ConfigField::AdminToken)
    } else if section == "observability"@ && key == "admin_addr"@ {
        Some(ConfigField::AdminAddr)
    } else if section == "observability"@ && key == "tracing_format"@ {
        Some(ConfigField::TracingFormat)
    } else if section == "observability"@ && key == "single_node_cluster_ok"@ {
        Some(ConfigField::SingleNodeClusterOk)
    } else {
        None
    }
}

/// `b` agrees with `a` on every field but `f`.
pub open spec fn only_field_changed(a: ConfigView, b: ConfigView, f: ConfigField) -> bool {
    &&& b.endpoints == a.endpoints
    &&& f != ConfigField::ServerId ==> b.server_id == a.server_id
    &&& f != ConfigField::ShutdownGrace ==> b.shutdown_grace == a.shutdown_grace
    &&& f != ConfigField::CheckInterval ==> b.check_interval == a.check_interval
    &&& f != ConfigField::ClientTimeout ==> b.client_timeout == a.client_timeout
    &&& f != ConfigField::ClusterEnabled ==> b.cluster_enabled == a.cluster_enabled
    &&& f != ConfigField::ClusterAddr ==> b.cluster_addr == a.cluster_addr
    &&& f != ConfigField::NodeId ==> b.node_id == a.node_id
    &&& f != ConfigField::SeedNodes ==> b.seed_nodes == a.seed_nodes
    &&& f != ConfigField::PersistenceEnabled ==> b.persistence_enabled == a.persistence_enabled
    &&& f != ConfigField::PersistencePath ==> b.persistence_path == a.persistence_path
    &&& f != ConfigField::OfflineEnabled ==> b.offline.enabled == a.offline.enabled
    &&& f != ConfigField::OfflineTtl ==> b.offline.ttl_secs == a.offline.ttl_secs
    &&& f != ConfigField::OfflineGhostTtl ==> b.offline.ghost_ttl_secs == a.offline.ghost_ttl_secs
    &&& f != ConfigField::AckEnabled ==> b.ack.enabled == a.ack.enabled
    &&& f != ConfigField::AckTimeout ==> b.ack.timeout_ms == a.ack.timeout_ms
    &&& f != ConfigField::AckRetries ==> b.ack.retries == a.ack.retries
    &&& f != ConfigField::AdminToken ==> b.admin_token == a.admin_token
    &&& f != ConfigField::AdminAddr ==> b.admin_addr == a.admin_addr
    &&& f != ConfigField::TracingFormat ==> b.tracing_format == a.tracing_format
    &&& f != ConfigField::SingleNodeClusterOk ==> b.single_node_cluster_ok
        == a.single_node_cluster_ok
}

/// Field `f` of `b` holds what `value` reads as for that field: the text
/// itself, a number, a flag, an address or a list of addresses; an empty
/// admin token is none.
pub open spec fn field_takes(b: ConfigView, f: ConfigField, value: Seq<char>) -> bool {
    match f {
        ConfigField::ServerId => b.server_id == value,
        ConfigField::ShutdownGrace => u64_of(value) == Some(b.shutdown_grace),
        ConfigField::CheckInterval => u64_of(value) == Some(b.check_interval),
        ConfigField::ClientTimeout => u64_of(value) == Some(b.client_timeout),
        ConfigField::ClusterEnabled => bool_of(value) == Some(b.cluster_enabled),
        ConfigField::ClusterAddr => b.cluster_addr is Some && address_of(value) == b.cluster_addr,
        ConfigField::NodeId => b.node_id == value,
        ConfigField::SeedNodes => seeds_of(value) == Ok::<Seq<SocketAddress>, Seq<char>>(
            b.seed_nodes,
        ),
        ConfigField::PersistenceEnabled => bool_of(value) == Some(b.persistence_enabled),
        ConfigField::PersistencePath => b.persistence_path == value,
        ConfigField::OfflineEnabled => bool_of(value) == Some(b.offline.enabled),
        ConfigField::OfflineTtl => u64_of(value) == Some(b.offline.ttl_secs),
        ConfigField::OfflineGhostTtl => u64_of(value) == Some(b.offline.ghost_ttl_secs),
        ConfigField::AckEnabled => bool_of(value) == Some(b.ack.enabled),
        ConfigField::AckTimeout => u64_of(value) == Some(b.ack.timeout_ms),
        ConfigField::AckRetries => u32_of(value) == Some(b.ack.retries),
        ConfigField::AdminToken => b.admin_token == if value.len() == 0 {
            None
        } else {
            Some(value)
        },
        ConfigField::AdminAddr => address_of(value) == Some(b.admin_addr),
        ConfigField::TracingFormat => (value == "pretty"@ && b.tracing_format
            == TracingFormat::Pretty) || (value == "json"@ && b.tracing_format
            == TracingFormat::Json),
        ConfigField::SingleNodeClusterOk => bool_of(value) == Some(b.single_node_cluster_ok),
    }
}

/// Merging sets the field that `section.key` names and nothing else: when
/// the merge takes the value, that field holds what the value reads as and
/// every other field is as it was; a name that names no field changes
/// nothing.
#[verifier::rlimit(50)]
pub proof fn lemma_merge_sets_the_named_field(
    c: ConfigView,
    section: Seq<char>,
    key: Seq<char>,
    value: Seq<char>,
)
    ensures
        match field_named(section, key) {
            None => merge_outcome(c, section, key, value) == MergeOutcome::Applied(c),
            Some(f) => merge_outcome(c, section, key, value) matches MergeOutcome::Applied(d)
                ==> field_takes(d, f, value) && only_field_changed(c, d, f),
        },
{
    reveal_strlit("server");
    reveal_strlit("cluster");
    reveal_strlit("persistence");
    reveal_strlit("persistence.offline");
    reveal_strlit("ack");
    reveal_strlit("observability");
    reveal_strlit("server_id");
    reveal_strlit("shutdown_grace");
    reveal_strlit("check_interval");
    reveal_strlit("client_timeout");
    reveal_strlit("enabled");
    reveal_strlit("cluster_addr");
    reveal_strlit("node_id");
    reveal_strlit("seed_nodes");
    reveal_strlit("path");
    reveal_strlit("ttl_secs");
    reveal_strlit("ghost_ttl_secs");
    reveal_strlit("timeout_ms");
    reveal_strlit("retries");
    reveal_strlit("admin_token");
    reveal_strlit("admin_addr");
    reveal_strlit("tracing_format");
    reveal_strlit("single_node_cluster_ok");
    if section == "server"@ && key == "server_id"@ {
    } else if section == "server"@ && key == "shutdown_grace"@ {
    } else if section == "server"@ && key == "check_interval"@ {
    } else if section == "server"@ && key == "client_timeout"@ {
    } else if section == "cluster"@ && key == "enabled"@ {
    } else if section == "cluster"@ && key == "cluster_addr"@ {
    } else if section == "cluster"@ && key == "node_id"@ {
    } else if section == "cluster"@ && key == "seed_nodes"@ {
    } else if section == "persistence"@ && key == "enabled"@ {
    } else if section == "persistence"@ && key == "path"@ {
    } else if section == "persistence.offline"@ && key == "enabled"@ {
    } else if section == "persistence.offline"@ && key == "ttl_secs"@ {
    } else if section == "persistence.offline"@ && key == "ghost_ttl_secs"@ {
    } else if section == "ack"@ && key == "enabled"@ {
    } else if section == "ack"@ && key == "timeout_ms"@ {
    } else if section == "ack"@ && key == "retries"@ {
    } else if section == "observability"@ && key == "admin_token"@ {
    } else if section == "observability"@ && key == "admin_addr"@ {
    } else if section == "observability"@ && key == "tracing_format"@ {
    } else if section == "observability"@ && key == "single_node_cluster_ok"@ {
    }
}

/// Merges one value into the field `section.key`. A value that does not
/// parse leaves the configuration as it was; a name that matches no field
/// changes nothing.
pub fn merge_value(cfg: &mut RexConfig, section: &str, key: &str, value: &str) -> (r: Result<
    (),
    ConfigError,
>)
    ensures
        match merge_outcome(old(cfg)@, section@, key@, value@) {
            MergeOutcome::Applied(c) => r is Ok && final(cfg)@ == c,
            MergeOutcome::Rejected(v, reason) => {
                &&& final(cfg)@ == old(cfg)@
                &&& r matches Err(e) && is_invalid_value(e, section@, key@, v, reason)
            },
        },
        match field_named(section@, key@) {
            None => r is Ok && final(cfg)@ == old(cfg)@,
            Some(f) => {
                &&& r is Ok ==> field_takes(final(cfg)@, f, value@) && only_field_changed(
                    old(cfg)@,
                    final(cfg)@,
                    f,
                )
                &&& r is Err ==> final(cfg)@ == old(cfg)@
            },
        },
{
    proof {
        lemma_merge_sets_the_named_field(cfg@, section@, key@, value@);
    }
    let is_server = str_equals(section, "server");
    let is_cluster = str_equals(section, "cluster");
    let is_persistence = str_equals(section, "persistence");
    let is_offline = str_equals(section, "persistence.offline");
    let is_ack = str_equals(section, "ack");
    let is_obs = str_equals(section, "observability");
    if is_server && str_equals(key, "server_id") {
        cfg.server.server_id = String::from_str(value);
    } else if is_server && str_equals(key, "shutdown_grace") {
        cfg.server.shutdown_grace = parse_u64(section, key, value)?;
    } else if is_server && str_equals(key, "check_interval") {
        cfg.server.check_interval = parse_u64(section, key, value)?;
    } else if is_server && str_equals(key, "client_timeout") {
        cfg.server.client_timeout = parse_u64(section, key, value)?;
    } else if is_cluster && str_equals(key, "enabled") {
        cfg.cluster.enabled = parse_bool(section, key, value)?;
    } else if is_cluster && str_equals(key, "cluster_addr") {
        match address_from(value) {
            Some(a) => {
                cfg.cluster.cluster_addr = Some(a);
            },
            None => {
                return Err(
                    invalid_value(
                        section,
                        key,
                        String::from_str(value),
                        "must parse as SocketAddr",
                    ),
                );
            },
        }
    } else if is_cluster && str_equals(key, "node_id") {
        cfg.cluster.node_id = String::from_str(value);
    } else if is_cluster && str_equals(key, "seed_nodes") {
        cfg.cluster.seed_nodes = parse_seed_nodes(section, key, value)?;
    } else if is_persistence && str_equals(key, "enabled") {
        cfg.persistence.enabled = parse_bool(section, key, value)?;
    } else if is_persistence && str_equals(key, "path") {
        cfg.persistence.path = String::from_str(value);
    } else if is_offline && str_equals(key, "enabled") {
        cfg.persistence.offline.enabled = parse_bool(section, key, value)?;
    } else if is_offline && str_equals(key, "ttl_secs") {
        cfg.persistence.offline.ttl_secs = parse_u64(section, key, value)?;
    } else if is_offline && str_equals(key, "ghost_ttl_secs") {
        cfg.persistence.offline.ghost_ttl_secs = parse_u64(section, key, value)?;
    } else if is_ack && str_equals(key, "enabled") {
        cfg.ack.enabled = parse_bool(section, key, value)?;
    } else if is_ack && str_equals(key, "timeout_ms") {
        cfg.ack.timeout_ms = parse_u64(section, key, value)?;
    } else if is_ack && str_equals(key, "retries") {
        cfg.ack.retries = parse_u32(section, key, value)?;
    } else if is_obs && str_equals(key, "admin_token") {
        cfg.observability.admin_token = if value.is_empty() {
            None
        } else {
            Some(String::from_str(value))
        };
    } else if is_obs && str_equals(key, "admin_addr") {
        match address_from(value) {
            Some(a) => {
                cfg.observability.admin_addr = a;
            },
            None => {
                return Err(
                    invalid_value(
                        section,
                        key,
                        String::from_str(value),
                        "must parse as SocketAddr",
                    ),
                );
            },
        }
    } else if is_obs && str_equals(key, "tracing_format") {
        if str_equals(value, "pretty") {
            cfg.observability.tracing_format = TracingFormat::Pretty;
        } else if str_equals(value, "json") {
            cfg.observability.tracing_format = TracingFormat::Json;
        } else {
            return Err(
                invalid_value(section, key, String::from_str(value), "must be 'pretty' or 'json'"),
            );
        }
    } else if is_obs && str_equals(key, "single_node_cluster_ok") {
        cfg.observability.single_node_cluster_ok = parse_bool(section, key, value)?;
    }
    Ok(())
}


/// A `__` separator starts at `i`.
pub open spec fn sep_at(t: Seq<char>, i: int) -> bool {
    0 <= i && i + 1 < t.len() && t[i] == '_' && t[i + 1] == '_'
}

/// `i` is where the first `__` starts.
pub open spec fn first_sep_at(t: Seq<char>, i: int) -> bool {
    sep_at(t, i) && forall|j: int| 0 <= j < i ==> !sep_at(t, j)
}

/// The text before and after the first `__`, if there is one.
pub open spec fn split_sep(t: Seq<char>) -> Option<(Seq<char>, Seq<char>)> {
    if exists|i: int| first_sep_at(t, i) {
        let i = choose|i: int| first_sep_at(t, i);
        Some((t.subrange(0, i), t.subrange(i + 2, t.len() as int)))
    } else {
        None
    }
}

/// The field that a variable name `REX__SECTION__KEY[__...]` addresses, in
/// lowercase; `None` for any other name.
pub open spec fn env_target(name: Seq<char>) -> Option<(Seq<char>, Seq<char>)> {
    if name.len() >= 5 && name.subrange(0, 5) == "REX__"@ {
        match split_sep(name.subrange(5, name.len() as int)) {
            None => None,
            Some((section, after)) => {
                let key = match split_sep(after) {
                    Some((k, _)) => k,
                    None => after,
                };
                Some((lowercase_text(section), lowercase_text(key)))
            },
        }
    } else {
        None
    }
}

/// The warning for a refused variable.
pub open spec fn warning_text(
    section: Seq<char>,
    key: Seq<char>,
    raw: Seq<char>,
    value: Seq<char>,
    reason: Seq<char>,
) -> Seq<char> {
    "env REX__"@ + section + "__"@ + key + "="@ + str_debug(raw) + ": "@ + ("invalid value at "@
        + section + "."@ + key + ": "@ + str_debug(value) + " ("@ + reason + ")"@)
}

/// The configuration and warnings after one variable.
pub open spec fn env_step(
    c: ConfigView,
    w: Seq<Seq<char>>,
    var: (Seq<char>, Seq<char>),
) -> (ConfigView, Seq<Seq<char>>) {
    match env_target(var.0) {
        None => (c, w),
        Some((section, key)) => match merge_outcome(c, section, key, var.1) {
            MergeOutcome::Applied(c2) => (c2, w),
            MergeOutcome::Rejected(v, reason) => (
                c,
                w.push(warning_text(section, key, var.1, v, reason)),
            ),
        },
    }
}

/// The configuration and warnings after the variables, in order.
pub open spec fn env_result(c: ConfigView, vars: Seq<(Seq<char>, Seq<char>)>) -> (
    ConfigView,
    Seq<Seq<char>>,
)
    decreases vars.len(),
{
    if vars.len() == 0 {
        (c, Seq::empty())
    } else {
        let p = env_result(c, vars.drop_last());
        env_step(p.0, p.1, vars.last())
    }
}

/// Variables whose names do not begin with `REX__` change nothing in the
/// configuration and raise no warning, whatever their values.
pub proof fn lemma_foreign_vars_ignored(c: ConfigView, vars: Seq<(Seq<char>, Seq<char>)>)
    requires
        forall|i: int|
            0 <= i < vars.len() ==> !((#[trigger] vars[i]).0.len() >= 5 && vars[i].0.subrange(0, 5)
                == "REX__"@),
    ensures
        env_result(c, vars) == (c, Seq::<Seq<char>>::empty()),
    decreases vars.len(),
{
    if vars.len() > 0 {
        lemma_foreign_vars_ignored(c, vars.drop_last());
        assert(env_target(vars.last().0) is None) by {
            assert(vars.last() == vars[vars.len() - 1]);
        }
    }
}

/// The texts of name/value pairs.
pub open spec fn pair_texts(vars: Seq<(String, String)>) -> Seq<(Seq<char>, Seq<char>)> {
    vars.map_values(|p: (String, String)| (p.0@, p.1@))
}

/// The texts of strings.
pub open spec fn texts(v: Seq<String>) -> Seq<Seq<char>> {
    v.map_values(|s: String| s@)
}

/// The first `__` in `v[lo..]`, as a position in `v`.
fn find_sep(v: &[char], lo: usize) -> (r: Option<usize>)
    requires
        lo <= v@.len(),
    ensures
        match r {
            Some(i) => lo <= i && first_sep_at(v@.subrange(lo as int, v@.len() as int), i - lo),
            None => split_sep(v@.subrange(lo as int, v@.len() as int)) is None,
        },
{
    let ghost t = v@.subrange(lo as int, v@.len() as int);
    let mut i = lo;
    while i < v.len() && i + 1 < v.len()
        invariant
            lo <= i <= v@.len(),
            t == v@.subrange(lo as int, v@.len() as int),
            forall|j: int| 0 <= j < i - lo ==> !sep_at(t, j),
        decreases v@.len() - i,
    {
        if v[i] == '_' && v[i + 1] == '_' {
            assert(first_sep_at(t, i - lo));
            return Some(i);
        }
        i = i + 1;
    }
    assert forall|k: int| !first_sep_at(t, k) by {
        if first_sep_at(t, k) && k >= i - lo {
            assert(k + 1 < t.len());
        }
    }
    None
}

proof fn lemma_split_sep_at(t: Seq<char>, i: int)
    requires
        first_sep_at(t, i),
    ensures
        split_sep(t) == Some((t.subrange(0, i), t.subrange(i + 2, t.len() as int))),
{
    let k = choose|k: int| first_sep_at(t, k);
    if k < i {
        assert(!sep_at(t, k));
    } else if i < k {
        assert(!sep_at(t, i));
    }
}

/// The field that a variable name addresses: `REX__SECTION__KEY`, lowered.
pub fn env_target_of(name: &str) -> (r: Option<(String, String)>)
    ensures
        match env_target(name@) {
            Some((section, key)) => r matches Some(p) && p.0@ == section && p.1@ == key,
            None => r is None,
        },
{
    let v = chars_of(name);
    proof {
        reveal_strlit("REX__");
    }
    if v.len() < 5 {
        return None;
    }
    if v[0] != 'R' || v[1] != 'E' || v[2] != 'X' || v[3] != '_' || v[4] != '_' {
        let ghost p = v@.subrange(0, 5);
        assert(p[0] == v@[0] && p[1] == v@[1] && p[2] == v@[2] && p[3] == v@[3] && p[4] == v@[4]);
        assert(p != "REX__"@);
        return None;
    }
    assert(v@.subrange(0, 5) =~= "REX__"@);
    let ghost rest = v@.subrange(5, v@.len() as int);
    let i = match find_sep(v.as_slice(), 5) {
        Some(i) => i,
        None => {
            return None;
        },
    };
    proof {
        lemma_split_sep_at(rest, i - 5);
        assert(rest.subrange(0, i - 5) =~= v@.subrange(5, i as int));
        assert(rest.subrange(i - 5 + 2, rest.len() as int) =~= v@.subrange(i + 2, v@.len() as int));
    }
    let ghost after = v@.subrange(i + 2, v@.len() as int);
    let end = match find_sep(v.as_slice(), i + 2) {
        Some(k) => {
            proof {
                lemma_split_sep_at(after, k - i - 2);
                assert(after.subrange(0, k - i - 2) =~= v@.subrange(i + 2, k as int));
            }
            k
        },
        None => v.len(),
    };
    let section = string_from_chars(&v.as_slice()[5..i]);
    let key = string_from_chars(&v.as_slice()[i + 2..end]);
    Some((str_to_lowercase(section.as_str()), str_to_lowercase(key.as_str())))
}

/// Applies `REX__SECTION__KEY=value` variables, in order, to a
/// configuration. Returns the result and one warning per refused value.
pub fn apply_env_vars(cfg: RexConfig, vars: &[(String, String)]) -> (r: (RexConfig, Vec<String>))
    ensures
        ({
            let (c, w) = env_result(cfg@, pair_texts(vars@));
            r.0@ == c && texts(r.1@) == w
        }),
{
    let mut cfg = cfg;
    let ghost c0 = cfg@;
    let mut warnings: Vec<String> = Vec::new();
    let mut i: usize = 0;
    while i < vars.len()
        invariant
            i <= vars@.len(),
            ({
                let (c, w) = env_result(c0, pair_texts(vars@).take(i as int));
                cfg@ == c && texts(warnings@) == w
            }),
        decreases vars@.len() - i,
    {
        let ghost before = pair_texts(vars@).take(i as int);
        proof {
            assert(pair_texts(vars@).take(i + 1).drop_last() =~= before);
            assert(pair_texts(vars@)[i as int] == (vars@[i as int].0@, vars@[i as int].1@));
        }
        let (raw_key, raw_val) = (&vars[i].0, &vars[i].1);
        match env_target_of(raw_key.as_str()) {
            None => {},
            Some((section, key)) => {
                let ghost old_w = warnings@;
                match merge_value(&mut cfg, section.as_str(), key.as_str(), raw_val.as_str()) {
                    Ok(()) => {},
                    Err(e) => {
                        let mut w = String::from_str("env REX__");
                        w.append(section.as_str());
                        w.append("__");
                        w.append(key.as_str());
                        w.append("=");
                        w.append(str_debug_string(raw_val.as_str()).as_str());
                        w.append(": ");
                        w.append(e.to_string().as_str());
                        warnings.push(w);
                        proof {
                            assert(texts(warnings@) =~= texts(old_w).push(w@));
                        }
                    },
                }
            },
        }
        i = i + 1;
    }
    assert(pair_texts(vars@).take(vars@.len() as int) =~= pair_texts(vars@));
    (cfg, warnings)
}

} // verus!
