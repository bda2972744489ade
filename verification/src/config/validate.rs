//! The rules that a configuration must satisfy before a broker starts.
//!
//! The rules are checked section by section, in a fixed order, and the first
//! one broken is reported.

use vstd::prelude::*;
use vstd::utf8::encode_utf8;

use crate::config::error::ConfigError;
use crate::config::root::{ConfigView, EndpointConfig, RexConfig};
use crate::net::socket_text;
use crate::text::{contains_char, decimal_string, decimal_text};

verus! {

/// Length of a text in UTF-8 bytes, as `str::len` counts it.
pub open spec fn utf8_len(s: Seq<char>) -> nat {
    encode_utf8(s).len()
}

/// `e` is `InvalidValue` with exactly these parts.
pub open spec fn is_invalid_value(
    e: ConfigError,
    section: Seq<char>,
    key: Seq<char>,
    value: Seq<char>,
    reason: Seq<char>,
) -> bool {
    e matches ConfigError::InvalidValue { section: s, key: k, value: v, reason: r } && s@ == section
        && k@ == key && v@ == value && r@ == reason
}

/// `e` is `Semantic` with exactly this message.
pub open spec fn is_semantic(e: ConfigError, m: Seq<char>) -> bool {
    e matches ConfigError::Semantic(x) && x@ == m
}

/// `e` is `MissingRequired` with exactly these parts.
pub open spec fn is_missing_required(e: ConfigError, section: Seq<char>, key: Seq<char>) -> bool {
    e matches ConfigError::MissingRequired { section: s, key: k } && s@ == section && k@ == key
}

// --- [server] ---------------------------------------------------------------

pub open spec fn server_valid(c: ConfigView) -> bool {
        &&& c.server_id.len() > 0 && utf8_len(c.server_id) <= 64
    &&& c.shutdown_grace <= 600
    &&& 1 <= c.check_interval <= 3_600
    &&& 1 <= c.client_timeout <= 86_400
    &&& c.check_interval <= c.client_timeout
}

pub open spec fn server_error(c: ConfigView, e: ConfigError) -> bool {
        if c.server_id.len() == 0 || utf8_len(c.server_id) > 64 {
        is_invalid_value(
            e,
            "server"@,
            "server_id"@,
            c.server_id,
            "must be non-empty and ≤ 64 chars"@,
        )
    } else if c.shutdown_grace > 600 {
        is_invalid_value(
            e,
            "server"@,
            "shutdown_grace"@,
            decimal_text(c.shutdown_grace as nat),
            "must be ≤ 600"@,
        )
    } else if c.check_interval == 0 || c.check_interval > 3_600 {
        is_invalid_value(
            e,
            "server"@,
            "check_interval"@,
            decimal_text(c.check_interval as nat),
            "must be in [1, 3600]"@,
        )
    } else if c.client_timeout == 0 || c.client_timeout > 86_400 {
        is_invalid_value(
            e,
            "server"@,
            "client_timeout"@,
            decimal_text(c.client_timeout as nat),
            "must be in [1, 86400]"@,
        )
    } else {
        is_semantic(
            e,
            "server.check_interval ("@ + decimal_text(c.check_interval as nat)
                + ") must be ≤ client_timeout ("@ + decimal_text(c.client_timeout as nat) + ")"@,
        )
    }
}

// --- [[endpoints]] ----------------------------------------------------------

pub open spec fn endpoint_valid(ep: EndpointConfig) -> bool {
    &&& 1024 <= ep.max_buffer_size <= 64 * 1024 * 1024
    &&& 1 <= ep.max_concurrent_handlers <= 65_535
}

/// `i` is the first endpoint that breaks a limit.
pub open spec fn first_bad_endpoint(eps: Seq<EndpointConfig>, i: int) -> bool {
    &&& 0 <= i < eps.len()
    &&& !endpoint_valid(eps[i])
    &&& forall|j: int| 0 <= j < i ==> endpoint_valid(#[trigger] eps[j])
}

pub open spec fn endpoints_valid(c: ConfigView) -> bool {
    &&& exists|i: int| 0 <= i < c.endpoints.len() && (#[trigger] c.endpoints[i]).enabled
    &&& forall|i: int| 0 <= i < c.endpoints.len() ==> endpoint_valid(#[trigger] c.endpoints[i])
}

pub open spec fn endpoints_error(c: ConfigView, e: ConfigError) -> bool {
    let eps = c.endpoints;
    if !exists|i: int| 0 <= i < eps.len() && (#[trigger] eps[i]).enabled {
        is_semantic(e, "at least one [[endpoints]] entry must have enabled = true"@)
    } else {
        let i = choose|i: int| first_bad_endpoint(eps, i);
        let ep = eps[i];
        let section = "endpoints["@ + decimal_text(i as nat) + "]"@;
        if ep.max_buffer_size < 1024 || ep.max_buffer_size > 64 * 1024 * 1024 {
            is_invalid_value(
                e,
                section,
                "max_buffer_size"@,
                decimal_text(ep.max_buffer_size as nat),
                "must be in [1024, 64 MiB]"@,
            )
        } else {
            is_invalid_value(
                e,
                section,
                "max_concurrent_handlers"@,
                decimal_text(ep.max_concurrent_handlers as nat),
                "must be in [1, 65535]"@,
            )
        }
    }
}

// --- [cluster] --------------------------------------------------------------

pub open spec fn cluster_valid(c: ConfigView) -> bool {
        &&& !(c.cluster_enabled && c.cluster_addr is None)
    &&& c.seed_nodes.len() <= 64
    &&& utf8_len(c.node_id) <= 64 && !c.node_id.contains(' ')
}

pub open spec fn cluster_error(c: ConfigView, e: ConfigError) -> bool {
        if c.cluster_enabled && c.cluster_addr is None {
        is_semantic(e, "cluster.enabled = true but cluster.cluster_addr is not set"@)
    } else if c.seed_nodes.len() > 64 {
        is_invalid_value(
            e,
            "cluster"@,
            "seed_nodes"@,
            decimal_text(c.seed_nodes.len()),
            "must be ≤ 64 entries"@,
        )
    } else {
        is_invalid_value(
            e,
            "cluster"@,
            "node_id"@,
            c.node_id,
            "must be ≤ 64 chars and contain no whitespace"@,
        )
    }
}

// --- [persistence] ----------------------------------------------------------

/// Offline lifetimes range from a minute to thirty days.
pub open spec fn ttl_in_range(t: u64) -> bool {
    60 <= t <= 30 * 86_400
}

pub open spec fn persistence_valid(c: ConfigView) -> bool {
        &&& c.persistence_path.len() > 0
    &&& ttl_in_range(c.offline.ttl_secs)
    &&& ttl_in_range(c.offline.ghost_ttl_secs)
}

pub open spec fn persistence_error(c: ConfigView, e: ConfigError) -> bool {
        if c.persistence_path.len() == 0 {
        is_missing_required(e, "persistence"@, "path"@)
    } else if !ttl_in_range(c.offline.ttl_secs) {
        is_invalid_value(
            e,
            "persistence.offline"@,
            "ttl_secs"@,
            decimal_text(c.offline.ttl_secs as nat),
            "must be in [60, 30d]"@,
        )
    } else {
        is_invalid_value(
            e,
            "persistence.offline"@,
            "ghost_ttl_secs"@,
            decimal_text(c.offline.ghost_ttl_secs as nat),
            "must be in [60, 30d]"@,
        )
    }
}

// --- [ack], [observability], across sections --------------------------------

pub open spec fn ack_valid(c: ConfigView) -> bool {
    &&& 10 <= c.ack.timeout_ms <= 60_000
    &&& c.ack.retries <= 16
}

pub open spec fn ack_error(c: ConfigView, e: ConfigError) -> bool {
    if c.ack.timeout_ms < 10 || c.ack.timeout_ms > 60_000 {
        is_invalid_value(
            e,
            "ack"@,
            "timeout_ms"@,
            decimal_text(c.ack.timeout_ms as nat),
            "must be in [10, 60000]"@,
        )
    } else {
        is_invalid_value(
            e,
            "ack"@,
            "retries"@,
            decimal_text(c.ack.retries as nat),
            "must be ≤ 16"@,
        )
    }
}

pub open spec fn observability_valid(c: ConfigView) -> bool {
    c.admin_addr.port != 0
}

pub open spec fn observability_error(c: ConfigView, e: ConfigError) -> bool {
    is_invalid_value(
        e,
        "observability"@,
        "admin_addr"@,
        socket_text(c.admin_addr),
        "port 0 (any) is not allowed for the admin server"@,
    )
}

pub open spec fn cross_section_valid(c: ConfigView) -> bool {
    !(!c.persistence_enabled && c.offline.enabled)
}

pub open spec fn cross_section_error(c: ConfigView, e: ConfigError) -> bool {
    is_semantic(e, "persistence.offline.enabled requires persistence.enabled = true"@)
}

// --- all rules ----------------------------------------------------------------

/// Every rule holds.
#[verifier::opaque]
pub open spec fn view_valid(c: ConfigView) -> bool {
    &&& server_valid(c)
    &&& endpoints_valid(c)
    &&& cluster_valid(c)
    &&& persistence_valid(c)
    &&& ack_valid(c)
    &&& observability_valid(c)
    &&& cross_section_valid(c)
}

/// `e` is the error of the first rule that `c` breaks.
#[verifier::opaque]
pub open spec fn reported_error_view(c: ConfigView, e: ConfigError) -> bool {
    if !server_valid(c) {
        server_error(c, e)
    } else if !endpoints_valid(c) {
        endpoints_error(c, e)
    } else if !cluster_valid(c) {
        cluster_error(c, e)
    } else if !persistence_valid(c) {
        persistence_error(c, e)
    } else if !ack_valid(c) {
        ack_error(c, e)
    } else if !observability_valid(c) {
        observability_error(c, e)
    } else {
        cross_section_error(c, e)
    }
}

/// Every rule holds of the configuration.
pub open spec fn config_valid(c: RexConfig) -> bool {
    view_valid(c@)
}

/// `e` is the error of the first rule that the configuration breaks.
pub open spec fn reported_error(c: RexConfig, e: ConfigError) -> bool {
    reported_error_view(c@, e)
}

fn invalid(section: &str, key: &str, value: String, reason: &str) -> (e: ConfigError)
    ensures
        is_invalid_value(e, section@, key@, value@, reason@),
{
    ConfigError::InvalidValue {
        section: String::from_str(section),
        key: String::from_str(key),
        value,
        reason: String::from_str(reason),
    }
}

fn validate_server(c: &RexConfig) -> (r: Result<(), ConfigError>)
    ensures
        r is Ok <==> server_valid(c@),
        r matches Err(e) ==> server_error(c@, e),
{
    let s = &c.server;
    if s.server_id.as_str().is_empty() || s.server_id.as_str().as_bytes().len() > 64 {
        return Err(
            invalid("server", "server_id", s.server_id.clone(), "must be non-empty and ≤ 64 chars"),
        );
    }
    if s.shutdown_grace > 600 {
        return Err(
            invalid("server", "shutdown_grace", decimal_string(s.shutdown_grace), "must be ≤ 600"),
        );
    }
    if s.check_interval == 0 || s.check_interval > 3_600 {
        return Err(
            invalid(
                "server",
                "check_interval",
                decimal_string(s.check_interval),
                "must be in [1, 3600]",
            ),
        );
    }
    if s.client_timeout == 0 || s.client_timeout > 86_400 {
        return Err(
            invalid(
                "server",
                "client_timeout",
                decimal_string(s.client_timeout),
                "must be in [1, 86400]",
            ),
        );
    }
    if s.check_interval > s.client_timeout {
        let mut m = String::from_str("server.check_interval (");
        m.append(decimal_string(s.check_interval).as_str());
        m.append(") must be ≤ client_timeout (");
        m.append(decimal_string(s.client_timeout).as_str());
        m.append(")");
        return Err(ConfigError::Semantic(m));
    }
    Ok(())
}

fn endpoint_in_range(ep: &EndpointConfig) -> (r: bool)
    ensures
        r == endpoint_valid(*ep),
{
    1024 <= ep.max_buffer_size && ep.max_buffer_size <= 64 * 1024 * 1024
        && 1 <= ep.max_concurrent_handlers && ep.max_concurrent_handlers <= 65_535
}

fn validate_endpoints(c: &RexConfig) -> (r: Result<(), ConfigError>)
    ensures
        r is Ok <==> endpoints_valid(c@),
        r matches Err(e) ==> endpoints_error(c@, e),
{
    let eps = &c.endpoints;
    let mut any_enabled = false;
    let mut i: usize = 0;
    while i < eps.len()
        invariant
            i <= eps@.len(),
            eps@ == c.endpoints@,
            any_enabled <==> exists|j: int| 0 <= j < i && (#[trigger] eps@[j]).enabled,
        decreases eps@.len() - i,
    {
        if eps[i].enabled {
            any_enabled = true;
        }
        i = i + 1;
    }
    if !any_enabled {
        return Err(
            ConfigError::Semantic(
                String::from_str("at least one [[endpoints]] entry must have enabled = true"),
            ),
        );
    }
    let mut idx: usize = 0;
    while idx < eps.len()
        invariant
            idx <= eps@.len(),
            eps@ == c.endpoints@,
            exists|j: int| 0 <= j < eps@.len() && (#[trigger] eps@[j]).enabled,
            forall|j: int| 0 <= j < idx ==> endpoint_valid(#[trigger] eps@[j]),
        decreases eps@.len() - idx,
    {
        let ep = &eps[idx];
        if !endpoint_in_range(ep) {
            proof {
                assert(first_bad_endpoint(eps@, idx as int));
                let k = choose|k: int| first_bad_endpoint(eps@, k);
                if k < idx {
                    assert(endpoint_valid(eps@[k]));
                } else if k > idx {
                    assert(endpoint_valid(eps@[idx as int]));
                }
            }
            let mut section = String::from_str("endpoints[");
            section.append(decimal_string(idx as u64).as_str());
            section.append("]");
            if ep.max_buffer_size < 1024 || ep.max_buffer_size > 64 * 1024 * 1024 {
                let e = ConfigError::InvalidValue {
                        section,
                        key: String::from_str("max_buffer_size"),
                        value: decimal_string(ep.max_buffer_size as u64),
                        reason: String::from_str("must be in [1024, 64 MiB]"),
                    };
                return Err(e);
            }
            return Err(
                ConfigError::InvalidValue {
                    section,
                    key: String::from_str("max_concurrent_handlers"),
                    value: decimal_string(ep.max_concurrent_handlers as u64),
                    reason: String::from_str("must be in [1, 65535]"),
                },
            );
        }
        idx = idx + 1;
    }
    Ok(())
}

fn validate_cluster(c: &RexConfig) -> (r: Result<(), ConfigError>)
    ensures
        r is Ok <==> cluster_valid(c@),
        r matches Err(e) ==> cluster_error(c@, e),
{
    let k = &c.cluster;
    if k.enabled && k.cluster_addr.is_none() {
        return Err(
            ConfigError::Semantic(
                String::from_str("cluster.enabled = true but cluster.cluster_addr is not set"),
            ),
        );
    }
    if k.seed_nodes.len() > 64 {
        return Err(
            invalid(
                "cluster",
                "seed_nodes",
                decimal_string(k.seed_nodes.len() as u64),
                "must be ≤ 64 entries",
            ),
        );
    }
    if k.node_id.as_str().as_bytes().len() > 64 || contains_char(k.node_id.as_str(), ' ') {
        return Err(
            invalid(
                "cluster",
                "node_id",
                k.node_id.clone(),
                "must be ≤ 64 chars and contain no whitespace",
            ),
        );
    }
    Ok(())
}

fn validate_persistence(c: &RexConfig) -> (r: Result<(), ConfigError>)
    ensures
        r is Ok <==> persistence_valid(c@),
        r matches Err(e) ==> persistence_error(c@, e),
{
    let p = &c.persistence;
    if p.path.as_str().is_empty() {
        return Err(
            ConfigError::MissingRequired {
                section: String::from_str("persistence"),
                key: String::from_str("path"),
            },
        );
    }
    if !(60 <= p.offline.ttl_secs && p.offline.ttl_secs <= 30 * 86_400) {
        return Err(
            invalid(
                "persistence.offline",
                "ttl_secs",
                decimal_string(p.offline.ttl_secs),
                "must be in [60, 30d]",
            ),
        );
    }
    if !(60 <= p.offline.ghost_ttl_secs && p.offline.ghost_ttl_secs <= 30 * 86_400) {
        return Err(
            invalid(
                "persistence.offline",
                "ghost_ttl_secs",
                decimal_string(p.offline.ghost_ttl_secs),
                "must be in [60, 30d]",
            ),
        );
    }
    Ok(())
}

fn validate_ack(c: &RexConfig) -> (r: Result<(), ConfigError>)
    ensures
        r is Ok <==> ack_valid(c@),
        r matches Err(e) ==> ack_error(c@, e),
{
    if c.ack.timeout_ms < 10 || c.ack.timeout_ms > 60_000 {
        return Err(
            invalid("ack", "timeout_ms", decimal_string(c.ack.timeout_ms), "must be in [10, 60000]"),
        );
    }
    if c.ack.retries > 16 {
        return Err(invalid("ack", "retries", decimal_string(c.ack.retries as u64), "must be ≤ 16"));
    }
    Ok(())
}

fn validate_observability(c: &RexConfig) -> (r: Result<(), ConfigError>)
    ensures
        r is Ok <==> observability_valid(c@),
        r matches Err(e) ==> observability_error(c@, e),
{
    if c.observability.admin_addr.port() == 0 {
        return Err(
            invalid(
                "observability",
                "admin_addr",
                c.observability.admin_addr.to_string(),
                "port 0 (any) is not allowed for the admin server",
            ),
        );
    }
    Ok(())
}

fn validate_cross_section(c: &RexConfig) -> (r: Result<(), ConfigError>)
    ensures
        r is Ok <==> cross_section_valid(c@),
        r matches Err(e) ==> cross_section_error(c@, e),
{
    if !c.persistence.enabled && c.persistence.offline.enabled {
        return Err(
            ConfigError::Semantic(
                String::from_str("persistence.offline.enabled requires persistence.enabled = true"),
            ),
        );
    }
    Ok(())
}

/// The limits that the configuration's documentation gives, field by field:
/// a non-empty server id of at most 64 bytes, a grace of at most 600 s, a
/// check interval in [1, 3600] s and no longer than the client timeout,
/// itself in [1, 86400] s; an enabled endpoint, and every endpoint with a
/// buffer in [1 KiB, 64 MiB] and [1, 65535] handlers; a cluster address when
/// clustering is on, at most 64 seed nodes, a node id of at most 64 bytes
/// without spaces; a persistence path, offline lifetimes in [60 s, 30 days];
/// an acknowledgement timeout in [10, 60000] ms with at most 16 retries; an
/// admin port other than 0; and offline storage only with persistence on.
pub open spec fn within_documented_limits(cfg: RexConfig) -> bool {
    &&& cfg.server.server_id@.len() > 0
    &&& encode_utf8(cfg.server.server_id@).len() <= 64
    &&& cfg.server.shutdown_grace <= 600
    &&& 1 <= cfg.server.check_interval <= 3600
    &&& 1 <= cfg.server.client_timeout <= 86400
    &&& cfg.server.check_interval <= cfg.server.client_timeout
    &&& exists|i: int| 0 <= i < cfg.endpoints@.len() && (#[trigger] cfg.endpoints@[i]).enabled
    &&& forall|i: int|
        0 <= i < cfg.endpoints@.len() ==> 1024 <= (#[trigger] cfg.endpoints@[i]).max_buffer_size
            <= 67_108_864 && 1 <= cfg.endpoints@[i].max_concurrent_handlers <= 65535
    &&& !(cfg.cluster.enabled && cfg.cluster.cluster_addr is None)
    &&& cfg.cluster.seed_nodes@.len() <= 64
    &&& encode_utf8(cfg.cluster.node_id@).len() <= 64
    &&& !cfg.cluster.node_id@.contains(' ')
    &&& cfg.persistence.path@.len() > 0
    &&& 60 <= cfg.persistence.offline.ttl_secs <= 2_592_000
    &&& 60 <= cfg.persistence.offline.ghost_ttl_secs <= 2_592_000
    &&& 10 <= cfg.ack.timeout_ms <= 60000
    &&& cfg.ack.retries <= 16
    &&& cfg.observability.admin_addr.port != 0
    &&& (cfg.persistence.offline.enabled ==> cfg.persistence.enabled)
}

/// Validation accepts a configuration exactly when it is within the
/// documented limits: each limit broken makes `validate` fail.
pub proof fn lemma_valid_iff_within_documented_limits(cfg: RexConfig)
    ensures
        config_valid(cfg) <==> within_documented_limits(cfg),
{
    reveal(view_valid);
    let c = cfg@;
    assert(c.endpoints == cfg.endpoints@);
    if within_documented_limits(cfg) {
        assert forall|i: int| 0 <= i < c.endpoints.len() implies endpoint_valid(
            #[trigger] c.endpoints[i],
        ) by {
            assert(cfg.endpoints@[i] == c.endpoints[i]);
        }
    }
    if config_valid(cfg) {
        assert forall|i: int| 0 <= i < cfg.endpoints@.len() implies 1024 <= (
        #[trigger] cfg.endpoints@[i]).max_buffer_size <= 67_108_864 && 1
            <= cfg.endpoints@[i].max_concurrent_handlers <= 65535 by {
            assert(endpoint_valid(c.endpoints[i]));
        }
    }
}

/// Checks every rule, section by section, and reports the first one broken.
pub fn validate(cfg: &RexConfig) -> (r: Result<(), ConfigError>)
    ensures
        r is Ok <==> config_valid(*cfg),
        r is Ok <==> within_documented_limits(*cfg),
        r matches Err(e) ==> reported_error(*cfg, e),
{
    proof {
        reveal(view_valid);
        reveal(reported_error_view);
        lemma_valid_iff_within_documented_limits(*cfg);
    }
    validate_server(cfg)?;
    validate_endpoints(cfg)?;
    validate_cluster(cfg)?;
    validate_persistence(cfg)?;
    validate_ack(cfg)?;
    validate_observability(cfg)?;
    validate_cross_section(cfg)?;
    Ok(())
}

impl RexConfig {
    /// Checks every rule; see [`validate`].
    pub fn validate(&self) -> (r: Result<(), ConfigError>)
        ensures
            r is Ok <==> config_valid(*self),
            r is Ok <==> within_documented_limits(*self),
            r matches Err(e) ==> reported_error(*self, e),
    {
        validate(self)
    }
}

} // verus!
