use std::path::PathBuf;

use rexmq::config::env::{apply_env_vars, env_target_of, parse_bool, parse_seed_nodes, parse_u64};
use rexmq::config::legacy::collect_legacy_alias_warnings;
use rexmq::config::loader::{apply_cli, default_toml_paths};
use rexmq::config::validate::validate;
use rexmq::config::{version, CliOverrides, ConfigError, Loader, RexConfig};
use rexmq::net::SocketAddress;
use rexmq::protocol::Protocol;

fn vars(pairs: &[(&str, &str)]) -> Vec<(String, String)> {
    pairs.iter().map(|(k, v)| (k.to_string(), v.to_string())).collect()
}

// ---- defaults ----

#[test]
fn default_matches_doc_table() {
    let d = RexConfig::default();

    assert_eq!(d.server.server_id, "rex-server");
    assert_eq!(d.server.shutdown_grace, 10);
    assert_eq!(d.server.check_interval, 15);
    assert_eq!(d.server.client_timeout, 45);

    assert_eq!(d.endpoints.len(), 3, "expected 3 default endpoints");
    let tcp = SocketAddress::v4(0, 0, 0, 0, 8881);
    let quic = SocketAddress::v4(0, 0, 0, 0, 8882);
    let ws = SocketAddress::v4(0, 0, 0, 0, 8883);
    assert_eq!(d.endpoints[0].protocol, Protocol::Tcp);
    assert_eq!(d.endpoints[0].address, tcp);
    assert!(d.endpoints[0].enabled);
    assert_eq!(d.endpoints[1].protocol, Protocol::Quic);
    assert_eq!(d.endpoints[1].address, quic);
    assert_eq!(d.endpoints[2].protocol, Protocol::WebSocket);
    assert_eq!(d.endpoints[2].address, ws);

    assert!(!d.cluster.enabled);
    assert_eq!(d.cluster.node_id, "auto");
    assert!(d.cluster.seed_nodes.is_empty());

    assert!(d.persistence.enabled);
    assert_eq!(d.persistence.path, "./.rex_sled");
    assert!(d.persistence.offline.enabled);
    assert_eq!(d.persistence.offline.ttl_secs, 604_800);
    assert_eq!(d.persistence.offline.ghost_ttl_secs, 86_400);

    assert!(!d.ack.enabled);
    assert_eq!(d.ack.timeout_ms, 5_000);
    assert_eq!(d.ack.retries, 3);

    assert_eq!(d.observability.admin_addr.port(), 9_090);
    assert_eq!(d.observability.admin_token, None);
    assert!(d.observability.single_node_cluster_ok);
}

#[test]
fn version_is_non_empty() {
    assert!(!version().is_empty());
    assert_eq!(version(), "0.1.0");
}

// ---- error messages ----

#[test]
fn display_semantic() {
    let e = ConfigError::Semantic("cluster requires cluster_addr".into());
    assert_eq!(e.to_string(), "semantic: cluster requires cluster_addr");
}

#[test]
fn display_unknown_key() {
    let e = ConfigError::UnknownKey { section: "server".into(), key: "bogus".into() };
    assert_eq!(e.to_string(), "unknown config key: server.bogus");
}

#[test]
fn from_io_error() {
    let ioe = std::io::Error::new(std::io::ErrorKind::NotFound, "no such file");
    let e: ConfigError = ioe.into();
    assert!(matches!(e, ConfigError::Io { .. }));
}

#[test]
fn invalid_value_message_quotes_the_value() {
    let e = ConfigError::InvalidValue {
        section: "ack".into(),
        key: "retries".into(),
        value: "x\"y".into(),
        reason: "must be a non-negative integer".into(),
    };
    assert_eq!(
        e.to_string(),
        "invalid value at ack.retries: \"x\\\"y\" (must be a non-negative integer)"
    );
}

#[test]
fn missing_required_message() {
    let e = ConfigError::MissingRequired { section: "cluster".into(), key: "cluster_addr".into() };
    assert_eq!(e.to_string(), "missing required field: cluster.cluster_addr");
}

#[test]
fn file_not_found_message_names_the_path() {
    let e = ConfigError::FileNotFound { path: PathBuf::from("/no/such/file.toml") };
    assert_eq!(e.to_string(), "config file not found at explicit path \"/no/such/file.toml\"");
}

// ---- validation ----

#[test]
fn default_validates() {
    validate(&RexConfig::default()).expect("default must pass");
    RexConfig::default().validate().expect("default must pass");
}

#[test]
fn rejects_check_interval_over_client_timeout() {
    let mut cfg = RexConfig::default();
    cfg.server.check_interval = 100;
    cfg.server.client_timeout = 50;
    let err = validate(&cfg).unwrap_err();
    assert!(matches!(err, ConfigError::Semantic(_)));
}

#[test]
fn rejects_zero_endpoints_enabled() {
    let mut cfg = RexConfig::default();
    cfg.endpoints.iter_mut().for_each(|e| e.enabled = false);
    let err = validate(&cfg).unwrap_err();
    assert!(matches!(err, ConfigError::Semantic(_)));
}

#[test]
fn rejects_cluster_enabled_without_addr() {
    let mut cfg = RexConfig::default();
    cfg.cluster.enabled = true;
    cfg.cluster.cluster_addr = None;
    let err = validate(&cfg).unwrap_err();
    assert!(matches!(err, ConfigError::Semantic(_)));
}

#[test]
fn rejects_offline_without_persistence() {
    let mut cfg = RexConfig::default();
    cfg.persistence.enabled = false;
    let err = validate(&cfg).unwrap_err();
    assert!(matches!(err, ConfigError::Semantic(_)));
}

#[test]
fn rejects_max_buffer_over_64_mib() {
    let mut cfg = RexConfig::default();
    cfg.endpoints[0].max_buffer_size = 65 * 1024 * 1024;
    let err = validate(&cfg).unwrap_err();
    assert!(matches!(err, ConfigError::InvalidValue { .. }));
}

#[test]
fn max_buffer_of_exactly_64_mib_is_accepted() {
    let mut cfg = RexConfig::default();
    cfg.endpoints[0].max_buffer_size = 64 * 1024 * 1024;
    assert!(validate(&cfg).is_ok());
}

#[test]
fn cluster_with_addr_validates() {
    let mut cfg = RexConfig::default();
    cfg.cluster.enabled = true;
    cfg.cluster.cluster_addr = Some(SocketAddress::v4(127, 0, 0, 1, 9000));
    assert!(validate(&cfg).is_ok());
}

// ---- environment layer ----

#[test]
fn env_overrides_field() {
    let (out, warn) =
        apply_env_vars(RexConfig::default(), &vars(&[("REX__SERVER__CHECK_INTERVAL", "30")]));
    assert_eq!(out.server.check_interval, 30);
    assert!(warn.is_empty());
}

#[test]
fn no_env_vars_is_noop() {
    let (out, warn) = apply_env_vars(RexConfig::default(), &[]);
    assert_eq!(out.server.server_id, "rex-server");
    assert!(warn.is_empty());
}

#[test]
fn non_rex_prefix_is_ignored() {
    let mut cfg = RexConfig::default();
    cfg.persistence.enabled = true;
    let (out, _warn) = apply_env_vars(cfg, &vars(&[("PERSISTENCE_ENABLED", "false")]));
    assert!(out.persistence.enabled, "default value unchanged");
}

#[test]
fn bad_env_value_warns_and_keeps_the_old_value() {
    let (out, warn) =
        apply_env_vars(RexConfig::default(), &vars(&[("REX__ACK__RETRIES", "many")]));
    assert_eq!(out.ack.retries, 3);
    assert_eq!(
        warn,
        vec![
            "env REX__ack__retries=\"many\": invalid value at ack.retries: \"many\" (must be a non-negative integer)"
                .to_string()
        ]
    );
}

#[test]
fn env_sets_nested_and_address_fields() {
    let (out, warn) = apply_env_vars(
        RexConfig::default(),
        &vars(&[
            ("REX__PERSISTENCE.OFFLINE__TTL_SECS", "60"),
            ("REX__CLUSTER__CLUSTER_ADDR", "10.0.0.1:7000"),
            ("REX__CLUSTER__SEED_NODES", "10.0.0.2:7000, ,10.0.0.3:7001"),
            ("REX__OBSERVABILITY__ADMIN_TOKEN", ""),
            ("REX__OBSERVABILITY__TRACING_FORMAT", "json"),
        ]),
    );
    assert!(warn.is_empty());
    assert_eq!(out.persistence.offline.ttl_secs, 60);
    assert_eq!(out.cluster.cluster_addr, Some(SocketAddress::v4(10, 0, 0, 1, 7000)));
    assert_eq!(
        out.cluster.seed_nodes,
        vec![SocketAddress::v4(10, 0, 0, 2, 7000), SocketAddress::v4(10, 0, 0, 3, 7001)]
    );
    assert_eq!(out.observability.admin_token, None);
}

#[test]
fn env_names_split_on_double_underscores() {
    assert_eq!(
        env_target_of("REX__SERVER__SERVER_ID"),
        Some(("server".to_string(), "server_id".to_string()))
    );
    assert_eq!(
        env_target_of("REX__A__B__C"),
        Some(("a".to_string(), "b".to_string()))
    );
    assert_eq!(env_target_of("REX__SERVER"), None);
    assert_eq!(env_target_of("REX_SERVER__X"), None);
}

#[test]
fn scalar_parsers_accept_and_refuse() {
    assert_eq!(parse_bool("ack", "enabled", "yes").unwrap(), true);
    assert_eq!(parse_bool("ack", "enabled", "0").unwrap(), false);
    assert!(matches!(
        parse_bool("ack", "enabled", "maybe"),
        Err(ConfigError::InvalidValue { .. })
    ));
    assert_eq!(parse_u64("ack", "timeout_ms", "18446744073709551615").unwrap(), u64::MAX);
    assert!(parse_u64("ack", "timeout_ms", "18446744073709551616").is_err());
    assert!(parse_u64("ack", "timeout_ms", "").is_err());
    assert!(parse_seed_nodes("cluster", "seed_nodes", "1.2.3.4:5,bad").is_err());
    assert_eq!(parse_seed_nodes("cluster", "seed_nodes", "").unwrap(), vec![]);
}

// ---- legacy keys ----

#[test]
fn legacy_flat_keys_are_reported_in_order() {
    let body = "ack_retries = 2\npersistence_enabled = true\n[server]\n";
    let w = collect_legacy_alias_warnings(&RexConfig::default(), body);
    assert_eq!(
        w,
        vec![
            "persistence_enabled is deprecated; use [persistence]/[persistence.offline]/[ack] section in rex.toml".to_string(),
            "ack_retries is deprecated; use [persistence]/[persistence.offline]/[ack] section in rex.toml".to_string(),
        ]
    );
    assert!(collect_legacy_alias_warnings(&RexConfig::default(), "[ack]\nretries = 2\n").is_empty());
}

// ---- loader ----

#[test]
fn explicit_path_wins_over_env_and_search() {
    let p = PathBuf::from("explicit.toml");
    let l = Loader::new().with_config_path(p.clone());
    let resolved = l
        .pick_config_path(true, Some(PathBuf::from("env.toml")), true, &[true, true, true])
        .unwrap()
        .expect("found");
    assert_eq!(resolved, p);
}

#[test]
fn explicit_missing_path_returns_file_not_found() {
    let l = Loader::new().with_config_path(PathBuf::from("/no/such/file.toml"));
    let err = l.pick_config_path(false, None, false, &[true, false, false]).unwrap_err();
    assert!(matches!(err, ConfigError::FileNotFound { .. }), "got {err:?}");
}

#[test]
fn no_path_at_all_returns_none() {
    let l = Loader::new();
    let result = l.pick_config_path(false, None, false, &[false, false, false]).unwrap();
    assert!(result.is_none());
}

#[test]
fn env_path_then_first_default_place() {
    let l = Loader::new();
    let from_env = l
        .pick_config_path(false, Some(PathBuf::from("env.toml")), true, &[true, true, true])
        .unwrap();
    assert_eq!(from_env, Some(PathBuf::from("env.toml")));
    assert!(matches!(
        l.pick_config_path(false, Some(PathBuf::from("env.toml")), false, &[true, true, true]),
        Err(ConfigError::FileNotFound { .. })
    ));
    let searched = l.pick_config_path(false, None, false, &[false, true, true]).unwrap();
    assert_eq!(searched, Some(PathBuf::from("./config/rex.toml")));
    assert_eq!(default_toml_paths(), vec!["./rex.toml", "./config/rex.toml", "/etc/rex/rex.toml"]);
}

#[test]
fn load_with_layers_env_then_cli_then_validates() {
    let mut o = CliOverrides::default();
    o.server_id = Some("from-cli".to_string());
    let l = Loader::new().with_cli_overrides(o);
    let (cfg, warn) = l
        .load_with(
            None,
            &vars(&[("REX__SERVER__SERVER_ID", "from-env"), ("REX__ACK__TIMEOUT_MS", "20")]),
        )
        .unwrap();
    assert_eq!(cfg.server.server_id, "from-cli");
    assert_eq!(cfg.ack.timeout_ms, 20);
    assert!(warn.is_empty());

    let bad = Loader::new().load_with(None, &vars(&[("REX__PERSISTENCE__ENABLED", "false")]));
    assert!(matches!(bad, Err(ConfigError::Semantic(_))));
}

#[test]
fn cli_overrides_enable_the_cluster() {
    let mut o = CliOverrides::default();
    o.cluster_enabled = true;
    o.cluster_addr = Some("127.0.0.1:9000".to_string());
    o.seeds = Some("127.0.0.1:9001".to_string());
    o.persist = Some(false);
    let (cfg, warn) = apply_cli(RexConfig::default(), &o);
    assert!(warn.is_empty());
    assert!(cfg.cluster.enabled);
    assert!(!cfg.persistence.enabled);
    assert_eq!(cfg.cluster.cluster_addr, Some(SocketAddress::v4(127, 0, 0, 1, 9000)));
    assert_eq!(cfg.cluster.seed_nodes, vec![SocketAddress::v4(127, 0, 0, 1, 9001)]);
}

#[test]
fn parse_and_read_errors_name_the_path_and_the_cause() {
    let source = toml::from_str::<toml::Value>("a = ").unwrap_err();
    let cause = source.to_string();
    let e = ConfigError::ParseToml { path: PathBuf::from("r.toml"), source };
    assert_eq!(e.to_string(), format!("config file \"r.toml\": {cause}"));
    let io = std::io::Error::new(std::io::ErrorKind::NotFound, "no such file");
    let e = ConfigError::Io { path: PathBuf::from("/x"), source: io };
    assert_eq!(e.to_string(), "io error reading \"/x\": no such file");
    let e: ConfigError = std::io::Error::new(std::io::ErrorKind::Other, "boom").into();
    assert_eq!(e.to_string(), "io error reading \"<unknown>\": boom");
}
