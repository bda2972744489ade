//! The loading pipeline: defaults, then a TOML file, then environment
//! variables, then command-line flags, then validation.
//!
//! Finding and reading the file and reading the environment are left to the
//! caller; this module decides which file to use from what the caller
//! observed, and combines the layers.

use std::path::PathBuf;
use vstd::prelude::*;

use crate::bridge::errors::{path_from_str, path_of_text};
use crate::config::env::{apply_env_vars, env_result, merge_outcome, merge_value, pair_texts, texts, MergeOutcome};
use crate::config::error::{error_message, ConfigError};
use crate::config::root::{default_view, ConfigView, RexConfig};
use crate::config::validate::{reported_error_view, view_valid};

verus! {

/// Values given on the command line; each one set overrides the file and
/// the environment.
#[derive(Debug, Clone)]
pub struct CliOverrides {
    pub config_path: Option<PathBuf>,
    pub server_id: Option<String>,
    pub persist: Option<bool>,
    pub cluster_enabled: bool,
    pub cluster_addr: Option<String>,
    pub seeds: Option<String>,
    pub admin_write: bool,
}

impl Default for CliOverrides {
    fn default() -> (r: Self)
        ensures
            r.config_path is None,
            r.server_id is None,
            r.persist is None,
            !r.cluster_enabled,
            r.cluster_addr is None,
            r.seeds is None,
            !r.admin_write,
    {
        CliOverrides {
            config_path: None,
            server_id: None,
            persist: None,
            cluster_enabled: false,
            cluster_addr: None,
            seeds: None,
            admin_write: false,
        }
    }
}

/// The warning for a refused command-line value.
pub open spec fn cli_warning(section: Seq<char>, key: Seq<char>, message: Seq<char>) -> Seq<char> {
    "cli "@ + section + "."@ + key + ": "@ + message
}

/// Merges one command-line value, collecting a warning when it is refused.
pub open spec fn cli_merge(
    c: ConfigView,
    w: Seq<Seq<char>>,
    section: Seq<char>,
    key: Seq<char>,
    value: Option<String>,
) -> (ConfigView, Seq<Seq<char>>) {
    match value {
        None => (c, w),
        Some(v) => match merge_outcome(c, section, key, v@) {
            MergeOutcome::Applied(c2) => (c2, w),
            MergeOutcome::Rejected(bad, reason) => (
                c,
                w.push(
                    cli_warning(
                        section,
                        key,
                        "invalid value at "@ + section + "."@ + key + ": "@
                            + crate::bridge::text::str_debug(bad) + " ("@ + reason + ")"@,
                    ),
                ),
            ),
        },
    }
}

/// The configuration and warnings after the command-line layer: the server
/// id, the persistence switch, cluster mode (only switched on), the cluster
/// address and the seed list, in that order.
pub open spec fn cli_result(c: ConfigView, o: CliOverrides) -> (ConfigView, Seq<Seq<char>>) {
    let s1 = cli_merge(c, Seq::empty(), "server"@, "server_id"@, o.server_id);
    let c2 = match o.persist {
        Some(b) => ConfigView { persistence_enabled: b, ..s1.0 },
        None => s1.0,
    };
    let c3 = if o.cluster_enabled {
        ConfigView { cluster_enabled: true, ..c2 }
    } else {
        c2
    };
    let s4 = cli_merge(c3, s1.1, "cluster"@, "cluster_addr"@, o.cluster_addr);
    cli_merge(s4.0, s4.1, "cluster"@, "seed_nodes"@, o.seeds)
}

fn merge_cli(
    cfg: &mut RexConfig,
    warnings: &mut Vec<String>,
    section: &str,
    key: &str,
    value: &Option<String>,
)
    ensures
        ({
            let (c, w) = cli_merge(old(cfg)@, texts(old(warnings)@), section@, key@, *value);
            final(cfg)@ == c && texts(final(warnings)@) == w
        }),
{
    match value {
        None => {},
        Some(v) => {
            match merge_value(cfg, section, key, v.as_str()) {
                Ok(()) => {},
                Err(e) => {
                    let ghost before = warnings@;
                    let mut w = String::from_str("cli ");
                    w.append(section);
                    w.append(".");
                    w.append(key);
                    w.append(": ");
                    w.append(e.to_string().as_str());
                    warnings.push(w);
                    assert(texts(warnings@) =~= texts(before).push(w@));
                },
            }
        },
    }
}

/// Applies the values given on the command line. Returns the result and one
/// warning per refused value.
pub fn apply_cli(cfg: RexConfig, o: &CliOverrides) -> (r: (RexConfig, Vec<String>))
    ensures
        ({
            let (c, w) = cli_result(cfg@, *o);
            r.0@ == c && texts(r.1@) == w
        }),
{
    let mut cfg = cfg;
    let mut warnings: Vec<String> = Vec::new();
    assert(texts(warnings@) =~= Seq::empty());
    merge_cli(&mut cfg, &mut warnings, "server", "server_id", &o.server_id);
    match o.persist {
        Some(b) => {
            cfg.persistence.enabled = b;
        },
        None => {},
    }
    if o.cluster_enabled {
        cfg.cluster.enabled = true;
    }
    merge_cli(&mut cfg, &mut warnings, "cluster", "cluster_addr", &o.cluster_addr);
    merge_cli(&mut cfg, &mut warnings, "cluster", "seed_nodes", &o.seeds);
    (cfg, warnings)
}

/// The places searched for a configuration file when none is named.
pub open spec fn default_path_texts() -> Seq<Seq<char>> {
    seq!["./rex.toml"@, "./config/rex.toml"@, "/etc/rex/rex.toml"@]
}

/// The places searched for a configuration file when none is named, in
/// order.
pub fn default_toml_paths() -> (r: Vec<&'static str>)
    ensures
        r@.map_values(|s: &str| s@) == default_path_texts(),
{
    let v = vec!["./rex.toml", "./config/rex.toml", "/etc/rex/rex.toml"];
    assert(v@.map_values(|s: &str| s@) =~= default_path_texts());
    v
}

/// `i` is the first place found.
pub open spec fn first_found(found: Seq<bool>, i: int) -> bool {
    0 <= i < found.len() && found[i] && forall|j: int| 0 <= j < i ==> !found[j]
}

/// The file that loading reads: the explicit path if one was given (an
/// error if it is not a file), else the `REX_CONFIG` path (likewise), else
/// the first default place where a file was found, else none.
pub open spec fn picked_path(
    explicit: Option<PathBuf>,
    explicit_is_file: bool,
    env_path: Option<PathBuf>,
    env_is_file: bool,
    found: Seq<bool>,
    r: Result<Option<PathBuf>, ConfigError>,
) -> bool {
    match explicit {
        Some(p) => if explicit_is_file {
            r == Ok::<Option<PathBuf>, ConfigError>(Some(p))
        } else {
            r matches Err(ConfigError::FileNotFound { path }) && path == p
        },
        None => match env_path {
            Some(p) => if env_is_file {
                r == Ok::<Option<PathBuf>, ConfigError>(Some(p))
            } else {
                r matches Err(ConfigError::FileNotFound { path }) && path == p
            },
            None => if exists|i: int| first_found(found, i) {
                let i = choose|i: int| first_found(found, i);
                r == Ok::<Option<PathBuf>, ConfigError>(Some(path_of_text(default_path_texts()[i])))
            } else {
                r == Ok::<Option<PathBuf>, ConfigError>(None)
            },
        },
    }
}

/// The view of an optional configuration file's content and warnings.
pub open spec fn parsed_start(parsed: Option<(RexConfig, Vec<String>)>, d: ConfigView) -> (
    ConfigView,
    Seq<Seq<char>>,
) {
    match parsed {
        Some((c, w)) => (c@, texts(w@)),
        None => (d, Seq::empty()),
    }
}

/// Builds the configuration loader step by step.
#[derive(Debug, Clone)]
pub struct Loader {
    explicit_path: Option<PathBuf>,
    cli_overrides: CliOverrides,
}

impl Default for Loader {
    fn default() -> (r: Self)
        ensures
            r.explicit_path() is None,
            r.cli_overrides().server_id is None,
            r.cli_overrides().persist is None,
            !r.cli_overrides().cluster_enabled,
            r.cli_overrides().cluster_addr is None,
            r.cli_overrides().seeds is None,
            r.cli_overrides().config_path is None,
            !r.cli_overrides().admin_write,
    {
        Loader { explicit_path: None, cli_overrides: CliOverrides::default() }
    }
}

impl Loader {
    /// The explicit path, if one was given.
    pub closed spec fn explicit_path(&self) -> Option<PathBuf> {
        self.explicit_path
    }

    /// The command-line overrides.
    pub closed spec fn cli_overrides(&self) -> CliOverrides {
        self.cli_overrides
    }

    /// A loader with no explicit path and no overrides.
    pub fn new() -> (r: Self)
        ensures
            r.explicit_path() is None,
            r.cli_overrides().server_id is None,
            r.cli_overrides().persist is None,
            !r.cli_overrides().cluster_enabled,
            r.cli_overrides().cluster_addr is None,
            r.cli_overrides().seeds is None,
            r.cli_overrides().config_path is None,
            !r.cli_overrides().admin_write,
    {
        Self::default()
    }

    /// Names the configuration file explicitly.
    pub fn with_config_path(self, p: PathBuf) -> (r: Self)
        ensures
            r.explicit_path() == Some(p),
            r.cli_overrides() == self.cli_overrides(),
    {
        let mut s = self;
        s.explicit_path = Some(p);
        s
    }

    /// Names the configuration file explicitly, or clears the name.
    pub fn with_config_path_opt(self, p: Option<PathBuf>) -> (r: Self)
        ensures
            r.explicit_path() == p,
            r.cli_overrides() == self.cli_overrides(),
    {
        let mut s = self;
        s.explicit_path = p;
        s
    }

    /// Sets the command-line overrides.
    pub fn with_cli_overrides(self, o: CliOverrides) -> (r: Self)
        ensures
            r.explicit_path() == self.explicit_path(),
            r.cli_overrides() == o,
    {
        let mut s = self;
        s.cli_overrides = o;
        s
    }

    /// The explicit path, if one was given.
    pub fn config_path(&self) -> (r: &Option<PathBuf>)
        ensures
            *r == self.explicit_path(),
    {
        &self.explicit_path
    }

    /// Chooses the configuration file from what the caller found: whether
    /// the explicit path is a file, the value of `REX_CONFIG` and whether it
    /// is a file, and which default places hold a file.
    pub fn pick_config_path(
        &self,
        explicit_is_file: bool,
        env_path: Option<PathBuf>,
        env_is_file: bool,
        found: &[bool],
    ) -> (r: Result<Option<PathBuf>, ConfigError>)
        requires
            found@.len() == default_path_texts().len(),
        ensures
            picked_path(self.explicit_path(), explicit_is_file, env_path, env_is_file, found@, r),
    {
        match &self.explicit_path {
            Some(p) => {
                if !explicit_is_file {
                    return Err(ConfigError::FileNotFound { path: p.clone() });
                }
                return Ok(Some(p.clone()));
            },
            None => {},
        }
        let ghost env0 = env_path;
        match env_path {
            Some(p) => {
                if !env_is_file {
                    return Err(ConfigError::FileNotFound { path: p });
                }
                return Ok(Some(p));
            },
            None => {},
        }
        let paths = default_toml_paths();
        assert(paths@.len() == 3) by {
            assert(paths@.map_values(|s: &str| s@).len() == 3);
        }
        let mut i: usize = 0;
        while i < found.len()
            invariant
                i <= found@.len(),
                found@.len() == 3,
                paths@.len() == 3,
                self.explicit_path() is None,
                env0 is None,
                env0 == env_path,
                paths@.map_values(|s: &str| s@) == default_path_texts(),
                forall|j: int| 0 <= j < i ==> !found@[j],
            decreases found@.len() - i,
        {
            if found[i] {
                proof {
                    assert(first_found(found@, i as int));
                    let k = choose|k: int| first_found(found@, k);
                    if k < i {
                        assert(!found@[k]);
                    } else if k > i {
                        assert(!found@[i as int]);
                    }
                    assert(paths@.map_values(|s: &str| s@)[i as int] == paths@[i as int]@);
                    assert(k == i);
                    assert(default_path_texts()[i as int] == paths@[i as int]@);
                }
                let p = path_from_str(paths[i]);
                assert(p == path_of_text(default_path_texts()[i as int]));
                return Ok(Some(p));
            }
            i = i + 1;
        }
        assert(!exists|k: int| first_found(found@, k));
        Ok(None)
    }

    /// Combines the layers: the parsed file (or the defaults), the
    /// environment variables, the command-line overrides; then validates.
    /// Returns the configuration with the warnings of every layer, or the
    /// first rule that the result breaks.
    pub fn load_with(
        &self,
        parsed: Option<(RexConfig, Vec<String>)>,
        vars: &[(String, String)],
    ) -> (r: Result<(RexConfig, Vec<String>), ConfigError>)
        ensures
            ({
                let start = parsed_start(parsed, default_view());
                let (c_env, w_env) = env_result(start.0, pair_texts(vars@));
                let (c_cli, w_cli) = cli_result(c_env, self.cli_overrides());
                &&& (r is Ok <==> view_valid(c_cli))
                &&& r matches Ok((c, w)) ==> c@ == c_cli && texts(w@) == start.1 + w_env + w_cli
                &&& r matches Err(e) ==> reported_error_view(c_cli, e)
            }),
    {
        let (cfg, mut warnings) = match parsed {
            Some((c, w)) => (c, w),
            None => (RexConfig::default(), Vec::new()),
        };
        let (cfg, mut env_warnings) = apply_env_vars(cfg, vars);
        let (cfg, mut cli_warnings) = apply_cli(cfg, &self.cli_overrides);
        cfg.validate()?;
        warnings.append(&mut env_warnings);
        warnings.append(&mut cli_warnings);
        Ok((cfg, warnings))
    }
}

} // verus!
