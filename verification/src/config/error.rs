//! The error that loading a configuration reports.

use std::path::PathBuf;
use vstd::prelude::*;

use crate::bridge::errors::{
    io_error_string, path_debug_string, path_from_str, path_of_text, toml_error_string,
};
use crate::bridge::text::{str_debug, str_debug_string};

verus! {

/// Why a configuration could not be loaded.
#[derive(Debug)]
#[allow(inconsistent_fields)]
pub enum ConfigError {
    /// The file named explicitly does not exist.
    FileNotFound { path: PathBuf },
    /// The file is not valid TOML for the schema.
    ParseToml { path: PathBuf, source: toml::de::Error },
    /// A key that the schema does not know.
    UnknownKey { section: String, key: String },
    /// A value outside what its key accepts.
    InvalidValue { section: String, key: String, value: String, reason: String },
    /// A required value is absent.
    MissingRequired { section: String, key: String },
    /// Values that are each valid but do not fit together.
    Semantic(String),
    /// The file could not be read.
    Io { path: PathBuf, source: std::io::Error },
}

/// `t` begins with `p`.
pub open spec fn starts_with(t: Seq<char>, p: Seq<char>) -> bool {
    p.len() <= t.len() && t.subrange(0, p.len() as int) == p
}

/// The message of each kind of error, where its parts are plain text.
pub open spec fn error_message(e: ConfigError) -> Option<Seq<char>> {
    match e {
        ConfigError::UnknownKey { section, key } => Some(
            "unknown config key: "@ + section@ + "."@ + key@,
        ),
        ConfigError::InvalidValue { section, key, value, reason } => Some(
            "invalid value at "@ + section@ + "."@ + key@ + ": "@ + str_debug(value@) + " ("@
                + reason@ + ")"@,
        ),
        ConfigError::MissingRequired { section, key } => Some(
            "missing required field: "@ + section@ + "."@ + key@,
        ),
        ConfigError::Semantic(m) => Some("semantic: "@ + m@),
        _ => None,
    }
}

/// The fixed beginning of the message of each kind of error.
pub open spec fn error_prefix(e: ConfigError) -> Seq<char> {
    match e {
        ConfigError::FileNotFound { .. } => "config file not found at explicit path "@,
        ConfigError::ParseToml { .. } => "config file "@,
        ConfigError::Io { .. } => "io error reading "@,
        ConfigError::UnknownKey { .. } => "unknown config key: "@,
        ConfigError::InvalidValue { .. } => "invalid value at "@,
        ConfigError::MissingRequired { .. } => "missing required field: "@,
        ConfigError::Semantic(..) => "semantic: "@,
    }
}

impl ConfigError {
    /// The human-readable message. For the errors that carry a path, the
    /// path follows in quotes, then (for a parse or read failure) a colon and
    /// the underlying error's own message.
    pub fn to_string(&self) -> (r: String)
        ensures
            error_message(*self) matches Some(m) ==> r@ == m,
            starts_with(r@, error_prefix(*self)),
    {
        proof {
            reveal_strlit("config file not found at explicit path ");
            reveal_strlit("config file ");
            reveal_strlit("io error reading ");
            reveal_strlit(": ");
        }
        match self {
            ConfigError::FileNotFound { path } => {
                let mut s = String::from_str("config file not found at explicit path ");
                let ghost p = s@;
                s.append(path_debug_string(path).as_str());
                assert(s@.subrange(0, p.len() as int) =~= p);
                s
            },
            ConfigError::ParseToml { path, source } => {
                let mut s = String::from_str("config file ");
                let ghost p = s@;
                s.append(path_debug_string(path).as_str());
                s.append(": ");
                s.append(toml_error_string(source).as_str());
                assert(s@.subrange(0, p.len() as int) =~= p);
                s
            },
            ConfigError::UnknownKey { section, key } => {
                let mut s = String::from_str("unknown config key: ");
                s.append(section.as_str());
                s.append(".");
                s.append(key.as_str());
                proof {
                    reveal_strlit("unknown config key: ");
                    reveal_strlit(".");
                }
                assert(s@.subrange(0, error_prefix(*self).len() as int) =~= error_prefix(*self));
                s
            },
            ConfigError::InvalidValue { section, key, value, reason } => {
                let mut s = String::from_str("invalid value at ");
                s.append(section.as_str());
                s.append(".");
                s.append(key.as_str());
                s.append(": ");
                s.append(str_debug_string(value.as_str()).as_str());
                s.append(" (");
                s.append(reason.as_str());
                s.append(")");
                proof {
                    reveal_strlit("invalid value at ");
                    reveal_strlit(".");
                    reveal_strlit(" (");
                    reveal_strlit(")");
                }
                assert(s@.subrange(0, error_prefix(*self).len() as int) =~= error_prefix(*self));
                s
            },
            ConfigError::MissingRequired { section, key } => {
                let mut s = String::from_str("missing required field: ");
                s.append(section.as_str());
                s.append(".");
                s.append(key.as_str());
                proof {
                    reveal_strlit("missing required field: ");
                    reveal_strlit(".");
                }
                assert(s@.subrange(0, error_prefix(*self).len() as int) =~= error_prefix(*self));
                s
            },
            ConfigError::Semantic(m) => {
                let mut s = String::from_str("semantic: ");
                s.append(m.as_str());
                proof {
                    reveal_strlit("semantic: ");
                }
                assert(s@.subrange(0, error_prefix(*self).len() as int) =~= error_prefix(*self));
                s
            },
            ConfigError::Io { path, source } => {
                let mut s = String::from_str("io error reading ");
                let ghost p = s@;
                s.append(path_debug_string(path).as_str());
                s.append(": ");
                s.append(io_error_string(source).as_str());
                assert(s@.subrange(0, p.len() as int) =~= p);
                s
            },
        }
    }
}

/// The path recorded for a read error whose file is not known.
pub open spec fn unknown_path() -> PathBuf {
    path_of_text("<unknown>"@)
}

impl From<std::io::Error> for ConfigError {
    fn from(e: std::io::Error) -> (r: ConfigError) {
        ConfigError::Io { path: path_from_str("<unknown>"), source: e }
    }
}

impl vstd::std_specs::convert::FromSpecImpl<std::io::Error> for ConfigError {
    open spec fn obeys_from_spec() -> bool {
        true
    }

    open spec fn from_spec(e: std::io::Error) -> ConfigError {
        ConfigError::Io { path: unknown_path(), source: e }
    }
}

} // verus!
