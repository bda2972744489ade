//! The broker's configuration: its schema and defaults, the rules a loaded
//! configuration must satisfy, and the layers that override the defaults
//! (a TOML file, `REX__SECTION__KEY` environment variables, command-line
//! flags).

use vstd::prelude::*;

pub mod env;
pub mod error;
pub mod legacy;
pub mod loader;

pub mod root;
pub mod validate;

pub use error::ConfigError;

pub use loader::{CliOverrides, Loader};
pub use root::RexConfig;

verus! {

/// The version of this library.
pub fn version() -> (r: &'static str)
    ensures
        r@ == "0.1.0"@,
        r@.len() > 0,
{
    proof {
        reveal_strlit("0.1.0");
    }
    "0.1.0"
}

} // verus!
