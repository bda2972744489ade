//! Paths and the errors of reading a configuration file.

use std::path::PathBuf;
use vstd::prelude::*;

verus! {

/// `std::path::PathBuf`, the location of a configuration file.
#[verifier::external_type_specification]
#[verifier::external_body]
pub struct ExPathBuf(PathBuf);

/// `toml::de::Error`, why a TOML document did not parse.
#[verifier::external_type_specification]
#[verifier::external_body]
pub struct ExTomlError(toml::de::Error);

/// `std::io::Error`, why a file could not be read.
#[verifier::external_type_specification]
#[verifier::external_body]
pub struct ExIoError(std::io::Error);

/// The path that `PathBuf::from` makes of a text.
pub uninterp spec fn path_of_text(s: Seq<char>) -> PathBuf;

/// `PathBuf::from(&str)`: the path spelled by the text. The same text always
/// gives the same path.
#[verifier::external_body]
pub(crate) fn path_from_str(s: &str) -> (r: PathBuf)
    ensures
        r == path_of_text(s@),
{
    PathBuf::from(s)
}

/// `<PathBuf as Debug>::fmt`: the path, quoted and escaped.
///
/// Nothing is stated of the text: a path is not a plain value here.
#[verifier::external_body]
pub(crate) fn path_debug_string(p: &PathBuf) -> String {
    format!("{:?}", p)
}

/// `<toml::de::Error as Display>::fmt`: the parser's message, with the line
/// and column where it stopped.
///
/// Nothing is stated of the text: the error is opaque here.
#[verifier::external_body]
pub(crate) fn toml_error_string(e: &toml::de::Error) -> String {
    format!("{}", e)
}

/// `<std::io::Error as Display>::fmt`: the operating system's message.
///
/// Nothing is stated of the text: it comes from the machine.
#[verifier::external_body]
pub(crate) fn io_error_string(e: &std::io::Error) -> String {
    format!("{}", e)
}

} // verus!

verus! {

/// `<PathBuf as Clone>::clone`: the same path.
pub assume_specification[ <PathBuf as Clone>::clone ](p: &PathBuf) -> (r: PathBuf)
    ensures
        r == *p,
;

} // verus!
