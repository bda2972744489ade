//! The library's only points of contact with code that Verus does not check:
//! declarations of outside types and thin wrappers around outside functions.
//! Each item states what the library relies on, as the outside crate's source
//! or documentation shows it.

pub mod aligned;
pub mod buffer;
pub mod checksum;
pub mod clock;
pub mod errors;
pub mod hashing;
pub mod maps;
pub mod random;
pub mod text;
