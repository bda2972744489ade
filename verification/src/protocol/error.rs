//! Errors of the message codec.

use std::string::FromUtf8Error;
use vstd::prelude::*;

verus! {

/// Why a buffer could not be decoded into a message.
#[derive(Debug)]
pub enum RexError {
    /// The magic number or the checksum does not match.
    DataCorrupted,
    /// The header carries another protocol version.
    VersionMismatch { expected: u16, actual: u16 },
    /// A length field exceeds its limit.
    DataTooLarge { field: &'static str, size: usize, max: usize },
    /// The buffer does not yet hold the bytes that the header announces.
    InsufficientData,
    /// The title is not well-formed UTF-8.
    InvalidString(FromUtf8Error),
    /// The command number names no command.
    InvalidCommand(u32),
    /// The return-code number names no return code.
    InvalidRetCode(u32),
}

} // verus!
