//! CRC-32 of the `crc32fast` crate.

use vstd::prelude::*;

verus! {

/// One bit step of the reflected CRC-32 register: shift right by one and,
/// when the bit shifted out was set, fold in the IEEE polynomial
/// (0x04C11DB7, reflected: 0xEDB88320).
pub open spec fn crc_shift(c: u32) -> u32 {
    if c & 1 == 1 {
        (c >> 1) ^ 0xEDB8_8320
    } else {
        c >> 1
    }
}

/// `n` bit steps of the register.
pub open spec fn crc_shift_n(c: u32, n: nat) -> u32
    decreases n,
{
    if n == 0 {
        c
    } else {
        crc_shift_n(crc_shift(c), (n - 1) as nat)
    }
}

/// The register after feeding the bytes, least significant bit first, from
/// the initial value 0xFFFFFFFF.
pub open spec fn crc_register(data: Seq<u8>) -> u32
    decreases data.len(),
{
    if data.len() == 0 {
        0xFFFF_FFFF
    } else {
        crc_shift_n(crc_register(data.drop_last()) ^ (data.last() as u32), 8)
    }
}

/// The CRC-32 (IEEE) checksum of a byte sequence: the final register,
/// inverted. Proofs that only compare checksums keep it folded.
#[verifier::opaque]
pub open spec fn crc32_value(data: Seq<u8>) -> u32 {
    crc_register(data) ^ 0xFFFF_FFFF
}

/// `crc32fast::hash`: the CRC-32 (IEEE) checksum of the bytes.
#[verifier::external_body]
pub(crate) fn crc32_of(data: &[u8]) -> (r: u32)
    ensures
        r == crc32_value(data@),
{
    crc32fast::hash(data)
}

} // verus!
