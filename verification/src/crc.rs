//! The CRC32 checksum of the Full transport, computed by `crc32fast`.

use vstd::prelude::*;

verus! {

/// The CRC32 (IEEE 802.3) checksum of a byte string, as `crc32fast::hash` computes it.
pub uninterp spec fn crc32(data: Seq<u8>) -> u32;

/// Calls `crc32fast::hash`, which depends on the bytes alone: the contract
/// only gives that result its name.
#[verifier::external_body]
pub(crate) fn crc32_hash(data: &[u8]) -> (sum: u32)
    ensures
        sum == crc32(data@),
{
    crc32fast::hash(data)
}

} // verus!
