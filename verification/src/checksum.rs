//! The checksum that guards the type and data of every chunk.

use vstd::prelude::*;

verus! {

/// The CRC-32/ISO-HDLC checksum of `bytes`, as the `crc` crate computes it
/// for its catalogue entry `CRC_32_ISO_HDLC`.
pub uninterp spec fn crc32(bytes: Seq<u8>) -> u32;

/// Calls `crc::Crc::<u32>::new` with `crc::CRC_32_ISO_HDLC` and then
/// `checksum` on `bytes`. The result depends on the bytes alone, and `crc32`
/// is the name for it; nothing more is claimed of it.
#[verifier::external_body]
pub(crate) fn checksum(bytes: &[u8]) -> (sum: u32)
    ensures
        sum == crc32(bytes@),
{
    crc::Crc::<u32>::new(&crc::CRC_32_ISO_HDLC).checksum(bytes)
}

} // verus!
