//! The CRC-32 checksum that guards every chunk, supplied by the `crc` crate.

use vstd::prelude::*;

verus! {

/// What the IEEE CRC-32 checksum (reflected, polynomial `0xEDB88320`, the
/// variant zlib and PNG use) returns for a byte sequence. The algorithm
/// itself lives in the `crc` crate; contracts speak of its result by this
/// name.
pub uninterp spec fn crc32_of(data: Seq<u8>) -> u32;

/// Relies on the `crc` crate's CRC-32/ISO-HDLC (IEEE) checksum: the result
/// depends on the input bytes alone.
#[verifier::external_body]
pub(crate) fn crc32(data: &[u8]) -> (r: u32)
    ensures
        r == crc32_of(data@),
{
    crc::Crc::<u32>::new(&crc::CRC_32_ISO_HDLC).checksum(data)
}

} // verus!
