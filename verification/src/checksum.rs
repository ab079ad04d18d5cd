//! The integrity checksum of a record: CRC-32 with the ISO-HDLC parameters,
//! computed by the `crc` crate.

use vstd::prelude::*;

verus! {

/// The CRC-32/ISO-HDLC checksum of `bytes`.
///
/// The value is whatever the `crc` crate returns for these bytes; nothing of
/// the algorithm is restated here.
pub uninterp spec fn crc32_iso_hdlc(bytes: Seq<u8>) -> u32;

/// Computes the checksum of `bytes` with `crc::Crc::<u32>::checksum`, on an
/// instance made by `crc::Crc::<u32>::new` for `crc::CRC_32_ISO_HDLC`.
///
/// Trusted: the result is taken to be a function of the bytes alone, which is
/// what [`crc32_iso_hdlc`] names.
#[verifier::external_body]
pub(crate) fn checksum(bytes: &[u8]) -> (sum: u32)
    ensures
        sum == crc32_iso_hdlc(bytes@),
{
    crc::Crc::<u32>::new(&crc::CRC_32_ISO_HDLC).checksum(bytes)
}

} // verus!
