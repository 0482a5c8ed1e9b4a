use vstd::prelude::*;

verus! {

/// The CRC-32/ISO-HDLC checksum of `bytes`: the value that the `crc` crate
/// computes for them with its catalogue entry `CRC_32_ISO_HDLC`.
pub uninterp spec fn crc32_iso_hdlc(bytes: Seq<u8>) -> u32;

/// Computes the CRC-32/ISO-HDLC checksum of `bytes`.
///
/// Trusted: calls `crc::Crc::<u32>::checksum` on an instance made by
/// `crc::Crc::<u32>::new(&crc::CRC_32_ISO_HDLC)`. The contract claims only
/// that the value returned depends on the bytes alone, and calls it
/// `crc32_iso_hdlc`; the call reads no other state and returns for every
/// input.
#[verifier::external_body]
pub(crate) fn checksum(bytes: &[u8]) -> (r: u32)
    ensures
        r == crc32_iso_hdlc(bytes@),
{
    crc::Crc::<u32>::new(&crc::CRC_32_ISO_HDLC).checksum(bytes)
}

} // verus!
