use vstd::prelude::*;

verus! {

/// The CRC-16/CCITT of `data` (polynomial 0x1021, initial value 0xFFFF, no
/// reflection, no final XOR), as the `crc` crate computes it.
pub uninterp spec fn crc_ccitt(data: Seq<u8>) -> u16;

/// Relies on `crc::Crc::<u16>::new(&CRC_16_XMODEM)`, `digest_with_initial(0xFFFF)`,
/// `Digest::update` and `Digest::finalize`: the checksum depends on the bytes alone.
#[verifier::external_body]
fn crc_ccitt_digest(data: &[u8]) -> (r: u16)
    ensures
        r == crc_ccitt(data@),
{
    let crc = crc::Crc::<u16>::new(&crc::CRC_16_XMODEM);
    let mut digest = crc.digest_with_initial(0xFFFF);
    digest.update(data);
    digest.finalize()
}

/// The ASH checksum of a frame's control byte and payload.
pub fn frame_checksum(frame: &[u8]) -> (r: u16)
    ensures
        r == crc_ccitt(frame@),
{
    crc_ccitt_digest(frame)
}

} // verus!
