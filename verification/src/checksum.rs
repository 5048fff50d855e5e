//! Integrity checksum for frame payloads.
//!
//! Frames carry a CRC-16/USB digest of the payload bytes (the address and
//! length bytes are not covered). The digest itself is computed by the `crc`
//! crate; this module gives its result a name, `crc16_usb_of`, that the rest
//! of the library's contracts speak of.

use vstd::prelude::*;

verus! {

/// The CRC-16/USB digest of a byte sequence, as computed by `crc`.
pub uninterp spec fn crc16_usb_of(data: Seq<u8>) -> u16;

/// Relies on crc::crc16::checksum_usb: the CRC-16/USB digest of the bytes,
/// a function of the bytes alone.
#[verifier::external_body]
pub(crate) fn calculate_crc(data: &[u8]) -> (r: u16)
    ensures
        r == crc16_usb_of(data@),
{
    crc::crc16::checksum_usb(data)
}

/// Checks a received checksum against the digest of `data`.
///
/// Returns the computed digest either way: `Ok` when it equals `crc_value`,
/// `Err` when it does not.
pub fn crc_valid(data: &[u8], crc_value: &u16) -> (r: Result<u16, u16>)
    ensures
        crc16_usb_of(data@) == *crc_value ==> r == Ok::<u16, u16>(crc16_usb_of(data@)),
        crc16_usb_of(data@) != *crc_value ==> r == Err::<u16, u16>(crc16_usb_of(data@)),
{
    let calculated_crc = calculate_crc(data);
    if calculated_crc == *crc_value {
        Ok(calculated_crc)
    } else {
        Err(calculated_crc)
    }
}

} // verus!
