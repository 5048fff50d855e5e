//! Decoding of frame fields from a byte buffer.
//!
//! The wire layout is `[address][length][payload...][crc_lo][crc_hi]`: the
//! address value sits in the top nibble of the first byte, the length byte
//! counts the payload bytes, and the checksum is little-endian. A buffer
//! that is merely too short is reported as `Incomplete`, which callers must
//! treat as "wait for more data", never as corruption.
//!
//! Every function returns how many bytes it consumed, so a caller can keep
//! the undecoded remainder.

use vstd::prelude::*;
use vstd::slice::slice_index_get;
use vstd::slice::slice_subrange;
use vstd::slice::slice_to_vec;

use crate::DataFrame;
use crate::FrameModel;

verus! {

/// Failure to decode. `Incomplete` means the buffer does not yet hold
/// enough bytes; it is the expected state while a frame is still arriving.
#[derive(Clone, Copy, Debug, PartialEq, Eq, Structural)]
pub enum ParseError {
    Incomplete,
}

/// What a byte buffer decodes to: the frame fields together with the number
/// of bytes they occupy, or nothing when the buffer is still too short.
pub open spec fn spec_parse_frame(b: Seq<u8>) -> Option<(FrameModel, int)> {
    if b.len() < 2 {
        None
    } else if b.len() < 4 + b[1] {
        None
    } else {
        Some(
            (
                FrameModel {
                    address: b[0] >> 4,
                    payload: b.subrange(2, 2 + b[1]),
                    checksum: ((b[2 + b[1]] as int) + 256 * (b[3 + b[1]] as int)) as u16,
                },
                4 + b[1],
            ),
        )
    }
}

/// Reads the address value from the top nibble of the first byte.
/// Returns the bytes consumed and the value.
pub fn parse_address(i: &[u8]) -> (r: Result<(usize, u8), ParseError>)
    ensures
        i@.len() == 0 ==> r == Err::<(usize, u8), ParseError>(ParseError::Incomplete),
        i@.len() > 0 ==> r == Ok::<(usize, u8), ParseError>((1usize, i@[0] >> 4)),
{
    if i.len() == 0 {
        Err(ParseError::Incomplete)
    } else {
        Ok((1, *slice_index_get(i, 0) >> 4))
    }
}

/// Reads the length byte verbatim. Returns the bytes consumed and the value.
fn parse_datalength(i: &[u8]) -> (r: Result<(usize, u8), ParseError>)
    ensures
        i@.len() == 0 ==> r == Err::<(usize, u8), ParseError>(ParseError::Incomplete),
        i@.len() > 0 ==> r == Ok::<(usize, u8), ParseError>((1usize, i@[0])),
{
    if i.len() == 0 {
        Err(ParseError::Incomplete)
    } else {
        Ok((1, *slice_index_get(i, 0)))
    }
}

/// Reads the two header bytes and returns only the payload length, so the
/// fast path can learn how many bytes to expect without touching them.
pub fn parse_only_datalength(i: &[u8]) -> (r: Result<(usize, u8), ParseError>)
    ensures
        i@.len() < 2 ==> r == Err::<(usize, u8), ParseError>(ParseError::Incomplete),
        i@.len() >= 2 ==> r == Ok::<(usize, u8), ParseError>((2usize, i@[1])),
{
    let (used, _address) = match parse_address(i) {
        Ok(v) => v,
        Err(e) => {
            return Err(e);
        },
    };
    let rest = slice_subrange(i, used, i.len());
    let (_, data_len) = match parse_datalength(rest) {
        Ok(v) => v,
        Err(e) => {
            return Err(e);
        },
    };
    Ok((2, data_len))
}

/// Reads the length byte and then exactly that many payload bytes.
/// Returns the bytes consumed and the payload slice.
fn parse_app_data<'a>(i: &'a [u8]) -> (r: Result<(usize, &'a [u8]), ParseError>)
    ensures
        i@.len() == 0 || i@.len() < 1 + i@[0] ==> r == Err::<(usize, &'a [u8]), ParseError>(
            ParseError::Incomplete,
        ),
        i@.len() > 0 && i@.len() >= 1 + i@[0] ==> (r matches Ok(p) && p.0 == 1 + i@[0]
            && p.1@ == i@.subrange(1, 1 + i@[0])),
{
    let (used, data_len) = match parse_datalength(i) {
        Ok(v) => v,
        Err(e) => {
            return Err(e);
        },
    };
    let total: usize = used + data_len as usize;
    if i.len() < total {
        return Err(ParseError::Incomplete);
    }
    let payload = slice_subrange(i, used, total);
    Ok((total, payload))
}

/// Reads the two little-endian checksum bytes.
/// Returns the bytes consumed and the value.
pub fn parse_crc(i: &[u8]) -> (r: Result<(usize, u16), ParseError>)
    ensures
        i@.len() < 2 ==> r == Err::<(usize, u16), ParseError>(ParseError::Incomplete),
        i@.len() >= 2 ==> (r matches Ok(p) && p.0 == 2 && p.1 == (i@[0] + 256 * (i@[1]
            as int)) as u16),
{
    if i.len() < 2 {
        return Err(ParseError::Incomplete);
    }
    let lo = *slice_index_get(i, 0);
    let hi = *slice_index_get(i, 1);
    let value: u16 = lo as u16 + (hi as u16) * 256;
    Ok((2, value))
}

/// Decodes a whole frame and returns only its checksum field, with the
/// bytes consumed.
pub fn parse_only_crc(i: &[u8]) -> (r: Result<(usize, u16), ParseError>)
    ensures
        match spec_parse_frame(i@) {
            Some(pf) => r matches Ok(p) && p.0 == pf.1 && p.1 == pf.0.checksum,
            None => r == Err::<(usize, u16), ParseError>(ParseError::Incomplete),
        },
{
    match parse_dataframe_noclone(i) {
        Ok((used, (_address, _payload, crc_value))) => Ok((used, crc_value)),
        Err(e) => Err(e),
    }
}

/// Decodes a whole frame without copying the payload: the fast,
/// allocation-free path. Returns the bytes consumed and the fields.
pub fn parse_dataframe_noclone<'a>(i: &'a [u8]) -> (r: Result<
    (usize, (u8, &'a [u8], u16)),
    ParseError,
>)
    ensures
        match spec_parse_frame(i@) {
            Some(pf) => r matches Ok(p) && p.0 == pf.1 && p.1.0 == pf.0.address && p.1.1@
                == pf.0.payload && p.1.2 == pf.0.checksum,
            None => r == Err::<(usize, (u8, &'a [u8], u16)), ParseError>(ParseError::Incomplete),
        },
{
    let (used_addr, address) = match parse_address(i) {
        Ok(v) => v,
        Err(e) => {
            return Err(e);
        },
    };
    let after_addr = slice_subrange(i, used_addr, i.len());
    let (used_data, payload) = match parse_app_data(after_addr) {
        Ok(v) => v,
        Err(e) => {
            return Err(e);
        },
    };
    let after_data = slice_subrange(after_addr, used_data, after_addr.len());
    let (used_crc, crc_value) = match parse_crc(after_data) {
        Ok(v) => v,
        Err(e) => {
            return Err(e);
        },
    };
    proof {
        assert(payload@ =~= i@.subrange(2, 2 + i@[1]));
        assert(after_data@ =~= i@.subrange(2 + i@[1], i@.len() as int));
    }
    Ok((used_addr + used_data + used_crc, (address, payload, crc_value)))
}

/// Decodes a whole frame and copies the payload into an owned `DataFrame`:
/// the slow path that hands data to the application layer. Returns the
/// bytes consumed and the frame.
pub fn parse_dataframe(i: &[u8]) -> (r: Result<(usize, DataFrame), ParseError>)
    ensures
        match spec_parse_frame(i@) {
            Some(pf) => r matches Ok(p) && p.0 == pf.1 && p.1@ == pf.0,
            None => r == Err::<(usize, DataFrame), ParseError>(ParseError::Incomplete),
        },
{
    match parse_dataframe_noclone(i) {
        Ok((used, (address, payload, crc_value))) => {
            let data: Vec<u8> = slice_to_vec(payload);
            Ok((used, DataFrame::from_parts(address, data, crc_value)))
        },
        Err(e) => Err(e),
    }
}

} // verus!
