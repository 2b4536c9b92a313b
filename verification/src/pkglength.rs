//! The variable-length "PkgLength" encoding that bounds the extent of
//! length-prefixed AML structures.
//!
//! The top two bits of the first byte give the number of follow bytes (0..=3).
//! With no follow bytes the remaining six bits are the whole length. With
//! follow bytes, the low four bits of the first byte are the least
//! significant bits and each follow byte supplies the next eight. The decoded
//! extent includes the length field's own bytes: a caller that decodes a
//! length-bounded body at an opcode byte takes the body to end at
//! `1 + extent` from the start of the whole construct.

use vstd::prelude::*;

use crate::AmlError;

verus! {

/// Decode of a PkgLength field at byte 0. Returns the total extent described
/// by the field (which counts the field's own bytes) and the number of bytes
/// the field itself occupies (1..=4). The only failure is a slice too short
/// for the encoding width announced by the first byte.
pub open spec fn spec_parse_pkg_length(data: Seq<u8>) -> Result<(int, int), AmlError> {
    if data.len() == 0 {
        Err(AmlError::AmlParseError)
    } else {
        let follow = data[0] / 64;
        if follow == 0 {
            Ok((data[0] as int, 1))
        } else if data.len() >= follow + 1 {
            if follow == 1 {
                Ok((data[0] % 16 + data[1] * 0x10, 2))
            } else if follow == 2 {
                Ok((data[0] % 16 + data[1] * 0x10 + data[2] * 0x1000, 3))
            } else {
                Ok((data[0] % 16 + data[1] * 0x10 + data[2] * 0x1000 + data[3] * 0x10_0000, 4))
            }
        } else {
            Err(AmlError::AmlParseError)
        }
    }
}

/// A successful PkgLength decode consumes at least one byte and no more than
/// the input, and the extent it describes never exceeds `0x0FFF_FFFF`.
pub proof fn lemma_pkg_length_bounds(data: Seq<u8>)
    ensures
        spec_parse_pkg_length(data) matches Ok((extent, n)) ==> 1 <= n <= data.len() && 0
            <= extent <= 0x0FFF_FFFF,
{
}

/// Decode one PkgLength field starting at byte 0 of `data`, returning
/// `(total_extent, bytes_consumed_by_the_field)`.
pub fn parse_pkg_length(data: &[u8]) -> (r: Result<(usize, usize), AmlError>)
    ensures
        match r {
            Ok((extent, n)) => spec_parse_pkg_length(data@) == Ok::<(int, int), AmlError>(
                (extent as int, n as int),
            ),
            Err(e) => spec_parse_pkg_length(data@) == Err::<(int, int), AmlError>(e),
        },
{
    if data.len() == 0 {
        return Err(AmlError::AmlParseError);
    }
    let lead = data[0];
    let follow = lead / 64;
    if follow == 0 {
        Ok((lead as usize, 1))
    } else if data.len() >= (follow as usize) + 1 {
        if follow == 1 {
            let extent: u32 = (lead % 16) as u32 + (data[1] as u32) * 0x10;
            Ok((extent as usize, 2))
        } else if follow == 2 {
            let extent: u32 = (lead % 16) as u32 + (data[1] as u32) * 0x10 + (data[2] as u32)
                * 0x1000;
            Ok((extent as usize, 3))
        } else {
            let extent: u32 = (lead % 16) as u32 + (data[1] as u32) * 0x10 + (data[2] as u32)
                * 0x1000 + (data[3] as u32) * 0x10_0000;
            Ok((extent as usize, 4))
        }
    } else {
        Err(AmlError::AmlParseError)
    }
}

} // verus!
