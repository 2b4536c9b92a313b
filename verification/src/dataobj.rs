//! Inline literal data: integer constants of fixed width, and references to
//! method arguments and local variables.
//!
//! Dispatch is purely on the leading opcode byte; the integer payload is
//! little-endian, and the consumed width is fixed by the opcode alone.

use vstd::prelude::*;

use crate::{decodes_to, AmlError};

verus! {

/// An inline computational literal. The leading opcode byte alone determines
/// the variant and the encoded width.
#[derive(Clone, Copy, Debug, PartialEq, Eq, Structural)]
pub enum ComputationalData {
    Byte(u8),
    Word(u16),
    DWord(u32),
    QWord(u64),
    Zero,
    One,
    Ones,
}

/// A data object. Today only computational literals; the tiering leaves room
/// for package and string references without breaking existing variants.
#[derive(Clone, Copy, Debug, PartialEq, Eq, Structural)]
pub enum DataObj {
    ComputationalData(ComputationalData),
}

/// A data-ref object: pure type promotion over [`DataObj`], no extra bytes.
#[derive(Clone, Copy, Debug, PartialEq, Eq, Structural)]
pub enum DataRefObj {
    DataObj(DataObj),
}

/// A reference to one of a method's up to seven arguments (index 0..=6).
#[derive(Clone, Copy, Debug, PartialEq, Eq, Structural)]
pub struct ArgObj(pub u8);

/// A reference to one of a method's up to eight local variables (index 0..=7).
#[derive(Clone, Copy, Debug, PartialEq, Eq, Structural)]
pub struct LocalObj(pub u8);

/// Little-endian 16-bit value of two payload bytes.
pub open spec fn le_word(b0: u8, b1: u8) -> u16 {
    (b0 + b1 * 0x100) as u16
}

/// Little-endian 32-bit value of four payload bytes.
pub open spec fn le_dword(b0: u8, b1: u8, b2: u8, b3: u8) -> u32 {
    (b0 + b1 * 0x100 + b2 * 0x1_0000 + b3 * 0x100_0000) as u32
}

/// Little-endian 64-bit value of eight payload bytes.
pub open spec fn le_qword(b0: u8, b1: u8, b2: u8, b3: u8, b4: u8, b5: u8, b6: u8, b7: u8) -> u64 {
    (b0 + b1 * 0x100 + b2 * 0x1_0000 + b3 * 0x100_0000 + b4 * 0x1_0000_0000
        + b5 * 0x100_0000_0000 + b6 * 0x1_0000_0000_0000 + b7 * 0x100_0000_0000_0000) as u64
}

/// Decode of one computational literal at byte 0: the opcode byte selects the
/// variant, the little-endian payload follows, and the consumed width is
/// fixed (1, 2, 3, 5 or 9 bytes). Any other opcode, or a slice too short for
/// the indicated payload, is a parse failure.
pub open spec fn spec_parse_computational_data(data: Seq<u8>) -> Result<
    (ComputationalData, int),
    AmlError,
> {
    if data.len() == 0 {
        Err(AmlError::AmlParseError)
    } else if data[0] == 0x0A {
        if data.len() >= 2 {
            Ok((ComputationalData::Byte(data[1]), 2))
        } else {
            Err(AmlError::AmlParseError)
        }
    } else if data[0] == 0x0B {
        if data.len() >= 3 {
            Ok((ComputationalData::Word(le_word(data[1], data[2])), 3))
        } else {
            Err(AmlError::AmlParseError)
        }
    } else if data[0] == 0x0C {
        if data.len() >= 5 {
            Ok((ComputationalData::DWord(le_dword(data[1], data[2], data[3], data[4])), 5))
        } else {
            Err(AmlError::AmlParseError)
        }
    } else if data[0] == 0x0E {
        if data.len() >= 9 {
            Ok(
                (
                    ComputationalData::QWord(
                        le_qword(
                            data[1],
                            data[2],
                            data[3],
                            data[4],
                            data[5],
                            data[6],
                            data[7],
                            data[8],
                        ),
                    ),
                    9,
                ),
            )
        } else {
            Err(AmlError::AmlParseError)
        }
    } else if data[0] == 0x00 {
        Ok((ComputationalData::Zero, 1))
    } else if data[0] == 0x01 {
        Ok((ComputationalData::One, 1))
    } else if data[0] == 0xFF {
        Ok((ComputationalData::Ones, 1))
    } else {
        Err(AmlError::AmlParseError)
    }
}

/// Decode of one data object at byte 0: exactly the computational literals,
/// wrapped without any extra bytes.
pub open spec fn spec_parse_data_obj(data: Seq<u8>) -> Result<(DataObj, int), AmlError> {
    match spec_parse_computational_data(data) {
        Ok((v, n)) => Ok((DataObj::ComputationalData(v), n)),
        Err(e) => Err(e),
    }
}

/// Decode of one data-ref object at byte 0: exactly the data objects, wrapped
/// without any extra bytes.
pub open spec fn spec_parse_data_ref_obj(data: Seq<u8>) -> Result<(DataRefObj, int), AmlError> {
    match spec_parse_data_obj(data) {
        Ok((v, n)) => Ok((DataRefObj::DataObj(v), n)),
        Err(e) => Err(e),
    }
}

/// Decode of an argument reference: opcode bytes 0x68..=0x6E map to argument
/// indices 0..=6 and consume one byte; anything else is a parse failure.
pub open spec fn spec_parse_arg_obj(data: Seq<u8>) -> Result<(ArgObj, int), AmlError> {
    if data.len() >= 1 && 0x68 <= data[0] && data[0] <= 0x6E {
        Ok((ArgObj((data[0] - 0x68) as u8), 1))
    } else {
        Err(AmlError::AmlParseError)
    }
}

/// Decode of a local-variable reference: opcode bytes 0x60..=0x67 map to
/// local indices 0..=7 and consume one byte; anything else is a parse
/// failure.
pub open spec fn spec_parse_local_obj(data: Seq<u8>) -> Result<(LocalObj, int), AmlError> {
    if data.len() >= 1 && 0x60 <= data[0] && data[0] <= 0x67 {
        Ok((LocalObj((data[0] - 0x60) as u8), 1))
    } else {
        Err(AmlError::AmlParseError)
    }
}

fn parse_computational_data(data: &[u8]) -> (r: Result<(ComputationalData, usize), AmlError>)
    ensures
        decodes_to(r, |v: ComputationalData| v, spec_parse_computational_data(data@)),
{
    if data.len() == 0 {
        return Err(AmlError::AmlParseError);
    }
    match data[0] {
        0x0A => {
            if data.len() >= 2 {
                Ok((ComputationalData::Byte(data[1]), 2))
            } else {
                Err(AmlError::AmlParseError)
            }
        },
        0x0B => {
            if data.len() >= 3 {
                let res: u16 = (data[1] as u16) + (data[2] as u16) * 0x100;
                Ok((ComputationalData::Word(res), 3))
            } else {
                Err(AmlError::AmlParseError)
            }
        },
        0x0C => {
            if data.len() >= 5 {
                let res: u32 = (data[1] as u32) + (data[2] as u32) * 0x100 + (data[3] as u32)
                    * 0x1_0000 + (data[4] as u32) * 0x100_0000;
                Ok((ComputationalData::DWord(res), 5))
            } else {
                Err(AmlError::AmlParseError)
            }
        },
        0x0E => {
            if data.len() >= 9 {
                let res: u64 = (data[1] as u64) + (data[2] as u64) * 0x100 + (data[3] as u64)
                    * 0x1_0000 + (data[4] as u64) * 0x100_0000 + (data[5] as u64) * 0x1_0000_0000
                    + (data[6] as u64) * 0x100_0000_0000 + (data[7] as u64) * 0x1_0000_0000_0000 + (
                data[8] as u64) * 0x100_0000_0000_0000;
                Ok((ComputationalData::QWord(res), 9))
            } else {
                Err(AmlError::AmlParseError)
            }
        },
        0x00 => Ok((ComputationalData::Zero, 1)),
        0x01 => Ok((ComputationalData::One, 1)),
        0xFF => Ok((ComputationalData::Ones, 1)),
        _ => Err(AmlError::AmlParseError),
    }
}

/// Decode one data object starting at byte 0 of `data`.
pub fn parse_data_obj(data: &[u8]) -> (r: Result<(DataObj, usize), AmlError>)
    ensures
        decodes_to(r, |v: DataObj| v, spec_parse_data_obj(data@)),
{
    match parse_computational_data(data) {
        Ok((res, size)) => Ok((DataObj::ComputationalData(res), size)),
        Err(e) => Err(e),
    }
}

/// Decode one data-ref object starting at byte 0 of `data`.
pub fn parse_data_ref_obj(data: &[u8]) -> (r: Result<(DataRefObj, usize), AmlError>)
    ensures
        decodes_to(r, |v: DataRefObj| v, spec_parse_data_ref_obj(data@)),
{
    match parse_data_obj(data) {
        Ok((res, size)) => Ok((DataRefObj::DataObj(res), size)),
        Err(e) => Err(e),
    }
}

/// Decode one argument reference starting at byte 0 of `data`.
pub fn parse_arg_obj(data: &[u8]) -> (r: Result<(ArgObj, usize), AmlError>)
    ensures
        decodes_to(r, |v: ArgObj| v, spec_parse_arg_obj(data@)),
{
    if data.len() >= 1 && 0x68 <= data[0] && data[0] <= 0x6E {
        Ok((ArgObj(data[0] - 0x68), 1))
    } else {
        Err(AmlError::AmlParseError)
    }
}

/// Decode one local-variable reference starting at byte 0 of `data`.
pub fn parse_local_obj(data: &[u8]) -> (r: Result<(LocalObj, usize), AmlError>)
    ensures
        decodes_to(r, |v: LocalObj| v, spec_parse_local_obj(data@)),
{
    if data.len() >= 1 && 0x60 <= data[0] && data[0] <= 0x67 {
        Ok((LocalObj(data[0] - 0x60), 1))
    } else {
        Err(AmlError::AmlParseError)
    }
}

} // verus!
