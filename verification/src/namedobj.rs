//! Named-object declarations: object forms that bind a name to a semantic
//! object and are registered for namespace insertion. The one form decoded
//! today is the Operation Region declaration.

use vstd::prelude::*;
use vstd::slice::slice_subrange;

use crate::namestring::{parse_name_string, spec_parse_name_string};
use crate::termlist::{
    parse_term_arg, spec_parse_term_arg, term_arg_view, TermArg, TermArgView,
};
use crate::{decodes_to, AmlError};

verus! {

/// The address space an operation region gives access to: a well-known space
/// (byte values 0x00..=0x09) or a vendor-defined one (0x80..=0xFF). The tag
/// is carried through, never interpreted, by the decoder.
#[derive(Clone, Copy, Debug, PartialEq, Eq, Structural)]
pub enum RegionSpace {
    SystemMemory,
    SystemIO,
    PciConfig,
    EmbeddedControl,
    SMBus,
    SystemCmos,
    PciBarTarget,
    Ipmi,
    GeneralPurposeIo,
    GenericSerialBus,
    UserDefined(u8),
}

/// The region space a byte in the two accepted ranges denotes.
pub open spec fn spec_region_space(b: u8) -> RegionSpace {
    if b == 0x00 {
        RegionSpace::SystemMemory
    } else if b == 0x01 {
        RegionSpace::SystemIO
    } else if b == 0x02 {
        RegionSpace::PciConfig
    } else if b == 0x03 {
        RegionSpace::EmbeddedControl
    } else if b == 0x04 {
        RegionSpace::SMBus
    } else if b == 0x05 {
        RegionSpace::SystemCmos
    } else if b == 0x06 {
        RegionSpace::PciBarTarget
    } else if b == 0x07 {
        RegionSpace::Ipmi
    } else if b == 0x08 {
        RegionSpace::GeneralPurposeIo
    } else if b == 0x09 {
        RegionSpace::GenericSerialBus
    } else {
        RegionSpace::UserDefined(b)
    }
}

fn region_space_from_byte(b: u8) -> (r: RegionSpace)
    ensures
        r == spec_region_space(b),
{
    if b == 0x00 {
        RegionSpace::SystemMemory
    } else if b == 0x01 {
        RegionSpace::SystemIO
    } else if b == 0x02 {
        RegionSpace::PciConfig
    } else if b == 0x03 {
        RegionSpace::EmbeddedControl
    } else if b == 0x04 {
        RegionSpace::SMBus
    } else if b == 0x05 {
        RegionSpace::SystemCmos
    } else if b == 0x06 {
        RegionSpace::PciBarTarget
    } else if b == 0x07 {
        RegionSpace::Ipmi
    } else if b == 0x08 {
        RegionSpace::GeneralPurposeIo
    } else if b == 0x09 {
        RegionSpace::GenericSerialBus
    } else {
        RegionSpace::UserDefined(b)
    }
}

/// A decoded named object: today, an operation-region descriptor binding a
/// name to an address-space window given by offset and length terms. The
/// descriptor is the payload later inserted into the namespace tree under the
/// decoded name.
#[derive(Debug, PartialEq)]
pub enum NamedObj {
    DefOpRegion { name: String, region: RegionSpace, offset: TermArg, len: TermArg },
}

/// Mathematical image of a [`NamedObj`].
pub enum NamedObjView {
    DefOpRegion { name: Seq<char>, region: RegionSpace, offset: TermArgView, len: TermArgView },
}

pub open spec fn named_obj_view(o: NamedObj) -> NamedObjView
    decreases o,
{
    match o {
        NamedObj::DefOpRegion { name, region, offset, len } => NamedObjView::DefOpRegion {
            name: name@,
            region,
            offset: term_arg_view(offset),
            len: term_arg_view(len),
        },
    }
}

/// Decode of an operation-region declaration at byte 0: the two-byte extended
/// opcode prefix 0x5B 0x80, a name string, one region-space byte that must
/// lie in the well-known range 0x00..=0x09 or the vendor range 0x80..=0xFF,
/// then offset and length term arguments. Consumed is the prefix, the name,
/// the space byte and both terms.
pub open spec fn spec_parse_def_op_region(data: Seq<u8>, depth: nat) -> Result<
    (NamedObjView, int),
    AmlError,
>
    decreases depth, data.len(), 0int,
{
    if data.len() < 2 || data[0] != 0x5B || data[1] != 0x80 {
        Err(AmlError::AmlParseError)
    } else if depth == 0 {
        Err(AmlError::AmlDepthExceeded)
    } else {
        match spec_parse_name_string(data.skip(2)) {
            Err(e) => Err(e),
            Ok((name, nl)) => if 2 + nl < data.len() {
                let space = data[2 + nl];
                if space <= 0x09 || 0x80 <= space {
                    match spec_parse_term_arg(data.skip(3 + nl), (depth - 1) as nat) {
                        Err(e) => Err(e),
                        Ok((offset, ol)) => match spec_parse_term_arg(
                            data.skip(3 + nl + ol),
                            (depth - 1) as nat,
                        ) {
                            Err(e) => Err(e),
                            Ok((len, ll)) => Ok(
                                (
                                    NamedObjView::DefOpRegion {
                                        name,
                                        region: spec_region_space(space),
                                        offset,
                                        len,
                                    },
                                    3 + nl + ol + ll,
                                ),
                            ),
                        },
                    }
                } else {
                    Err(AmlError::AmlParseError)
                }
            } else {
                Err(AmlError::AmlParseError)
            },
        }
    }
}

/// Decode of a named object at byte 0: exactly the operation-region form.
pub open spec fn spec_parse_named_obj(data: Seq<u8>, depth: nat) -> Result<
    (NamedObjView, int),
    AmlError,
>
    decreases depth, data.len(), 1int,
{
    spec_parse_def_op_region(data, depth)
}

fn parse_def_op_region(data: &[u8], depth: u32) -> (r: Result<(NamedObj, usize), AmlError>)
    ensures
        decodes_to(
            r,
            |o: NamedObj| named_obj_view(o),
            spec_parse_def_op_region(data@, depth as nat),
        ),
        r matches Ok((v, n)) ==> 1 <= n <= data@.len(),
    decreases depth, data@.len(), 0int,
{
    if data.len() < 2 || data[0] != 0x5B || data[1] != 0x80 {
        return Err(AmlError::AmlParseError);
    }
    if depth == 0 {
        return Err(AmlError::AmlDepthExceeded);
    }
    let tail = slice_subrange(data, 2, data.len());
    assert(tail@ =~= data@.skip(2));
    match parse_name_string(tail) {
        Err(e) => Err(e),
        Ok((name, nl)) => {
            if 2 + nl < data.len() {
                let space = data[2 + nl];
                if space <= 0x09 || 0x80 <= space {
                    let region = region_space_from_byte(space);
                    let tail2 = slice_subrange(data, 3 + nl, data.len());
                    assert(tail2@ =~= data@.skip(3 + nl as int));
                    match parse_term_arg(tail2, depth - 1) {
                        Err(e) => Err(e),
                        Ok((offset, ol)) => {
                            let tail3 = slice_subrange(data, 3 + nl + ol, data.len());
                            assert(tail3@ =~= data@.skip(3 + nl + ol as int));
                            match parse_term_arg(tail3, depth - 1) {
                                Err(e) => Err(e),
                                Ok((len, ll)) => Ok(
                                    (
                                        NamedObj::DefOpRegion { name, region, offset, len },
                                        3 + nl + ol + ll,
                                    ),
                                ),
                            }
                        },
                    }
                } else {
                    Err(AmlError::AmlParseError)
                }
            } else {
                Err(AmlError::AmlParseError)
            }
        },
    }
}

/// Decode one named object starting at byte 0 of `data`, recursing at most
/// `depth` levels into sub-terms.
pub fn parse_named_obj(data: &[u8], depth: u32) -> (r: Result<(NamedObj, usize), AmlError>)
    ensures
        decodes_to(
            r,
            |o: NamedObj| named_obj_view(o),
            spec_parse_named_obj(data@, depth as nat),
        ),
        r matches Ok((v, n)) ==> 1 <= n <= data@.len(),
    decreases depth, data@.len(), 1int,
{
    parse_def_op_region(data, depth)
}

} // verus!
