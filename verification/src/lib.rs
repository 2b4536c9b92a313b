//! Decoder for ACPI Machine Language (AML) byte code.
//!
//! AML is a compact, self-describing byte code used by firmware to describe
//! hardware resources, operation regions, and control methods. Each parser in
//! this crate answers one question: given a byte slice starting at an AML
//! construct boundary, what structured value does it denote, and how many
//! bytes did it consume? The namespace module accumulates decoded named
//! objects under their firmware-assigned scope paths.
//!
//! Every parser is specified against a mathematical decode function over
//! `Seq<u8>`; the executable code returns exactly what that function says,
//! for every input, and never panics. Nested constructs recurse through the
//! term parser, so every recursive entry point takes an explicit depth bound
//! and fails with a dedicated error kind when it is exceeded, rather than
//! relying on the process stack.

use vstd::prelude::*;

pub mod dataobj;
pub mod namedobj;
pub mod namespace;
pub mod namestring;
pub mod pkglength;
pub mod roundtrip;
pub mod termlist;
pub mod type1opcode;
pub mod type2opcode;

verus! {

/// Outcome of a failed decode attempt.
///
/// `AmlParseError` covers every structural mismatch: a wrong opcode or tag
/// byte, an invalid name-segment byte, a truncated slice, or a declared
/// extent that does not cover its own contents. `AmlDepthExceeded` is raised
/// when nested constructs recurse past the caller-supplied depth bound.
#[derive(Clone, Copy, Debug, PartialEq, Eq, Structural)]
pub enum AmlError {
    AmlParseError,
    AmlDepthExceeded,
}

/// The executable result `r` is exactly the decode `s` prescribed by a spec
/// parse function, with the decoded value abstracted through `view`.
pub open spec fn decodes_to<T, V>(
    r: Result<(T, usize), AmlError>,
    view: spec_fn(T) -> V,
    s: Result<(V, int), AmlError>,
) -> bool {
    match r {
        Ok((v, n)) => s == Ok::<(V, int), AmlError>((view(v), n as int)),
        Err(e) => s == Err::<(V, int), AmlError>(e),
    }
}

} // verus!
