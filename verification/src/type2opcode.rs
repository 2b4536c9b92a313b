//! Type-2 opcodes: expression-level operators with a return value.
//!
//! Dispatch is on the leading opcode byte; no fixed opcode is a valid name
//! lead byte, so the method-invocation fallback (a bare name reference) is
//! tried exactly when no fixed-opcode operator applies. Every operator's
//! consumed length is additive over the opcode byte, its operand lengths and,
//! where applicable, its target length; the buffer form is bounded by a
//! PkgLength extent instead.

use vstd::prelude::*;
use vstd::slice::{slice_subrange, slice_to_vec};

use crate::namestring::{
    parse_super_name, parse_target, spec_parse_super_name, SuperName, SuperNameView, Target,
};
use crate::pkglength::{parse_pkg_length, spec_parse_pkg_length};
use crate::termlist::{
    method_invocation_view, parse_method_invocation, parse_term_arg, spec_parse_method_invocation,
    spec_parse_term_arg, term_arg_view, MethodInvocation, MethodInvocationView, TermArg,
    TermArgView,
};
use crate::{decodes_to, AmlError};

verus! {

/// A decoded Type-2 expression.
#[derive(Debug, PartialEq)]
pub enum Type2OpCode {
    DefBuffer { buffer_size: TermArg, byte_list: Vec<u8> },
    DefDerefOf(TermArg),
    DefIncrement(SuperName),
    DefIndex { obj: TermArg, idx: TermArg, target: Target },
    DefLEqual { lhs: TermArg, rhs: TermArg },
    DefLLess { lhs: TermArg, rhs: TermArg },
    DefSizeOf(SuperName),
    DefStore { operand: TermArg, target: SuperName },
    DefSubtract { minuend: TermArg, subtrahend: TermArg, target: Target },
    DefToBuffer { operand: TermArg, target: Target },
    DefToHexString { operand: TermArg, target: Target },
    MethodInvocation(MethodInvocation),
}

/// Mathematical image of a [`Type2OpCode`].
pub enum Type2OpCodeView {
    DefBuffer { buffer_size: TermArgView, byte_list: Seq<u8> },
    DefDerefOf(TermArgView),
    DefIncrement(SuperNameView),
    DefIndex { obj: TermArgView, idx: TermArgView, target: SuperNameView },
    DefLEqual { lhs: TermArgView, rhs: TermArgView },
    DefLLess { lhs: TermArgView, rhs: TermArgView },
    DefSizeOf(SuperNameView),
    DefStore { operand: TermArgView, target: SuperNameView },
    DefSubtract { minuend: TermArgView, subtrahend: TermArgView, target: SuperNameView },
    DefToBuffer { operand: TermArgView, target: SuperNameView },
    DefToHexString { operand: TermArgView, target: SuperNameView },
    MethodInvocation(MethodInvocationView),
}

pub open spec fn type2_opcode_view(t: Type2OpCode) -> Type2OpCodeView
    decreases t,
{
    match t {
        Type2OpCode::DefBuffer { buffer_size, byte_list } => Type2OpCodeView::DefBuffer {
            buffer_size: term_arg_view(buffer_size),
            byte_list: byte_list@,
        },
        Type2OpCode::DefDerefOf(t) => Type2OpCodeView::DefDerefOf(term_arg_view(t)),
        Type2OpCode::DefIncrement(s) => Type2OpCodeView::DefIncrement(s@),
        Type2OpCode::DefIndex { obj, idx, target } => Type2OpCodeView::DefIndex {
            obj: term_arg_view(obj),
            idx: term_arg_view(idx),
            target: target@,
        },
        Type2OpCode::DefLEqual { lhs, rhs } => Type2OpCodeView::DefLEqual {
            lhs: term_arg_view(lhs),
            rhs: term_arg_view(rhs),
        },
        Type2OpCode::DefLLess { lhs, rhs } => Type2OpCodeView::DefLLess {
            lhs: term_arg_view(lhs),
            rhs: term_arg_view(rhs),
        },
        Type2OpCode::DefSizeOf(s) => Type2OpCodeView::DefSizeOf(s@),
        Type2OpCode::DefStore { operand, target } => Type2OpCodeView::DefStore {
            operand: term_arg_view(operand),
            target: target@,
        },
        Type2OpCode::DefSubtract { minuend, subtrahend, target } => Type2OpCodeView::DefSubtract {
            minuend: term_arg_view(minuend),
            subtrahend: term_arg_view(subtrahend),
            target: target@,
        },
        Type2OpCode::DefToBuffer { operand, target } => Type2OpCodeView::DefToBuffer {
            operand: term_arg_view(operand),
            target: target@,
        },
        Type2OpCode::DefToHexString { operand, target } => Type2OpCodeView::DefToHexString {
            operand: term_arg_view(operand),
            target: target@,
        },
        Type2OpCode::MethodInvocation(m) => Type2OpCodeView::MethodInvocation(
            method_invocation_view(m),
        ),
    }
}

/// Decode of a buffer construction at byte 0: opcode 0x11, a PkgLength extent
/// holding a size term argument and then the raw byte list filling the rest
/// of the extent; the byte list is opaque payload, not further decoded.
pub open spec fn spec_parse_def_buffer(data: Seq<u8>, depth: nat) -> Result<
    (Type2OpCodeView, int),
    AmlError,
>
    decreases depth, data.len(), 0int,
{
    if data.len() < 1 || data[0] != 0x11 {
        Err(AmlError::AmlParseError)
    } else if depth == 0 {
        Err(AmlError::AmlDepthExceeded)
    } else {
        match spec_parse_pkg_length(data.skip(1)) {
            Err(e) => Err(e),
            Ok((pkg_len, k)) => if k <= pkg_len && 1 + pkg_len <= data.len() {
                let body = data.subrange(1 + k, 1 + pkg_len);
                match spec_parse_term_arg(body, (depth - 1) as nat) {
                    Err(e) => Err(e),
                    Ok((buffer_size, sn)) => if sn <= body.len() {
                        Ok(
                            (
                                Type2OpCodeView::DefBuffer {
                                    buffer_size,
                                    byte_list: body.skip(sn),
                                },
                                1 + pkg_len,
                            ),
                        )
                    } else {
                        Err(AmlError::AmlParseError)
                    },
                }
            } else {
                Err(AmlError::AmlParseError)
            },
        }
    }
}

/// Decode of a dereference at byte 0: opcode 0x83, one term argument.
pub open spec fn spec_parse_def_deref_of(data: Seq<u8>, depth: nat) -> Result<
    (Type2OpCodeView, int),
    AmlError,
>
    decreases depth, data.len(), 0int,
{
    if data.len() < 1 || data[0] != 0x83 {
        Err(AmlError::AmlParseError)
    } else if depth == 0 {
        Err(AmlError::AmlDepthExceeded)
    } else {
        match spec_parse_term_arg(data.skip(1), (depth - 1) as nat) {
            Ok((t, n)) => Ok((Type2OpCodeView::DefDerefOf(t), 1 + n)),
            Err(e) => Err(e),
        }
    }
}

/// Decode of an increment at byte 0: opcode 0x75, one super name naming the
/// object mutated in place (the mutation itself is execution-stage work).
pub open spec fn spec_parse_def_increment(data: Seq<u8>, depth: nat) -> Result<
    (Type2OpCodeView, int),
    AmlError,
>
    decreases depth, data.len(), 0int,
{
    if data.len() < 1 || data[0] != 0x75 {
        Err(AmlError::AmlParseError)
    } else {
        match spec_parse_super_name(data.skip(1)) {
            Ok((s, n)) => Ok((Type2OpCodeView::DefIncrement(s), 1 + n)),
            Err(e) => Err(e),
        }
    }
}

/// Decode of an indexed reference at byte 0: opcode 0x88, an object term
/// argument, an index term argument, and a target.
pub open spec fn spec_parse_def_index(data: Seq<u8>, depth: nat) -> Result<
    (Type2OpCodeView, int),
    AmlError,
>
    decreases depth, data.len(), 0int,
{
    if data.len() < 1 || data[0] != 0x88 {
        Err(AmlError::AmlParseError)
    } else if depth == 0 {
        Err(AmlError::AmlDepthExceeded)
    } else {
        match spec_parse_term_arg(data.skip(1), (depth - 1) as nat) {
            Err(e) => Err(e),
            Ok((obj, on)) => match spec_parse_term_arg(data.skip(1 + on), (depth - 1) as nat) {
                Err(e) => Err(e),
                Ok((idx, ixn)) => match spec_parse_super_name(data.skip(1 + on + ixn)) {
                    Err(e) => Err(e),
                    Ok((target, tn)) => Ok(
                        (Type2OpCodeView::DefIndex { obj, idx, target }, 1 + on + ixn + tn),
                    ),
                },
            },
        }
    }
}

/// Decode of a logical-equal comparison at byte 0: opcode 0x93, two term
/// arguments.
pub open spec fn spec_parse_def_lequal(data: Seq<u8>, depth: nat) -> Result<
    (Type2OpCodeView, int),
    AmlError,
>
    decreases depth, data.len(), 0int,
{
    if data.len() < 1 || data[0] != 0x93 {
        Err(AmlError::AmlParseError)
    } else if depth == 0 {
        Err(AmlError::AmlDepthExceeded)
    } else {
        match spec_parse_term_arg(data.skip(1), (depth - 1) as nat) {
            Err(e) => Err(e),
            Ok((lhs, ln)) => match spec_parse_term_arg(data.skip(1 + ln), (depth - 1) as nat) {
                Err(e) => Err(e),
                Ok((rhs, rn)) => Ok((Type2OpCodeView::DefLEqual { lhs, rhs }, 1 + ln + rn)),
            },
        }
    }
}

/// Decode of a logical-less comparison at byte 0: opcode 0x95, two term
/// arguments.
pub open spec fn spec_parse_def_lless(data: Seq<u8>, depth: nat) -> Result<
    (Type2OpCodeView, int),
    AmlError,
>
    decreases depth, data.len(), 0int,
{
    if data.len() < 1 || data[0] != 0x95 {
        Err(AmlError::AmlParseError)
    } else if depth == 0 {
        Err(AmlError::AmlDepthExceeded)
    } else {
        match spec_parse_term_arg(data.skip(1), (depth - 1) as nat) {
            Err(e) => Err(e),
            Ok((lhs, ln)) => match spec_parse_term_arg(data.skip(1 + ln), (depth - 1) as nat) {
                Err(e) => Err(e),
                Ok((rhs, rn)) => Ok((Type2OpCodeView::DefLLess { lhs, rhs }, 1 + ln + rn)),
            },
        }
    }
}

/// Decode of a size-of at byte 0: opcode 0x87, one super name.
pub open spec fn spec_parse_def_size_of(data: Seq<u8>, depth: nat) -> Result<
    (Type2OpCodeView, int),
    AmlError,
>
    decreases depth, data.len(), 0int,
{
    if data.len() < 1 || data[0] != 0x87 {
        Err(AmlError::AmlParseError)
    } else {
        match spec_parse_super_name(data.skip(1)) {
            Ok((s, n)) => Ok((Type2OpCodeView::DefSizeOf(s), 1 + n)),
            Err(e) => Err(e),
        }
    }
}

/// Decode of a store at byte 0: opcode 0x70, an operand term argument and a
/// super-name target.
pub open spec fn spec_parse_def_store(data: Seq<u8>, depth: nat) -> Result<
    (Type2OpCodeView, int),
    AmlError,
>
    decreases depth, data.len(), 0int,
{
    if data.len() < 1 || data[0] != 0x70 {
        Err(AmlError::AmlParseError)
    } else if depth == 0 {
        Err(AmlError::AmlDepthExceeded)
    } else {
        match spec_parse_term_arg(data.skip(1), (depth - 1) as nat) {
            Err(e) => Err(e),
            Ok((operand, on)) => match spec_parse_super_name(data.skip(1 + on)) {
                Err(e) => Err(e),
                Ok((target, tn)) => Ok((Type2OpCodeView::DefStore { operand, target }, 1 + on + tn)),
            },
        }
    }
}

/// Decode of a subtraction at byte 0: opcode 0x74, minuend and subtrahend
/// term arguments and a target.
pub open spec fn spec_parse_def_subtract(data: Seq<u8>, depth: nat) -> Result<
    (Type2OpCodeView, int),
    AmlError,
>
    decreases depth, data.len(), 0int,
{
    if data.len() < 1 || data[0] != 0x74 {
        Err(AmlError::AmlParseError)
    } else if depth == 0 {
        Err(AmlError::AmlDepthExceeded)
    } else {
        match spec_parse_term_arg(data.skip(1), (depth - 1) as nat) {
            Err(e) => Err(e),
            Ok((minuend, mn)) => match spec_parse_term_arg(data.skip(1 + mn), (depth - 1) as nat) {
                Err(e) => Err(e),
                Ok((subtrahend, sn)) => match spec_parse_super_name(data.skip(1 + mn + sn)) {
                    Err(e) => Err(e),
                    Ok((target, tn)) => Ok(
                        (
                            Type2OpCodeView::DefSubtract { minuend, subtrahend, target },
                            1 + mn + sn + tn,
                        ),
                    ),
                },
            },
        }
    }
}

/// Decode of a to-buffer coercion at byte 0: opcode 0x96, an operand term
/// argument and a target.
pub open spec fn spec_parse_def_to_buffer(data: Seq<u8>, depth: nat) -> Result<
    (Type2OpCodeView, int),
    AmlError,
>
    decreases depth, data.len(), 0int,
{
    if data.len() < 1 || data[0] != 0x96 {
        Err(AmlError::AmlParseError)
    } else if depth == 0 {
        Err(AmlError::AmlDepthExceeded)
    } else {
        match spec_parse_term_arg(data.skip(1), (depth - 1) as nat) {
            Err(e) => Err(e),
            Ok((operand, on)) => match spec_parse_super_name(data.skip(1 + on)) {
                Err(e) => Err(e),
                Ok((target, tn)) => Ok(
                    (Type2OpCodeView::DefToBuffer { operand, target }, 1 + on + tn),
                ),
            },
        }
    }
}

/// Decode of a to-hex-string coercion at byte 0: opcode 0x98, an operand term
/// argument and a target.
pub open spec fn spec_parse_def_to_hex_string(data: Seq<u8>, depth: nat) -> Result<
    (Type2OpCodeView, int),
    AmlError,
>
    decreases depth, data.len(), 0int,
{
    if data.len() < 1 || data[0] != 0x98 {
        Err(AmlError::AmlParseError)
    } else if depth == 0 {
        Err(AmlError::AmlDepthExceeded)
    } else {
        match spec_parse_term_arg(data.skip(1), (depth - 1) as nat) {
            Err(e) => Err(e),
            Ok((operand, on)) => match spec_parse_super_name(data.skip(1 + on)) {
                Err(e) => Err(e),
                Ok((target, tn)) => Ok(
                    (Type2OpCodeView::DefToHexString { operand, target }, 1 + on + tn),
                ),
            },
        }
    }
}

/// Decode of a Type-2 expression at byte 0: the fixed-opcode operators, with
/// a bare method invocation as the fallback for any input not opening with a
/// fixed opcode. No fixed opcode is a valid name lead byte, so the dispatch
/// equals ordered trial of all the alternatives.
pub open spec fn spec_parse_type2_opcode(data: Seq<u8>, depth: nat) -> Result<
    (Type2OpCodeView, int),
    AmlError,
>
    decreases depth, data.len(), 1int,
{
    if data.len() >= 1 && data[0] == 0x11 {
        spec_parse_def_buffer(data, depth)
    } else if data.len() >= 1 && data[0] == 0x83 {
        spec_parse_def_deref_of(data, depth)
    } else if data.len() >= 1 && data[0] == 0x75 {
        spec_parse_def_increment(data, depth)
    } else if data.len() >= 1 && data[0] == 0x88 {
        spec_parse_def_index(data, depth)
    } else if data.len() >= 1 && data[0] == 0x93 {
        spec_parse_def_lequal(data, depth)
    } else if data.len() >= 1 && data[0] == 0x95 {
        spec_parse_def_lless(data, depth)
    } else if data.len() >= 1 && data[0] == 0x87 {
        spec_parse_def_size_of(data, depth)
    } else if data.len() >= 1 && data[0] == 0x70 {
        spec_parse_def_store(data, depth)
    } else if data.len() >= 1 && data[0] == 0x74 {
        spec_parse_def_subtract(data, depth)
    } else if data.len() >= 1 && data[0] == 0x96 {
        spec_parse_def_to_buffer(data, depth)
    } else if data.len() >= 1 && data[0] == 0x98 {
        spec_parse_def_to_hex_string(data, depth)
    } else {
        match spec_parse_method_invocation(data) {
            Ok((m, n)) => Ok((Type2OpCodeView::MethodInvocation(m), n)),
            Err(e) => Err(e),
        }
    }
}

fn parse_def_buffer(data: &[u8], depth: u32) -> (r: Result<(Type2OpCode, usize), AmlError>)
    ensures
        decodes_to(
            r,
            |t: Type2OpCode| type2_opcode_view(t),
            spec_parse_def_buffer(data@, depth as nat),
        ),
        r matches Ok((v, n)) ==> 1 <= n <= data@.len(),
    decreases depth, data@.len(), 0int,
{
    if data.len() < 1 || data[0] != 0x11 {
        return Err(AmlError::AmlParseError);
    }
    if depth == 0 {
        return Err(AmlError::AmlDepthExceeded);
    }
    let tail = slice_subrange(data, 1, data.len());
    assert(tail@ =~= data@.skip(1));
    match parse_pkg_length(tail) {
        Err(e) => Err(e),
        Ok((pkg_len, k)) => {
            if k <= pkg_len && pkg_len <= data.len() - 1 {
                let body = slice_subrange(data, 1 + k, 1 + pkg_len);
                assert(body@ =~= data@.subrange(1 + k, 1 + pkg_len as int));
                match parse_term_arg(body, depth - 1) {
                    Err(e) => Err(e),
                    Ok((buffer_size, sn)) => {
                        let byte_list = slice_to_vec(slice_subrange(body, sn, body.len()));
                        assert(byte_list@ =~= body@.skip(sn as int));
                        Ok((Type2OpCode::DefBuffer { buffer_size, byte_list }, 1 + pkg_len))
                    },
                }
            } else {
                Err(AmlError::AmlParseError)
            }
        },
    }
}

fn parse_def_deref_of(data: &[u8], depth: u32) -> (r: Result<(Type2OpCode, usize), AmlError>)
    ensures
        decodes_to(
            r,
            |t: Type2OpCode| type2_opcode_view(t),
            spec_parse_def_deref_of(data@, depth as nat),
        ),
        r matches Ok((v, n)) ==> 1 <= n <= data@.len(),
    decreases depth, data@.len(), 0int,
{
    if data.len() < 1 || data[0] != 0x83 {
        return Err(AmlError::AmlParseError);
    }
    if depth == 0 {
        return Err(AmlError::AmlDepthExceeded);
    }
    let tail = slice_subrange(data, 1, data.len());
    assert(tail@ =~= data@.skip(1));
    match parse_term_arg(tail, depth - 1) {
        Ok((t, n)) => Ok((Type2OpCode::DefDerefOf(t), 1 + n)),
        Err(e) => Err(e),
    }
}

fn parse_def_increment(data: &[u8], depth: u32) -> (r: Result<(Type2OpCode, usize), AmlError>)
    ensures
        decodes_to(
            r,
            |t: Type2OpCode| type2_opcode_view(t),
            spec_parse_def_increment(data@, depth as nat),
        ),
        r matches Ok((v, n)) ==> 1 <= n <= data@.len(),
{
    if data.len() < 1 || data[0] != 0x75 {
        return Err(AmlError::AmlParseError);
    }
    let tail = slice_subrange(data, 1, data.len());
    assert(tail@ =~= data@.skip(1));
    match parse_super_name(tail) {
        Ok((s, n)) => Ok((Type2OpCode::DefIncrement(s), 1 + n)),
        Err(e) => Err(e),
    }
}

fn parse_def_index(data: &[u8], depth: u32) -> (r: Result<(Type2OpCode, usize), AmlError>)
    ensures
        decodes_to(
            r,
            |t: Type2OpCode| type2_opcode_view(t),
            spec_parse_def_index(data@, depth as nat),
        ),
        r matches Ok((v, n)) ==> 1 <= n <= data@.len(),
    decreases depth, data@.len(), 0int,
{
    if data.len() < 1 || data[0] != 0x88 {
        return Err(AmlError::AmlParseError);
    }
    if depth == 0 {
        return Err(AmlError::AmlDepthExceeded);
    }
    let tail = slice_subrange(data, 1, data.len());
    assert(tail@ =~= data@.skip(1));
    match parse_term_arg(tail, depth - 1) {
        Err(e) => Err(e),
        Ok((obj, on)) => {
            let tail2 = slice_subrange(data, 1 + on, data.len());
            assert(tail2@ =~= data@.skip(1 + on as int));
            match parse_term_arg(tail2, depth - 1) {
                Err(e) => Err(e),
                Ok((idx, ixn)) => {
                    let tail3 = slice_subrange(data, 1 + on + ixn, data.len());
                    assert(tail3@ =~= data@.skip(1 + on + ixn as int));
                    match parse_target(tail3) {
                        Err(e) => Err(e),
                        Ok((target, tn)) => Ok(
                            (Type2OpCode::DefIndex { obj, idx, target }, 1 + on + ixn + tn),
                        ),
                    }
                },
            }
        },
    }
}

fn parse_def_lequal(data: &[u8], depth: u32) -> (r: Result<(Type2OpCode, usize), AmlError>)
    ensures
        decodes_to(
            r,
            |t: Type2OpCode| type2_opcode_view(t),
            spec_parse_def_lequal(data@, depth as nat),
        ),
        r matches Ok((v, n)) ==> 1 <= n <= data@.len(),
    decreases depth, data@.len(), 0int,
{
    if data.len() < 1 || data[0] != 0x93 {
        return Err(AmlError::AmlParseError);
    }
    if depth == 0 {
        return Err(AmlError::AmlDepthExceeded);
    }
    let tail = slice_subrange(data, 1, data.len());
    assert(tail@ =~= data@.skip(1));
    match parse_term_arg(tail, depth - 1) {
        Err(e) => Err(e),
        Ok((lhs, ln)) => {
            let tail2 = slice_subrange(data, 1 + ln, data.len());
            assert(tail2@ =~= data@.skip(1 + ln as int));
            match parse_term_arg(tail2, depth - 1) {
                Err(e) => Err(e),
                Ok((rhs, rn)) => Ok((Type2OpCode::DefLEqual { lhs, rhs }, 1 + ln + rn)),
            }
        },
    }
}

fn parse_def_lless(data: &[u8], depth: u32) -> (r: Result<(Type2OpCode, usize), AmlError>)
    ensures
        decodes_to(
            r,
            |t: Type2OpCode| type2_opcode_view(t),
            spec_parse_def_lless(data@, depth as nat),
        ),
        r matches Ok((v, n)) ==> 1 <= n <= data@.len(),
    decreases depth, data@.len(), 0int,
{
    if data.len() < 1 || data[0] != 0x95 {
        return Err(AmlError::AmlParseError);
    }
    if depth == 0 {
        return Err(AmlError::AmlDepthExceeded);
    }
    let tail = slice_subrange(data, 1, data.len());
    assert(tail@ =~= data@.skip(1));
    match parse_term_arg(tail, depth - 1) {
        Err(e) => Err(e),
        Ok((lhs, ln)) => {
            let tail2 = slice_subrange(data, 1 + ln, data.len());
            assert(tail2@ =~= data@.skip(1 + ln as int));
            match parse_term_arg(tail2, depth - 1) {
                Err(e) => Err(e),
                Ok((rhs, rn)) => Ok((Type2OpCode::DefLLess { lhs, rhs }, 1 + ln + rn)),
            }
        },
    }
}

fn parse_def_size_of(data: &[u8], depth: u32) -> (r: Result<(Type2OpCode, usize), AmlError>)
    ensures
        decodes_to(
            r,
            |t: Type2OpCode| type2_opcode_view(t),
            spec_parse_def_size_of(data@, depth as nat),
        ),
        r matches Ok((v, n)) ==> 1 <= n <= data@.len(),
{
    if data.len() < 1 || data[0] != 0x87 {
        return Err(AmlError::AmlParseError);
    }
    let tail = slice_subrange(data, 1, data.len());
    assert(tail@ =~= data@.skip(1));
    match parse_super_name(tail) {
        Ok((s, n)) => Ok((Type2OpCode::DefSizeOf(s), 1 + n)),
        Err(e) => Err(e),
    }
}

fn parse_def_store(data: &[u8], depth: u32) -> (r: Result<(Type2OpCode, usize), AmlError>)
    ensures
        decodes_to(
            r,
            |t: Type2OpCode| type2_opcode_view(t),
            spec_parse_def_store(data@, depth as nat),
        ),
        r matches Ok((v, n)) ==> 1 <= n <= data@.len(),
    decreases depth, data@.len(), 0int,
{
    if data.len() < 1 || data[0] != 0x70 {
        return Err(AmlError::AmlParseError);
    }
    if depth == 0 {
        return Err(AmlError::AmlDepthExceeded);
    }
    let tail = slice_subrange(data, 1, data.len());
    assert(tail@ =~= data@.skip(1));
    match parse_term_arg(tail, depth - 1) {
        Err(e) => Err(e),
        Ok((operand, on)) => {
            let tail2 = slice_subrange(data, 1 + on, data.len());
            assert(tail2@ =~= data@.skip(1 + on as int));
            match parse_super_name(tail2) {
                Err(e) => Err(e),
                Ok((target, tn)) => Ok((Type2OpCode::DefStore { operand, target }, 1 + on + tn)),
            }
        },
    }
}

fn parse_def_subtract(data: &[u8], depth: u32) -> (r: Result<(Type2OpCode, usize), AmlError>)
    ensures
        decodes_to(
            r,
            |t: Type2OpCode| type2_opcode_view(t),
            spec_parse_def_subtract(data@, depth as nat),
        ),
        r matches Ok((v, n)) ==> 1 <= n <= data@.len(),
    decreases depth, data@.len(), 0int,
{
    if data.len() < 1 || data[0] != 0x74 {
        return Err(AmlError::AmlParseError);
    }
    if depth == 0 {
        return Err(AmlError::AmlDepthExceeded);
    }
    let tail = slice_subrange(data, 1, data.len());
    assert(tail@ =~= data@.skip(1));
    match parse_term_arg(tail, depth - 1) {
        Err(e) => Err(e),
        Ok((minuend, mn)) => {
            let tail2 = slice_subrange(data, 1 + mn, data.len());
            assert(tail2@ =~= data@.skip(1 + mn as int));
            match parse_term_arg(tail2, depth - 1) {
                Err(e) => Err(e),
                Ok((subtrahend, sn)) => {
                    let tail3 = slice_subrange(data, 1 + mn + sn, data.len());
                    assert(tail3@ =~= data@.skip(1 + mn + sn as int));
                    match parse_target(tail3) {
                        Err(e) => Err(e),
                        Ok((target, tn)) => Ok(
                            (
                                Type2OpCode::DefSubtract { minuend, subtrahend, target },
                                1 + mn + sn + tn,
                            ),
                        ),
                    }
                },
            }
        },
    }
}

fn parse_def_to_buffer(data: &[u8], depth: u32) -> (r: Result<(Type2OpCode, usize), AmlError>)
    ensures
        decodes_to(
            r,
            |t: Type2OpCode| type2_opcode_view(t),
            spec_parse_def_to_buffer(data@, depth as nat),
        ),
        r matches Ok((v, n)) ==> 1 <= n <= data@.len(),
    decreases depth, data@.len(), 0int,
{
    if data.len() < 1 || data[0] != 0x96 {
        return Err(AmlError::AmlParseError);
    }
    if depth == 0 {
        return Err(AmlError::AmlDepthExceeded);
    }
    let tail = slice_subrange(data, 1, data.len());
    assert(tail@ =~= data@.skip(1));
    match parse_term_arg(tail, depth - 1) {
        Err(e) => Err(e),
        Ok((operand, on)) => {
            let tail2 = slice_subrange(data, 1 + on, data.len());
            assert(tail2@ =~= data@.skip(1 + on as int));
            match parse_target(tail2) {
                Err(e) => Err(e),
                Ok((target, tn)) => Ok((Type2OpCode::DefToBuffer { operand, target }, 1 + on + tn)),
            }
        },
    }
}

fn parse_def_to_hex_string(data: &[u8], depth: u32) -> (r: Result<(Type2OpCode, usize), AmlError>)
    ensures
        decodes_to(
            r,
            |t: Type2OpCode| type2_opcode_view(t),
            spec_parse_def_to_hex_string(data@, depth as nat),
        ),
        r matches Ok((v, n)) ==> 1 <= n <= data@.len(),
    decreases depth, data@.len(), 0int,
{
    if data.len() < 1 || data[0] != 0x98 {
        return Err(AmlError::AmlParseError);
    }
    if depth == 0 {
        return Err(AmlError::AmlDepthExceeded);
    }
    let tail = slice_subrange(data, 1, data.len());
    assert(tail@ =~= data@.skip(1));
    match parse_term_arg(tail, depth - 1) {
        Err(e) => Err(e),
        Ok((operand, on)) => {
            let tail2 = slice_subrange(data, 1 + on, data.len());
            assert(tail2@ =~= data@.skip(1 + on as int));
            match parse_target(tail2) {
                Err(e) => Err(e),
                Ok((target, tn)) => Ok(
                    (Type2OpCode::DefToHexString { operand, target }, 1 + on + tn),
                ),
            }
        },
    }
}

/// Decode one Type-2 expression starting at byte 0 of `data`, recursing at
/// most `depth` levels into sub-terms.
pub fn parse_type2_opcode(data: &[u8], depth: u32) -> (r: Result<(Type2OpCode, usize), AmlError>)
    ensures
        decodes_to(
            r,
            |t: Type2OpCode| type2_opcode_view(t),
            spec_parse_type2_opcode(data@, depth as nat),
        ),
        r matches Ok((v, n)) ==> 1 <= n <= data@.len(),
    decreases depth, data@.len(), 1int,
{
    if data.len() >= 1 && data[0] == 0x11 {
        parse_def_buffer(data, depth)
    } else if data.len() >= 1 && data[0] == 0x83 {
        parse_def_deref_of(data, depth)
    } else if data.len() >= 1 && data[0] == 0x75 {
        parse_def_increment(data, depth)
    } else if data.len() >= 1 && data[0] == 0x88 {
        parse_def_index(data, depth)
    } else if data.len() >= 1 && data[0] == 0x93 {
        parse_def_lequal(data, depth)
    } else if data.len() >= 1 && data[0] == 0x95 {
        parse_def_lless(data, depth)
    } else if data.len() >= 1 && data[0] == 0x87 {
        parse_def_size_of(data, depth)
    } else if data.len() >= 1 && data[0] == 0x70 {
        parse_def_store(data, depth)
    } else if data.len() >= 1 && data[0] == 0x74 {
        parse_def_subtract(data, depth)
    } else if data.len() >= 1 && data[0] == 0x96 {
        parse_def_to_buffer(data, depth)
    } else if data.len() >= 1 && data[0] == 0x98 {
        parse_def_to_hex_string(data, depth)
    } else {
        match parse_method_invocation(data) {
            Ok((m, n)) => Ok((Type2OpCode::MethodInvocation(m), n)),
            Err(e) => Err(e),
        }
    }
}

} // verus!
