//! Type-1 opcodes: statement-level control flow with no return value.
//!
//! Both forms are package-length-bounded: the opcode byte, then a PkgLength
//! field whose extent covers the length field itself and the body, measured
//! from the byte after the opcode. The body is a predicate term argument
//! followed by a term list exactly filling the remainder of the extent. An
//! `If` extent may be followed immediately by an `Else` opcode with its own
//! extent; an absent `Else` opcode yields an empty else block and contributes
//! no extra consumed bytes.

use vstd::prelude::*;
use vstd::slice::slice_subrange;

use crate::pkglength::{parse_pkg_length, spec_parse_pkg_length};
use crate::termlist::{
    parse_term_arg, parse_term_list, spec_parse_term_arg, spec_parse_term_list, term_arg_view,
    term_obj_list_view, TermArg, TermArgView, TermObj, TermObjView,
};
use crate::{decodes_to, AmlError};

verus! {

/// A decoded Type-1 statement.
#[derive(Debug, PartialEq)]
pub enum Type1OpCode {
    DefIfElse { predicate: TermArg, if_block: Vec<TermObj>, else_block: Vec<TermObj> },
    DefWhile { predicate: TermArg, block: Vec<TermObj> },
}

/// Mathematical image of a [`Type1OpCode`].
pub enum Type1OpCodeView {
    DefIfElse {
        predicate: TermArgView,
        if_block: Seq<TermObjView>,
        else_block: Seq<TermObjView>,
    },
    DefWhile { predicate: TermArgView, block: Seq<TermObjView> },
}

pub open spec fn type1_opcode_view(t: Type1OpCode) -> Type1OpCodeView
    decreases t,
{
    match t {
        Type1OpCode::DefIfElse { predicate, if_block, else_block } => Type1OpCodeView::DefIfElse {
            predicate: term_arg_view(predicate),
            if_block: term_obj_list_view(if_block@),
            else_block: term_obj_list_view(else_block@),
        },
        Type1OpCode::DefWhile { predicate, block } => Type1OpCodeView::DefWhile {
            predicate: term_arg_view(predicate),
            block: term_obj_list_view(block@),
        },
    }
}

/// Decode of an `Else` clause at byte 0. No 0xA1 opcode (or no byte at all)
/// is an absent clause: an empty block consuming nothing. With the opcode, a
/// PkgLength field whose extent must cover its own bytes and fit in the
/// input, then a term list exactly filling the extent; consumed is the opcode
/// byte plus the whole extent.
pub open spec fn spec_parse_def_else(data: Seq<u8>, depth: nat) -> Result<
    (Seq<TermObjView>, int),
    AmlError,
>
    decreases depth, data.len(), 0int,
{
    if data.len() < 1 || data[0] != 0xA1 {
        Ok((Seq::empty(), 0))
    } else if depth == 0 {
        Err(AmlError::AmlDepthExceeded)
    } else {
        match spec_parse_pkg_length(data.skip(1)) {
            Err(e) => Err(e),
            Ok((pkg_len, k)) => if k <= pkg_len && 1 + pkg_len <= data.len() {
                match spec_parse_term_list(data.subrange(1 + k, 1 + pkg_len), (depth - 1) as nat) {
                    Ok(block) => Ok((block, 1 + pkg_len)),
                    Err(e) => Err(e),
                }
            } else {
                Err(AmlError::AmlParseError)
            },
        }
    }
}

/// Decode of an `If` statement at byte 0, together with its optional `Else`:
/// opcode 0xA0, a PkgLength extent holding a predicate term argument and the
/// if-block term list, then immediately after the extent an optional `Else`
/// clause. Consumed is the `If` opcode byte plus its extent plus whatever the
/// `Else` clause consumed.
pub open spec fn spec_parse_def_if_else(data: Seq<u8>, depth: nat) -> Result<
    (Type1OpCodeView, int),
    AmlError,
>
    decreases depth, data.len(), 0int,
{
    if data.len() < 1 || data[0] != 0xA0 {
        Err(AmlError::AmlParseError)
    } else if depth == 0 {
        Err(AmlError::AmlDepthExceeded)
    } else {
        match spec_parse_pkg_length(data.skip(1)) {
            Err(e) => Err(e),
            Ok((pkg_len, k)) => if k <= pkg_len && 1 + pkg_len <= data.len() {
                let body = data.subrange(1 + k, 1 + pkg_len);
                match spec_parse_term_arg(body, (depth - 1) as nat) {
                    Err(e) => Err(e),
                    Ok((predicate, pn)) => if pn <= body.len() {
                        match spec_parse_term_list(body.skip(pn), (depth - 1) as nat) {
                            Err(e) => Err(e),
                            Ok(if_block) => match spec_parse_def_else(
                                data.skip(1 + pkg_len),
                                depth,
                            ) {
                                Err(e) => Err(e),
                                Ok((else_block, en)) => Ok(
                                    (
                                        Type1OpCodeView::DefIfElse {
                                            predicate,
                                            if_block,
                                            else_block,
                                        },
                                        1 + pkg_len + en,
                                    ),
                                ),
                            },
                        }
                    } else {
                        Err(AmlError::AmlParseError)
                    },
                }
            } else {
                Err(AmlError::AmlParseError)
            },
        }
    }
}

/// Decode of a `While` statement at byte 0: opcode 0xA2, a PkgLength extent
/// holding a predicate term argument and the body term list. Consumed is the
/// opcode byte plus the extent.
pub open spec fn spec_parse_def_while(data: Seq<u8>, depth: nat) -> Result<
    (Type1OpCodeView, int),
    AmlError,
>
    decreases depth, data.len(), 0int,
{
    if data.len() < 1 || data[0] != 0xA2 {
        Err(AmlError::AmlParseError)
    } else if depth == 0 {
        Err(AmlError::AmlDepthExceeded)
    } else {
        match spec_parse_pkg_length(data.skip(1)) {
            Err(e) => Err(e),
            Ok((pkg_len, k)) => if k <= pkg_len && 1 + pkg_len <= data.len() {
                let body = data.subrange(1 + k, 1 + pkg_len);
                match spec_parse_term_arg(body, (depth - 1) as nat) {
                    Err(e) => Err(e),
                    Ok((predicate, pn)) => if pn <= body.len() {
                        match spec_parse_term_list(body.skip(pn), (depth - 1) as nat) {
                            Err(e) => Err(e),
                            Ok(block) => Ok(
                                (Type1OpCodeView::DefWhile { predicate, block }, 1 + pkg_len),
                            ),
                        }
                    } else {
                        Err(AmlError::AmlParseError)
                    },
                }
            } else {
                Err(AmlError::AmlParseError)
            },
        }
    }
}

/// Decode of a Type-1 statement at byte 0: an `If`/`Else`, else a `While`.
/// The alternatives are mutually exclusive on the opcode byte.
pub open spec fn spec_parse_type1_opcode(data: Seq<u8>, depth: nat) -> Result<
    (Type1OpCodeView, int),
    AmlError,
>
    decreases depth, data.len(), 1int,
{
    match spec_parse_def_if_else(data, depth) {
        Ok((v, n)) => Ok((v, n)),
        Err(AmlError::AmlDepthExceeded) => Err(AmlError::AmlDepthExceeded),
        Err(AmlError::AmlParseError) => spec_parse_def_while(data, depth),
    }
}

fn parse_def_else(data: &[u8], depth: u32) -> (r: Result<(Vec<TermObj>, usize), AmlError>)
    ensures
        match r {
            Ok((v, n)) => spec_parse_def_else(data@, depth as nat) == Ok::<
                (Seq<TermObjView>, int),
                AmlError,
            >((term_obj_list_view(v@), n as int)) && n <= data@.len(),
            Err(e) => spec_parse_def_else(data@, depth as nat) == Err::<
                (Seq<TermObjView>, int),
                AmlError,
            >(e),
        },
    decreases depth, data@.len(), 0int,
{
    if data.len() < 1 || data[0] != 0xA1 {
        let v: Vec<TermObj> = Vec::new();
        assert(term_obj_list_view(v@) =~= Seq::<TermObjView>::empty());
        return Ok((v, 0));
    }
    if depth == 0 {
        return Err(AmlError::AmlDepthExceeded);
    }
    let tail = slice_subrange(data, 1, data.len());
    assert(tail@ =~= data@.skip(1));
    match parse_pkg_length(tail) {
        Err(e) => Err(e),
        Ok((pkg_len, k)) => {
            if k <= pkg_len && pkg_len <= data.len() - 1 {
                let body = slice_subrange(data, 1 + k, 1 + pkg_len);
                assert(body@ =~= data@.subrange(1 + k, 1 + pkg_len as int));
                match parse_term_list(body, depth - 1) {
                    Ok(block) => Ok((block, 1 + pkg_len)),
                    Err(e) => Err(e),
                }
            } else {
                Err(AmlError::AmlParseError)
            }
        },
    }
}

#[verifier::rlimit(50)]
fn parse_def_if_else(data: &[u8], depth: u32) -> (r: Result<(Type1OpCode, usize), AmlError>)
    ensures
        decodes_to(
            r,
            |t: Type1OpCode| type1_opcode_view(t),
            spec_parse_def_if_else(data@, depth as nat),
        ),
        r matches Ok((v, n)) ==> 1 <= n <= data@.len(),
    decreases depth, data@.len(), 0int,
{
    if data.len() < 1 || data[0] != 0xA0 {
        return Err(AmlError::AmlParseError);
    }
    if depth == 0 {
        return Err(AmlError::AmlDepthExceeded);
    }
    let tail = slice_subrange(data, 1, data.len());
    assert(tail@ =~= data@.skip(1));
    match parse_pkg_length(tail) {
        Err(e) => Err(e),
        Ok((pkg_len, k)) => {
            if k <= pkg_len && pkg_len <= data.len() - 1 {
                let body = slice_subrange(data, 1 + k, 1 + pkg_len);
                assert(body@ =~= data@.subrange(1 + k, 1 + pkg_len as int));
                match parse_term_arg(body, depth - 1) {
                    Err(e) => Err(e),
                    Ok((predicate, pn)) => {
                        let if_body = slice_subrange(body, pn, body.len());
                        assert(if_body@ =~= body@.skip(pn as int));
                        match parse_term_list(if_body, depth - 1) {
                            Err(e) => Err(e),
                            Ok(if_block) => {
                                let after = slice_subrange(data, 1 + pkg_len, data.len());
                                assert(after@ =~= data@.skip(1 + pkg_len as int));
                                match parse_def_else(after, depth) {
                                    Err(e) => Err(e),
                                    Ok((else_block, en)) => Ok(
                                        (
                                            Type1OpCode::DefIfElse {
                                                predicate,
                                                if_block,
                                                else_block,
                                            },
                                            1 + pkg_len + en,
                                        ),
                                    ),
                                }
                            },
                        }
                    },
                }
            } else {
                Err(AmlError::AmlParseError)
            }
        },
    }
}

fn parse_def_while(data: &[u8], depth: u32) -> (r: Result<(Type1OpCode, usize), AmlError>)
    ensures
        decodes_to(
            r,
            |t: Type1OpCode| type1_opcode_view(t),
            spec_parse_def_while(data@, depth as nat),
        ),
        r matches Ok((v, n)) ==> 1 <= n <= data@.len(),
    decreases depth, data@.len(), 0int,
{
    if data.len() < 1 || data[0] != 0xA2 {
        return Err(AmlError::AmlParseError);
    }
    if depth == 0 {
        return Err(AmlError::AmlDepthExceeded);
    }
    let tail = slice_subrange(data, 1, data.len());
    assert(tail@ =~= data@.skip(1));
    match parse_pkg_length(tail) {
        Err(e) => Err(e),
        Ok((pkg_len, k)) => {
            if k <= pkg_len && pkg_len <= data.len() - 1 {
                let body = slice_subrange(data, 1 + k, 1 + pkg_len);
                assert(body@ =~= data@.subrange(1 + k, 1 + pkg_len as int));
                match parse_term_arg(body, depth - 1) {
                    Err(e) => Err(e),
                    Ok((predicate, pn)) => {
                        let loop_body = slice_subrange(body, pn, body.len());
                        assert(loop_body@ =~= body@.skip(pn as int));
                        match parse_term_list(loop_body, depth - 1) {
                            Err(e) => Err(e),
                            Ok(block) => Ok(
                                (Type1OpCode::DefWhile { predicate, block }, 1 + pkg_len),
                            ),
                        }
                    },
                }
            } else {
                Err(AmlError::AmlParseError)
            }
        },
    }
}

/// Decode one Type-1 statement starting at byte 0 of `data`, recursing at
/// most `depth` levels into sub-terms.
pub fn parse_type1_opcode(data: &[u8], depth: u32) -> (r: Result<(Type1OpCode, usize), AmlError>)
    ensures
        decodes_to(
            r,
            |t: Type1OpCode| type1_opcode_view(t),
            spec_parse_type1_opcode(data@, depth as nat),
        ),
        r matches Ok((v, n)) ==> 1 <= n <= data@.len(),
    decreases depth, data@.len(), 1int,
{
    match parse_def_if_else(data, depth) {
        Ok((v, n)) => {
            return Ok((v, n));
        },
        Err(AmlError::AmlDepthExceeded) => {
            return Err(AmlError::AmlDepthExceeded);
        },
        Err(AmlError::AmlParseError) => {},
    }
    parse_def_while(data, depth)
}

} // verus!
