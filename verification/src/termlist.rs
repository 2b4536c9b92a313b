//! The term parser: the recursive-descent hub of the decoder.
//!
//! A term argument is a data object, an argument or local reference, or a
//! Type-2 expression; a term object is a named object, a Type-1 statement, a
//! data object, or a Type-2 expression; a term list is a sequence of term
//! objects exactly filling its input. Each parser recurses back into the
//! others for sub-terms, so each takes an explicit depth bound, decremented
//! at every recursion into a sub-construct, and fails with
//! [`AmlError::AmlDepthExceeded`] when the bound runs out.

use vstd::prelude::*;
use vstd::slice::slice_subrange;

use crate::dataobj::{parse_data_obj, spec_parse_data_obj, DataObj};
use crate::namedobj::{named_obj_view, parse_named_obj, spec_parse_named_obj, NamedObj, NamedObjView};
use crate::namestring::{parse_name_string, spec_parse_name_string};
use crate::type1opcode::{
    parse_type1_opcode, spec_parse_type1_opcode, type1_opcode_view, Type1OpCode, Type1OpCodeView,
};
use crate::type2opcode::{
    parse_type2_opcode, spec_parse_type2_opcode, type2_opcode_view, Type2OpCode, Type2OpCodeView,
};
use crate::{decodes_to, AmlError};

verus! {

broadcast use vstd::seq::group_seq_axioms, vstd::std_specs::vec::group_vec_axioms;

/// An expression position in the grammar: a literal, a reference to a method
/// argument or local, or a Type-2 operator application.
#[derive(Debug, PartialEq)]
pub enum TermArg {
    DataObj(DataObj),
    ArgObj(crate::dataobj::ArgObj),
    LocalObj(crate::dataobj::LocalObj),
    Type2OpCode(Box<Type2OpCode>),
}

/// A statement position in the grammar: a named-object declaration, a Type-1
/// statement, a literal, or a Type-2 expression.
#[derive(Debug, PartialEq)]
pub enum TermObj {
    NamedObj(NamedObj),
    Type1OpCode(Type1OpCode),
    DataObj(DataObj),
    Type2OpCode(Type2OpCode),
}

/// The catch-all Type-2 production: a well-formed name reference not claimed
/// by any fixed-opcode operator. How many argument terms follow the name is
/// the arity of the named method, which only namespace knowledge can supply;
/// resolving the invocation is deferred to the execution stage, so decoding
/// consumes the name alone.
#[derive(Debug, PartialEq)]
pub struct MethodInvocation {
    pub name: String,
}

/// Mathematical image of a [`TermArg`].
pub enum TermArgView {
    DataObj(DataObj),
    ArgObj(crate::dataobj::ArgObj),
    LocalObj(crate::dataobj::LocalObj),
    Type2OpCode(Box<Type2OpCodeView>),
}

/// Mathematical image of a [`TermObj`].
pub enum TermObjView {
    NamedObj(NamedObjView),
    Type1OpCode(Type1OpCodeView),
    DataObj(DataObj),
    Type2OpCode(Type2OpCodeView),
}

/// Mathematical image of a [`MethodInvocation`].
pub struct MethodInvocationView {
    pub name: Seq<char>,
}

pub open spec fn term_arg_view(t: TermArg) -> TermArgView
    decreases t,
{
    match t {
        TermArg::DataObj(d) => TermArgView::DataObj(d),
        TermArg::ArgObj(a) => TermArgView::ArgObj(a),
        TermArg::LocalObj(l) => TermArgView::LocalObj(l),
        TermArg::Type2OpCode(b) => TermArgView::Type2OpCode(Box::new(type2_opcode_view(*b))),
    }
}

pub open spec fn term_obj_view(t: TermObj) -> TermObjView
    decreases t,
{
    match t {
        TermObj::NamedObj(o) => TermObjView::NamedObj(named_obj_view(o)),
        TermObj::Type1OpCode(o) => TermObjView::Type1OpCode(type1_opcode_view(o)),
        TermObj::DataObj(d) => TermObjView::DataObj(d),
        TermObj::Type2OpCode(o) => TermObjView::Type2OpCode(type2_opcode_view(o)),
    }
}

pub open spec fn term_obj_list_view(s: Seq<TermObj>) -> Seq<TermObjView>
    decreases s,
{
    if s.len() == 0 {
        Seq::empty()
    } else {
        term_obj_list_view(s.drop_last()).push(term_obj_view(s.last()))
    }
}

pub open spec fn method_invocation_view(m: MethodInvocation) -> MethodInvocationView {
    MethodInvocationView { name: m.name@ }
}

/// Appending one object to a list appends its image to the list's image.
pub proof fn lemma_term_obj_list_view_push(s: Seq<TermObj>, o: TermObj)
    ensures
        term_obj_list_view(s.push(o)) =~= term_obj_list_view(s).push(term_obj_view(o)),
{
    assert(s.push(o).drop_last() =~= s);
    assert(s.push(o).last() == o);
}

/// Decode of one term argument at byte 0: a data object, an argument
/// reference, a local reference, else a Type-2 expression; the first success
/// wins, and the alternatives are mutually exclusive since no data or
/// reference opcode opens a Type-2 form.
pub open spec fn spec_parse_term_arg(data: Seq<u8>, depth: nat) -> Result<
    (TermArgView, int),
    AmlError,
>
    decreases depth, data.len(), 1int,
{
    if depth == 0 {
        Err(AmlError::AmlDepthExceeded)
    } else {
        match spec_parse_data_obj(data) {
            Ok((d, n)) => Ok((TermArgView::DataObj(d), n)),
            Err(_) => match crate::dataobj::spec_parse_arg_obj(data) {
                Ok((a, n)) => Ok((TermArgView::ArgObj(a), n)),
                Err(_) => match crate::dataobj::spec_parse_local_obj(data) {
                    Ok((l, n)) => Ok((TermArgView::LocalObj(l), n)),
                    Err(_) => match spec_parse_type2_opcode(data, (depth - 1) as nat) {
                        Ok((t, n)) => Ok((TermArgView::Type2OpCode(Box::new(t)), n)),
                        Err(e) => Err(e),
                    },
                },
            },
        }
    }
}

/// Decode of one term object at byte 0, trying in order: a named object, a
/// Type-1 statement, a data object, a Type-2 expression. A failed trial of
/// one alternative moves to the next; exhaustion of a nesting budget aborts
/// the whole decode instead.
pub open spec fn spec_parse_term_obj(data: Seq<u8>, depth: nat) -> Result<
    (TermObjView, int),
    AmlError,
>
    decreases depth, data.len(), 1int,
{
    if depth == 0 {
        Err(AmlError::AmlDepthExceeded)
    } else {
        match spec_parse_named_obj(data, (depth - 1) as nat) {
            Ok((o, n)) => Ok((TermObjView::NamedObj(o), n)),
            Err(AmlError::AmlDepthExceeded) => Err(AmlError::AmlDepthExceeded),
            Err(AmlError::AmlParseError) => match spec_parse_type1_opcode(
                data,
                (depth - 1) as nat,
            ) {
                Ok((o, n)) => Ok((TermObjView::Type1OpCode(o), n)),
                Err(AmlError::AmlDepthExceeded) => Err(AmlError::AmlDepthExceeded),
                Err(AmlError::AmlParseError) => match spec_parse_data_obj(data) {
                    Ok((d, n)) => Ok((TermObjView::DataObj(d), n)),
                    Err(_) => match spec_parse_type2_opcode(data, (depth - 1) as nat) {
                        Ok((o, n)) => Ok((TermObjView::Type2OpCode(o), n)),
                        Err(e) => Err(e),
                    },
                },
            },
        }
    }
}

/// Decode of a term list: term objects back to back, exactly filling the
/// input. Each object consumes at least one byte and no more than what is
/// left; the empty input is the empty list.
pub open spec fn spec_parse_term_list(data: Seq<u8>, depth: nat) -> Result<
    Seq<TermObjView>,
    AmlError,
>
    decreases depth, data.len(), 1int,
{
    if depth == 0 {
        Err(AmlError::AmlDepthExceeded)
    } else if data.len() == 0 {
        Ok(Seq::empty())
    } else {
        match spec_parse_term_obj(data, (depth - 1) as nat) {
            Ok((o, n)) => if 1 <= n <= data.len() {
                match spec_parse_term_list(data.skip(n), depth) {
                    Ok(rest) => Ok(seq![o] + rest),
                    Err(e) => Err(e),
                }
            } else {
                Err(AmlError::AmlParseError)
            },
            Err(e) => Err(e),
        }
    }
}

/// Decode of a method invocation at byte 0: the invoked name; argument terms
/// are left to the execution stage, which knows the method's arity.
pub open spec fn spec_parse_method_invocation(data: Seq<u8>) -> Result<
    (MethodInvocationView, int),
    AmlError,
> {
    match spec_parse_name_string(data) {
        Ok((name, n)) => Ok((MethodInvocationView { name }, n)),
        Err(e) => Err(e),
    }
}

/// Decode one term argument starting at byte 0 of `data`, recursing at most
/// `depth` levels into sub-terms.
pub fn parse_term_arg(data: &[u8], depth: u32) -> (r: Result<(TermArg, usize), AmlError>)
    ensures
        decodes_to(r, |t: TermArg| term_arg_view(t), spec_parse_term_arg(data@, depth as nat)),
        r matches Ok((v, n)) ==> 1 <= n <= data@.len(),
    decreases depth, data@.len(), 1int,
{
    if depth == 0 {
        return Err(AmlError::AmlDepthExceeded);
    }
    match parse_data_obj(data) {
        Ok((d, n)) => {
            return Ok((TermArg::DataObj(d), n));
        },
        Err(_) => {},
    }
    match crate::dataobj::parse_arg_obj(data) {
        Ok((a, n)) => {
            return Ok((TermArg::ArgObj(a), n));
        },
        Err(_) => {},
    }
    match crate::dataobj::parse_local_obj(data) {
        Ok((l, n)) => {
            return Ok((TermArg::LocalObj(l), n));
        },
        Err(_) => {},
    }
    match parse_type2_opcode(data, depth - 1) {
        Ok((t, n)) => Ok((TermArg::Type2OpCode(Box::new(t)), n)),
        Err(e) => Err(e),
    }
}

/// Decode one term object starting at byte 0 of `data`, recursing at most
/// `depth` levels into sub-terms.
pub fn parse_term_obj(data: &[u8], depth: u32) -> (r: Result<(TermObj, usize), AmlError>)
    ensures
        decodes_to(r, |t: TermObj| term_obj_view(t), spec_parse_term_obj(data@, depth as nat)),
        r matches Ok((v, n)) ==> 1 <= n <= data@.len(),
    decreases depth, data@.len(), 1int,
{
    if depth == 0 {
        return Err(AmlError::AmlDepthExceeded);
    }
    match parse_named_obj(data, depth - 1) {
        Ok((o, n)) => {
            return Ok((TermObj::NamedObj(o), n));
        },
        Err(AmlError::AmlDepthExceeded) => {
            return Err(AmlError::AmlDepthExceeded);
        },
        Err(AmlError::AmlParseError) => {},
    }
    match parse_type1_opcode(data, depth - 1) {
        Ok((o, n)) => {
            return Ok((TermObj::Type1OpCode(o), n));
        },
        Err(AmlError::AmlDepthExceeded) => {
            return Err(AmlError::AmlDepthExceeded);
        },
        Err(AmlError::AmlParseError) => {},
    }
    match parse_data_obj(data) {
        Ok((d, n)) => {
            return Ok((TermObj::DataObj(d), n));
        },
        Err(_) => {},
    }
    match parse_type2_opcode(data, depth - 1) {
        Ok((o, n)) => Ok((TermObj::Type2OpCode(o), n)),
        Err(e) => Err(e),
    }
}

/// Decode a term list exactly filling `data`, recursing at most `depth`
/// levels into sub-terms.
pub fn parse_term_list(data: &[u8], depth: u32) -> (r: Result<Vec<TermObj>, AmlError>)
    ensures
        match r {
            Ok(v) => spec_parse_term_list(data@, depth as nat) == Ok::<Seq<TermObjView>, AmlError>(
                term_obj_list_view(v@),
            ),
            Err(e) => spec_parse_term_list(data@, depth as nat) == Err::<
                Seq<TermObjView>,
                AmlError,
            >(e),
        },
    decreases depth, data@.len(), 1int,
{
    if depth == 0 {
        return Err(AmlError::AmlDepthExceeded);
    }
    let mut objs: Vec<TermObj> = Vec::new();
    let mut offset: usize = 0;
    proof {
        assert(data@.skip(0) =~= data@);
        assert(term_obj_list_view(objs@) =~= Seq::<TermObjView>::empty());
    }
    while offset < data.len()
        invariant
            1 <= depth,
            offset <= data@.len(),
            forall|rest: Seq<TermObjView>|
                spec_parse_term_list(data@.skip(offset as int), depth as nat) == Ok::<
                    Seq<TermObjView>,
                    AmlError,
                >(rest) ==> spec_parse_term_list(data@, depth as nat) == Ok::<
                    Seq<TermObjView>,
                    AmlError,
                >(term_obj_list_view(objs@) + rest),
            forall|e: AmlError|
                spec_parse_term_list(data@.skip(offset as int), depth as nat) == Err::<
                    Seq<TermObjView>,
                    AmlError,
                >(e) ==> spec_parse_term_list(data@, depth as nat) == Err::<
                    Seq<TermObjView>,
                    AmlError,
                >(e),
        decreases data@.len() - offset,
    {
        let rest = slice_subrange(data, offset, data.len());
        assert(rest@ =~= data@.skip(offset as int));
        let ghost old_objs = objs@;
        let ghost old_offset = offset as int;
        match parse_term_obj(rest, depth - 1) {
            Err(e) => {
                return Err(e);
            },
            Ok((obj, n)) => {
                objs.push(obj);
                offset = offset + n;
                proof {
                    lemma_term_obj_list_view_push(old_objs, obj);
                    assert(data@.skip(old_offset).skip(n as int) =~= data@.skip(offset as int));
                    assert forall|rest2: Seq<TermObjView>|
                        spec_parse_term_list(data@.skip(offset as int), depth as nat) == Ok::<
                            Seq<TermObjView>,
                            AmlError,
                        >(rest2) implies spec_parse_term_list(data@, depth as nat) == Ok::<
                        Seq<TermObjView>,
                        AmlError,
                    >(term_obj_list_view(objs@) + rest2) by {
                        assert(spec_parse_term_list(data@.skip(old_offset), depth as nat) == Ok::<
                            Seq<TermObjView>,
                            AmlError,
                        >(seq![term_obj_view(obj)] + rest2));
                        assert(term_obj_list_view(old_objs) + (seq![term_obj_view(obj)] + rest2)
                            =~= term_obj_list_view(objs@) + rest2);
                    }
                }
            },
        }
    }
    proof {
        assert(data@.skip(offset as int) =~= Seq::<u8>::empty());
        assert(spec_parse_term_list(data@.skip(offset as int), depth as nat) == Ok::<
            Seq<TermObjView>,
            AmlError,
        >(Seq::empty()));
        assert(term_obj_list_view(objs@) + Seq::<TermObjView>::empty() =~= term_obj_list_view(
            objs@,
        ));
    }
    Ok(objs)
}

/// Decode one method invocation starting at byte 0 of `data`.
pub fn parse_method_invocation(data: &[u8]) -> (r: Result<(MethodInvocation, usize), AmlError>)
    ensures
        decodes_to(
            r,
            |m: MethodInvocation| method_invocation_view(m),
            spec_parse_method_invocation(data@),
        ),
        r matches Ok((v, n)) ==> 1 <= n <= data@.len(),
{
    proof {
        crate::namestring::lemma_parse_name_string_bounds(data@);
    }
    match parse_name_string(data) {
        Ok((name, n)) => Ok((MethodInvocation { name }, n)),
        Err(e) => Err(e),
    }
}

} // verus!
