//! The round-trip discipline of the decoder: a successful decode consumes at
//! least one byte and never more than its input, and what a construct decodes
//! to is determined by its own bytes alone — appending further input (the
//! next sibling construct) leaves an already-successful decode unchanged, so
//! re-slicing the input at `consumed` positions exactly at the next sibling.
//!
//! The one qualification concerns `If` statements: an `If` whose extent ends
//! exactly at the end of the input binds a following `Else` opcode (0xA1) to
//! itself, as the grammar demands. No construct of the grammar begins with
//! the `Else` opcode, so for sibling constructs the qualification is vacuous;
//! the statement lemmas carry it as an explicit hypothesis.

use vstd::prelude::*;

use crate::dataobj::{spec_parse_arg_obj, spec_parse_data_obj, spec_parse_local_obj};
use crate::namedobj::{spec_parse_def_op_region, spec_parse_named_obj};
use crate::namestring::{
    count_parent_prefixes, is_lead_name_char, is_name_seg, lemma_count_parent_prefixes_bounds,
    lemma_parse_name_string_bounds, lemma_parse_super_name_bounds, spec_name_prefix_len,
    spec_parse_name_body, spec_parse_name_string, spec_parse_super_name,
};
use crate::pkglength::spec_parse_pkg_length;
use crate::termlist::{
    spec_parse_method_invocation, spec_parse_term_arg, spec_parse_term_list, spec_parse_term_obj,
};
use crate::type1opcode::{
    spec_parse_def_else, spec_parse_def_if_else, spec_parse_def_while, spec_parse_type1_opcode,
};
use crate::type2opcode::{
    spec_parse_def_buffer, spec_parse_def_deref_of, spec_parse_def_increment, spec_parse_def_index,
    spec_parse_def_lequal, spec_parse_def_lless, spec_parse_def_size_of, spec_parse_def_store,
    spec_parse_def_subtract, spec_parse_def_to_buffer, spec_parse_def_to_hex_string,
    spec_parse_type2_opcode,
};
use crate::AmlError;

verus! {

broadcast use vstd::seq::group_seq_axioms;

/// A successful term-argument decode consumes between 1 byte and the whole
/// input.
pub proof fn lemma_term_arg_consumed(data: Seq<u8>, depth: nat)
    ensures
        spec_parse_term_arg(data, depth) matches Ok((v, n)) ==> 1 <= n <= data.len(),
    decreases depth, data.len(), 1int,
{
    if depth != 0 {
        lemma_type2_consumed(data, (depth - 1) as nat);
    }
}

/// A successful term-object decode consumes between 1 byte and the whole
/// input.
pub proof fn lemma_term_obj_consumed(data: Seq<u8>, depth: nat)
    ensures
        spec_parse_term_obj(data, depth) matches Ok((v, n)) ==> 1 <= n <= data.len(),
    decreases depth, data.len(), 1int,
{
    if depth != 0 {
        lemma_named_obj_consumed(data, (depth - 1) as nat);
        lemma_type1_consumed(data, (depth - 1) as nat);
        lemma_type2_consumed(data, (depth - 1) as nat);
    }
}

/// A successful Type-1 decode consumes between 1 byte and the whole input.
pub proof fn lemma_type1_consumed(data: Seq<u8>, depth: nat)
    ensures
        spec_parse_type1_opcode(data, depth) matches Ok((v, n)) ==> 1 <= n <= data.len(),
    decreases depth, data.len(), 1int,
{
    lemma_def_if_else_consumed(data, depth);
}

/// A successful `If`/`Else` decode consumes between 1 byte and the whole
/// input.
pub proof fn lemma_def_if_else_consumed(data: Seq<u8>, depth: nat)
    ensures
        spec_parse_def_if_else(data, depth) matches Ok((v, n)) ==> 1 <= n <= data.len(),
    decreases depth, data.len(), 0int,
{
    if data.len() >= 1 && data[0] == 0xA0 && depth > 0 {
        match spec_parse_pkg_length(data.skip(1)) {
            Ok((pkg_len, k)) => {
                if k <= pkg_len && 1 + pkg_len <= data.len() {
                    lemma_def_else_consumed(data.skip(1 + pkg_len), depth);
                }
            },
            Err(_) => {},
        }
    }
}

/// A successful `Else` decode consumes at most the whole input (and nothing
/// when the clause is absent).
pub proof fn lemma_def_else_consumed(data: Seq<u8>, depth: nat)
    ensures
        spec_parse_def_else(data, depth) matches Ok((v, n)) ==> 0 <= n <= data.len(),
    decreases depth, data.len(), 0int,
{
}

/// A successful Type-2 decode consumes between 1 byte and the whole input.
pub proof fn lemma_type2_consumed(data: Seq<u8>, depth: nat)
    ensures
        spec_parse_type2_opcode(data, depth) matches Ok((v, n)) ==> 1 <= n <= data.len(),
    decreases depth, data.len(), 1int,
{
    lemma_def_deref_of_consumed(data, depth);
    lemma_def_increment_consumed(data, depth);
    lemma_def_index_consumed(data, depth);
    lemma_def_lequal_consumed(data, depth);
    lemma_def_lless_consumed(data, depth);
    lemma_def_size_of_consumed(data, depth);
    lemma_def_store_consumed(data, depth);
    lemma_def_subtract_consumed(data, depth);
    lemma_def_to_buffer_consumed(data, depth);
    lemma_def_to_hex_string_consumed(data, depth);
    lemma_parse_name_string_bounds(data);
}

pub proof fn lemma_def_deref_of_consumed(data: Seq<u8>, depth: nat)
    ensures
        spec_parse_def_deref_of(data, depth) matches Ok((v, n)) ==> 1 <= n <= data.len(),
    decreases depth, data.len(), 0int,
{
    if data.len() >= 1 && data[0] == 0x83 && depth > 0 {
        lemma_term_arg_consumed(data.skip(1), (depth - 1) as nat);
    }
}

pub proof fn lemma_def_increment_consumed(data: Seq<u8>, depth: nat)
    ensures
        spec_parse_def_increment(data, depth) matches Ok((v, n)) ==> 1 <= n <= data.len(),
{
    if data.len() >= 1 && data[0] == 0x75 {
        lemma_parse_super_name_bounds(data.skip(1));
    }
}

pub proof fn lemma_def_index_consumed(data: Seq<u8>, depth: nat)
    ensures
        spec_parse_def_index(data, depth) matches Ok((v, n)) ==> 1 <= n <= data.len(),
    decreases depth, data.len(), 0int,
{
    if data.len() >= 1 && data[0] == 0x88 && depth > 0 {
        lemma_term_arg_consumed(data.skip(1), (depth - 1) as nat);
        match spec_parse_term_arg(data.skip(1), (depth - 1) as nat) {
            Ok((obj, on)) => {
                lemma_term_arg_consumed(data.skip(1 + on), (depth - 1) as nat);
                match spec_parse_term_arg(data.skip(1 + on), (depth - 1) as nat) {
                    Ok((idx, ixn)) => {
                        lemma_parse_super_name_bounds(data.skip(1 + on + ixn));
                    },
                    Err(_) => {},
                }
            },
            Err(_) => {},
        }
    }
}

pub proof fn lemma_def_lequal_consumed(data: Seq<u8>, depth: nat)
    ensures
        spec_parse_def_lequal(data, depth) matches Ok((v, n)) ==> 1 <= n <= data.len(),
    decreases depth, data.len(), 0int,
{
    if data.len() >= 1 && data[0] == 0x93 && depth > 0 {
        lemma_term_arg_consumed(data.skip(1), (depth - 1) as nat);
        match spec_parse_term_arg(data.skip(1), (depth - 1) as nat) {
            Ok((lhs, ln)) => {
                lemma_term_arg_consumed(data.skip(1 + ln), (depth - 1) as nat);
            },
            Err(_) => {},
        }
    }
}

pub proof fn lemma_def_lless_consumed(data: Seq<u8>, depth: nat)
    ensures
        spec_parse_def_lless(data, depth) matches Ok((v, n)) ==> 1 <= n <= data.len(),
    decreases depth, data.len(), 0int,
{
    if data.len() >= 1 && data[0] == 0x95 && depth > 0 {
        lemma_term_arg_consumed(data.skip(1), (depth - 1) as nat);
        match spec_parse_term_arg(data.skip(1), (depth - 1) as nat) {
            Ok((lhs, ln)) => {
                lemma_term_arg_consumed(data.skip(1 + ln), (depth - 1) as nat);
            },
            Err(_) => {},
        }
    }
}

pub proof fn lemma_def_size_of_consumed(data: Seq<u8>, depth: nat)
    ensures
        spec_parse_def_size_of(data, depth) matches Ok((v, n)) ==> 1 <= n <= data.len(),
{
    if data.len() >= 1 && data[0] == 0x87 {
        lemma_parse_super_name_bounds(data.skip(1));
    }
}

pub proof fn lemma_def_store_consumed(data: Seq<u8>, depth: nat)
    ensures
        spec_parse_def_store(data, depth) matches Ok((v, n)) ==> 1 <= n <= data.len(),
    decreases depth, data.len(), 0int,
{
    if data.len() >= 1 && data[0] == 0x70 && depth > 0 {
        lemma_term_arg_consumed(data.skip(1), (depth - 1) as nat);
        match spec_parse_term_arg(data.skip(1), (depth - 1) as nat) {
            Ok((operand, on)) => {
                lemma_parse_super_name_bounds(data.skip(1 + on));
            },
            Err(_) => {},
        }
    }
}

pub proof fn lemma_def_subtract_consumed(data: Seq<u8>, depth: nat)
    ensures
        spec_parse_def_subtract(data, depth) matches Ok((v, n)) ==> 1 <= n <= data.len(),
    decreases depth, data.len(), 0int,
{
    if data.len() >= 1 && data[0] == 0x74 && depth > 0 {
        lemma_term_arg_consumed(data.skip(1), (depth - 1) as nat);
        match spec_parse_term_arg(data.skip(1), (depth - 1) as nat) {
            Ok((minuend, mn)) => {
                lemma_term_arg_consumed(data.skip(1 + mn), (depth - 1) as nat);
                match spec_parse_term_arg(data.skip(1 + mn), (depth - 1) as nat) {
                    Ok((subtrahend, sn)) => {
                        lemma_parse_super_name_bounds(data.skip(1 + mn + sn));
                    },
                    Err(_) => {},
                }
            },
            Err(_) => {},
        }
    }
}

pub proof fn lemma_def_to_buffer_consumed(data: Seq<u8>, depth: nat)
    ensures
        spec_parse_def_to_buffer(data, depth) matches Ok((v, n)) ==> 1 <= n <= data.len(),
    decreases depth, data.len(), 0int,
{
    if data.len() >= 1 && data[0] == 0x96 && depth > 0 {
        lemma_term_arg_consumed(data.skip(1), (depth - 1) as nat);
        match spec_parse_term_arg(data.skip(1), (depth - 1) as nat) {
            Ok((operand, on)) => {
                lemma_parse_super_name_bounds(data.skip(1 + on));
            },
            Err(_) => {},
        }
    }
}

pub proof fn lemma_def_to_hex_string_consumed(data: Seq<u8>, depth: nat)
    ensures
        spec_parse_def_to_hex_string(data, depth) matches Ok((v, n)) ==> 1 <= n <= data.len(),
    decreases depth, data.len(), 0int,
{
    if data.len() >= 1 && data[0] == 0x98 && depth > 0 {
        lemma_term_arg_consumed(data.skip(1), (depth - 1) as nat);
        match spec_parse_term_arg(data.skip(1), (depth - 1) as nat) {
            Ok((operand, on)) => {
                lemma_parse_super_name_bounds(data.skip(1 + on));
            },
            Err(_) => {},
        }
    }
}

/// A successful named-object decode consumes between 1 byte and the whole
/// input.
pub proof fn lemma_named_obj_consumed(data: Seq<u8>, depth: nat)
    ensures
        spec_parse_named_obj(data, depth) matches Ok((v, n)) ==> 1 <= n <= data.len(),
    decreases depth, data.len(), 1int,
{
    lemma_def_op_region_consumed(data, depth);
}

pub proof fn lemma_def_op_region_consumed(data: Seq<u8>, depth: nat)
    ensures
        spec_parse_def_op_region(data, depth) matches Ok((v, n)) ==> 1 <= n <= data.len(),
    decreases depth, data.len(), 0int,
{
    if data.len() >= 2 && data[0] == 0x5B && data[1] == 0x80 && depth > 0 {
        lemma_parse_name_string_bounds(data.skip(2));
        match spec_parse_name_string(data.skip(2)) {
            Ok((name, nl)) => {
                if 2 + nl < data.len() {
                    lemma_term_arg_consumed(data.skip(3 + nl), (depth - 1) as nat);
                    match spec_parse_term_arg(data.skip(3 + nl), (depth - 1) as nat) {
                        Ok((offset, ol)) => {
                            lemma_term_arg_consumed(data.skip(3 + nl + ol), (depth - 1) as nat);
                        },
                        Err(_) => {},
                    }
                }
            },
            Err(_) => {},
        }
    }
}

/// A byte that may open a name string: a prefix, a segment lead byte, a
/// dual- or multi-name marker, or the null name.
pub open spec fn is_name_string_first_byte(b: u8) -> bool {
    b == 0x5C || b == 0x5E || is_lead_name_char(b) || b == 0x2E || b == 0x2F || b == 0x00
}

/// A fixed Type-2 opcode byte.
pub open spec fn is_type2_opcode_byte(b: u8) -> bool {
    b == 0x11 || b == 0x83 || b == 0x75 || b == 0x88 || b == 0x93 || b == 0x95 || b == 0x87
        || b == 0x70 || b == 0x74 || b == 0x96 || b == 0x98
}

/// A name decode succeeds only on inputs opening with a name byte.
pub proof fn lemma_name_first_byte(data: Seq<u8>)
    ensures
        spec_parse_name_string(data) matches Ok((v, n)) ==> data.len() >= 1
            && is_name_string_first_byte(data[0]),
{
    lemma_count_parent_prefixes_bounds(data);
    if spec_parse_name_string(data) matches Ok((v, n)) {
        let p = spec_name_prefix_len(data);
        if data.len() > 0 && data[0] == 0x5C {
        } else if count_parent_prefixes(data) > 0 {
            assert(data[0] == 0x5E);
        } else {
            assert(p == 0);
            assert(data.skip(0) =~= data);
            assert(spec_parse_name_body(data) matches Ok(_));
            if data.len() >= 4 && is_name_seg(data.subrange(0, 4)) {
                assert(data.subrange(0, 4)[0] == data[0]);
            }
        }
    }
}

/// A name decode fails on any input not opening with a name byte.
pub proof fn lemma_name_fails_first_byte(data: Seq<u8>)
    ensures
        data.len() >= 1 && !is_name_string_first_byte(data[0]) ==> spec_parse_name_string(data)
            == Err::<(Seq<char>, int), AmlError>(AmlError::AmlParseError),
{
    if data.len() >= 1 && !is_name_string_first_byte(data[0]) {
        assert(count_parent_prefixes(data) == 0);
        assert(data.skip(0) =~= data);
        if data.len() >= 4 {
            assert(data.subrange(0, 4)[0] == data[0]);
        }
    }
}

/// A Type-2 decode succeeds only on inputs opening with a fixed Type-2
/// opcode or a name byte.
pub proof fn lemma_type2_first_byte(data: Seq<u8>, depth: nat)
    ensures
        spec_parse_type2_opcode(data, depth) matches Ok((v, n)) ==> data.len() >= 1 && (
        is_type2_opcode_byte(data[0]) || is_name_string_first_byte(data[0])),
{
    if spec_parse_type2_opcode(data, depth) matches Ok((v, n)) {
        if data.len() >= 1 && is_type2_opcode_byte(data[0]) {
        } else {
            lemma_name_first_byte(data);
        }
    }
}

/// A Type-1 decode succeeds only on the `If` or `While` opcode.
pub proof fn lemma_type1_first_byte(data: Seq<u8>, depth: nat)
    ensures
        spec_parse_type1_opcode(data, depth) matches Ok((v, n)) ==> data.len() >= 1 && (data[0]
            == 0xA0 || data[0] == 0xA2),
{
}

/// A named-object decode succeeds only on the extended-opcode prefix.
pub proof fn lemma_named_obj_first_byte(data: Seq<u8>, depth: nat)
    ensures
        spec_parse_named_obj(data, depth) matches Ok((v, n)) ==> data.len() >= 2 && data[0] == 0x5B
            && data[1] == 0x80,
{
}

/// Appending bytes leaves a successful literal decode unchanged.
pub proof fn lemma_data_obj_append_stable(data: Seq<u8>, ext: Seq<u8>)
    ensures
        spec_parse_data_obj(data) matches Ok(_) ==> spec_parse_data_obj(data + ext)
            == spec_parse_data_obj(data),
{
}

/// Appending bytes leaves a successful PkgLength decode unchanged.
pub proof fn lemma_pkg_append_stable(data: Seq<u8>, ext: Seq<u8>)
    ensures
        spec_parse_pkg_length(data) matches Ok(_) ==> spec_parse_pkg_length(data + ext)
            == spec_parse_pkg_length(data),
{
}

/// Appending bytes does not change a parent-prefix count that stops inside
/// the input.
pub proof fn lemma_count_append_stable(data: Seq<u8>, ext: Seq<u8>)
    requires
        count_parent_prefixes(data) < data.len(),
    ensures
        count_parent_prefixes(data + ext) == count_parent_prefixes(data),
    decreases data.len(),
{
    lemma_count_parent_prefixes_bounds(data);
    if data.len() > 0 && data[0] == 0x5E {
        assert((data + ext).skip(1) =~= data.skip(1) + ext);
        lemma_count_parent_prefixes_bounds(data.skip(1));
        lemma_count_append_stable(data.skip(1), ext);
    } else {
        assert((data + ext)[0] == data[0]);
    }
}

/// Appending bytes leaves a successful name-body decode unchanged.
pub proof fn lemma_name_body_append_stable(d: Seq<u8>, ext: Seq<u8>)
    ensures
        spec_parse_name_body(d) matches Ok(_) ==> spec_parse_name_body(d + ext)
            == spec_parse_name_body(d),
{
    if spec_parse_name_body(d) matches Ok(_) {
        let de = d + ext;
        if d.len() >= 4 && is_name_seg(d.subrange(0, 4)) {
            assert(de.subrange(0, 4) =~= d.subrange(0, 4));
            assert(spec_parse_name_body(d + ext) == spec_parse_name_body(d));
        } else if d.len() >= 1 && d[0] == 0x2E {
            assert(de[0] == d[0]);
            assert(d.len() >= 9);
            assert(de.subrange(0, 4) =~= d.subrange(0, 4));
            assert(de.subrange(1, 5) =~= d.subrange(1, 5));
            assert(de.subrange(5, 9) =~= d.subrange(5, 9));
            assert(de.subrange(1, 9) =~= d.subrange(1, 9));
            assert(spec_parse_name_body(d + ext) == spec_parse_name_body(d));
        } else if d.len() >= 1 && d[0] == 0x2F {
            assert(de[0] == d[0]);
            assert(de[1] == d[1]);
            let c = d[1] as int;
            assert(d.len() >= 2 + 4 * c && c >= 1);
            assert(de.subrange(0, 4) =~= d.subrange(0, 4));
            assert forall|i: int| 0 <= i < c implies #[trigger] de.skip(2).subrange(4 * i, 4 * i + 4)
                =~= d.skip(2).subrange(4 * i, 4 * i + 4) by {}
            assert(crate::namestring::all_name_segs(de.skip(2), c));
            assert(de.subrange(2, 2 + 4 * c) =~= d.subrange(2, 2 + 4 * c));
            assert(spec_parse_name_body(d + ext) == spec_parse_name_body(d));
        } else {
            assert(d.len() >= 1 && d[0] == 0x00);
            assert(de[0] == d[0]);
            if de.len() >= 4 {
                assert(de.subrange(0, 4)[0] == d[0]);
                assert(!is_name_seg(de.subrange(0, 4)));
            }
            assert(spec_parse_name_body(d + ext) == spec_parse_name_body(d));
        }
    }
}

/// Appending bytes leaves a successful name decode unchanged.
pub proof fn lemma_name_append_stable(data: Seq<u8>, ext: Seq<u8>)
    ensures
        spec_parse_name_string(data) matches Ok(_) ==> spec_parse_name_string(data + ext)
            == spec_parse_name_string(data),
{
    if spec_parse_name_string(data) matches Ok(_) {
        lemma_parse_name_string_bounds(data);
        lemma_count_parent_prefixes_bounds(data);
        let p = spec_name_prefix_len(data);
        let de = data + ext;
        if data.len() > 0 && data[0] == 0x5C {
            assert(de[0] == data[0]);
        } else {
            assert(spec_parse_name_body(data.skip(p)) matches Ok(_));
            assert(count_parent_prefixes(data) < data.len()) by {
                if count_parent_prefixes(data) == data.len() {
                    assert(data.skip(p).len() == 0);
                }
            }
            lemma_count_append_stable(data, ext);
            if data.len() > 0 {
                assert(de[0] == data[0]);
            }
        }
        assert(spec_name_prefix_len(de) == p);
        assert(de.skip(p) =~= data.skip(p) + ext);
        lemma_name_body_append_stable(data.skip(p), ext);
        assert(de.subrange(0, p) =~= data.subrange(0, p));
    }
}

/// Appending bytes leaves a successful super-name decode unchanged.
pub proof fn lemma_super_name_append_stable(data: Seq<u8>, ext: Seq<u8>)
    ensures
        spec_parse_super_name(data) matches Ok(_) ==> spec_parse_super_name(data + ext)
            == spec_parse_super_name(data),
{
    if spec_parse_super_name(data) matches Ok(_) {
        let de = data + ext;
        match spec_parse_name_string(data) {
            Ok(_) => {
                lemma_name_append_stable(data, ext);
            },
            Err(_) => {
                assert(data.len() >= 1 && 0x60 <= data[0] <= 0x6E);
                assert(de[0] == data[0]);
                lemma_name_fails_first_byte(de);
            },
        }
    }
}

/// Appending bytes leaves a successful term-argument decode unchanged: a term
/// argument is determined by its own bytes alone.
pub proof fn lemma_term_arg_append_stable(data: Seq<u8>, ext: Seq<u8>, depth: nat)
    ensures
        spec_parse_term_arg(data, depth) matches Ok(_) ==> spec_parse_term_arg(data + ext, depth)
            == spec_parse_term_arg(data, depth),
    decreases depth, data.len(), 1int,
{
    if depth != 0 && spec_parse_term_arg(data, depth) matches Ok(_) {
        let de = data + ext;
        match spec_parse_data_obj(data) {
            Ok(_) => {
                lemma_data_obj_append_stable(data, ext);
            },
            Err(_) => {
                match spec_parse_arg_obj(data) {
                    Ok(_) => {
                        assert(de[0] == data[0]);
                    },
                    Err(_) => {
                        match spec_parse_local_obj(data) {
                            Ok(_) => {
                                assert(de[0] == data[0]);
                            },
                            Err(_) => {
                                lemma_type2_first_byte(data, (depth - 1) as nat);
                                assert(de[0] == data[0]);
                                lemma_type2_append_stable(data, ext, (depth - 1) as nat);
                            },
                        }
                    },
                }
            },
        }
    }
}

/// Appending bytes leaves a successful Type-2 decode unchanged.
pub proof fn lemma_type2_append_stable(data: Seq<u8>, ext: Seq<u8>, depth: nat)
    ensures
        spec_parse_type2_opcode(data, depth) matches Ok(_) ==> spec_parse_type2_opcode(
            data + ext,
            depth,
        ) == spec_parse_type2_opcode(data, depth),
    decreases depth, data.len(), 1int,
{
    if spec_parse_type2_opcode(data, depth) matches Ok(_) {
        lemma_type2_first_byte(data, depth);
        let de = data + ext;
        assert(de[0] == data[0]);
        if data[0] == 0x11 {
            lemma_def_buffer_append_stable(data, ext, depth);
        } else if data[0] == 0x83 {
            lemma_def_deref_of_append_stable(data, ext, depth);
        } else if data[0] == 0x75 {
            lemma_def_increment_append_stable(data, ext, depth);
        } else if data[0] == 0x88 {
            lemma_def_index_append_stable(data, ext, depth);
        } else if data[0] == 0x93 {
            lemma_def_lequal_append_stable(data, ext, depth);
        } else if data[0] == 0x95 {
            lemma_def_lless_append_stable(data, ext, depth);
        } else if data[0] == 0x87 {
            lemma_def_size_of_append_stable(data, ext, depth);
        } else if data[0] == 0x70 {
            lemma_def_store_append_stable(data, ext, depth);
        } else if data[0] == 0x74 {
            lemma_def_subtract_append_stable(data, ext, depth);
        } else if data[0] == 0x96 {
            lemma_def_to_buffer_append_stable(data, ext, depth);
        } else if data[0] == 0x98 {
            lemma_def_to_hex_string_append_stable(data, ext, depth);
        } else {
            lemma_name_append_stable(data, ext);
        }
    }
}

pub proof fn lemma_def_buffer_append_stable(data: Seq<u8>, ext: Seq<u8>, depth: nat)
    ensures
        spec_parse_def_buffer(data, depth) matches Ok(_) ==> spec_parse_def_buffer(
            data + ext,
            depth,
        ) == spec_parse_def_buffer(data, depth),
    decreases depth, data.len(), 0int,
{
    if spec_parse_def_buffer(data, depth) matches Ok(_) {
        let de = data + ext;
        assert(de[0] == data[0]);
        assert(de.skip(1) =~= data.skip(1) + ext);
        lemma_pkg_append_stable(data.skip(1), ext);
        match spec_parse_pkg_length(data.skip(1)) {
            Ok((pkg_len, k)) => {
                assert(de.subrange(1 + k, 1 + pkg_len) =~= data.subrange(1 + k, 1 + pkg_len));
            },
            Err(_) => {},
        }
    }
}

pub proof fn lemma_def_deref_of_append_stable(data: Seq<u8>, ext: Seq<u8>, depth: nat)
    ensures
        spec_parse_def_deref_of(data, depth) matches Ok(_) ==> spec_parse_def_deref_of(
            data + ext,
            depth,
        ) == spec_parse_def_deref_of(data, depth),
    decreases depth, data.len(), 0int,
{
    if spec_parse_def_deref_of(data, depth) matches Ok(_) {
        let de = data + ext;
        assert(de[0] == data[0]);
        assert(de.skip(1) =~= data.skip(1) + ext);
        lemma_term_arg_append_stable(data.skip(1), ext, (depth - 1) as nat);
    }
}

pub proof fn lemma_def_increment_append_stable(data: Seq<u8>, ext: Seq<u8>, depth: nat)
    ensures
        spec_parse_def_increment(data, depth) matches Ok(_) ==> spec_parse_def_increment(
            data + ext,
            depth,
        ) == spec_parse_def_increment(data, depth),
{
    if spec_parse_def_increment(data, depth) matches Ok(_) {
        let de = data + ext;
        assert(de[0] == data[0]);
        assert(de.skip(1) =~= data.skip(1) + ext);
        lemma_super_name_append_stable(data.skip(1), ext);
    }
}

#[verifier::rlimit(100)]
#[verifier::spinoff_prover]
pub proof fn lemma_def_index_append_stable(data: Seq<u8>, ext: Seq<u8>, depth: nat)
    ensures
        spec_parse_def_index(data, depth) matches Ok(_) ==> spec_parse_def_index(data + ext, depth)
            == spec_parse_def_index(data, depth),
    decreases depth, data.len(), 0int,
{
    if spec_parse_def_index(data, depth) matches Ok(_) {
        let de = data + ext;
        assert(de[0] == data[0]);
        assert(de.skip(1) =~= data.skip(1) + ext);
        lemma_term_arg_append_stable(data.skip(1), ext, (depth - 1) as nat);
        lemma_term_arg_consumed(data.skip(1), (depth - 1) as nat);
        match spec_parse_term_arg(data.skip(1), (depth - 1) as nat) {
            Ok((obj, on)) => {
                assert(de.skip(1 + on) =~= data.skip(1 + on) + ext);
                lemma_term_arg_append_stable(data.skip(1 + on), ext, (depth - 1) as nat);
                lemma_term_arg_consumed(data.skip(1 + on), (depth - 1) as nat);
                match spec_parse_term_arg(data.skip(1 + on), (depth - 1) as nat) {
                    Ok((idx, ixn)) => {
                        assert(de.skip(1 + on + ixn) =~= data.skip(1 + on + ixn) + ext);
                        lemma_super_name_append_stable(data.skip(1 + on + ixn), ext);
                    },
                    Err(_) => {},
                }
            },
            Err(_) => {},
        }
    }
}

#[verifier::rlimit(100)]
#[verifier::spinoff_prover]
pub proof fn lemma_def_lequal_append_stable(data: Seq<u8>, ext: Seq<u8>, depth: nat)
    ensures
        spec_parse_def_lequal(data, depth) matches Ok(_) ==> spec_parse_def_lequal(
            data + ext,
            depth,
        ) == spec_parse_def_lequal(data, depth),
    decreases depth, data.len(), 0int,
{
    if spec_parse_def_lequal(data, depth) matches Ok(_) {
        let de = data + ext;
        assert(de[0] == data[0]);
        assert(de.skip(1) =~= data.skip(1) + ext);
        lemma_term_arg_append_stable(data.skip(1), ext, (depth - 1) as nat);
        lemma_term_arg_consumed(data.skip(1), (depth - 1) as nat);
        match spec_parse_term_arg(data.skip(1), (depth - 1) as nat) {
            Ok((lhs, ln)) => {
                assert(de.skip(1 + ln) =~= data.skip(1 + ln) + ext);
                lemma_term_arg_append_stable(data.skip(1 + ln), ext, (depth - 1) as nat);
            },
            Err(_) => {},
        }
    }
}

#[verifier::rlimit(100)]
#[verifier::spinoff_prover]
pub proof fn lemma_def_lless_append_stable(data: Seq<u8>, ext: Seq<u8>, depth: nat)
    ensures
        spec_parse_def_lless(data, depth) matches Ok(_) ==> spec_parse_def_lless(data + ext, depth)
            == spec_parse_def_lless(data, depth),
    decreases depth, data.len(), 0int,
{
    if spec_parse_def_lless(data, depth) matches Ok(_) {
        let de = data + ext;
        assert(de[0] == data[0]);
        assert(de.skip(1) =~= data.skip(1) + ext);
        lemma_term_arg_append_stable(data.skip(1), ext, (depth - 1) as nat);
        lemma_term_arg_consumed(data.skip(1), (depth - 1) as nat);
        match spec_parse_term_arg(data.skip(1), (depth - 1) as nat) {
            Ok((lhs, ln)) => {
                assert(de.skip(1 + ln) =~= data.skip(1 + ln) + ext);
                lemma_term_arg_append_stable(data.skip(1 + ln), ext, (depth - 1) as nat);
            },
            Err(_) => {},
        }
    }
}

pub proof fn lemma_def_size_of_append_stable(data: Seq<u8>, ext: Seq<u8>, depth: nat)
    ensures
        spec_parse_def_size_of(data, depth) matches Ok(_) ==> spec_parse_def_size_of(
            data + ext,
            depth,
        ) == spec_parse_def_size_of(data, depth),
{
    if spec_parse_def_size_of(data, depth) matches Ok(_) {
        let de = data + ext;
        assert(de[0] == data[0]);
        assert(de.skip(1) =~= data.skip(1) + ext);
        lemma_super_name_append_stable(data.skip(1), ext);
    }
}

#[verifier::rlimit(100)]
#[verifier::spinoff_prover]
pub proof fn lemma_def_store_append_stable(data: Seq<u8>, ext: Seq<u8>, depth: nat)
    ensures
        spec_parse_def_store(data, depth) matches Ok(_) ==> spec_parse_def_store(data + ext, depth)
            == spec_parse_def_store(data, depth),
    decreases depth, data.len(), 0int,
{
    if spec_parse_def_store(data, depth) matches Ok(_) {
        let de = data + ext;
        assert(de[0] == data[0]);
        assert(de.skip(1) =~= data.skip(1) + ext);
        lemma_term_arg_append_stable(data.skip(1), ext, (depth - 1) as nat);
        lemma_term_arg_consumed(data.skip(1), (depth - 1) as nat);
        match spec_parse_term_arg(data.skip(1), (depth - 1) as nat) {
            Ok((operand, on)) => {
                assert(de.skip(1 + on) =~= data.skip(1 + on) + ext);
                lemma_super_name_append_stable(data.skip(1 + on), ext);
            },
            Err(_) => {},
        }
    }
}

#[verifier::rlimit(100)]
#[verifier::spinoff_prover]
pub proof fn lemma_def_subtract_append_stable(data: Seq<u8>, ext: Seq<u8>, depth: nat)
    ensures
        spec_parse_def_subtract(data, depth) matches Ok(_) ==> spec_parse_def_subtract(
            data + ext,
            depth,
        ) == spec_parse_def_subtract(data, depth),
    decreases depth, data.len(), 0int,
{
    if spec_parse_def_subtract(data, depth) matches Ok(_) {
        let de = data + ext;
        assert(de[0] == data[0]);
        assert(de.skip(1) =~= data.skip(1) + ext);
        lemma_term_arg_append_stable(data.skip(1), ext, (depth - 1) as nat);
        lemma_term_arg_consumed(data.skip(1), (depth - 1) as nat);
        match spec_parse_term_arg(data.skip(1), (depth - 1) as nat) {
            Ok((minuend, mn)) => {
                assert(de.skip(1 + mn) =~= data.skip(1 + mn) + ext);
                lemma_term_arg_append_stable(data.skip(1 + mn), ext, (depth - 1) as nat);
                lemma_term_arg_consumed(data.skip(1 + mn), (depth - 1) as nat);
                match spec_parse_term_arg(data.skip(1 + mn), (depth - 1) as nat) {
                    Ok((subtrahend, sn)) => {
                        assert(de.skip(1 + mn + sn) =~= data.skip(1 + mn + sn) + ext);
                        lemma_super_name_append_stable(data.skip(1 + mn + sn), ext);
                    },
                    Err(_) => {},
                }
            },
            Err(_) => {},
        }
    }
}

#[verifier::rlimit(100)]
#[verifier::spinoff_prover]
pub proof fn lemma_def_to_buffer_append_stable(data: Seq<u8>, ext: Seq<u8>, depth: nat)
    ensures
        spec_parse_def_to_buffer(data, depth) matches Ok(_) ==> spec_parse_def_to_buffer(
            data + ext,
            depth,
        ) == spec_parse_def_to_buffer(data, depth),
    decreases depth, data.len(), 0int,
{
    if spec_parse_def_to_buffer(data, depth) matches Ok(_) {
        let de = data + ext;
        assert(de[0] == data[0]);
        assert(de.skip(1) =~= data.skip(1) + ext);
        lemma_term_arg_append_stable(data.skip(1), ext, (depth - 1) as nat);
        lemma_term_arg_consumed(data.skip(1), (depth - 1) as nat);
        match spec_parse_term_arg(data.skip(1), (depth - 1) as nat) {
            Ok((operand, on)) => {
                assert(de.skip(1 + on) =~= data.skip(1 + on) + ext);
                lemma_super_name_append_stable(data.skip(1 + on), ext);
            },
            Err(_) => {},
        }
    }
}

#[verifier::rlimit(100)]
#[verifier::spinoff_prover]
pub proof fn lemma_def_to_hex_string_append_stable(data: Seq<u8>, ext: Seq<u8>, depth: nat)
    ensures
        spec_parse_def_to_hex_string(data, depth) matches Ok(_) ==> spec_parse_def_to_hex_string(
            data + ext,
            depth,
        ) == spec_parse_def_to_hex_string(data, depth),
    decreases depth, data.len(), 0int,
{
    if spec_parse_def_to_hex_string(data, depth) matches Ok(_) {
        let de = data + ext;
        assert(de[0] == data[0]);
        assert(de.skip(1) =~= data.skip(1) + ext);
        lemma_term_arg_append_stable(data.skip(1), ext, (depth - 1) as nat);
        lemma_term_arg_consumed(data.skip(1), (depth - 1) as nat);
        match spec_parse_term_arg(data.skip(1), (depth - 1) as nat) {
            Ok((operand, on)) => {
                assert(de.skip(1 + on) =~= data.skip(1 + on) + ext);
                lemma_super_name_append_stable(data.skip(1 + on), ext);
            },
            Err(_) => {},
        }
    }
}

/// Appending bytes leaves a successful named-object decode unchanged.
#[verifier::rlimit(100)]
#[verifier::spinoff_prover]
pub proof fn lemma_named_obj_append_stable(data: Seq<u8>, ext: Seq<u8>, depth: nat)
    ensures
        spec_parse_named_obj(data, depth) matches Ok(_) ==> spec_parse_named_obj(data + ext, depth)
            == spec_parse_named_obj(data, depth),
    decreases depth, data.len(), 1int,
{
    if spec_parse_def_op_region(data, depth) matches Ok(_) {
        let de = data + ext;
        assert(de[0] == data[0] && de[1] == data[1]);
        assert(de.skip(2) =~= data.skip(2) + ext);
        lemma_name_append_stable(data.skip(2), ext);
        lemma_parse_name_string_bounds(data.skip(2));
        match spec_parse_name_string(data.skip(2)) {
            Ok((name, nl)) => {
                if 2 + nl < data.len() {
                    assert(de[2 + nl] == data[2 + nl]);
                    assert(de.skip(3 + nl) =~= data.skip(3 + nl) + ext);
                    lemma_term_arg_append_stable(data.skip(3 + nl), ext, (depth - 1) as nat);
                    lemma_term_arg_consumed(data.skip(3 + nl), (depth - 1) as nat);
                    match spec_parse_term_arg(data.skip(3 + nl), (depth - 1) as nat) {
                        Ok((offset, ol)) => {
                            assert(de.skip(3 + nl + ol) =~= data.skip(3 + nl + ol) + ext);
                            lemma_term_arg_append_stable(
                                data.skip(3 + nl + ol),
                                ext,
                                (depth - 1) as nat,
                            );
                        },
                        Err(_) => {},
                    }
                }
            },
            Err(_) => {},
        }
    }
}

/// Appending bytes leaves a successful `While` decode unchanged.
#[verifier::rlimit(100)]
pub proof fn lemma_def_while_append_stable(data: Seq<u8>, ext: Seq<u8>, depth: nat)
    ensures
        spec_parse_def_while(data, depth) matches Ok(_) ==> spec_parse_def_while(data + ext, depth)
            == spec_parse_def_while(data, depth),
    decreases depth, data.len(), 0int,
{
    if spec_parse_def_while(data, depth) matches Ok(_) {
        let de = data + ext;
        assert(de[0] == data[0]);
        assert(de.skip(1) =~= data.skip(1) + ext);
        lemma_pkg_append_stable(data.skip(1), ext);
        match spec_parse_pkg_length(data.skip(1)) {
            Ok((pkg_len, k)) => {
                assert(de.subrange(1 + k, 1 + pkg_len) =~= data.subrange(1 + k, 1 + pkg_len));
            },
            Err(_) => {},
        }
    }
}

/// Appending bytes leaves a successful `Else` decode unchanged, as long as an
/// absent clause at the very end of the input is not followed by an `Else`
/// opcode in the appended bytes.
#[verifier::rlimit(100)]
#[verifier::spinoff_prover]
pub proof fn lemma_def_else_append_stable(data: Seq<u8>, ext: Seq<u8>, depth: nat)
    ensures
        spec_parse_def_else(data, depth) matches Ok(_) ==> (data.len() > 0 || ext.len() == 0
            || ext[0] != 0xA1) ==> spec_parse_def_else(data + ext, depth) == spec_parse_def_else(
            data,
            depth,
        ),
    decreases depth, data.len(), 0int,
{
    if spec_parse_def_else(data, depth) matches Ok(_) {
        let de = data + ext;
        if data.len() == 0 {
            if ext.len() == 0 {
                assert(de =~= data);
            } else if ext[0] != 0xA1 {
                assert(de[0] == ext[0]);
            }
        } else if data[0] != 0xA1 {
            assert(de[0] == data[0]);
        } else {
            assert(de[0] == data[0]);
            assert(de.skip(1) =~= data.skip(1) + ext);
            lemma_pkg_append_stable(data.skip(1), ext);
            match spec_parse_pkg_length(data.skip(1)) {
                Ok((pkg_len, k)) => {
                    assert(spec_parse_pkg_length(de.skip(1)) == spec_parse_pkg_length(
                        data.skip(1),
                    ));
                    if k <= pkg_len && 1 + pkg_len <= data.len() {
                        assert(1 + pkg_len <= de.len());
                        assert(de.subrange(1 + k, 1 + pkg_len) =~= data.subrange(
                            1 + k,
                            1 + pkg_len,
                        ));
                        assert(spec_parse_def_else(de, depth) == spec_parse_def_else(data, depth));
                    }
                },
                Err(_) => {},
            }
        }
    }
}

/// Round trip: a term argument followed by its next sibling construct decodes
/// exactly as it does alone, and re-slicing the input at its consumed length
/// positions exactly at the sibling.
pub proof fn lemma_term_arg_round_trip(a: Seq<u8>, b: Seq<u8>, depth: nat)
    requires
        spec_parse_term_arg(a, depth) matches Ok((v, n)) && n == a.len(),
    ensures
        spec_parse_term_arg(a + b, depth) == spec_parse_term_arg(a, depth),
        (a + b).skip(a.len() as int) == b,
{
    lemma_term_arg_append_stable(a, b, depth);
    assert((a + b).skip(a.len() as int) =~= b);
}

} // verus!
