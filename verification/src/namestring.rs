//! Firmware object names: 4-byte name segments, root and parent prefixes,
//! dual- and multi-segment paths, the null name, and the super-name forms
//! usable as assignment or reference targets.

use vstd::prelude::*;
use vstd::slice::slice_subrange;

use crate::dataobj::{
    spec_parse_arg_obj, spec_parse_local_obj, parse_arg_obj, parse_local_obj, ArgObj, LocalObj,
};
use crate::AmlError;

verus! {

/// A byte that may open a name segment: `A`..=`Z` or `_`.
pub open spec fn is_lead_name_char(b: u8) -> bool {
    (0x41 <= b && b <= 0x5A) || b == 0x5F
}

/// A byte that may continue a name segment: `A`..=`Z`, `_` or `0`..=`9`.
pub open spec fn is_name_char(b: u8) -> bool {
    is_lead_name_char(b) || (0x30 <= b && b <= 0x39)
}

/// Exactly four bytes, a lead name character followed by three name
/// characters.
pub open spec fn is_name_seg(s: Seq<u8>) -> bool {
    s.len() == 4 && is_lead_name_char(s[0]) && is_name_char(s[1]) && is_name_char(s[2])
        && is_name_char(s[3])
}

/// The characters that a run of name bytes contributes to the decoded name.
pub open spec fn bytes_as_chars(s: Seq<u8>) -> Seq<char> {
    s.map_values(|b: u8| b as char)
}

/// Number of leading parent-prefix bytes (`^`, 0x5E).
pub open spec fn count_parent_prefixes(data: Seq<u8>) -> int
    decreases data.len(),
{
    if data.len() > 0 && data[0] == 0x5E {
        1 + count_parent_prefixes(data.skip(1))
    } else {
        0
    }
}

pub proof fn lemma_count_parent_prefixes_bounds(data: Seq<u8>)
    ensures
        0 <= count_parent_prefixes(data) <= data.len(),
    decreases data.len(),
{
    if data.len() > 0 && data[0] == 0x5E {
        lemma_count_parent_prefixes_bounds(data.skip(1));
    }
}

/// Length of the prefix part of a name: one byte for the root marker (`\`,
/// 0x5C), else the run of parent-prefix bytes. Root and parent prefixes are
/// mutually exclusive and precede all segments.
pub open spec fn spec_name_prefix_len(data: Seq<u8>) -> int {
    if data.len() > 0 && data[0] == 0x5C {
        1
    } else {
        count_parent_prefixes(data)
    }
}

/// Each of the first `count` 4-byte windows of `data` is a valid name
/// segment.
pub open spec fn all_name_segs(data: Seq<u8>, count: int) -> bool {
    forall|i: int| 0 <= i < count ==> is_name_seg(#[trigger] data.subrange(4 * i, 4 * i + 4))
}

/// Decode of the part of a name that follows the prefixes. The alternatives
/// are tried in order and are mutually exclusive, since no segment lead byte
/// equals a marker byte: a single 4-byte segment; a dual-name marker (0x2E)
/// followed by exactly two segments; a multi-name marker (0x2F), a one-byte
/// segment count of at least 1, then that many segments; the null name (a
/// single 0x00 byte) contributing no characters. Returns the segment bytes
/// and the bytes consumed (segments plus marker and count bytes).
pub open spec fn spec_parse_name_body(data: Seq<u8>) -> Result<(Seq<u8>, int), AmlError> {
    if data.len() >= 4 && is_name_seg(data.subrange(0, 4)) {
        Ok((data.subrange(0, 4), 4))
    } else if data.len() >= 1 && data[0] == 0x2E {
        if data.len() >= 9 && is_name_seg(data.subrange(1, 5)) && is_name_seg(
            data.subrange(5, 9),
        ) {
            Ok((data.subrange(1, 9), 9))
        } else {
            Err(AmlError::AmlParseError)
        }
    } else if data.len() >= 1 && data[0] == 0x2F {
        if data.len() >= 2 && data[1] >= 1 && data.len() >= 2 + 4 * (data[1] as int)
            && all_name_segs(data.skip(2), data[1] as int) {
            Ok((data.subrange(2, 2 + 4 * (data[1] as int)), 2 + 4 * (data[1] as int)))
        } else {
            Err(AmlError::AmlParseError)
        }
    } else if data.len() >= 1 && data[0] == 0x00 {
        Ok((Seq::empty(), 1))
    } else {
        Err(AmlError::AmlParseError)
    }
}

/// Decode of a name string at byte 0: the prefix bytes, then the segment
/// alternatives. The decoded name carries the prefix characters followed by
/// the concatenated segment characters; marker and count bytes are consumed
/// but contribute no characters.
pub open spec fn spec_parse_name_string(data: Seq<u8>) -> Result<(Seq<char>, int), AmlError> {
    let p = spec_name_prefix_len(data);
    match spec_parse_name_body(data.skip(p)) {
        Ok((seg_bytes, n)) => Ok((bytes_as_chars(data.subrange(0, p) + seg_bytes), p + n)),
        Err(e) => Err(e),
    }
}

/// A successful name decode consumes at least one byte and no more than the
/// input, and never yields more characters than bytes consumed.
pub proof fn lemma_parse_name_string_bounds(data: Seq<u8>)
    ensures
        spec_parse_name_string(data) matches Ok((name, n)) ==> 1 <= n <= data.len() && name.len()
            <= n,
{
    lemma_count_parent_prefixes_bounds(data);
}

/// A successful super-name decode consumes at least one byte and no more
/// than the input.
pub proof fn lemma_parse_super_name_bounds(data: Seq<u8>)
    ensures
        spec_parse_super_name(data) matches Ok((v, n)) ==> 1 <= n <= data.len(),
{
    lemma_parse_name_string_bounds(data);
}

/// A single valid name segment decodes to itself: on any input opening with
/// four name-segment bytes, the decoded name is exactly those four bytes as
/// characters and exactly four bytes are consumed.
pub proof fn lemma_name_string_single_seg(data: Seq<u8>)
    requires
        data.len() >= 4,
        is_name_seg(data.subrange(0, 4)),
    ensures
        spec_parse_name_string(data) == Ok::<(Seq<char>, int), AmlError>(
            (bytes_as_chars(data.subrange(0, 4)), 4),
        ),
{
    assert(data[0] != 0x5C && data[0] != 0x5E);
    assert(count_parent_prefixes(data) == 0);
    assert(data.skip(0) =~= data);
    assert(data.subrange(0, 0) + data.subrange(0, 4) =~= data.subrange(0, 4));
}

/// A multi-name path with a declared segment count of `data[1]` decodes
/// exactly that many segments (four characters each, so `4 * data[1]`
/// characters in all) and consumes the two marker bytes plus the segments; a
/// declared count of zero is rejected.
pub proof fn lemma_name_string_multi(data: Seq<u8>)
    requires
        data.len() >= 2,
        data[0] == 0x2F,
    ensures
        data[1] == 0 ==> spec_parse_name_string(data) == Err::<(Seq<char>, int), AmlError>(
            AmlError::AmlParseError,
        ),
        data[1] >= 1 && data.len() >= 2 + 4 * (data[1] as int) && all_name_segs(
            data.skip(2),
            data[1] as int,
        ) ==> spec_parse_name_string(data) == Ok::<(Seq<char>, int), AmlError>(
            (
                bytes_as_chars(data.subrange(2, 2 + 4 * (data[1] as int))),
                2 + 4 * (data[1] as int),
            ),
        ) && bytes_as_chars(data.subrange(2, 2 + 4 * (data[1] as int))).len() == 4 * (
        data[1] as int),
{
    assert(count_parent_prefixes(data) == 0);
    assert(data.skip(0) =~= data);
    if data.len() >= 4 {
        assert(!is_lead_name_char(data.subrange(0, 4)[0]));
    }
    if data[1] >= 1 && data.len() >= 2 + 4 * (data[1] as int) && all_name_segs(
        data.skip(2),
        data[1] as int,
    ) {
        assert(data.subrange(0, 0) + data.subrange(2, 2 + 4 * (data[1] as int)) =~= data.subrange(
            2,
            2 + 4 * (data[1] as int),
        ));
    }
}

/// A name usable as an assignment or reference target: a name string, an
/// argument reference, or a local-variable reference.
#[derive(Debug, PartialEq)]
pub enum SuperName {
    NameString(String),
    ArgObj(ArgObj),
    LocalObj(LocalObj),
}

/// Mathematical image of a [`SuperName`]: the name string abstracted to its
/// characters.
pub enum SuperNameView {
    NameString(Seq<char>),
    ArgObj(ArgObj),
    LocalObj(LocalObj),
}

impl View for SuperName {
    type V = SuperNameView;

    open spec fn view(&self) -> SuperNameView {
        match self {
            SuperName::NameString(s) => SuperNameView::NameString(s@),
            SuperName::ArgObj(a) => SuperNameView::ArgObj(*a),
            SuperName::LocalObj(l) => SuperNameView::LocalObj(*l),
        }
    }
}

/// A target of a store or of an indexed reference. The grammar's null target
/// (a single 0x00 byte) is subsumed by the null form of the name string, so
/// targets decode exactly as super names do.
pub type Target = SuperName;

/// Decode of a simple name at byte 0: a name string, else an argument
/// reference, else a local-variable reference; the first success wins, and
/// the alternatives are mutually exclusive since reference opcodes are not
/// name characters.
pub open spec fn spec_parse_super_name(data: Seq<u8>) -> Result<(SuperNameView, int), AmlError> {
    match spec_parse_name_string(data) {
        Ok((name, n)) => Ok((SuperNameView::NameString(name), n)),
        Err(_) => match spec_parse_arg_obj(data) {
            Ok((a, n)) => Ok((SuperNameView::ArgObj(a), n)),
            Err(_) => match spec_parse_local_obj(data) {
                Ok((l, n)) => Ok((SuperNameView::LocalObj(l), n)),
                Err(e) => Err(e),
            },
        },
    }
}

/// Relies on `String::push` of std: appends exactly the given character.
#[verifier::external_body]
fn string_push_char(s: &mut String, c: char)
    ensures
        final(s)@ == old(s)@.push(c),
{
    s.push(c);
}

/// Append the bytes `data[from..to]`, read as characters, to `s`.
fn push_range_as_chars(s: &mut String, data: &[u8], from: usize, to: usize)
    requires
        from <= to <= data@.len(),
    ensures
        final(s)@ == old(s)@ + bytes_as_chars(data@.subrange(from as int, to as int)),
{
    let mut i: usize = from;
    assert(old(s)@ + bytes_as_chars(data@.subrange(from as int, from as int)) =~= old(s)@);
    while i < to
        invariant
            from <= i <= to <= data@.len(),
            s@ == old(s)@ + bytes_as_chars(data@.subrange(from as int, i as int)),
        decreases to - i,
    {
        let b = data[i];
        string_push_char(s, b as char);
        proof {
            assert(data@.subrange(from as int, i + 1) =~= data@.subrange(from as int, i as int)
                .push(b));
            assert(bytes_as_chars(data@.subrange(from as int, i + 1)) =~= bytes_as_chars(
                data@.subrange(from as int, i as int),
            ).push(b as char));
        }
        i = i + 1;
    }
    assert(data@.subrange(from as int, i as int) =~= data@.subrange(from as int, to as int));
}

/// The four bytes at `data[at..at + 4]` form a valid name segment.
fn check_name_seg(data: &[u8], at: usize) -> (r: bool)
    requires
        at + 4 <= data@.len(),
    ensures
        r == is_name_seg(data@.subrange(at as int, at + 4)),
{
    let b0 = data[at];
    let b1 = data[at + 1];
    let b2 = data[at + 2];
    let b3 = data[at + 3];
    let lead = (0x41 <= b0 && b0 <= 0x5A) || b0 == 0x5F;
    let n1 = (0x41 <= b1 && b1 <= 0x5A) || b1 == 0x5F || (0x30 <= b1 && b1 <= 0x39);
    let n2 = (0x41 <= b2 && b2 <= 0x5A) || b2 == 0x5F || (0x30 <= b2 && b2 <= 0x39);
    let n3 = (0x41 <= b3 && b3 <= 0x5A) || b3 == 0x5F || (0x30 <= b3 && b3 <= 0x39);
    lead && n1 && n2 && n3
}

/// Decode one name segment starting at byte 0 of `data`: succeeds exactly on
/// inputs opening with four name-segment bytes, returning them unchanged.
pub fn parse_name_seg(data: &[u8]) -> (r: Result<Vec<u8>, AmlError>)
    ensures
        match r {
            Ok(v) => data@.len() >= 4 && is_name_seg(data@.subrange(0, 4)) && v@ == data@.subrange(
                0,
                4,
            ),
            Err(e) => e == AmlError::AmlParseError && !(data@.len() >= 4 && is_name_seg(
                data@.subrange(0, 4),
            )),
        },
{
    if data.len() >= 4 && check_name_seg(data, 0) {
        let v = vec![data[0], data[1], data[2], data[3]];
        assert(v@ =~= data@.subrange(0, 4));
        Ok(v)
    } else {
        Err(AmlError::AmlParseError)
    }
}

/// Decode one name string starting at byte 0 of `data`: optional root marker
/// or parent prefixes, then a single segment, a dual-name path, a multi-name
/// path, or the null name.
pub fn parse_name_string(data: &[u8]) -> (r: Result<(String, usize), AmlError>)
    ensures
        match r {
            Ok((s, n)) => spec_parse_name_string(data@) == Ok::<(Seq<char>, int), AmlError>(
                (s@, n as int),
            ) && n <= data@.len(),
            Err(e) => spec_parse_name_string(data@) == Err::<(Seq<char>, int), AmlError>(e),
        },
{
    proof {
        lemma_parse_name_string_bounds(data@);
    }
    let ghost gp = spec_name_prefix_len(data@);
    let mut p: usize = 0;
    if data.len() > 0 && data[0] == 0x5C {
        p = 1;
    } else {
        assert(data@.skip(0) =~= data@);
        while p < data.len() && data[p] == 0x5E
            invariant
                0 <= p <= data@.len(),
                data@.len() > 0 ==> data@[0] != 0x5C,
                forall|j: int| 0 <= j < p ==> data@[j] == 0x5E,
                count_parent_prefixes(data@) == p + count_parent_prefixes(data@.skip(p as int)),
            decreases data@.len() - p,
        {
            proof {
                assert(data@.skip(p as int)[0] == data@[p as int]);
                assert(data@.skip(p as int).skip(1) =~= data@.skip(p + 1));
            }
            p = p + 1;
        }
        proof {
            if p < data.len() {
                assert(data@.skip(p as int)[0] == data@[p as int]);
            }
            assert(count_parent_prefixes(data@.skip(p as int)) == 0);
        }
    }
    assert(p == gp);
    let rest = slice_subrange(data, p, data.len());
    assert(rest@ =~= data@.skip(p as int));
    let rest_len = data.len() - p;

    if rest_len >= 4 && check_name_seg(rest, 0) {
        let mut s = String::new();
        push_range_as_chars(&mut s, data, 0, p);
        push_range_as_chars(&mut s, rest, 0, 4);
        proof {
            assert(rest@.subrange(0, 4) =~= data@.skip(p as int).subrange(0, 4));
            lemma_bytes_as_chars_concat(data@.subrange(0, p as int), rest@.subrange(0, 4));
        }
        Ok((s, p + 4))
    } else if rest_len >= 1 && rest[0] == 0x2E {
        if rest_len >= 9 && check_name_seg(rest, 1) && check_name_seg(rest, 5) {
            let mut s = String::new();
            push_range_as_chars(&mut s, data, 0, p);
            push_range_as_chars(&mut s, rest, 1, 9);
            proof {
                assert(rest@.subrange(1, 9) =~= data@.skip(p as int).subrange(1, 9));
                lemma_bytes_as_chars_concat(data@.subrange(0, p as int), rest@.subrange(1, 9));
            }
            Ok((s, p + 9))
        } else {
            Err(AmlError::AmlParseError)
        }
    } else if rest_len >= 1 && rest[0] == 0x2F {
        if rest_len >= 2 && rest[1] >= 1 && rest_len >= 2 + 4 * (rest[1] as usize) {
            let count = rest[1] as usize;
            let mut i: usize = 0;
            let mut ok = true;
            while i < count && ok
                invariant
                    0 <= i <= count,
                    2 + 4 * count <= rest_len,
                    rest_len <= rest@.len(),
                    ok ==> forall|j: int| 0 <= j < i ==> is_name_seg(
                        #[trigger] rest@.skip(2).subrange(4 * j, 4 * j + 4),
                    ),
                    !ok ==> !all_name_segs(rest@.skip(2), count as int),
                decreases count - i + (if ok { 1int } else { 0int }),
            {
                let good = check_name_seg(rest, 2 + 4 * i);
                proof {
                    assert(rest@.subrange(2 + 4 * i, 2 + 4 * i + 4) =~= rest@.skip(2).subrange(
                        4 * (i as int),
                        4 * (i as int) + 4,
                    ));
                }
                if !good {
                    ok = false;
                } else {
                    i = i + 1;
                }
            }
            if ok {
                assert(all_name_segs(rest@.skip(2), count as int));
                let mut s = String::new();
                push_range_as_chars(&mut s, data, 0, p);
                push_range_as_chars(&mut s, rest, 2, 2 + 4 * count);
                proof {
                    assert(rest@.subrange(2, 2 + 4 * (count as int)) =~= data@.skip(
                        p as int,
                    ).subrange(2, 2 + 4 * (count as int)));
                    lemma_bytes_as_chars_concat(
                        data@.subrange(0, p as int),
                        rest@.subrange(2, 2 + 4 * (count as int)),
                    );
                }
                Ok((s, p + 2 + 4 * count))
            } else {
                Err(AmlError::AmlParseError)
            }
        } else {
            Err(AmlError::AmlParseError)
        }
    } else if rest_len >= 1 && rest[0] == 0x00 {
        let mut s = String::new();
        push_range_as_chars(&mut s, data, 0, p);
        proof {
            assert(data@.subrange(0, p as int) + Seq::<u8>::empty() =~= data@.subrange(
                0,
                p as int,
            ));
        }
        Ok((s, p + 1))
    } else {
        Err(AmlError::AmlParseError)
    }
}

/// Reading bytes as characters distributes over concatenation.
proof fn lemma_bytes_as_chars_concat(a: Seq<u8>, b: Seq<u8>)
    ensures
        bytes_as_chars(a + b) =~= bytes_as_chars(a) + bytes_as_chars(b),
{
}

/// Decode one super name starting at byte 0 of `data`.
pub fn parse_super_name(data: &[u8]) -> (r: Result<(SuperName, usize), AmlError>)
    ensures
        match r {
            Ok((v, n)) => spec_parse_super_name(data@) == Ok::<(SuperNameView, int), AmlError>(
                (v@, n as int),
            ) && n <= data@.len(),
            Err(e) => spec_parse_super_name(data@) == Err::<(SuperNameView, int), AmlError>(e),
        },
{
    parse_simple_name(data)
}

/// Decode one target starting at byte 0 of `data`. A target is a super name;
/// the null target is the null form of the name string.
pub fn parse_target(data: &[u8]) -> (r: Result<(Target, usize), AmlError>)
    ensures
        match r {
            Ok((v, n)) => spec_parse_super_name(data@) == Ok::<(SuperNameView, int), AmlError>(
                (v@, n as int),
            ) && n <= data@.len(),
            Err(e) => spec_parse_super_name(data@) == Err::<(SuperNameView, int), AmlError>(e),
        },
{
    parse_simple_name(data)
}

fn parse_simple_name(data: &[u8]) -> (r: Result<(SuperName, usize), AmlError>)
    ensures
        match r {
            Ok((v, n)) => spec_parse_super_name(data@) == Ok::<(SuperNameView, int), AmlError>(
                (v@, n as int),
            ) && n <= data@.len(),
            Err(e) => spec_parse_super_name(data@) == Err::<(SuperNameView, int), AmlError>(e),
        },
{
    match parse_name_string(data) {
        Ok((name, name_len)) => {
            return Ok((SuperName::NameString(name), name_len));
        },
        Err(_) => {},
    }
    match parse_arg_obj(data) {
        Ok((a, n)) => {
            return Ok((SuperName::ArgObj(a), n));
        },
        Err(_) => {},
    }
    match parse_local_obj(data) {
        Ok((l, n)) => Ok((SuperName::LocalObj(l), n)),
        Err(e) => Err(e),
    }
}

} // verus!
