//! The namespace tree: the mutable hierarchy that accumulates decoded named
//! objects under their firmware-assigned scope paths.
//!
//! A scope path is segments joined by `.`, optionally opening with the root
//! marker `\` (valid only at the root node, whose name is `\`). Insertion
//! walks the path one segment at a time: an existing child sub-namespace with
//! the segment's name is descended into, a missing one is created as an empty
//! namespace, and the contents are attached at the node the full path
//! reaches. Empty or malformed scope strings are silently left as no-ops.

use vstd::prelude::*;
use vstd::string::StrSliceExecFns;

use crate::namedobj::RegionSpace;

verus! {

broadcast use vstd::seq::group_seq_axioms, vstd::std_specs::vec::group_vec_axioms;

/// The semantic kind of a namespace value. Decoding only tags objects; the
/// payloads behind most kinds arrive with the execution stage.
#[derive(Clone, Copy, Debug, PartialEq, Eq, Structural)]
pub enum AmlValue {
    Uninitialized,
    Buffer,
    BufferField,
    DDBHandle,
    DebugObject,
    Device,
    Event,
    FieldUnit,
    Integer,
    IntegerConstant,
    Method,
    Mutex,
    ObjectReference,
    OperationRegion,
    Package,
    String,
    PowerResource,
    Processor,
    RawDataBuffer,
    ThermalZone,
}

/// One node of the object hierarchy: a name and its contents.
#[derive(Debug, PartialEq)]
pub struct AmlNamespace {
    pub name: String,
    pub contents: AmlNamespaceContents,
}

/// What a namespace node holds: a plain value, one named child, an ordered
/// list of children, or an operation-region descriptor.
#[derive(Debug, PartialEq)]
pub enum AmlNamespaceContents {
    Value(AmlValue),
    SubNamespace(Box<AmlNamespace>),
    Namespace(Vec<AmlNamespaceContents>),
    OpRegion { region: RegionSpace, offset: AmlValue, len: AmlValue },
}

/// Mathematical image of an [`AmlNamespace`].
pub struct AmlNamespaceView {
    pub name: Seq<char>,
    pub contents: AmlNamespaceContentsView,
}

/// Mathematical image of an [`AmlNamespaceContents`].
pub enum AmlNamespaceContentsView {
    Value(AmlValue),
    SubNamespace(Box<AmlNamespaceView>),
    Namespace(Seq<AmlNamespaceContentsView>),
    OpRegion { region: RegionSpace, offset: AmlValue, len: AmlValue },
}

pub open spec fn namespace_view(n: AmlNamespace) -> AmlNamespaceView
    decreases n,
{
    AmlNamespaceView { name: n.name@, contents: contents_view(n.contents) }
}

pub open spec fn contents_view(c: AmlNamespaceContents) -> AmlNamespaceContentsView
    decreases c,
{
    match c {
        AmlNamespaceContents::Value(v) => AmlNamespaceContentsView::Value(v),
        AmlNamespaceContents::SubNamespace(b) => AmlNamespaceContentsView::SubNamespace(
            Box::new(namespace_view(*b)),
        ),
        AmlNamespaceContents::Namespace(v) => AmlNamespaceContentsView::Namespace(
            contents_list_view(v@),
        ),
        AmlNamespaceContents::OpRegion { region, offset, len } =>
            AmlNamespaceContentsView::OpRegion { region, offset, len },
    }
}

pub open spec fn contents_list_view(s: Seq<AmlNamespaceContents>) -> Seq<AmlNamespaceContentsView>
    decreases s,
{
    if s.len() == 0 {
        Seq::empty()
    } else {
        contents_list_view(s.drop_last()).push(contents_view(s.last()))
    }
}

impl View for AmlNamespace {
    type V = AmlNamespaceView;

    open spec fn view(&self) -> AmlNamespaceView {
        namespace_view(*self)
    }
}

impl View for AmlNamespaceContents {
    type V = AmlNamespaceContentsView;

    open spec fn view(&self) -> AmlNamespaceContentsView {
        contents_view(*self)
    }
}

pub proof fn lemma_contents_list_view_len(s: Seq<AmlNamespaceContents>)
    ensures
        contents_list_view(s).len() == s.len(),
    decreases s.len(),
{
    if s.len() > 0 {
        lemma_contents_list_view_len(s.drop_last());
    }
}

pub proof fn lemma_contents_list_view_index(s: Seq<AmlNamespaceContents>, i: int)
    requires
        0 <= i < s.len(),
    ensures
        contents_list_view(s).len() == s.len(),
        contents_list_view(s)[i] == contents_view(s[i]),
    decreases s.len(),
{
    lemma_contents_list_view_len(s);
    if i < s.len() - 1 {
        lemma_contents_list_view_index(s.drop_last(), i);
    }
}

pub proof fn lemma_contents_list_view_push(s: Seq<AmlNamespaceContents>, x: AmlNamespaceContents)
    ensures
        contents_list_view(s.push(x)) =~= contents_list_view(s).push(contents_view(x)),
{
    assert(s.push(x).drop_last() =~= s);
    assert(s.push(x).last() == x);
}

pub proof fn lemma_contents_list_view_update(
    s: Seq<AmlNamespaceContents>,
    i: int,
    x: AmlNamespaceContents,
)
    requires
        0 <= i < s.len(),
    ensures
        contents_list_view(s.update(i, x)) =~= contents_list_view(s).update(i, contents_view(x)),
{
    lemma_contents_list_view_len(s);
    lemma_contents_list_view_len(s.update(i, x));
    assert forall|j: int| 0 <= j < s.len() implies contents_list_view(s.update(i, x))[j]
        == contents_list_view(s).update(i, contents_view(x))[j] by {
        lemma_contents_list_view_index(s.update(i, x), j);
        lemma_contents_list_view_index(s, j);
    }
}

/// The child in question is a sub-namespace named `seg`.
pub open spec fn is_sub_named(c: AmlNamespaceContentsView, seg: Seq<char>) -> bool {
    c matches AmlNamespaceContentsView::SubNamespace(b) && b.name == seg
}

/// Index of the first child that is a sub-namespace named `seg`, or -1.
pub open spec fn find_sub(children: Seq<AmlNamespaceContentsView>, seg: Seq<char>) -> int
    decreases children.len(),
{
    if children.len() == 0 {
        -1
    } else if is_sub_named(children[0], seg) {
        0
    } else {
        let r = find_sub(children.skip(1), seg);
        if r < 0 {
            -1
        } else {
            1 + r
        }
    }
}

pub proof fn lemma_find_sub_props(children: Seq<AmlNamespaceContentsView>, seg: Seq<char>)
    ensures
        find_sub(children, seg) < 0 ==> forall|j: int|
            0 <= j < children.len() ==> !is_sub_named(children[j], seg),
        find_sub(children, seg) >= 0 ==> 0 <= find_sub(children, seg) < children.len()
            && is_sub_named(children[find_sub(children, seg)], seg) && forall|j: int|
            0 <= j < find_sub(children, seg) ==> !is_sub_named(children[j], seg),
    decreases children.len(),
{
    if children.len() > 0 {
        lemma_find_sub_props(children.skip(1), seg);
        assert forall|j: int| 1 <= j < children.len() implies children.skip(1)[j - 1]
            == children[j] by {}
    }
}

/// Index of the first `.` in a scope string, or -1.
pub open spec fn first_dot(s: Seq<char>) -> int
    decreases s.len(),
{
    if s.len() == 0 {
        -1
    } else if s[0] == '.' {
        0
    } else {
        let r = first_dot(s.skip(1));
        if r < 0 {
            -1
        } else {
            1 + r
        }
    }
}

pub proof fn lemma_first_dot_props(s: Seq<char>)
    ensures
        first_dot(s) < 0 ==> forall|j: int| 0 <= j < s.len() ==> s[j] != '.',
        first_dot(s) >= 0 ==> 0 <= first_dot(s) < s.len() && s[first_dot(s)] == '.' && forall|
            j: int,
        | 0 <= j < first_dot(s) ==> s[j] != '.',
    decreases s.len(),
{
    if s.len() > 0 {
        lemma_first_dot_props(s.skip(1));
        assert forall|j: int| 1 <= j < s.len() implies s.skip(1)[j - 1] == s[j] by {}
    }
}

/// Appending contents to a node: only a `Namespace`-kind node takes a new
/// child; appending to any other kind is a logic error left as a no-op.
pub open spec fn spec_node_push(
    node: AmlNamespaceView,
    contents: AmlNamespaceContentsView,
) -> AmlNamespaceView {
    match node.contents {
        AmlNamespaceContentsView::Namespace(children) => AmlNamespaceView {
            name: node.name,
            contents: AmlNamespaceContentsView::Namespace(children.push(contents)),
        },
        _ => node,
    }
}

/// Attaching contents under the final path segment: an existing sub-namespace
/// named `seg` takes the contents as one more child; otherwise a new child
/// named `seg` is created holding the contents themselves.
pub open spec fn spec_final_insert(
    node: AmlNamespaceView,
    seg: Seq<char>,
    contents: AmlNamespaceContentsView,
) -> AmlNamespaceView {
    match node.contents {
        AmlNamespaceContentsView::Namespace(children) => {
            let i = find_sub(children, seg);
            if i >= 0 {
                match children[i] {
                    AmlNamespaceContentsView::SubNamespace(b) => AmlNamespaceView {
                        name: node.name,
                        contents: AmlNamespaceContentsView::Namespace(
                            children.update(
                                i,
                                AmlNamespaceContentsView::SubNamespace(
                                    Box::new(spec_node_push(*b, contents)),
                                ),
                            ),
                        ),
                    },
                    _ => node,
                }
            } else {
                AmlNamespaceView {
                    name: node.name,
                    contents: AmlNamespaceContentsView::Namespace(
                        children.push(
                            AmlNamespaceContentsView::SubNamespace(
                                Box::new(AmlNamespaceView { name: seg, contents }),
                            ),
                        ),
                    ),
                }
            }
        },
        _ => node,
    }
}

/// Walking one intermediate segment: descend into an existing sub-namespace
/// named `seg`, or create it as an empty namespace first; the rest of the
/// path is inserted inside it. A non-`Namespace` node cannot be descended
/// into and is left unchanged.
pub open spec fn spec_descend(
    node: AmlNamespaceView,
    seg: Seq<char>,
    rest: Seq<char>,
    contents: AmlNamespaceContentsView,
) -> AmlNamespaceView
    decreases rest.len(), 3int,
{
    match node.contents {
        AmlNamespaceContentsView::Namespace(children) => {
            let i = find_sub(children, seg);
            if i >= 0 {
                match children[i] {
                    AmlNamespaceContentsView::SubNamespace(b) => AmlNamespaceView {
                        name: node.name,
                        contents: AmlNamespaceContentsView::Namespace(
                            children.update(
                                i,
                                AmlNamespaceContentsView::SubNamespace(
                                    Box::new(spec_push_to(*b, rest, contents)),
                                ),
                            ),
                        ),
                    },
                    _ => node,
                }
            } else {
                let fresh = AmlNamespaceView {
                    name: seg,
                    contents: AmlNamespaceContentsView::Namespace(Seq::empty()),
                };
                AmlNamespaceView {
                    name: node.name,
                    contents: AmlNamespaceContentsView::Namespace(
                        children.push(
                            AmlNamespaceContentsView::SubNamespace(
                                Box::new(spec_push_to(fresh, rest, contents)),
                            ),
                        ),
                    ),
                }
            }
        },
        _ => node,
    }
}

/// Insertion after the root marker has been handled: strip one leading `.`,
/// then split at the first remaining `.`. With a separator, the leading
/// segment is walked and the rest recurses (an empty rest attaches the
/// contents at the segment); without one, the whole remainder is the final
/// segment and must be at most four characters, else the call is a no-op.
pub open spec fn spec_push_to_rel(
    node: AmlNamespaceView,
    scope: Seq<char>,
    contents: AmlNamespaceContentsView,
) -> AmlNamespaceView
    decreases scope.len(), 1int,
    via spec_push_to_rel_decreases
{
    let s = if scope.len() > 0 && scope[0] == '.' {
        scope.skip(1)
    } else {
        scope
    };
    if s.len() == 0 {
        node
    } else {
        let d = first_dot(s);
        if d >= 0 {
            let seg = s.subrange(0, d);
            let rest = s.skip(d + 1);
            if rest.len() == 0 {
                spec_final_insert(node, seg, contents)
            } else {
                spec_descend(node, seg, rest, contents)
            }
        } else {
            if s.len() <= 4 {
                spec_final_insert(node, s, contents)
            } else {
                node
            }
        }
    }
}

#[via_fn]
proof fn spec_push_to_rel_decreases(
    node: AmlNamespaceView,
    scope: Seq<char>,
    contents: AmlNamespaceContentsView,
) {
    let s = if scope.len() > 0 && scope[0] == '.' {
        scope.skip(1)
    } else {
        scope
    };
    lemma_first_dot_props(s);
}

/// Insertion of `contents` at the node `scope` reaches from `node`. A leading
/// root marker is valid only at the root node, whose name is `\`; anywhere
/// else the call is a no-op. The empty scope is a no-op too.
pub open spec fn spec_push_to(
    node: AmlNamespaceView,
    scope: Seq<char>,
    contents: AmlNamespaceContentsView,
) -> AmlNamespaceView
    decreases scope.len(), 2int,
{
    if scope.len() > 0 && scope[0] == '\\' {
        if node.name == seq!['\\'] {
            spec_push_to_rel(node, scope.skip(1), contents)
        } else {
            node
        }
    } else {
        spec_push_to_rel(node, scope, contents)
    }
}

impl AmlNamespace {
    /// Create a namespace node of the given name with no children.
    pub fn new_namespace(name: &String) -> (r: AmlNamespace)
        ensures
            r@ == (AmlNamespaceView {
                name: name@,
                contents: AmlNamespaceContentsView::Namespace(Seq::empty()),
            }),
    {
        let r = AmlNamespace { name: name.clone(), contents: AmlNamespaceContents::Namespace(
            Vec::new(),
        ) };
        proof {
            assert(contents_list_view(Seq::<AmlNamespaceContents>::empty()) =~= Seq::<
                AmlNamespaceContentsView,
            >::empty());
        }
        r
    }

    /// Append `val` to this node's child list; a node that is not of
    /// `Namespace` kind is left unchanged.
    pub fn push(&mut self, val: AmlNamespaceContents)
        ensures
            final(self)@ == spec_node_push(old(self)@, val@),
    {
        let mut tmp = AmlNamespace {
            name: String::new(),
            contents: AmlNamespaceContents::Namespace(Vec::new()),
        };
        core::mem::swap(self, &mut tmp);
        *self = push_owned(tmp, val);
    }

    /// Insert `contents` at the node `scope_string` reaches from this node,
    /// creating intermediate sub-namespaces as needed.
    pub fn push_to(&mut self, scope_string: String, contents: AmlNamespaceContents)
        ensures
            final(self)@ == spec_push_to(old(self)@, scope_string@, contents@),
    {
        let mut tmp = AmlNamespace {
            name: String::new(),
            contents: AmlNamespaceContents::Namespace(Vec::new()),
        };
        core::mem::swap(self, &mut tmp);
        *self = push_to_owned(tmp, scope_string.as_str(), contents);
    }

    /// Declare an intermediate scope without attaching a value yet: insertion
    /// of an empty namespace at `scope_string`.
    pub fn push_subordinate_namespace(&mut self, scope_string: String)
        ensures
            final(self)@ == spec_push_to(
                old(self)@,
                scope_string@,
                AmlNamespaceContentsView::Namespace(Seq::empty()),
            ),
    {
        let empty: Vec<AmlNamespaceContents> = Vec::new();
        proof {
            assert(contents_list_view(Seq::<AmlNamespaceContents>::empty()) =~= Seq::<
                AmlNamespaceContentsView,
            >::empty());
        }
        self.push_to(scope_string, AmlNamespaceContents::Namespace(empty));
    }
}

fn push_owned(node: AmlNamespace, val: AmlNamespaceContents) -> (r: AmlNamespace)
    ensures
        r@ == spec_node_push(node@, val@),
{
    match node.contents {
        AmlNamespaceContents::Namespace(mut v) => {
            let ghost old_v = v@;
            v.push(val);
            proof {
                lemma_contents_list_view_push(old_v, val);
            }
            AmlNamespace { name: node.name, contents: AmlNamespaceContents::Namespace(v) }
        },
        other => AmlNamespace { name: node.name, contents: other },
    }
}

/// The root node's one-character name, `\`.
fn name_is_root(name: &String) -> (r: bool)
    ensures
        r == (name@ == seq!['\\']),
{
    let l = name.as_str().unicode_len();
    if l == 1 && name.as_str().get_char(0) == '\\' {
        assert(name@ =~= seq!['\\']);
        true
    } else {
        assert(name@ != seq!['\\']) by {
            if name@ == seq!['\\'] {
                assert(name@.len() == 1);
            }
        }
        false
    }
}

fn push_to_owned(node: AmlNamespace, scope: &str, contents: AmlNamespaceContents) -> (r:
    AmlNamespace)
    ensures
        r@ == spec_push_to(node@, scope@, contents@),
    decreases scope@.len(), 2int,
{
    let slen = scope.unicode_len();
    if slen > 0 && scope.get_char(0) == '\\' {
        if name_is_root(&node.name) {
            let rest = scope.substring_char(1, slen);
            assert(rest@ =~= scope@.skip(1));
            push_to_rel(node, rest, contents)
        } else {
            node
        }
    } else {
        push_to_rel(node, scope, contents)
    }
}

fn push_to_rel(node: AmlNamespace, scope: &str, contents: AmlNamespaceContents) -> (r:
    AmlNamespace)
    ensures
        r@ == spec_push_to_rel(node@, scope@, contents@),
    decreases scope@.len(), 1int,
{
    let slen = scope.unicode_len();
    let s = if slen > 0 && scope.get_char(0) == '.' {
        let t = scope.substring_char(1, slen);
        assert(t@ =~= scope@.skip(1));
        t
    } else {
        scope
    };
    let sl = s.unicode_len();
    if sl == 0 {
        return node;
    }
    let mut d: usize = 0;
    let mut found = false;
    while d < sl && !found
        invariant
            0 <= d <= sl,
            sl == s@.len(),
            forall|j: int| 0 <= j < d ==> s@[j] != '.',
            found ==> d < sl && s@[d as int] == '.',
        decreases sl - d + (if found { 0int } else { 1int }),
    {
        if s.get_char(d) == '.' {
            found = true;
        } else {
            d = d + 1;
        }
    }
    proof {
        lemma_first_dot_props(s@);
        if found {
            assert(first_dot(s@) == d as int);
        } else {
            assert(first_dot(s@) < 0);
        }
    }
    if found {
        let seg = s.substring_char(0, d);
        assert(seg@ =~= s@.subrange(0, d as int));
        let rest = s.substring_char(d + 1, sl);
        assert(rest@ =~= s@.skip(d + 1));
        if rest.unicode_len() == 0 {
            final_insert(node, seg, contents)
        } else {
            descend(node, seg, rest, contents)
        }
    } else {
        if sl <= 4 {
            final_insert(node, s, contents)
        } else {
            node
        }
    }
}

/// The first child of `children` that is a sub-namespace named `seg`, as an
/// index, if any.
fn find_child(children: &Vec<AmlNamespaceContents>, seg: &str) -> (r: Option<usize>)
    ensures
        match r {
            Some(i) => i < children@.len() && find_sub(contents_list_view(children@), seg@)
                == i as int,
            None => find_sub(contents_list_view(children@), seg@) < 0,
        },
{
    proof {
        lemma_find_sub_props(contents_list_view(children@), seg@);
        lemma_contents_list_view_len(children@);
    }
    let mut i: usize = 0;
    while i < children.len()
        invariant
            0 <= i <= children@.len(),
            contents_list_view(children@).len() == children@.len(),
            forall|j: int| 0 <= j < i ==> !is_sub_named(
                #[trigger] contents_list_view(children@)[j],
                seg@,
            ),
        decreases children@.len() - i,
    {
        let hit = match &children[i] {
            AmlNamespaceContents::SubNamespace(b) => {
                let bl = b.name.as_str().unicode_len();
                let segl = seg.unicode_len();
                let mut k: usize = 0;
                let mut same = bl == segl;
                while k < segl && same
                    invariant
                        0 <= k <= seg@.len(),
                        segl == seg@.len(),
                        bl == b.name@.len(),
                        same ==> bl == segl,
                        same ==> forall|j: int| 0 <= j < k ==> b.name@[j] == seg@[j],
                        !same ==> b.name@ != seg@,
                    decreases seg@.len() - k + (if same { 1int } else { 0int }),
                {
                    if b.name.as_str().get_char(k) != seg.get_char(k) {
                        same = false;
                    } else {
                        k = k + 1;
                    }
                }
                if same {
                    assert(b.name@ =~= seg@);
                }
                same
            },
            _ => false,
        };
        proof {
            lemma_contents_list_view_index(children@, i as int);
        }
        if hit {
            proof {
                lemma_find_sub_props(contents_list_view(children@), seg@);
            }
            return Some(i);
        }
        i = i + 1;
    }
    proof {
        lemma_find_sub_props(contents_list_view(children@), seg@);
    }
    None
}

fn final_insert(node: AmlNamespace, seg: &str, contents: AmlNamespaceContents) -> (r:
    AmlNamespace)
    ensures
        r@ == spec_final_insert(node@, seg@, contents@),
{
    match node.contents {
        AmlNamespaceContents::Namespace(mut children) => {
            let ghost old_children = children@;
            match find_child(&children, seg) {
                Some(i) => {
                    let child = children.remove(i);
                    proof {
                        lemma_contents_list_view_index(old_children, i as int);
                    }
                    match child {
                        AmlNamespaceContents::SubNamespace(b) => {
                            let updated = push_owned(*b, contents);
                            children.insert(
                                i,
                                AmlNamespaceContents::SubNamespace(Box::new(updated)),
                            );
                            proof {
                                assert(children@ =~= old_children.update(
                                    i as int,
                                    children@[i as int],
                                ));
                                lemma_contents_list_view_update(
                                    old_children,
                                    i as int,
                                    children@[i as int],
                                );
                            }
                            AmlNamespace {
                                name: node.name,
                                contents: AmlNamespaceContents::Namespace(children),
                            }
                        },
                        other => {
                            children.insert(i, other);
                            proof {
                                assert(children@ =~= old_children);
                                assert(contents_view(
                                    AmlNamespaceContents::Namespace(children),
                                ) == contents_view(AmlNamespaceContents::Namespace(children)));
                            }
                            AmlNamespace {
                                name: node.name,
                                contents: AmlNamespaceContents::Namespace(children),
                            }
                        },
                    }
                },
                None => {
                    let fresh = AmlNamespace {
                        name: seg.to_owned(),
                        contents,
                    };
                    children.push(AmlNamespaceContents::SubNamespace(Box::new(fresh)));
                    proof {
                        lemma_contents_list_view_push(old_children, children@.last());
                        assert(children@.drop_last() =~= old_children);
                    }
                    AmlNamespace {
                        name: node.name,
                        contents: AmlNamespaceContents::Namespace(children),
                    }
                },
            }
        },
        other => AmlNamespace { name: node.name, contents: other },
    }
}

fn descend(node: AmlNamespace, seg: &str, rest: &str, contents: AmlNamespaceContents) -> (r:
    AmlNamespace)
    ensures
        r@ == spec_descend(node@, seg@, rest@, contents@),
    decreases rest@.len(), 3int,
{
    match node.contents {
        AmlNamespaceContents::Namespace(mut children) => {
            let ghost old_children = children@;
            match find_child(&children, seg) {
                Some(i) => {
                    let child = children.remove(i);
                    proof {
                        lemma_contents_list_view_index(old_children, i as int);
                    }
                    match child {
                        AmlNamespaceContents::SubNamespace(b) => {
                            let updated = push_to_owned(*b, rest, contents);
                            children.insert(
                                i,
                                AmlNamespaceContents::SubNamespace(Box::new(updated)),
                            );
                            proof {
                                assert(children@ =~= old_children.update(
                                    i as int,
                                    children@[i as int],
                                ));
                                lemma_contents_list_view_update(
                                    old_children,
                                    i as int,
                                    children@[i as int],
                                );
                            }
                            AmlNamespace {
                                name: node.name,
                                contents: AmlNamespaceContents::Namespace(children),
                            }
                        },
                        other => {
                            children.insert(i, other);
                            proof {
                                assert(children@ =~= old_children);
                            }
                            AmlNamespace {
                                name: node.name,
                                contents: AmlNamespaceContents::Namespace(children),
                            }
                        },
                    }
                },
                None => {
                    let fresh = AmlNamespace {
                        name: seg.to_owned(),
                        contents: AmlNamespaceContents::Namespace(Vec::new()),
                    };
                    proof {
                        assert(contents_list_view(Seq::<AmlNamespaceContents>::empty()) =~= Seq::<
                            AmlNamespaceContentsView,
                        >::empty());
                    }
                    let inserted = push_to_owned(fresh, rest, contents);
                    children.push(AmlNamespaceContents::SubNamespace(Box::new(inserted)));
                    proof {
                        lemma_contents_list_view_push(old_children, children@.last());
                        assert(children@.drop_last() =~= old_children);
                    }
                    AmlNamespace {
                        name: node.name,
                        contents: AmlNamespaceContents::Namespace(children),
                    }
                },
            }
        },
        other => AmlNamespace { name: node.name, contents: other },
    }
}

} // verus!
