//! Device trees and their flattened form: the structure block of a device-tree blob.
use vstd::prelude::*;

use crate::bytes::{be32, be32_round_trip, un_be32};


verus! {

/// A property: its name and its value.
pub struct PropView {
    pub name: Seq<u8>,
    pub value: Seq<u8>,
}

/// A node with its properties and the nodes below it, in order.
pub struct Tree {
    pub name: Seq<u8>,
    pub props: Seq<PropView>,
    pub children: Seq<Tree>,
}

pub struct Prop {
    pub name: Vec<u8>,
    pub value: Vec<u8>,
}

pub struct Node {
    pub name: Vec<u8>,
    pub props: Vec<Prop>,
    pub children: Vec<Node>,
}

impl View for Prop {
    type V = PropView;

    open spec fn view(&self) -> PropView {
        PropView { name: self.name@, value: self.value@ }
    }
}

/// The properties of a node.
pub open spec fn prop_views(props: Seq<Prop>) -> Seq<PropView> {
    props.map(|i: int, p: Prop| p@)
}

/// The tree that a node stands for.
pub open spec fn tree(n: Node) -> Tree
    decreases n,
{
    Tree { name: n.name@, props: prop_views(n.props@), children: forest(n.children@) }
}

/// The trees that a row of nodes stands for.
pub open spec fn forest(nodes: Seq<Node>) -> Seq<Tree>
    decreases nodes,
{
    if nodes.len() == 0 {
        Seq::empty()
    } else {
        forest(nodes.drop_last()).push(tree(nodes.last()))
    }
}

pub proof fn lemma_forest(nodes: Seq<Node>)
    ensures
        forest(nodes).len() == nodes.len(),
        forall|i: int| 0 <= i < nodes.len() ==> #[trigger] forest(nodes)[i] == tree(nodes[i]),
    decreases nodes.len(),
{
    if nodes.len() > 0 {
        lemma_forest(nodes.drop_last());
        assert forall|i: int| 0 <= i < nodes.len() implies #[trigger] forest(nodes)[i] == tree(
            nodes[i],
        ) by {
            if i < nodes.len() - 1 {
                assert(nodes.drop_last()[i] == nodes[i]);
            }
        }
    }
}

// ---------------------------------------------------------------------------
// The flattened form
// ---------------------------------------------------------------------------

pub const BEGIN_NODE: u32 = 1;

pub const END_NODE: u32 = 2;

pub const PROP: u32 = 3;

pub const NOP: u32 = 4;

pub const END: u32 = 9;

/// `n` rounded up to a multiple of four.
pub open spec fn align4(n: nat) -> nat {
    ((n + 3) / 4) * 4
}

pub open spec fn zeros(n: nat) -> Seq<u8> {
    Seq::new(n, |i: int| 0u8)
}

/// The zero bytes that fill `n` bytes up to a multiple of four.
pub open spec fn pad4(n: nat) -> Seq<u8> {
    zeros((align4(n) - n) as nat)
}

/// How many bytes come before the first zero byte.
pub open spec fn c_len(s: Seq<u8>) -> nat
    decreases s.len(),
{
    if s.len() == 0 || s[0] == 0 {
        0
    } else {
        1 + c_len(s.skip(1))
    }
}

/// The bytes before the first zero byte, where there is one.
pub open spec fn c_string(s: Seq<u8>) -> Option<Seq<u8>> {
    if c_len(s) < s.len() {
        Some(s.take(c_len(s) as int))
    } else {
        None
    }
}

/// `name` and a zero byte stand at `off`.
pub open spec fn has_name_at(strings: Seq<u8>, name: Seq<u8>, off: int) -> bool {
    &&& 0 <= off
    &&& off + name.len() < strings.len()
    &&& strings.subrange(off, off + name.len()) == name
    &&& strings[off + name.len()] == 0
}

/// The first place at or behind `off` where `name` stands, or the end of the strings.
pub open spec fn offset_from(strings: Seq<u8>, name: Seq<u8>, off: nat) -> nat
    decreases strings.len() - off,
{
    if off >= strings.len() {
        strings.len()
    } else if has_name_at(strings, name, off as int) {
        off
    } else {
        offset_from(strings, name, off + 1)
    }
}

/// The offset under which `name` is known in the strings block.
pub open spec fn name_offset(strings: Seq<u8>, name: Seq<u8>) -> nat {
    offset_from(strings, name, 0)
}

/// `name` stands somewhere in the strings block.
pub open spec fn knows(strings: Seq<u8>, name: Seq<u8>) -> bool {
    exists|off: int| #[trigger] has_name_at(strings, name, off)
}

pub open spec fn flat_prop(p: PropView, strings: Seq<u8>) -> Seq<u8> {
    be32(PROP as nat) + be32(p.value.len()) + be32(name_offset(strings, p.name)) + p.value + pad4(
        p.value.len(),
    )
}

pub open spec fn flat_props(props: Seq<PropView>, strings: Seq<u8>) -> Seq<u8>
    decreases props.len(),
{
    if props.len() == 0 {
        Seq::empty()
    } else {
        flat_prop(props[0], strings) + flat_props(props.skip(1), strings)
    }
}

/// The tag, the name and the padding that open a node.
pub open spec fn flat_open(name: Seq<u8>) -> Seq<u8> {
    be32(BEGIN_NODE as nat) + name + seq![0u8] + pad4(name.len() + 1)
}

pub open spec fn flat_node(t: Tree, strings: Seq<u8>) -> Seq<u8>
    decreases t,
{
    flat_open(t.name) + flat_props(t.props, strings) + flat_forest(t.children, strings) + be32(
        END_NODE as nat,
    )
}

pub open spec fn flat_forest(trees: Seq<Tree>, strings: Seq<u8>) -> Seq<u8>
    decreases trees,
{
    if trees.len() == 0 {
        Seq::empty()
    } else {
        flat_forest(trees.drop_last(), strings) + flat_node(trees.last(), strings)
    }
}

/// The structure block of a tree.
#[verifier::opaque]
pub open spec fn flat_tree(t: Tree, strings: Seq<u8>) -> Seq<u8> {
    flat_node(t, strings) + be32(END as nat)
}

/// Properties at the start of `b`, and what follows them. `None` where they are malformed.
pub open spec fn parse_props(b: Seq<u8>, strings: Seq<u8>) -> Option<(Seq<PropView>, Seq<u8>)>
    decreases b.len(),
{
    if b.len() < 4 {
        None
    } else if un_be32(b) == NOP {
        parse_props(b.skip(4), strings)
    } else if un_be32(b) != PROP {
        Some((Seq::empty(), b))
    } else if b.len() < 12 {
        None
    } else {
        let len = un_be32(b.skip(4));
        let off = un_be32(b.skip(8));
        if off > strings.len() || 12 + align4(len) > b.len() {
            None
        } else {
            match (c_string(strings.skip(off as int)), parse_props(
                b.skip(12 + align4(len) as int),
                strings,
            )) {
                (Some(name), Some((more, rest))) => Some(
                    (
                        seq![PropView { name, value: b.subrange(12, 12 + len as int) }] + more,
                        rest,
                    ),
                ),
                _ => None,
            }
        }
    }
}

/// The node that starts at `b`, and what follows it.
pub open spec fn parse_node(b: Seq<u8>, strings: Seq<u8>) -> Option<(Tree, Seq<u8>)>
    decreases b.len(), 0nat,
{
    if b.len() < 4 || un_be32(b) != BEGIN_NODE {
        None
    } else {
        match c_string(b.skip(4)) {
            Some(name) => {
                if 4 + align4(name.len() + 1) > b.len() {
                    None
                } else {
                    match parse_props(b.skip(4 + align4(name.len() + 1) as int), strings) {
                        Some((props, rest)) => {
                            if rest.len() < b.len() {
                                match parse_children(rest, strings) {
                                    Some((children, rest)) => Some(
                                        (Tree { name, props, children }, rest),
                                    ),
                                    None => None,
                                }
                            } else {
                                None
                            }
                        },
                        None => None,
                    }
                }
            },
            None => None,
        }
    }
}

/// The nodes up to the end of their parent, and what follows that end.
pub open spec fn parse_children(b: Seq<u8>, strings: Seq<u8>) -> Option<(Seq<Tree>, Seq<u8>)>
    decreases b.len(), 1nat,
{
    if b.len() < 4 {
        None
    } else if un_be32(b) == NOP {
        parse_children(b.skip(4), strings)
    } else if un_be32(b) == END_NODE {
        Some((Seq::empty(), b.skip(4)))
    } else {
        match parse_node(b, strings) {
            Some((first, rest)) => {
                if rest.len() < b.len() {
                    match parse_children(rest, strings) {
                        Some((more, rest)) => Some((seq![first] + more, rest)),
                        None => None,
                    }
                } else {
                    None
                }
            },
            None => None,
        }
    }
}

/// What remains once leading no-operation tags are skipped.
pub open spec fn skip_nops(b: Seq<u8>) -> Seq<u8>
    decreases b.len(),
{
    if b.len() >= 4 && un_be32(b) == NOP {
        skip_nops(b.skip(4))
    } else {
        b
    }
}

/// The tree of a structure block: one node, then the end tag.
#[verifier::opaque]
pub open spec fn parse_tree(b: Seq<u8>, strings: Seq<u8>) -> Option<Tree> {
    match parse_node(skip_nops(b), strings) {
        Some((t, rest)) => {
            let end = skip_nops(rest);
            if end.len() >= 4 && un_be32(end) == END {
                Some(t)
            } else {
                None
            }
        },
        None => None,
    }
}

/// How many bytes a structure block takes, up to and with its end tag.
#[verifier::opaque]
pub open spec fn tree_extent(b: Seq<u8>, strings: Seq<u8>) -> nat {
    match parse_node(skip_nops(b), strings) {
        Some((_, rest)) => (b.len() - skip_nops(rest).len() + 4) as nat,
        None => 0,
    }
}

// ---------------------------------------------------------------------------
// Reading back what was written
// ---------------------------------------------------------------------------

pub open spec fn no_zero(s: Seq<u8>) -> bool {
    forall|i: int| 0 <= i < s.len() ==> #[trigger] s[i] != 0
}

pub open spec fn storable_prop(p: PropView, strings: Seq<u8>) -> bool {
    &&& no_zero(p.name)
    &&& knows(strings, p.name)
    &&& p.value.len() < 0x1_0000_0000
}

/// A tree that the format can hold: names without zero bytes, property names known in the strings
/// block, values within the range of their length field.
pub open spec fn storable(t: Tree, strings: Seq<u8>) -> bool
    decreases t,
{
    &&& no_zero(t.name)
    &&& forall|i: int| 0 <= i < t.props.len() ==> storable_prop(#[trigger] t.props[i], strings)
    &&& storable_forest(t.children, strings)
}

pub open spec fn storable_forest(trees: Seq<Tree>, strings: Seq<u8>) -> bool
    decreases trees,
{
    trees.len() == 0 || (storable_forest(trees.drop_last(), strings) && storable(
        trees.last(),
        strings,
    ))
}

proof fn lemma_c_string(name: Seq<u8>, rest: Seq<u8>)
    requires
        no_zero(name),
        rest.len() > 0,
        rest[0] == 0,
    ensures
        c_string(name + rest) == Some(name),
    decreases name.len(),
{
    lemma_c_len(name, rest);
    assert((name + rest).take(name.len() as int) =~= name);
}

proof fn lemma_c_len(name: Seq<u8>, rest: Seq<u8>)
    requires
        no_zero(name),
        rest.len() > 0,
        rest[0] == 0,
    ensures
        c_len(name + rest) == name.len(),
    decreases name.len(),
{
    if name.len() > 0 {
        assert((name + rest)[0] == name[0]);
        assert((name + rest).skip(1) =~= name.skip(1) + rest);
        assert(no_zero(name.skip(1))) by {
            assert forall|i: int| 0 <= i < name.skip(1).len() implies #[trigger] name.skip(1)[i]
                != 0 by {
                assert(name[i + 1] != 0);
            }
        }
        lemma_c_len(name.skip(1), rest);
    } else {
        assert((name + rest)[0] == 0);
    }
}

proof fn lemma_offset_from(strings: Seq<u8>, name: Seq<u8>, off: nat, at: int)
    requires
        off <= at,
        has_name_at(strings, name, at),
    ensures
        has_name_at(strings, name, offset_from(strings, name, off) as int),
    decreases strings.len() - off,
{
    if !has_name_at(strings, name, off as int) {
        lemma_offset_from(strings, name, off + 1, at);
    }
}

/// The offset of a known name leads to that name.
pub proof fn lemma_name_offset(strings: Seq<u8>, name: Seq<u8>)
    requires
        no_zero(name),
        knows(strings, name),
    ensures
        name_offset(strings, name) < strings.len(),
        c_string(strings.skip(name_offset(strings, name) as int)) == Some(name),
{
    let at = choose|off: int| #[trigger] has_name_at(strings, name, off);
    lemma_offset_from(strings, name, 0, at);
    let off = name_offset(strings, name) as int;
    let rest = strings.skip(off + name.len());
    assert(strings.skip(off) =~= name + rest) by {
        assert(strings.subrange(off, off + name.len()) == name);
        assert forall|i: int| 0 <= i < strings.skip(off).len() implies strings.skip(off)[i] == (name
            + rest)[i] by {
            if i < name.len() {
                assert(strings.subrange(off, off + name.len())[i] == name[i]);
            }
        }
    }
    lemma_c_string(name, rest);
}

proof fn lemma_assoc(a: Seq<u8>, b: Seq<u8>, c: Seq<u8>)
    ensures
        (a + b) + c == a + (b + c),
{
    assert((a + b) + c =~= a + (b + c));
}

proof fn lemma_align4(n: nat)
    ensures
        n <= align4(n) < n + 4,
        align4(n) % 4 == 0,
{
}

/// Where the parts of a flattened property stand.
proof fn lemma_flat_prop_shape(p: PropView, strings: Seq<u8>, tail: Seq<u8>)
    requires
        p.value.len() < 0x1_0000_0000,
        name_offset(strings, p.name) < 0x1_0000_0000,
    ensures
        ({
            let b = flat_prop(p, strings) + tail;
            let len = p.value.len();
            &&& b.len() == 12 + align4(len) + tail.len()
            &&& un_be32(b) == PROP
            &&& un_be32(b.skip(4)) == len
            &&& un_be32(b.skip(8)) == name_offset(strings, p.name)
            &&& b.skip(12 + align4(len) as int) == tail
            &&& b.subrange(12, 12 + len as int) == p.value
        }),
{
    let b = flat_prop(p, strings) + tail;
    let len = p.value.len();
    let off = name_offset(strings, p.name);
    lemma_align4(len);
    let after = p.value + pad4(len) + tail;
    let x = be32(off) + after;
    let y = be32(len) + x;
    assert(b =~= be32(PROP as nat) + y);
    be32_round_trip(PROP as nat, y);
    assert(b.skip(4) =~= y);
    be32_round_trip(len, x);
    assert(b.skip(8) =~= x);
    be32_round_trip(off, after);
    assert(b.skip(12 + align4(len) as int) =~= tail);
    assert(b.subrange(12, 12 + len as int) =~= p.value);
}

/// Properties read back as they were written.
#[verifier::spinoff_prover]
proof fn lemma_parse_props(props: Seq<PropView>, strings: Seq<u8>, rest: Seq<u8>)
    requires
        strings.len() < 0x1_0000_0000,
        forall|i: int| 0 <= i < props.len() ==> storable_prop(#[trigger] props[i], strings),
        rest.len() >= 4,
        un_be32(rest) != PROP,
        un_be32(rest) != NOP,
    ensures
        parse_props(flat_props(props, strings) + rest, strings) == Some((props, rest)),
    decreases props.len(),
{
    let b = flat_props(props, strings) + rest;
    if props.len() == 0 {
        assert(b =~= rest);
        assert(props =~= Seq::<PropView>::empty());
    } else {
        let p = props[0];
        let more = props.skip(1);
        assert(storable_prop(p, strings));
        lemma_name_offset(strings, p.name);
        let tail = flat_props(more, strings) + rest;
        assert(b =~= flat_prop(p, strings) + tail);
        lemma_flat_prop_shape(p, strings, tail);
        lemma_align4(p.value.len());
        assert forall|i: int| 0 <= i < more.len() implies storable_prop(
            #[trigger] more[i],
            strings,
        ) by {
            assert(storable_prop(props[i + 1], strings));
        }
        lemma_parse_props(more, strings, rest);
        assert(seq![p] + more =~= props);
    }
}

/// The part of a forest behind its first `n` trees, flattened.
spec fn flat_from(trees: Seq<Tree>, n: nat, strings: Seq<u8>) -> Seq<u8>
    decreases trees.len() - n,
{
    if n >= trees.len() {
        Seq::empty()
    } else {
        flat_node(trees[n as int], strings) + flat_from(trees, n + 1, strings)
    }
}

proof fn lemma_flat_from(trees: Seq<Tree>, n: nat, strings: Seq<u8>)
    requires
        n <= trees.len(),
    ensures
        flat_forest(trees.take(n as int), strings) + flat_from(trees, n, strings) == flat_forest(
            trees,
            strings,
        ),
    decreases trees.len() - n,
{
    if n == trees.len() {
        assert(trees.take(n as int) =~= trees);
        assert(flat_forest(trees, strings) + Seq::<u8>::empty() =~= flat_forest(trees, strings));
    } else {
        lemma_flat_from(trees, n + 1, strings);
        assert(trees.take((n + 1) as int).drop_last() =~= trees.take(n as int));
        assert(flat_forest(trees.take(n as int), strings) + (flat_node(trees[n as int], strings)
            + flat_from(trees, n + 1, strings)) =~= flat_forest(trees.take((n + 1) as int), strings)
            + flat_from(trees, n + 1, strings));
    }
}

pub proof fn lemma_storable_forest(trees: Seq<Tree>, strings: Seq<u8>)
    ensures
        storable_forest(trees, strings) <==> forall|i: int|
            0 <= i < trees.len() ==> storable(#[trigger] trees[i], strings),
    decreases trees.len(),
{
    if trees.len() > 0 {
        lemma_storable_forest(trees.drop_last(), strings);
        if storable_forest(trees, strings) {
            assert forall|i: int| 0 <= i < trees.len() implies storable(
                #[trigger] trees[i],
                strings,
            ) by {
                if i < trees.len() - 1 {
                    assert(trees.drop_last()[i] == trees[i]);
                }
            }
        }
        if forall|i: int| 0 <= i < trees.len() ==> storable(#[trigger] trees[i], strings) {
            assert forall|i: int| 0 <= i < trees.drop_last().len() implies storable(
                #[trigger] trees.drop_last()[i],
                strings,
            ) by {
                assert(storable(trees[i], strings));
            }
            assert(storable(trees[trees.len() - 1], strings));
        }
    }
}

proof fn lemma_flat_node_shape(t: Tree, strings: Seq<u8>, rest: Seq<u8>)
    ensures
        ({
            let b = flat_node(t, strings) + rest;
            &&& flat_node(t, strings).len() >= 8
            &&& un_be32(b) == BEGIN_NODE
        }),
{
    let b = flat_node(t, strings) + rest;
    let more = t.name + seq![0u8] + pad4(t.name.len() + 1) + flat_props(t.props, strings)
        + flat_forest(t.children, strings) + be32(END_NODE as nat) + rest;
    assert(b =~= be32(BEGIN_NODE as nat) + more);
    be32_round_trip(BEGIN_NODE as nat, more);
}

/// Where the parts of a flattened node stand.
proof fn lemma_flat_node_parts(t: Tree, strings: Seq<u8>, rest: Seq<u8>)
    requires
        no_zero(t.name),
    ensures
        ({
            let b = flat_node(t, strings) + rest;
            let n = t.name.len();
            &&& b.len() >= 4 + align4(n + 1)
            &&& c_string(b.skip(4)) == Some(t.name)
            &&& b.skip(4 + align4(n + 1) as int) == flat_props(t.props, strings) + (flat_forest(
                t.children,
                strings,
            ) + be32(END_NODE as nat) + rest)
        }),
{
    let b = flat_node(t, strings) + rest;
    let n = t.name.len();
    let props = flat_props(t.props, strings);
    let inner = flat_forest(t.children, strings) + be32(END_NODE as nat) + rest;
    lemma_align4(n + 1);
    let tail = seq![0u8] + pad4(n + 1) + props + inner;
    assert(b.skip(4) =~= t.name + tail);
    lemma_c_string(t.name, tail);
    assert(b.skip(4 + align4(n + 1) as int) =~= props + inner);
}

/// How the parts of a node make up the node.
proof fn lemma_parse_node_steps(
    b: Seq<u8>,
    strings: Seq<u8>,
    t: Tree,
    inner: Seq<u8>,
    rest: Seq<u8>,
)
    requires
        b.len() >= 4 + align4(t.name.len() + 1),
        un_be32(b) == BEGIN_NODE,
        c_string(b.skip(4)) == Some(t.name),
        parse_props(b.skip(4 + align4(t.name.len() + 1) as int), strings) == Some((t.props, inner)),
        inner.len() < b.len(),
        parse_children(inner, strings) == Some((t.children, rest)),
    ensures
        parse_node(b, strings) == Some((t, rest)),
{
}

/// A node reads back as it was written.
#[verifier::spinoff_prover]
proof fn lemma_parse_node(t: Tree, strings: Seq<u8>, rest: Seq<u8>)
    requires
        strings.len() < 0x1_0000_0000,
        storable(t, strings),
    ensures
        parse_node(flat_node(t, strings) + rest, strings) == Some((t, rest)),
    decreases t, 0nat,
{
    let b = flat_node(t, strings) + rest;
    let inner = flat_forest(t.children, strings) + be32(END_NODE as nat) + rest;
    lemma_flat_node_shape(t, strings, rest);
    lemma_flat_node_parts(t, strings, rest);
    lemma_inner_tag(t.children, strings, rest);
    lemma_parse_props(t.props, strings, inner);
    lemma_inner_split(t.children, strings, rest);
    lemma_parse_children(t.children, 0, strings, rest);
    assert(t.children.skip(0) =~= t.children);
    assert(inner.len() < b.len()) by {
        lemma_node_length(t, strings);
    }
    lemma_parse_node_steps(b, strings, t, inner, rest);
}

proof fn lemma_node_length(t: Tree, strings: Seq<u8>)
    ensures
        flat_node(t, strings).len() > flat_forest(t.children, strings).len() + 4,
{
}

proof fn lemma_inner_split(trees: Seq<Tree>, strings: Seq<u8>, rest: Seq<u8>)
    ensures
        flat_forest(trees, strings) + be32(END_NODE as nat) + rest == flat_from(trees, 0, strings)
            + (be32(END_NODE as nat) + rest),
{
    lemma_flat_from(trees, 0, strings);
    assert(trees.take(0) =~= Seq::<Tree>::empty());
    assert(flat_from(trees, 0, strings) =~= flat_forest(trees, strings));
    assert(flat_forest(trees, strings) + be32(END_NODE as nat) + rest =~= flat_from(
        trees,
        0,
        strings,
    ) + (be32(END_NODE as nat) + rest));
}

proof fn lemma_inner_tag(trees: Seq<Tree>, strings: Seq<u8>, rest: Seq<u8>)
    ensures
        ({
            let inner = flat_forest(trees, strings) + be32(END_NODE as nat) + rest;
            &&& inner.len() >= 4
            &&& un_be32(inner) == BEGIN_NODE || un_be32(inner) == END_NODE
        }),
{
    let inner = flat_forest(trees, strings) + be32(END_NODE as nat) + rest;
    if trees.len() == 0 {
        assert(inner =~= be32(END_NODE as nat) + rest);
        be32_round_trip(END_NODE as nat, rest);
    } else {
        lemma_flat_from(trees, 0, strings);
        assert(trees.take(0) =~= Seq::<Tree>::empty());
        assert(flat_forest(trees, strings) =~= flat_from(trees, 0, strings));
        let more = flat_from(trees, 1, strings) + be32(END_NODE as nat) + rest;
        assert(inner =~= flat_node(trees[0], strings) + more);
        lemma_flat_node_shape(trees[0], strings, more);
    }
}

/// A row of nodes and the end of their parent read back as they were written.
#[verifier::spinoff_prover]
proof fn lemma_parse_children(trees: Seq<Tree>, n: nat, strings: Seq<u8>, rest: Seq<u8>)
    requires
        strings.len() < 0x1_0000_0000,
        n <= trees.len(),
        storable_forest(trees, strings),
    ensures
        parse_children(flat_from(trees, n, strings) + (be32(END_NODE as nat) + rest), strings)
            == Some((trees.skip(n as int), rest)),
    decreases trees, trees.len() - n + 1,
{
    let end = be32(END_NODE as nat) + rest;
    let b = flat_from(trees, n, strings) + end;
    if n == trees.len() {
        assert(b =~= end);
        be32_round_trip(END_NODE as nat, rest);
        assert(end.skip(4) =~= rest);
        assert(trees.skip(n as int) =~= Seq::<Tree>::empty());
    } else {
        let t = trees[n as int];
        lemma_storable_forest(trees, strings);
        assert(storable(t, strings));
        let more = flat_from(trees, n + 1, strings) + end;
        lemma_assoc(flat_node(t, strings), flat_from(trees, n + 1, strings), end);
        assert(b == flat_node(t, strings) + more);
        lemma_flat_node_shape(t, strings, more);
        lemma_parse_node(t, strings, more);
        lemma_parse_children(trees, n + 1, strings, rest);
        assert(more.len() < b.len());
        assert(seq![t] + trees.skip((n + 1) as int) =~= trees.skip(n as int));
    }
}

/// Reading a structure block gives back the tree that was written.
pub proof fn tree_round_trip(t: Tree, strings: Seq<u8>)
    requires
        strings.len() < 0x1_0000_0000,
        storable(t, strings),
    ensures
        parse_tree(flat_tree(t, strings), strings) == Some(t),
{
    reveal(parse_tree);
    reveal(flat_tree);
    let end = be32(END as nat);
    lemma_flat_node_shape(t, strings, end);
    lemma_parse_node(t, strings, end);
    be32_round_trip(END as nat, Seq::empty());
    assert(end + Seq::<u8>::empty() =~= end);
}

// ---------------------------------------------------------------------------
// Sizes
// ---------------------------------------------------------------------------

/// The bytes that a property takes in the structure block.
pub open spec fn prop_size(p: PropView) -> nat {
    12 + align4(p.value.len())
}

pub open spec fn props_size(props: Seq<PropView>) -> nat
    decreases props.len(),
{
    if props.len() == 0 {
        0
    } else {
        prop_size(props[0]) + props_size(props.skip(1))
    }
}

/// The bytes that a node takes in the structure block.
pub open spec fn node_size(t: Tree) -> nat
    decreases t,
{
    8 + align4(t.name.len() + 1) + props_size(t.props) + forest_size(t.children)
}

pub open spec fn forest_size(trees: Seq<Tree>) -> nat
    decreases trees,
{
    if trees.len() == 0 {
        0
    } else {
        forest_size(trees.drop_last()) + node_size(trees.last())
    }
}

proof fn lemma_props_size(props: Seq<PropView>, strings: Seq<u8>)
    ensures
        flat_props(props, strings).len() == props_size(props),
    decreases props.len(),
{
    if props.len() > 0 {
        lemma_align4(props[0].value.len());
        lemma_props_size(props.skip(1), strings);
    }
}

/// A flattened tree takes four bytes more than its node, for the end tag.
pub proof fn lemma_tree_size(t: Tree, strings: Seq<u8>)
    ensures
        flat_tree(t, strings).len() == node_size(t) + 4,
{
    reveal(flat_tree);
    lemma_node_size(t, strings);
}

/// A flattened node takes `node_size` bytes.
pub proof fn lemma_node_size(t: Tree, strings: Seq<u8>)
    ensures
        flat_node(t, strings).len() == node_size(t),
    decreases t,
{
    lemma_align4(t.name.len() + 1);
    lemma_props_size(t.props, strings);
    lemma_forest_size(t.children, strings);
}

proof fn lemma_forest_size(trees: Seq<Tree>, strings: Seq<u8>)
    ensures
        flat_forest(trees, strings).len() == forest_size(trees),
    decreases trees,
{
    if trees.len() > 0 {
        lemma_forest_size(trees.drop_last(), strings);
        lemma_node_size(trees.last(), strings);
    }
}

proof fn lemma_c_string_sound(s: Seq<u8>)
    requires
        c_string(s) is Some,
    ensures
        no_zero(c_string(s)->0),
        c_string(s)->0.len() < s.len(),
        c_string(s)->0 == s.take(c_string(s)->0.len() as int),
        s[c_string(s)->0.len() as int] == 0,
{
    lemma_c_len_sound(s);
}

proof fn lemma_c_len_sound(s: Seq<u8>)
    ensures
        c_len(s) <= s.len(),
        forall|i: int| 0 <= i < c_len(s) ==> #[trigger] s[i] != 0,
        c_len(s) < s.len() ==> s[c_len(s) as int] == 0,
    decreases s.len(),
{
    if s.len() > 0 && s[0] != 0 {
        let rest = s.skip(1);
        lemma_c_len_sound(rest);
        assert forall|i: int| 0 <= i < c_len(s) implies #[trigger] s[i] != 0 by {
            if i > 0 {
                assert(rest[i - 1] != 0);
            }
        }
        if c_len(s) < s.len() {
            assert(rest[c_len(rest) as int] == 0);
        }
    }
}

/// Properties that were read can be stored again, and take no more space than they took.
proof fn lemma_parsed_props(b: Seq<u8>, strings: Seq<u8>)
    requires
        parse_props(b, strings) is Some,
        strings.len() < 0x1_0000_0000,
    ensures
        ({
            let (props, rest) = parse_props(b, strings)->0;
            &&& props_size(props) + rest.len() <= b.len()
            &&& forall|i: int|
                0 <= i < props.len() ==> storable_prop(#[trigger] props[i], strings)
        }),
    decreases b.len(),
{
    if un_be32(b) == NOP {
        lemma_parsed_props(b.skip(4), strings);
    } else if un_be32(b) == PROP {
        let len = un_be32(b.skip(4));
        let off = un_be32(b.skip(8));
        lemma_align4(len);
        let tail = b.skip(12 + align4(len) as int);
        lemma_parsed_props(tail, strings);
        let (more, rest) = parse_props(tail, strings)->0;
        let name = c_string(strings.skip(off as int))->0;
        lemma_c_string_sound(strings.skip(off as int));
        let p = PropView { name, value: b.subrange(12, 12 + len as int) };
        assert(strings.subrange(off as int, off as int + name.len()) =~= strings.skip(off as int).take(
            name.len() as int,
        ));
        assert(has_name_at(strings, name, off as int));
        let props = seq![p] + more;
        assert(props.skip(1) =~= more);
        assert forall|i: int| 0 <= i < props.len() implies storable_prop(
            #[trigger] props[i],
            strings,
        ) by {
            if i > 0 {
                assert(storable_prop(more[i - 1], strings));
            }
        }
    }
}

/// A node that was read can be stored again, and takes no more space than it took.
pub proof fn lemma_parsed_node(b: Seq<u8>, strings: Seq<u8>)
    requires
        parse_node(b, strings) is Some,
        strings.len() < 0x1_0000_0000,
    ensures
        ({
            let (t, rest) = parse_node(b, strings)->0;
            &&& node_size(t) + rest.len() <= b.len()
            &&& storable(t, strings)
        }),
    decreases b.len(), 0nat,
{
    let name = c_string(b.skip(4))->0;
    lemma_c_string_sound(b.skip(4));
    lemma_align4(name.len() + 1);
    let body = b.skip(4 + align4(name.len() + 1) as int);
    lemma_parsed_props(body, strings);
    let (props, rest) = parse_props(body, strings)->0;
    lemma_parsed_children(rest, strings);
}

proof fn lemma_parsed_children(b: Seq<u8>, strings: Seq<u8>)
    requires
        parse_children(b, strings) is Some,
        strings.len() < 0x1_0000_0000,
    ensures
        ({
            let (trees, rest) = parse_children(b, strings)->0;
            &&& forest_size(trees) + 4 + rest.len() <= b.len()
            &&& storable_forest(trees, strings)
        }),
    decreases b.len(), 1nat,
{
    if un_be32(b) == NOP {
        lemma_parsed_children(b.skip(4), strings);
    } else if un_be32(b) != END_NODE {
        let (first, rest) = parse_node(b, strings)->0;
        lemma_parsed_node(b, strings);
        lemma_parsed_children(rest, strings);
        let (more, end) = parse_children(rest, strings)->0;
        lemma_forest_cons(first, more);
        let trees = seq![first] + more;
        lemma_storable_forest(more, strings);
        lemma_storable_forest(trees, strings);
        assert forall|i: int| 0 <= i < trees.len() implies storable(#[trigger] trees[i], strings) by {
            if i > 0 {
                assert(storable(more[i - 1], strings));
            }
        }
    }
}

/// A tree in front of a forest adds its own size.
pub proof fn lemma_forest_cons(first: Tree, more: Seq<Tree>)
    ensures
        forest_size(seq![first] + more) == node_size(first) + forest_size(more),
    decreases more.len(),
{
    let all = seq![first] + more;
    if more.len() == 0 {
        assert(all.drop_last() =~= Seq::<Tree>::empty());
        assert(all.last() == first);
        assert(forest_size(all.drop_last()) == 0);
    } else {
        assert(all.drop_last() =~= seq![first] + more.drop_last());
        assert(all.last() == more.last());
        lemma_forest_cons(first, more.drop_last());
    }
}

proof fn lemma_skip_nops(b: Seq<u8>)
    ensures
        skip_nops(b).len() <= b.len(),
    decreases b.len(),
{
    if b.len() >= 4 && un_be32(b) == NOP {
        lemma_skip_nops(b.skip(4));
    }
}

/// A tree that was read can be stored again, and takes no more space than it took.
pub proof fn lemma_parsed_tree(b: Seq<u8>, strings: Seq<u8>)
    requires
        parse_tree(b, strings) is Some,
        strings.len() < 0x1_0000_0000,
    ensures
        node_size(parse_tree(b, strings)->0) + 4 <= tree_extent(b, strings) <= b.len(),
        storable(parse_tree(b, strings)->0, strings),
{
    reveal(parse_tree);
    reveal(tree_extent);
    lemma_skip_nops(b);
    lemma_parsed_node(skip_nops(b), strings);
    let (t, rest) = parse_node(skip_nops(b), strings)->0;
    lemma_skip_nops(rest);
}

} // verus!
