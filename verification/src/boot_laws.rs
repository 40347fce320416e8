//! What the edits of a blob come to for the guest that boots from it.
use vstd::prelude::*;
#[allow(unused_imports)]
use vstd::utf8::{encode_utf8, is_ascii_chars, is_ascii_chars_encode_utf8};

#[allow(unused_imports)]
use crate::boot::{
    add_virtio, add_with, bootargs, c_text, check_bytes, check_chosen, check_exists, check_patched,
    check_reserved, patch_all, patch_chosen, patch_memory, patch_reserved, patch_soc, patched_bytes,
    plic_phandle, purgatory_path, reg, release_bytes, reserved_node, reserved_settings,
    serial_settings, set_all, unit, virtio_settings, BootDevice, Setting, VirtioMmioNode,
};
#[allow(unused_imports)]
use crate::bytes::{be32, be32_round_trip, be64, be64_round_trip, un_be64};
#[allow(unused_imports)]
use crate::fdt::{
    dtb_add, dtb_path, dtb_rename, dtb_setprop, has_nul, header_word, lemma_parsed_sane,
    lemma_prop_bound, lemma_setprop_sane, max_phandle, pack_round_trip, packed, parse_dtb,
    phandle_of, sane, struct_room, Dtb, Fault,
};
#[allow(unused_imports)]
use crate::fdt_edit::{
    answers_to, child_from, component, has_node, lemma_node_storable, lemma_with_child,
    lemma_with_node_size, lemma_with_node_storable, node_at, prop_from, prop_of, resolve,
    skip_slashes, with_child, with_name, with_node, with_prop,
};
#[allow(unused_imports)]
use crate::fdt_laws::lemma_with_node;
#[allow(unused_imports)]
use crate::fdt_tree::{align4, c_len, node_size, zeros, PropView, Tree};
#[allow(unused_imports)]
use crate::regs::{PurgatoryRegs, VirtioRegs};
#[allow(unused_imports)]
use crate::text::hex;

verus! {

// ---------------------------------------------------------------------------
// Names and paths
// ---------------------------------------------------------------------------

/// Characters that may stand in the name of a node.
pub open spec fn plain(s: Seq<char>) -> bool {
    forall|i: int| 0 <= i < s.len() ==> '!' <= #[trigger] s[i] <= '~' && s[i] != '/'
}

proof fn lemma_plain(s: Seq<char>)
    requires
        plain(s),
    ensures
        encode_utf8(s).len() == s.len(),
        forall|i: int| 0 <= i < s.len() ==> #[trigger] encode_utf8(s)[i] == s[i] as u8,
        forall|i: int|
            0 <= i < s.len() ==> #[trigger] encode_utf8(s)[i] != 0 && encode_utf8(s)[i] != 0x2f,
{
    assert(is_ascii_chars(s));
    is_ascii_chars_encode_utf8(s);
}

proof fn lemma_hex_plain(n: nat)
    ensures
        plain(hex(n)),
        hex(n).len() > 0,
    decreases n,
{
    if n >= 16 {
        lemma_hex_plain(n / 16);
    }
}

proof fn lemma_unit_plain(name: Seq<char>, addr: nat)
    requires
        plain(name),
    ensures
        plain(unit(name, addr)),
        unit(name, addr).len() > name.len(),
        name.len() > 0 ==> unit(name, addr)[0] == name[0],
{
    reveal_strlit("@");
    lemma_hex_plain(addr);
}

proof fn lemma_ascii_join(a: Seq<char>, b: Seq<char>)
    requires
        is_ascii_chars(a),
        is_ascii_chars(b),
    ensures
        is_ascii_chars(a + b),
        encode_utf8(a + b) == encode_utf8(a) + encode_utf8(b),
{
    is_ascii_chars_encode_utf8(a);
    is_ascii_chars_encode_utf8(b);
    is_ascii_chars_encode_utf8(a + b);
    assert(encode_utf8(a + b) =~= encode_utf8(a) + encode_utf8(b));
}

proof fn lemma_component(x: Seq<u8>, rest: Seq<u8>)
    requires
        forall|i: int| 0 <= i < x.len() ==> #[trigger] x[i] != 0x2f,
        rest.len() == 0 || rest[0] == 0x2f,
    ensures
        component(x + rest) == x,
    decreases x.len(),
{
    let p = x + rest;
    if x.len() > 0 {
        assert(p[0] == x[0]);
        assert(p.skip(1) =~= x.skip(1) + rest);
        assert forall|i: int| 0 <= i < x.skip(1).len() implies #[trigger] x.skip(1)[i] != 0x2f by {
            assert(x[i + 1] != 0x2f);
        }
        lemma_component(x.skip(1), rest);
        assert(component(p) =~= x);
    } else {
        assert(p =~= rest);
        assert(component(p) =~= x);
    }
}

proof fn lemma_no_nul(s: Seq<u8>)
    ensures
        (forall|i: int| 0 <= i < s.len() ==> #[trigger] s[i] != 0) <==> c_len(s) == s.len(),
        c_len(s) <= s.len(),
    decreases s.len(),
{
    if s.len() > 0 {
        let r = s.skip(1);
        lemma_no_nul(r);
        if s[0] != 0 {
            if c_len(s) == s.len() {
                assert forall|i: int| 0 <= i < s.len() implies #[trigger] s[i] != 0 by {
                    if i > 0 {
                        assert(r[i - 1] == s[i]);
                    }
                }
            } else {
                if forall|i: int| 0 <= i < s.len() ==> #[trigger] s[i] != 0 {
                    assert forall|i: int| 0 <= i < r.len() implies #[trigger] r[i] != 0 by {
                        assert(r[i] == s[i + 1]);
                    }
                }
            }
        }
    }
}

/// The first child that answers to a name.
pub open spec fn child(t: Tree, name: Seq<u8>) -> Option<Tree> {
    let i = child_from(t.children, name, 0);
    if i < t.children.len() {
        Some(t.children[i as int])
    } else {
        None
    }
}

/// A path of one name leads to the first child that answers to it.
proof fn lemma_path_one(d: Dtb, a: Seq<char>)
    requires
        plain(a),
        a.len() > 0,
    ensures
        ({
            let i = child_from(d.tree.children, encode_utf8(a), 0);
            dtb_path(d, "/"@ + a) == if i < d.tree.children.len() {
                Ok::<Option<Seq<int>>, Fault>(Some(seq![i as int]))
            } else {
                Ok::<Option<Seq<int>>, Fault>(None)
            }
        }),
{
    let path = "/"@ + a;
    reveal_strlit("/");
    assert("/"@ =~= seq!['/']);
    assert(is_ascii_chars("/"@));
    assert(is_ascii_chars(a));
    lemma_plain(a);
    lemma_ascii_join("/"@, a);
    is_ascii_chars_encode_utf8("/"@);
    let x = encode_utf8(a);
    let bytes = encode_utf8(path);
    assert(bytes =~= seq![0x2fu8] + x);
    lemma_no_nul(bytes);
    assert(bytes.skip(1) =~= x);
    assert(x[0] != 0x2f);
    reveal_with_fuel(skip_slashes, 2);
    assert(skip_slashes(bytes) == x);
    assert(x + Seq::<u8>::empty() =~= x);
    lemma_component(x, Seq::empty());
    let i = child_from(d.tree.children, x, 0);
    if i < d.tree.children.len() {
        let c = d.tree.children[i as int];
        assert(x.skip(x.len() as int) =~= Seq::<u8>::empty());
        assert(resolve(c, Seq::empty()) == Some(Seq::<int>::empty()));
        assert(seq![i as int] + Seq::<int>::empty() =~= seq![i as int]);
    }
}

/// The bytes of a path of two names.
proof fn lemma_two_bytes(a: Seq<char>, b: Seq<char>)
    requires
        plain(a),
        plain(b),
    ensures
        encode_utf8("/"@ + a + "/"@ + b) == seq![0x2fu8] + (encode_utf8(a) + (seq![0x2fu8]
            + encode_utf8(b))),
        !has_nul("/"@ + a + "/"@ + b),
{
    reveal_strlit("/");
    assert("/"@ =~= seq!['/']);
    assert(is_ascii_chars("/"@));
    assert(is_ascii_chars(a));
    assert(is_ascii_chars(b));
    lemma_plain(a);
    lemma_plain(b);
    lemma_ascii_join("/"@, a);
    lemma_ascii_join("/"@ + a, "/"@);
    lemma_ascii_join("/"@ + a + "/"@, b);
    is_ascii_chars_encode_utf8("/"@);
    let x = encode_utf8(a);
    let y = encode_utf8(b);
    let bytes = encode_utf8("/"@ + a + "/"@ + b);
    assert(encode_utf8("/"@) =~= seq![0x2fu8]);
    assert(bytes =~= seq![0x2fu8] + (x + (seq![0x2fu8] + y)));
    assert forall|i: int| 0 <= i < bytes.len() implies #[trigger] bytes[i] != 0 by {
        if 1 <= i < 1 + x.len() {
            assert(bytes[i] == x[i - 1]);
        } else if i >= 2 + x.len() {
            assert(bytes[i] == y[i - 2 - x.len()]);
        }
    }
    lemma_no_nul(bytes);
}

proof fn lemma_resolve_step(t: Tree, x: Seq<u8>, tail: Seq<u8>)
    requires
        x.len() > 0,
        forall|i: int| 0 <= i < x.len() ==> #[trigger] x[i] != 0x2f,
        tail.len() == 0 || tail[0] == 0x2f,
    ensures
        resolve(t, seq![0x2fu8] + (x + tail)) == {
            let i = child_from(t.children, x, 0);
            if i >= t.children.len() {
                None
            } else {
                match resolve(t.children[i as int], tail) {
                    Some(more) => Some(seq![i as int] + more),
                    None => None,
                }
            }
        },
{
    let bytes = seq![0x2fu8] + (x + tail);
    assert(bytes.skip(1) =~= x + tail);
    assert((x + tail)[0] == x[0]);
    assert(x[0] != 0x2f);
    reveal_with_fuel(skip_slashes, 2);
    assert(skip_slashes(bytes) == x + tail);
    lemma_component(x, tail);
    assert((x + tail).skip(x.len() as int) =~= tail);
}

/// A path of two names leads down two steps.
proof fn lemma_path_two(d: Dtb, a: Seq<char>, b: Seq<char>)
    requires
        plain(a),
        plain(b),
        a.len() > 0,
        b.len() > 0,
    ensures
        ({
            let i = child_from(d.tree.children, encode_utf8(a), 0);
            let c = d.tree.children[i as int];
            let j = child_from(c.children, encode_utf8(b), 0);
            dtb_path(d, "/"@ + a + "/"@ + b) == if i < d.tree.children.len() && j
                < c.children.len() {
                Ok::<Option<Seq<int>>, Fault>(Some(seq![i as int, j as int]))
            } else {
                Ok::<Option<Seq<int>>, Fault>(None)
            }
        }),
{
    lemma_two_bytes(a, b);
    lemma_plain(a);
    lemma_plain(b);
    let x = encode_utf8(a);
    let y = encode_utf8(b);
    let tail = seq![0x2fu8] + y;
    lemma_resolve_step(d.tree, x, tail);
    let i = child_from(d.tree.children, x, 0);
    if i < d.tree.children.len() {
        let c = d.tree.children[i as int];
        let j = child_from(c.children, y, 0);
        assert(y + Seq::<u8>::empty() =~= y);
        lemma_resolve_step(c, y, Seq::empty());
        if j < c.children.len() {
            assert(resolve(c.children[j as int], Seq::empty()) == Some(Seq::<int>::empty()));
            assert(seq![j as int] + Seq::<int>::empty() =~= seq![j as int]);
            assert(seq![i as int] + seq![j as int] =~= seq![i as int, j as int]);
        }
    }
}

proof fn lemma_node_at_one(t: Tree, i: int)
    requires
        0 <= i < t.children.len(),
    ensures
        has_node(t, seq![i]),
        node_at(t, seq![i]) == t.children[i],
{
    assert(seq![i].skip(1) =~= Seq::<int>::empty());
    reveal_with_fuel(has_node, 2);
    reveal_with_fuel(node_at, 2);
}

proof fn lemma_node_at_two(t: Tree, i: int, j: int)
    requires
        0 <= i < t.children.len(),
        0 <= j < t.children[i].children.len(),
    ensures
        has_node(t, seq![i, j]),
        node_at(t, seq![i, j]) == t.children[i].children[j],
{
    assert(seq![i, j].skip(1) =~= seq![j]);
    lemma_node_at_one(t.children[i], j);
    reveal_with_fuel(has_node, 2);
    reveal_with_fuel(node_at, 2);
}

// ---------------------------------------------------------------------------
// What an edit leaves alone
// ---------------------------------------------------------------------------

proof fn lemma_answers_first(name: Seq<u8>, w: Seq<u8>)
    requires
        answers_to(name, w),
        w.len() > 0,
    ensures
        name.len() >= w.len(),
        name[0] == w[0],
{
    if name != w {
        assert(name.take(w.len() as int)[0] == name[0]);
    }
}

proof fn lemma_child_from_sound(c: Seq<Tree>, w: Seq<u8>, i: nat)
    requires
        i <= c.len(),
    ensures
        i <= child_from(c, w, i) <= c.len(),
        child_from(c, w, i) < c.len() ==> answers_to(c[child_from(c, w, i) as int].name, w),
        forall|j: int| i <= j < child_from(c, w, i) ==> !answers_to(#[trigger] c[j].name, w),
    decreases c.len() - i,
{
    if i < c.len() && !answers_to(c[i as int].name, w) {
        lemma_child_from_sound(c, w, i + 1);
    }
}

proof fn lemma_child_from_names(c: Seq<Tree>, e: Seq<Tree>, w: Seq<u8>, i: nat)
    requires
        c.len() == e.len(),
        forall|j: int| 0 <= j < c.len() ==> #[trigger] c[j].name == e[j].name,
    ensures
        child_from(c, w, i) == child_from(e, w, i),
    decreases c.len() - i,
{
    if i < c.len() {
        assert(c[i as int].name == e[i as int].name);
        lemma_child_from_names(c, e, w, i + 1);
    }
}

proof fn lemma_child_from_shift(first: Tree, c: Seq<Tree>, w: Seq<u8>, i: nat)
    ensures
        child_from(seq![first] + c, w, i + 1) == child_from(c, w, i) + 1,
    decreases c.len() - i,
{
    let e = seq![first] + c;
    if i < c.len() {
        assert(e[(i + 1) as int] == c[i as int]);
        lemma_child_from_shift(first, c, w, i + 1);
    }
}

/// `t` with another child in front.
pub open spec fn with_first(t: Tree, n: Tree) -> Tree {
    Tree { children: seq![n] + t.children, ..t }
}

/// A new child in front changes what a name finds only where it answers to it.
proof fn lemma_with_first(t: Tree, n: Tree, w: Seq<u8>)
    ensures
        child(with_first(t, n), w) == if answers_to(n.name, w) {
            Some(n)
        } else {
            child(t, w)
        },
        child_from(with_first(t, n).children, w, 0) == if answers_to(n.name, w) {
            0
        } else {
            child_from(t.children, w, 0) + 1
        },
{
    let e = seq![n] + t.children;
    assert(e[0] == n);
    lemma_child_from_shift(n, t.children, w, 0);
    lemma_child_from_sound(t.children, w, 0);
    if !answers_to(n.name, w) {
        assert(child_from(e, w, 0) == child_from(e, w, 1));
        let i = child_from(t.children, w, 0);
        if i < t.children.len() {
            assert(e[(i + 1) as int] == t.children[i as int]);
        }
    }
}

/// Only what is below the child at `k` differs, and that keeps its name.
pub open spec fn only_below(t: Tree, u: Tree, k: int) -> bool {
    &&& 0 <= k < t.children.len()
    &&& u.children.len() == t.children.len()
    &&& u.children[k].name == t.children[k].name
    &&& forall|j: int| 0 <= j < t.children.len() && j != k ==> #[trigger] u.children[j]
        == t.children[j]
}

proof fn lemma_only_below(t: Tree, u: Tree, k: int, w: Seq<u8>)
    requires
        only_below(t, u, k),
    ensures
        child_from(u.children, w, 0) == child_from(t.children, w, 0),
        child_from(t.children, w, 0) != k ==> child(u, w) == child(t, w),
        child_from(t.children, w, 0) == k ==> child(u, w) == Some(u.children[k]),
{
    assert forall|j: int| 0 <= j < t.children.len() implies #[trigger] t.children[j].name
        == u.children[j].name by {
        if j != k {
            assert(u.children[j] == t.children[j]);
        }
    }
    lemma_child_from_names(t.children, u.children, w, 0);
    lemma_child_from_sound(t.children, w, 0);
}

/// An edit at or below the child at `k` that keeps the name of a child.
proof fn lemma_with_node_below(t: Tree, path: Seq<int>, new: Tree)
    requires
        path.len() > 0,
        has_node(t, path),
        path.len() == 1 ==> new.name == node_at(t, path).name,
    ensures
        only_below(t, with_node(t, path, new), path[0]),
        with_node(t, path, new).children[path[0]] == with_node(
            t.children[path[0]],
            path.skip(1),
            new,
        ),
{
    reveal_with_fuel(node_at, 2);
    reveal_with_fuel(with_node, 2);
}

/// A second replacement at the same place undoes the first.
proof fn lemma_with_node_twice(t: Tree, path: Seq<int>, a: Tree, b: Tree)
    requires
        has_node(t, path),
    ensures
        with_node(with_node(t, path, a), path, b) == with_node(t, path, b),
    decreases path.len(),
{
    if path.len() > 0 {
        let k = path[0];
        lemma_with_node_twice(t.children[k], path.skip(1), a, b);
        let once = with_node(t, path, a);
        assert(once.children[k] == with_node(t.children[k], path.skip(1), a));
        assert(once.children.update(k, with_node(t.children[k], path.skip(1), b))
            =~= t.children.update(k, with_node(t.children[k], path.skip(1), b)));
    }
}

/// Replacing the first child of a node is replacing the node.
proof fn lemma_with_first_child(t: Tree, path: Seq<int>, n: Tree)
    requires
        has_node(t, path),
        node_at(t, path).children.len() > 0,
    ensures
        has_node(t, path.push(0)),
        node_at(t, path.push(0)) == node_at(t, path).children[0],
        with_node(t, path.push(0), n) == with_node(
            t,
            path,
            Tree { children: node_at(t, path).children.update(0, n), ..node_at(t, path) },
        ),
    decreases path.len(),
{
    let longer = path.push(0);
    if path.len() == 0 {
        assert(longer.skip(1) =~= Seq::<int>::empty());
        reveal_with_fuel(has_node, 2);
        reveal_with_fuel(node_at, 2);
        reveal_with_fuel(with_node, 2);
    } else {
        assert(longer.skip(1) =~= path.skip(1).push(0));
        assert(longer[0] == path[0]);
        lemma_with_first_child(t.children[path[0]], path.skip(1), n);
    }
}

/// A node with some properties set, one after the other.
pub open spec fn with_settings(t: Tree, settings: Seq<Setting>) -> Tree
    decreases settings.len(),
{
    if settings.len() == 0 {
        t
    } else {
        with_prop(
            with_settings(t, settings.drop_last()),
            encode_utf8(settings.last().0),
            settings.last().1,
        )
    }
}

/// A new node with some properties.
pub open spec fn fresh(name: Seq<char>, settings: Seq<Setting>) -> Tree {
    with_settings(
        Tree { name: encode_utf8(name), props: Seq::empty(), children: Seq::empty() },
        settings,
    )
}

proof fn lemma_settings_keep(t: Tree, settings: Seq<Setting>)
    ensures
        with_settings(t, settings).name == t.name,
        with_settings(t, settings).children == t.children,
    decreases settings.len(),
{
    if settings.len() > 0 {
        lemma_settings_keep(t, settings.drop_last());
    }
}

proof fn lemma_set_all(d: Dtb, node: Seq<int>, settings: Seq<Setting>)
    requires
        set_all(d, node, settings) is Ok,
        has_node(d.tree, node),
    ensures
        set_all(d, node, settings)->Ok_0.tree == with_node(
            d.tree,
            node,
            with_settings(node_at(d.tree, node), settings),
        ),
    decreases settings.len(),
{
    if settings.len() == 0 {
        lemma_with_node_same(d.tree, node);
    } else {
        let before = settings.drop_last();
        lemma_set_all(d, node, before);
        let e = set_all(d, node, before)->Ok_0;
        let t = with_settings(node_at(d.tree, node), before);
        lemma_with_node(d.tree, node, t);
        lemma_with_node_twice(
            d.tree,
            node,
            t,
            with_settings(node_at(d.tree, node), settings),
        );
    }
}

proof fn lemma_with_node_same(t: Tree, path: Seq<int>)
    requires
        has_node(t, path),
    ensures
        with_node(t, path, node_at(t, path)) == t,
    decreases path.len(),
{
    if path.len() > 0 {
        lemma_with_node_same(t.children[path[0]], path.skip(1));
        assert(t.children.update(path[0], t.children[path[0]]) =~= t.children);
    }
}

/// What adding a node with properties comes to.
proof fn lemma_add_with(d: Dtb, parent: Seq<int>, name: Seq<char>, settings: Seq<Setting>)
    requires
        add_with(d, parent, name, settings) is Ok,
    ensures
        has_node(d.tree, parent),
        add_with(d, parent, name, settings)->Ok_0.tree == with_node(
            d.tree,
            parent,
            with_first(node_at(d.tree, parent), fresh(name, settings)),
        ),
        child(node_at(d.tree, parent), encode_utf8(name)) is None,
{
    let bytes = encode_utf8(name);
    let old = node_at(d.tree, parent);
    let (e, node) = dtb_add(d, parent, name)->Ok_0;
    let grown = with_child(old, bytes);
    lemma_with_node(d.tree, parent, grown);
    lemma_with_first_child(e.tree, parent, fresh(name, settings));
    lemma_set_all(e, node, settings);
    let full = with_first(old, fresh(name, settings));
    assert(grown.children.update(0, fresh(name, settings)) =~= full.children);
    lemma_with_node_twice(d.tree, parent, grown, full);
}

proof fn lemma_prop_from_found(props: Seq<PropView>, name: Seq<u8>, i: nat)
    requires
        i <= props.len(),
    ensures
        i <= prop_from(props, name, i) <= props.len(),
        prop_from(props, name, i) < props.len() ==> props[prop_from(props, name, i) as int].name
            == name,
        forall|j: int| i <= j < prop_from(props, name, i) ==> #[trigger] props[j].name != name,
    decreases props.len() - i,
{
    if i < props.len() && props[i as int].name != name {
        lemma_prop_from_found(props, name, i + 1);
    }
}

proof fn lemma_prop_from_names(p: Seq<PropView>, q: Seq<PropView>, name: Seq<u8>, i: nat)
    requires
        p.len() == q.len(),
        forall|j: int| 0 <= j < p.len() ==> #[trigger] p[j].name == q[j].name,
    ensures
        prop_from(p, name, i) == prop_from(q, name, i),
    decreases p.len() - i,
{
    if i < p.len() {
        assert(p[i as int].name == q[i as int].name);
        lemma_prop_from_names(p, q, name, i + 1);
    }
}

proof fn lemma_prop_from_shift(first: PropView, p: Seq<PropView>, name: Seq<u8>, i: nat)
    ensures
        prop_from(seq![first] + p, name, i + 1) == prop_from(p, name, i) + 1,
    decreases p.len() - i,
{
    let q = seq![first] + p;
    if i < p.len() {
        assert(q[(i + 1) as int] == p[i as int]);
        lemma_prop_from_shift(first, p, name, i + 1);
    }
}

/// Setting a property changes that one and no other.
pub proof fn a_property_is_what_was_set(t: Tree, name: Seq<u8>, value: Seq<u8>, other: Seq<u8>)
    ensures
        prop_of(with_prop(t, name, value), other) == if other == name {
            Some(value)
        } else {
            prop_of(t, other)
        },
{
    let i = prop_from(t.props, name, 0);
    let u = with_prop(t, name, value);
    lemma_prop_from_found(t.props, name, 0);
    lemma_prop_from_found(t.props, other, 0);
    if i < t.props.len() {
        assert forall|j: int| 0 <= j < t.props.len() implies #[trigger] t.props[j].name
            == u.props[j].name by {}
        lemma_prop_from_names(t.props, u.props, other, 0);
    } else {
        let first = PropView { name, value };
        assert(u.props[0] == first);
        lemma_prop_from_shift(first, t.props, other, 0);
        if other != name {
            assert(prop_from(u.props, other, 0) == prop_from(u.props, other, 1));
            let k = prop_from(t.props, other, 0);
            if k < t.props.len() {
                assert(u.props[(k + 1) as int] == t.props[k as int]);
            }
        }
    }
}

// ---------------------------------------------------------------------------
// Edits keep a blob sane
// ---------------------------------------------------------------------------

proof fn lemma_setprop_stays_sane(d: Dtb, node: Seq<int>, name: Seq<char>, value: Seq<u8>)
    requires
        sane(d),
        dtb_setprop(d, node, name, value) is Ok,
    ensures
        sane(dtb_setprop(d, node, name, value)->Ok_0),
{
    let bytes = encode_utf8(name);
    lemma_no_nul(bytes);
    lemma_prop_bound(d, node, bytes);
    assert(align4(value.len()) >= value.len());
    lemma_setprop_sane(d, node, name, value);
}

proof fn lemma_set_all_sane(d: Dtb, node: Seq<int>, settings: Seq<Setting>)
    requires
        sane(d),
        set_all(d, node, settings) is Ok,
    ensures
        sane(set_all(d, node, settings)->Ok_0),
    decreases settings.len(),
{
    if settings.len() > 0 {
        lemma_set_all_sane(d, node, settings.drop_last());
        lemma_setprop_stays_sane(
            set_all(d, node, settings.drop_last())->Ok_0,
            node,
            settings.last().0,
            settings.last().1,
        );
    }
}

proof fn lemma_add_sane(d: Dtb, parent: Seq<int>, name: Seq<char>)
    requires
        sane(d),
        dtb_add(d, parent, name) is Ok,
    ensures
        sane(dtb_add(d, parent, name)->Ok_0.0),
{
    let bytes = encode_utf8(name);
    let node = node_at(d.tree, parent);
    lemma_no_nul(bytes);
    lemma_node_storable(d.tree, parent, d.strings);
    lemma_with_child(node, bytes, d.strings);
    lemma_with_node_storable(d.tree, parent, with_child(node, bytes), d.strings);
    lemma_with_node_size(d.tree, parent, with_child(node, bytes));
}

proof fn lemma_add_with_sane(d: Dtb, parent: Seq<int>, name: Seq<char>, settings: Seq<Setting>)
    requires
        sane(d),
        add_with(d, parent, name, settings) is Ok,
    ensures
        sane(add_with(d, parent, name, settings)->Ok_0),
{
    lemma_add_sane(d, parent, name);
    let (e, node) = dtb_add(d, parent, name)->Ok_0;
    lemma_set_all_sane(e, node, settings);
}

proof fn lemma_rename_sane(d: Dtb, node: Seq<int>, name: Seq<char>)
    requires
        sane(d),
        dtb_rename(d, node, name) is Ok,
    ensures
        sane(dtb_rename(d, node, name)->Ok_0),
{
    let bytes = encode_utf8(name);
    let t = node_at(d.tree, node);
    lemma_no_nul(bytes);
    lemma_node_storable(d.tree, node, d.strings);
    lemma_with_node_size(d.tree, node, with_name(t, bytes));
    lemma_with_node_storable(d.tree, node, with_name(t, bytes), d.strings);
    assert(align4(t.name.len() + 1) <= node_size(t));
}

proof fn lemma_add_virtio_sane(d: Dtb, soc: Seq<int>, nodes: Seq<VirtioMmioNode>, phandle: nat)
    requires
        sane(d),
        add_virtio(d, soc, nodes, phandle) is Ok,
    ensures
        sane(add_virtio(d, soc, nodes, phandle)->Ok_0),
    decreases nodes.len(),
{
    if nodes.len() > 0 {
        lemma_add_virtio_sane(d, soc, nodes.drop_last(), phandle);
        lemma_add_with_sane(
            add_virtio(d, soc, nodes.drop_last(), phandle)->Ok_0,
            soc,
            unit("virtio"@, nodes.last().addr as nat),
            virtio_settings(nodes.last(), phandle),
        );
    }
}

// ---------------------------------------------------------------------------
// What each part of the patch does
// ---------------------------------------------------------------------------

/// A name that starts with this letter.
pub open spec fn starts(name: Seq<u8>, letter: u8) -> bool {
    name.len() > 0 && name[0] == letter
}

proof fn lemma_names()
    ensures
        plain("memory@400030000000"@) && starts(encode_utf8("memory@400030000000"@), 0x6d),
        plain("memory"@) && "memory"@.len() == 6 && "memory"@[0] == 'm',
        plain("chosen"@) && starts(encode_utf8("chosen"@), 0x63),
        plain("reserved-memory"@) && starts(encode_utf8("reserved-memory"@), 0x72),
        plain("soc"@) && starts(encode_utf8("soc"@), 0x73),
        plain("interrupt-controller@c000000"@) && "interrupt-controller@c000000"@.len() > 0,
        plain("bhx-purgatory"@) && "bhx-purgatory"@.len() > 0,
        plain("bhx-opensbi-firmware"@) && "bhx-opensbi-firmware"@.len() > 0,
        plain("virtio"@) && "virtio"@.len() > 0,
        plain("reg"@) && "reg"@.len() == 3,
        plain("no-map"@) && "no-map"@.len() == 6,
        plain("bootargs"@) && "bootargs"@.len() == 8,
        plain("stdout-path"@) && "stdout-path"@.len() == 11,
        "/memory@400030000000"@ == "/"@ + "memory@400030000000"@,
        "/chosen"@ == "/"@ + "chosen"@,
        "/reserved-memory"@ == "/"@ + "reserved-memory"@,
        "/soc"@ == "/"@ + "soc"@,
        "/soc/interrupt-controller@c000000"@ == "/"@ + "soc"@ + "/"@
            + "interrupt-controller@c000000"@,
        "/reserved-memory/"@ == "/"@ + "reserved-memory"@ + "/"@,
{
    reveal_strlit("/");
    reveal_strlit("memory@400030000000");
    reveal_strlit("/memory@400030000000");
    reveal_strlit("memory");
    reveal_strlit("chosen");
    reveal_strlit("/chosen");
    reveal_strlit("reserved-memory");
    reveal_strlit("/reserved-memory");
    reveal_strlit("/reserved-memory/");
    reveal_strlit("soc");
    reveal_strlit("/soc");
    reveal_strlit("interrupt-controller@c000000");
    reveal_strlit("/soc/interrupt-controller@c000000");
    reveal_strlit("bhx-purgatory");
    reveal_strlit("bhx-opensbi-firmware");
    reveal_strlit("virtio");
    reveal_strlit("reg");
    reveal_strlit("no-map");
    reveal_strlit("bootargs");
    reveal_strlit("stdout-path");
    lemma_plain("memory@400030000000"@);
    lemma_plain("chosen"@);
    lemma_plain("reserved-memory"@);
    lemma_plain("soc"@);
    assert("/memory@400030000000"@ =~= "/"@ + "memory@400030000000"@);
    assert("/chosen"@ =~= "/"@ + "chosen"@);
    assert("/reserved-memory"@ =~= "/"@ + "reserved-memory"@);
    assert("/soc"@ =~= "/"@ + "soc"@);
    assert("/soc/interrupt-controller@c000000"@ =~= "/"@ + "soc"@ + "/"@
        + "interrupt-controller@c000000"@);
    assert("/reserved-memory/"@ =~= "/"@ + "reserved-memory"@ + "/"@);
}

/// What a name finds is the same in both trees, unless it starts with this letter.
pub open spec fn same_but(t: Tree, u: Tree, letter: u8) -> bool {
    forall|w: Seq<u8>|
        w.len() > 0 && w[0] != letter ==> #[trigger] child(u, w) == child(t, w)
}

/// Replacing a child whose name starts with a letter by one whose name does, too.
proof fn lemma_replaced(t: Tree, k: int, m: Tree, letter: u8)
    requires
        0 <= k < t.children.len(),
        starts(t.children[k].name, letter),
        starts(m.name, letter),
    ensures
        same_but(t, with_node(t, seq![k], m), letter),
        with_node(t, seq![k], m).children == t.children.update(k, m),
{
    let u = with_node(t, seq![k], m);
    assert(seq![k].skip(1) =~= Seq::<int>::empty());
    reveal_with_fuel(with_node, 2);
    assert forall|w: Seq<u8>| w.len() > 0 && w[0] != letter implies #[trigger] child(u, w) == child(
        t,
        w,
    ) by {
        lemma_replaced_from(t.children, k, m, w, 0);
        lemma_child_from_sound(t.children, w, 0);
        if answers_to(t.children[k].name, w) {
            lemma_answers_first(t.children[k].name, w);
        }
    }
}

proof fn lemma_replaced_from(c: Seq<Tree>, k: int, m: Tree, w: Seq<u8>, i: nat)
    requires
        0 <= k < c.len(),
        w.len() > 0,
        c[k].name.len() > 0,
        c[k].name[0] != w[0],
        m.name.len() > 0,
        m.name[0] != w[0],
    ensures
        child_from(c.update(k, m), w, i) == child_from(c, w, i),
    decreases c.len() - i,
{
    if i < c.len() {
        if answers_to(c[k].name, w) {
            lemma_answers_first(c[k].name, w);
        }
        if answers_to(m.name, w) {
            lemma_answers_first(m.name, w);
        }
        lemma_replaced_from(c, k, m, w, i + 1);
    }
}

/// A child put in front, whose name starts with a letter.
proof fn lemma_put_first(t: Tree, n: Tree, letter: u8)
    requires
        starts(n.name, letter),
    ensures
        same_but(t, with_first(t, n), letter),
{
    assert forall|w: Seq<u8>| w.len() > 0 && w[0] != letter implies #[trigger] child(
        with_first(t, n),
        w,
    ) == child(t, w) by {
        lemma_with_first(t, n, w);
        if answers_to(n.name, w) {
            lemma_answers_first(n.name, w);
        }
    }
}

/// Replacing the first child that answers to a name by one of the same name.
proof fn lemma_replaced_first(t: Tree, w: Seq<u8>, m: Tree)
    requires
        child(t, w) is Some,
        m.name == child(t, w)->0.name,
        w.len() > 0,
    ensures
        ({
            let k = child_from(t.children, w, 0) as int;
            let u = with_node(t, seq![k], m);
            &&& child(u, w) == Some(m)
            &&& child_from(u.children, w, 0) == k
            &&& same_but(t, u, w[0])
        }),
{
    let k = child_from(t.children, w, 0) as int;
    lemma_child_from_sound(t.children, w, 0);
    lemma_answers_first(t.children[k].name, w);
    lemma_replaced(t, k, m, w[0]);
    let u = with_node(t, seq![k], m);
    assert(only_below(t, u, k));
    lemma_only_below(t, u, k, w);
}

proof fn lemma_memory(d: Dtb, mem_start: u64, mem_size: u64)
    requires
        sane(d),
        patch_memory(d, mem_start, mem_size) is Ok,
    ensures
        ({
            let e = patch_memory(d, mem_start, mem_size)->Ok_0;
            let name = encode_utf8(unit("memory"@, mem_start as nat));
            &&& sane(e)
            &&& child(e.tree, name) is Some
            &&& same_but(d.tree, e.tree, 0x6d)
            &&& child(d.tree, name) is None || name == encode_utf8("memory@400030000000"@)
                ==> prop_of(child(e.tree, name)->0, encode_utf8("reg"@)) == Some(
                reg(mem_start as nat, mem_size as nat),
            )
        }),
{
    reveal(patch_memory);
    let old_name = encode_utf8("memory@400030000000"@);
    let name = unit("memory"@, mem_start as nat);
    let bytes = encode_utf8(name);
    lemma_names();
    lemma_path_one(d, "memory@400030000000"@);
    lemma_unit_plain("memory"@, mem_start as nat);
    lemma_plain(name);
    let k = child_from(d.tree.children, old_name, 0) as int;
    lemma_child_from_sound(d.tree.children, old_name, 0);
    lemma_answers_first(d.tree.children[k].name, old_name);
    lemma_node_at_one(d.tree, k);
    let value = reg(mem_start as nat, mem_size as nat);
    let e = dtb_setprop(d, seq![k], "reg"@, value)->Ok_0;
    lemma_setprop_stays_sane(d, seq![k], "reg"@, value);
    let m = with_prop(d.tree.children[k], encode_utf8("reg"@), value);
    a_property_is_what_was_set(d.tree.children[k], encode_utf8("reg"@), value, encode_utf8("reg"@));
    lemma_replaced(d.tree, k, m, 0x6d);
    lemma_with_node(d.tree, seq![k], m);
    let f = patch_memory(d, mem_start, mem_size)->Ok_0;
    if m.name == bytes {
        assert(f == e);
        assert(f.tree.children[k].name == bytes);
    } else {
        lemma_rename_sane(e, seq![k], name);
        let n = with_name(m, bytes);
        lemma_with_node_twice(d.tree, seq![k], m, n);
        lemma_replaced(d.tree, k, n, 0x6d);
        assert(f.tree.children[k] == n);
    }
    lemma_child_from_sound(f.tree.children, bytes, 0);
    assert(answers_to(f.tree.children[k].name, bytes));
    let at = child_from(f.tree.children, bytes, 0) as int;
    assert(at <= k);
    if child(d.tree, bytes) is None {
        lemma_child_from_sound(d.tree.children, bytes, 0);
        if at < k {
            assert(f.tree.children[at] == d.tree.children[at]);
            assert(!answers_to(d.tree.children[at].name, bytes));
        }
    } else if bytes == old_name {
        if at < k {
            assert(f.tree.children[at] == d.tree.children[at]);
            assert(!answers_to(d.tree.children[at].name, old_name));
        }
    }
}

proof fn lemma_chosen(d: Dtb, args: Seq<char>)
    requires
        sane(d),
        patch_chosen(d, args) is Ok,
    ensures
        ({
            let e = patch_chosen(d, args)->Ok_0;
            &&& sane(e)
            &&& child(e.tree, encode_utf8("chosen"@)) is Some
            &&& prop_of(child(e.tree, encode_utf8("chosen"@))->0, encode_utf8("bootargs"@)) == Some(
                c_text(args),
            )
            &&& prop_of(child(e.tree, encode_utf8("chosen"@))->0, encode_utf8("stdout-path"@))
                == Some(c_text("/chosen/sbi-console"@))
            &&& child(e.tree, encode_utf8("chosen"@))->0.children == seq![
                fresh("sbi-console"@, seq![("compatible"@, c_text("riscv,sbi-debug-console"@))]),
            ] + (match child(d.tree, encode_utf8("chosen"@)) {
                Some(c) => c.children,
                None => Seq::empty(),
            })
            &&& same_but(d.tree, e.tree, 0x63)
        }),
{
    reveal(patch_chosen);
    let w = encode_utf8("chosen"@);
    lemma_names();
    lemma_path_one(d, "chosen"@);
    lemma_child_from_sound(d.tree.children, w, 0);
    let found = match dtb_path(d, "/chosen"@)->Ok_0 {
        Some(node) => (d, node),
        None => dtb_add(d, Seq::empty(), "chosen"@)->Ok_0,
    };
    let t0 = found.0.tree;
    if dtb_path(d, "/chosen"@)->Ok_0 is None {
        lemma_add_sane(d, Seq::empty(), "chosen"@);
        let n = Tree { name: w, props: Seq::empty(), children: Seq::empty() };
        assert(t0 == with_first(d.tree, n));
        lemma_put_first(d.tree, n, 0x63);
        lemma_with_first(d.tree, n, w);
        assert(Seq::<int>::empty().push(0) =~= seq![0int]);
    }
    let k = child_from(t0.children, w, 0) as int;
    assert(found.1 == seq![k]);
    assert(child(t0, w) is Some);
    let c0 = child(t0, w)->0;
    lemma_node_at_one(t0, k);
    // the command line
    let e1 = dtb_setprop(found.0, seq![k], "bootargs"@, c_text(args))->Ok_0;
    lemma_setprop_stays_sane(found.0, seq![k], "bootargs"@, c_text(args));
    let c1 = with_prop(c0, encode_utf8("bootargs"@), c_text(args));
    assert(e1.tree == with_node(t0, seq![k], c1));
    lemma_replaced_first(t0, w, c1);
    lemma_with_node(t0, seq![k], c1);
    // the console
    let settings = seq![("compatible"@, c_text("riscv,sbi-debug-console"@))];
    let e2 = add_with(e1, seq![k], "sbi-console"@, settings)->Ok_0;
    lemma_add_with_sane(e1, seq![k], "sbi-console"@, settings);
    lemma_add_with(e1, seq![k], "sbi-console"@, settings);
    let c2 = with_first(c1, fresh("sbi-console"@, settings));
    lemma_with_node_twice(t0, seq![k], c1, c2);
    lemma_replaced_first(t0, w, c2);
    lemma_with_node(t0, seq![k], c2);
    // the path to it
    let value = c_text("/chosen/sbi-console"@);
    let e3 = dtb_setprop(e2, seq![k], "stdout-path"@, value)->Ok_0;
    lemma_setprop_stays_sane(e2, seq![k], "stdout-path"@, value);
    let c3 = with_prop(c2, encode_utf8("stdout-path"@), value);
    lemma_with_node_twice(t0, seq![k], c2, c3);
    lemma_replaced_first(t0, w, c3);
    assert(e3.tree == with_node(t0, seq![k], c3));
    lemma_plain("bootargs"@);
    lemma_plain("stdout-path"@);
    a_property_is_what_was_set(c2, encode_utf8("stdout-path"@), value, encode_utf8("bootargs"@));
    assert(prop_of(c2, encode_utf8("bootargs"@)) == prop_of(c1, encode_utf8("bootargs"@)));
    a_property_is_what_was_set(
        c0,
        encode_utf8("bootargs"@),
        c_text(args),
        encode_utf8("bootargs"@),
    );
    a_property_is_what_was_set(c2, encode_utf8("stdout-path"@), value, encode_utf8("stdout-path"@));
    assert(child(e3.tree, w) == Some(c3));
    assert(patch_chosen(d, args)->Ok_0 == e3);
    assert(same_but(d.tree, e3.tree, 0x63)) by {
        assert forall|x: Seq<u8>| x.len() > 0 && x[0] != 0x63 implies #[trigger] child(e3.tree, x)
            == child(d.tree, x) by {
            assert(child(e3.tree, x) == child(t0, x));
        }
    }
}

/// The guest's console is that of the firmware, and the command line is the one that was asked for.
/// What else `/chosen` had below it stays.
pub proof fn what_is_chosen(d: Dtb, args: Seq<char>)
    requires
        sane(d),
        patch_chosen(d, args) is Ok,
    ensures
        ({
            let e = patch_chosen(d, args)->Ok_0;
            let chosen = child(e.tree, encode_utf8("chosen"@));
            &&& chosen is Some
            &&& prop_of(chosen->0, encode_utf8("bootargs"@)) == Some(c_text(args))
            &&& prop_of(chosen->0, encode_utf8("stdout-path"@)) == Some(
                c_text("/chosen/sbi-console"@),
            )
            &&& chosen->0.children[0].name == encode_utf8("sbi-console"@)
            &&& prop_of(chosen->0.children[0], encode_utf8("compatible"@)) == Some(
                c_text("riscv,sbi-debug-console"@),
            )
            &&& child(d.tree, encode_utf8("chosen"@)) matches Some(c) ==> chosen->0.children.skip(1)
                == c.children
        }),
{
    lemma_chosen(d, args);
    let settings = seq![("compatible"@, c_text("riscv,sbi-debug-console"@))];
    let bare = Tree {
        name: encode_utf8("sbi-console"@),
        props: Seq::empty(),
        children: Seq::empty(),
    };
    assert(settings.drop_last() =~= Seq::<Setting>::empty());
    reveal_with_fuel(with_settings, 2);
    assert(settings.last() == ("compatible"@, c_text("riscv,sbi-debug-console"@)));
    assert(fresh("sbi-console"@, settings) == with_prop(
        bare,
        encode_utf8("compatible"@),
        c_text("riscv,sbi-debug-console"@),
    ));
    a_property_is_what_was_set(
        bare,
        encode_utf8("compatible"@),
        c_text("riscv,sbi-debug-console"@),
        encode_utf8("compatible"@),
    );
}

/// A `/reserved-memory` that was not there gets addresses and sizes of two words, and an empty range
/// list.
pub proof fn how_reservations_are_counted(
    d: Dtb,
    mem_start: u64,
    mem_end: u64,
    virtio: VirtioRegs,
    purgatory: PurgatoryRegs,
)
    requires
        sane(d),
        child(d.tree, encode_utf8("reserved-memory"@)) is None,
        patch_reserved(d, mem_start, mem_end, virtio, purgatory) is Ok,
    ensures
        ({
            let e = patch_reserved(d, mem_start, mem_end, virtio, purgatory)->Ok_0;
            let r = child(e.tree, encode_utf8("reserved-memory"@));
            &&& r is Some
            &&& prop_of(r->0, encode_utf8("#address-cells"@)) == Some(seq![0u8, 0, 0, 2])
            &&& prop_of(r->0, encode_utf8("#size-cells"@)) == Some(seq![0u8, 0, 0, 2])
            &&& prop_of(r->0, encode_utf8("ranges"@)) == Some(Seq::<u8>::empty())
        }),
{
    lemma_reserved(d, mem_start, mem_end, virtio, purgatory);
    let w = encode_utf8("reserved-memory"@);
    let bare = Tree { name: w, props: Seq::empty(), children: Seq::empty() };
    let three = seq![
        ("#address-cells"@, be32(2)),
        ("#size-cells"@, be32(2)),
        ("ranges"@, Seq::<u8>::empty()),
    ];
    let two = three.drop_last();
    let one = two.drop_last();
    assert(one.drop_last() =~= Seq::<Setting>::empty());
    reveal_with_fuel(with_settings, 4);
    let a = encode_utf8("#address-cells"@);
    let z = encode_utf8("#size-cells"@);
    let r = encode_utf8("ranges"@);
    reveal_strlit("#address-cells");
    reveal_strlit("#size-cells");
    reveal_strlit("ranges");
    lemma_plain("#address-cells"@);
    lemma_plain("#size-cells"@);
    lemma_plain("ranges"@);
    let t1 = with_prop(bare, a, be32(2));
    let t2 = with_prop(t1, z, be32(2));
    let t3 = with_prop(t2, r, Seq::empty());
    assert(with_settings(bare, one) == t1);
    assert(with_settings(bare, two) == t2);
    assert(with_settings(bare, three) == t3);
    assert(a.len() == 14 && z.len() == 11 && r.len() == 6);
    a_property_is_what_was_set(bare, a, be32(2), a);
    a_property_is_what_was_set(t1, z, be32(2), a);
    a_property_is_what_was_set(t2, r, Seq::empty(), a);
    a_property_is_what_was_set(t1, z, be32(2), z);
    a_property_is_what_was_set(t2, r, Seq::empty(), z);
    a_property_is_what_was_set(t2, r, Seq::empty(), r);
    assert(be32(2) =~= seq![0u8, 0, 0, 2]);
}

/// The children that `/reserved-memory` has before it is patched.
pub open spec fn reserved_before(t: Tree) -> Seq<Tree> {
    match child(t, encode_utf8("reserved-memory"@)) {
        Some(r) => r.children,
        None => Seq::empty(),
    }
}

proof fn lemma_reserved(
    d: Dtb,
    mem_start: u64,
    mem_end: u64,
    virtio: VirtioRegs,
    purgatory: PurgatoryRegs,
)
    requires
        sane(d),
        patch_reserved(d, mem_start, mem_end, virtio, purgatory) is Ok,
    ensures
        ({
            let e = patch_reserved(d, mem_start, mem_end, virtio, purgatory)->Ok_0;
            let pa = (mem_start + purgatory.status_offset) as nat;
            let w = encode_utf8("reserved-memory"@);
            &&& sane(e)
            &&& child(e.tree, w) is Some
            &&& child(e.tree, w)->0.children == seq![
                fresh(unit("bhx-purgatory"@, pa), reserved_settings(pa, 0x1000)),
                fresh(
                    "memory@4000afa00000"@,
                    reserved_settings(
                        (mem_end - virtio.reserved_size) as nat,
                        virtio.reserved_size as nat,
                    ),
                ),
            ] + reserved_before(d.tree)
            &&& child(d.tree, w) is None ==> child(e.tree, w)->0.props == with_settings(
                Tree { name: w, props: Seq::empty(), children: Seq::empty() },
                seq![
                    ("#address-cells"@, be32(2)),
                    ("#size-cells"@, be32(2)),
                    ("ranges"@, Seq::<u8>::empty()),
                ],
            ).props
            &&& same_but(d.tree, e.tree, 0x72)
        }),
{
    reveal(patch_reserved);
    let w = encode_utf8("reserved-memory"@);
    let pa = (mem_start + purgatory.status_offset) as nat;
    lemma_names();
    lemma_path_one(d, "reserved-memory"@);
    lemma_child_from_sound(d.tree.children, w, 0);
    let (e0, node) = reserved_node(d)->Ok_0;
    let k = child_from(e0.tree.children, w, 0) as int;
    if dtb_path(d, "/reserved-memory"@)->Ok_0 is None {
        let (a, p) = dtb_add(d, Seq::empty(), "reserved-memory"@)->Ok_0;
        lemma_add_sane(d, Seq::empty(), "reserved-memory"@);
        let n = Tree { name: w, props: Seq::empty(), children: Seq::empty() };
        assert(a.tree == with_first(d.tree, n));
        lemma_put_first(d.tree, n, 0x72);
        lemma_with_first(d.tree, n, w);
        assert(Seq::<int>::empty().push(0) =~= seq![0int]);
        let settings = seq![
            ("#address-cells"@, be32(2)),
            ("#size-cells"@, be32(2)),
            ("ranges"@, Seq::<u8>::empty()),
        ];
        lemma_node_at_one(a.tree, 0);
        lemma_set_all(a, p, settings);
        lemma_set_all_sane(a, p, settings);
        let m = with_settings(n, settings);
        lemma_settings_keep(n, settings);
        lemma_replaced_first(a.tree, w, m);
        assert(same_but(d.tree, e0.tree, 0x72)) by {
            assert forall|x: Seq<u8>| x.len() > 0 && x[0] != 0x72 implies #[trigger] child(
                e0.tree,
                x,
            ) == child(d.tree, x) by {
                assert(child(e0.tree, x) == child(a.tree, x));
            }
        }
    }
    let t0 = e0.tree;
    assert(node == seq![k]);
    assert(child(t0, w) is Some);
    assert(sane(e0));
    assert(same_but(d.tree, t0, 0x72));
    let r0 = child(t0, w)->0;
    assert(r0.children =~= reserved_before(d.tree));
    lemma_node_at_one(t0, k);
    let top = reserved_settings(
        (mem_end - virtio.reserved_size) as nat,
        virtio.reserved_size as nat,
    );
    let e1 = add_with(e0, node, "memory@4000afa00000"@, top)->Ok_0;
    lemma_add_with_sane(e0, node, "memory@4000afa00000"@, top);
    lemma_add_with(e0, node, "memory@4000afa00000"@, top);
    let r1 = with_first(r0, fresh("memory@4000afa00000"@, top));
    lemma_replaced_first(t0, w, r1);
    lemma_with_node(t0, node, r1);
    let name = unit("bhx-purgatory"@, pa);
    let own = reserved_settings(pa, 0x1000);
    let e2 = add_with(e1, node, name, own)->Ok_0;
    lemma_add_with_sane(e1, node, name, own);
    lemma_add_with(e1, node, name, own);
    let r2 = with_first(r1, fresh(name, own));
    lemma_with_node_twice(t0, node, r1, r2);
    lemma_replaced_first(t0, w, r2);
    assert(patch_reserved(d, mem_start, mem_end, virtio, purgatory)->Ok_0 == e2);
    assert(r2.children =~= seq![
        fresh(name, own),
        fresh("memory@4000afa00000"@, top),
    ] + reserved_before(d.tree));
    assert(same_but(d.tree, e2.tree, 0x72)) by {
        assert forall|x: Seq<u8>| x.len() > 0 && x[0] != 0x72 implies #[trigger] child(e2.tree, x)
            == child(d.tree, x) by {
            assert(child(e2.tree, x) == child(t0, x));
        }
    }
}

/// The name of a virtio device.
pub open spec fn virtio_name(node: VirtioMmioNode) -> Seq<char> {
    unit("virtio"@, node.addr as nat)
}

proof fn lemma_virtio_name(node: VirtioMmioNode)
    ensures
        plain(virtio_name(node)),
        virtio_name(node).len() > 0,
        starts(encode_utf8(virtio_name(node)), 0x76),
        encode_utf8(virtio_name(node)).contains(0x40u8),
{
    let name = virtio_name(node);
    reveal_strlit("virtio");
    reveal_strlit("@");
    lemma_names();
    lemma_unit_plain("virtio"@, node.addr as nat);
    lemma_plain(name);
    assert(name[6] == '@');
    assert(encode_utf8(name)[6] == 0x40);
}

/// Each device is found below a node by its name, with its settings.
pub open spec fn holds_devices(s: Tree, nodes: Seq<VirtioMmioNode>, phandle: nat) -> bool {
    forall|i: int|
        0 <= i < nodes.len() ==> child(s, encode_utf8(virtio_name(#[trigger] nodes[i]))) == Some(
            fresh(virtio_name(nodes[i]), virtio_settings(nodes[i], phandle)),
        )
}

/// A new child in front leaves alone what starts with another letter.
proof fn lemma_first_but(t: Tree, n: Tree, letter: u8)
    requires
        starts(n.name, letter),
    ensures
        same_but(t, with_first(t, n), letter),
{
    assert forall|x: Seq<u8>| x.len() > 0 && x[0] != letter implies #[trigger] child(
        with_first(t, n),
        x,
    ) == child(t, x) by {
        lemma_with_first(t, n, x);
        if answers_to(n.name, x) {
            lemma_answers_first(n.name, x);
        }
    }
}

/// The interrupt controller, by name.
pub open spec fn plic_name() -> Seq<u8> {
    encode_utf8("interrupt-controller@c000000"@)
}

/// The phandle of the interrupt controller below a node.
pub open spec fn plic_phandle_in(s: Tree) -> Option<nat> {
    match child(s, plic_name()) {
        Some(plic) => Some(phandle_of(plic)),
        None => None,
    }
}

/// Where a serial port was asked for, it is found below a node by its name, with its settings.
pub open spec fn holds_serial(
    s: Tree,
    uart_addr: Option<u64>,
    virtio: VirtioRegs,
    phandle: nat,
) -> bool {
    uart_addr matches Some(addr) ==> child(s, encode_utf8(unit("serial"@, addr as nat))) == Some(
        fresh(unit("serial"@, addr as nat), serial_settings(addr, virtio.uart_irq, phandle)),
    )
}

/// A node that was given a phandle has it.
proof fn lemma_given_phandle(t: Tree, n: nat)
    requires
        n <= u32::MAX,
    ensures
        phandle_of(with_prop(t, encode_utf8("phandle"@), be32(n))) == n,
{
    a_property_is_what_was_set(t, encode_utf8("phandle"@), be32(n), encode_utf8("phandle"@));
    be32_round_trip(n, Seq::empty());
    assert(be32(n) + Seq::<u8>::empty() =~= be32(n));
}

/// The interrupt controller has its phandle once it was seen to.
proof fn lemma_plic(d: Dtb, k: int, j: int)
    requires
        0 <= k < d.tree.children.len(),
        0 <= j < d.tree.children[k].children.len(),
        j == child_from(d.tree.children[k].children, plic_name(), 0),
        plic_phandle(d, seq![k, j]) is Ok,
    ensures
        ({
            let (e, phandle) = plic_phandle(d, seq![k, j])->Ok_0;
            &&& only_below(d.tree, e.tree, k)
            &&& plic_phandle_in(e.tree.children[k]) == Some(phandle)
            &&& phandle != 0
        }),
{
    let plic = seq![k, j];
    let soc = d.tree.children[k];
    lemma_names();
    lemma_plain("interrupt-controller@c000000"@);
    lemma_node_at_two(d.tree, k, j);
    let old = soc.children[j];
    if phandle_of(old) == 0 {
        let n = max_phandle(d.tree) + 1;
        let new = with_prop(old, encode_utf8("phandle"@), be32(n));
        lemma_given_phandle(old, n);
        lemma_with_node_below(d.tree, plic, new);
        assert(plic.skip(1) =~= seq![j]);
        lemma_replaced_first(soc, plic_name(), new);
        assert(plic_phandle(d, plic)->Ok_0.0.tree == with_node(d.tree, plic, new));
    }
}

#[verifier::rlimit(40)]
#[verifier::spinoff_prover]
proof fn lemma_devices(d: Dtb, k: int, nodes: Seq<VirtioMmioNode>, phandle: nat) -> (s: Tree)
    requires
        0 <= k < d.tree.children.len(),
        add_virtio(d, seq![k], nodes, phandle) is Ok,
    ensures
        add_virtio(d, seq![k], nodes, phandle)->Ok_0.tree == with_node(d.tree, seq![k], s),
        s.name == d.tree.children[k].name,
        holds_devices(s, nodes, phandle),
        same_but(d.tree.children[k], s, 0x76),
    decreases nodes.len(),
{
    lemma_node_at_one(d.tree, k);
    if nodes.len() == 0 {
        lemma_with_node_same(d.tree, seq![k]);
        d.tree.children[k]
    } else {
        let before = nodes.drop_last();
        let last = nodes.last();
        let name = virtio_name(last);
        let s0 = lemma_devices(d, k, before, phandle);
        let e = add_virtio(d, seq![k], before, phandle)->Ok_0;
        lemma_with_node(d.tree, seq![k], s0);
        let settings = virtio_settings(last, phandle);
        lemma_add_with(e, seq![k], name, settings);
        let n = fresh(name, settings);
        let s1 = with_first(s0, n);
        lemma_with_node_twice(d.tree, seq![k], s0, s1);
        lemma_settings_keep(
            Tree { name: encode_utf8(name), props: Seq::empty(), children: Seq::empty() },
            settings,
        );
        assert forall|i: int| 0 <= i < nodes.len() implies child(
            s1,
            encode_utf8(virtio_name(#[trigger] nodes[i])),
        ) == Some(fresh(virtio_name(nodes[i]), virtio_settings(nodes[i], phandle))) by {
            let w = encode_utf8(virtio_name(nodes[i]));
            lemma_with_first(s0, n, w);
            lemma_virtio_name(nodes[i]);
            if i < before.len() {
                assert(before[i] == nodes[i]);
                assert(child(s0, w) is Some);
                if answers_to(n.name, w) {
                    assert(n.name == w);
                }
            } else {
                assert(nodes[i] == last);
            }
        }
        lemma_virtio_name(last);
        lemma_first_but(s0, n, 0x76);
        s1
    }
}

#[verifier::rlimit(60)]
#[verifier::spinoff_prover]
proof fn lemma_soc(
    d: Dtb,
    nodes: Seq<VirtioMmioNode>,
    uart_addr: Option<u64>,
    virtio: VirtioRegs,
) -> (phandle: nat)
    requires
        sane(d),
        patch_soc(d, nodes, uart_addr, virtio) is Ok,
    ensures
        ({
            let e = patch_soc(d, nodes, uart_addr, virtio)->Ok_0;
            &&& sane(e)
            &&& same_but(d.tree, e.tree, 0x73)
            &&& child(e.tree, encode_utf8("soc"@)) is Some
            &&& holds_devices(child(e.tree, encode_utf8("soc"@))->0, nodes, phandle)
            &&& holds_serial(child(e.tree, encode_utf8("soc"@))->0, uart_addr, virtio, phandle)
            &&& plic_phandle_in(child(e.tree, encode_utf8("soc"@))->0) == Some(phandle)
            &&& phandle != 0
        }),
{
    reveal(patch_soc);
    let w = encode_utf8("soc"@);
    lemma_names();
    lemma_path_one(d, "soc"@);
    lemma_path_two(d, "soc"@, "interrupt-controller@c000000"@);
    lemma_child_from_sound(d.tree.children, w, 0);
    let k = child_from(d.tree.children, w, 0) as int;
    let soc = seq![k];
    let plic = dtb_path(d, "/soc/interrupt-controller@c000000"@)->Ok_0->0;
    let j = plic[1];
    lemma_child_from_sound(
        d.tree.children[k].children,
        encode_utf8("interrupt-controller@c000000"@),
        0,
    );
    lemma_node_at_two(d.tree, k, j);
    let (e0, phandle) = plic_phandle(d, plic)->Ok_0;
    let t0 = e0.tree;
    if e0 != d {
        let value = be32(phandle);
        lemma_setprop_stays_sane(d, plic, "phandle"@, value);
    }
    assert(plic =~= seq![k, j]);
    lemma_plic(d, k, j);
    lemma_below_but(d.tree, t0, k, 0x73, w);
    let e1 = add_virtio(e0, soc, nodes, phandle)->Ok_0;
    lemma_add_virtio_sane(e0, soc, nodes, phandle);
    let s1 = lemma_devices(e0, k, nodes, phandle);
    lemma_node_at_one(t0, k);
    lemma_replaced_first(t0, w, s1);
    lemma_with_node(t0, soc, s1);
    lemma_plain("interrupt-controller@c000000"@);
    assert(plic_name()[0] == 0x69) by {
        reveal_strlit("interrupt-controller@c000000");
    }
    assert(child(s1, plic_name()) == child(t0.children[k], plic_name()));
    assert(same_but(d.tree, e1.tree, 0x73)) by {
        assert forall|x: Seq<u8>| x.len() > 0 && x[0] != 0x73 implies #[trigger] child(e1.tree, x)
            == child(d.tree, x) by {
            assert(child(e1.tree, x) == child(t0, x));
        }
    }
    match uart_addr {
        None => {},
        Some(addr) => {
            let name = unit("serial"@, addr as nat);
            let settings = serial_settings(addr, virtio.uart_irq, phandle);
            let e2 = add_with(e1, soc, name, settings)->Ok_0;
            lemma_add_with_sane(e1, soc, name, settings);
            lemma_add_with(e1, soc, name, settings);
            let n = fresh(name, settings);
            let s2 = with_first(s1, n);
            lemma_with_node_twice(t0, soc, s1, s2);
            lemma_replaced_first(t0, w, s2);
            reveal_strlit("serial");
            assert(plain("serial"@));
            lemma_unit_plain("serial"@, addr as nat);
            lemma_plain(name);
            lemma_settings_keep(
                Tree { name: encode_utf8(name), props: Seq::empty(), children: Seq::empty() },
                settings,
            );
            assert forall|i: int| 0 <= i < nodes.len() implies child(
                s2,
                encode_utf8(virtio_name(#[trigger] nodes[i])),
            ) == Some(fresh(virtio_name(nodes[i]), virtio_settings(nodes[i], phandle))) by {
                let v = encode_utf8(virtio_name(nodes[i]));
                lemma_virtio_name(nodes[i]);
                lemma_with_first(s1, n, v);
                if answers_to(n.name, v) {
                    lemma_answers_first(n.name, v);
                }
            }
            lemma_with_first(s1, n, encode_utf8(name));
            lemma_first_but(s1, n, 0x73);
            assert(child(s2, plic_name()) == child(s1, plic_name()));
            assert(same_but(d.tree, e2.tree, 0x73)) by {
                assert forall|x: Seq<u8>| x.len() > 0 && x[0] != 0x73 implies #[trigger] child(
                    e2.tree,
                    x,
                ) == child(d.tree, x) by {
                    assert(child(e2.tree, x) == child(t0, x));
                }
            }
        },
    }
    phandle
}

/// What differs only below a child leaves alone what starts with another letter.
proof fn lemma_below_but(t: Tree, u: Tree, k: int, letter: u8, w: Seq<u8>)
    requires
        only_below(t, u, k),
        starts(t.children[k].name, letter) || child_from(t.children, w, 0) == k,
        starts(w, letter),
    ensures
        same_but(t, u, letter),
        child_from(u.children, w, 0) == child_from(t.children, w, 0),
{
    lemma_only_below(t, u, k, w);
    lemma_child_from_sound(t.children, w, 0);
    if child_from(t.children, w, 0) == k {
        lemma_answers_first(t.children[k].name, w);
    }
    assert forall|x: Seq<u8>| x.len() > 0 && x[0] != letter implies #[trigger] child(u, x) == child(
        t,
        x,
    ) by {
        lemma_only_below(t, u, k, x);
        lemma_child_from_sound(t.children, x, 0);
        if child_from(t.children, x, 0) == k {
            lemma_answers_first(t.children[k].name, x);
        }
    }
}

// ---------------------------------------------------------------------------
// The laws
// ---------------------------------------------------------------------------

/// What a guest finds in a blob that was patched for it. Its devices raise their interrupts at the
/// interrupt controller of the same blob.
#[verifier::opaque]
pub open spec fn fit_for_guest(
    e: Dtb,
    d: Dtb,
    device: BootDevice,
    mem_start: u64,
    mem_size: u64,
    nodes: Seq<VirtioMmioNode>,
    uart_addr: Option<u64>,
    virtio_console_attached: bool,
    virtio: VirtioRegs,
    purgatory: PurgatoryRegs,
) -> bool {
    let pa = (mem_start + purgatory.status_offset) as nat;
    let memory = encode_utf8(unit("memory"@, mem_start as nat));
    &&& check_patched(e, mem_start, purgatory) is None
    &&& child(e.tree, encode_utf8("chosen"@)) matches Some(chosen) && prop_of(
        chosen,
        encode_utf8("bootargs"@),
    ) == Some(c_text(bootargs(device, virtio_console_attached)))
    &&& child(d.tree, memory) is None || memory == encode_utf8("memory@400030000000"@) ==> (child(
        e.tree,
        memory,
    ) matches Some(m) && prop_of(m, encode_utf8("reg"@)) == Some(
        reg(mem_start as nat, mem_size as nat),
    ))
    &&& child(e.tree, encode_utf8("reserved-memory"@)) matches Some(r) && r.children == seq![
        fresh(unit("bhx-purgatory"@, pa), reserved_settings(pa, 0x1000)),
        fresh(
            "memory@4000afa00000"@,
            reserved_settings(
                (mem_start + mem_size - virtio.reserved_size) as nat,
                virtio.reserved_size as nat,
            ),
        ),
    ] + reserved_before(d.tree)
    &&& child(e.tree, encode_utf8("soc"@)) matches Some(soc) && plic_phandle_in(
        soc,
    ) matches Some(phandle) && phandle != 0 && holds_devices(soc, nodes, phandle) && holds_serial(
        soc,
        uart_addr,
        virtio,
        phandle,
    )
}

/// A fresh reservation is found with its range, and unmapped.
proof fn lemma_reservation(name: Seq<char>, addr: nat, size: nat)
    requires
        addr <= u64::MAX,
        size <= u64::MAX,
    ensures
        ({
            let t = fresh(name, reserved_settings(addr, size));
            &&& t.name == encode_utf8(name)
            &&& prop_of(t, encode_utf8("reg"@)) == Some(reg(addr, size))
            &&& prop_of(t, encode_utf8("no-map"@)) is Some
            &&& reg(addr, size).len() == 16
            &&& un_be64(reg(addr, size)) == addr
            &&& un_be64(reg(addr, size).skip(8)) == size
        }),
{
    let bare = Tree { name: encode_utf8(name), props: Seq::empty(), children: Seq::empty() };
    let settings = reserved_settings(addr, size);
    lemma_names();
    lemma_plain("reg"@);
    lemma_plain("no-map"@);
    lemma_settings_keep(bare, settings);
    let one = settings.drop_last();
    assert(one =~= seq![("reg"@, reg(addr, size))]);
    assert(one.drop_last() =~= Seq::<Setting>::empty());
    reveal_with_fuel(with_settings, 3);
    let t1 = with_prop(bare, encode_utf8("reg"@), reg(addr, size));
    assert(with_settings(bare, one) == t1);
    let t2 = with_prop(t1, encode_utf8("no-map"@), Seq::empty());
    assert(with_settings(bare, settings) == t2);
    a_property_is_what_was_set(bare, encode_utf8("reg"@), reg(addr, size), encode_utf8("reg"@));
    a_property_is_what_was_set(t1, encode_utf8("no-map"@), Seq::empty(), encode_utf8("reg"@));
    a_property_is_what_was_set(t1, encode_utf8("no-map"@), Seq::empty(), encode_utf8("no-map"@));
    be64_round_trip(addr, be64(size));
    be64_round_trip(size, Seq::empty());
    assert(reg(addr, size).skip(8) =~= be64(size) + Seq::<u8>::empty());
}

/// A tree that holds the three nodes passes `verify_dtb_invariants`.
proof fn lemma_check(e: Dtb, mem_start: u64, purgatory: PurgatoryRegs)
    requires
        mem_start + purgatory.status_offset <= u64::MAX,
        child(e.tree, encode_utf8(unit("memory"@, mem_start as nat))) is Some,
        child(e.tree, encode_utf8("chosen"@)) is Some,
        prop_of(child(e.tree, encode_utf8("chosen"@))->0, encode_utf8("bootargs"@)) is Some,
        child(e.tree, encode_utf8("reserved-memory"@)) is Some,
        child(e.tree, encode_utf8("reserved-memory"@))->0.children.len() > 0,
        ({
            let pa = (mem_start + purgatory.status_offset) as nat;
            child(e.tree, encode_utf8("reserved-memory"@))->0.children[0] == fresh(
                unit("bhx-purgatory"@, pa),
                reserved_settings(pa, 0x1000),
            )
        }),
    ensures
        check_patched(e, mem_start, purgatory) is None,
{
    let pa = (mem_start + purgatory.status_offset) as nat;
    let memory = unit("memory"@, mem_start as nat);
    let name = unit("bhx-purgatory"@, pa);
    assert(check_reserved(e, purgatory_path(pa), pa, 0x1000) is None) by {
        lemma_names();
        lemma_unit_plain("bhx-purgatory"@, pa);
        lemma_path_two(e, "reserved-memory"@, name);
        assert(purgatory_path(pa) =~= "/"@ + "reserved-memory"@ + "/"@ + name);
        let i = child_from(e.tree.children, encode_utf8("reserved-memory"@), 0) as int;
        let r = e.tree.children[i];
        lemma_reservation(name, pa, 0x1000);
        assert(child_from(r.children, encode_utf8(name), 0) == 0);
        lemma_node_at_two(e.tree, i, 0);
    }
    assert(check_exists(e, "/"@ + memory) is None) by {
        lemma_names();
        lemma_unit_plain("memory"@, mem_start as nat);
        lemma_path_one(e, memory);
    }
    assert(check_chosen(e) is None) by {
        lemma_names();
        lemma_path_one(e, "chosen"@);
        lemma_node_at_one(e.tree, child_from(e.tree.children, encode_utf8("chosen"@), 0) as int);
    }
}

proof fn lemma_letters(mem_start: u64)
    ensures
        starts(encode_utf8(unit("memory"@, mem_start as nat)), 0x6d),
        starts(encode_utf8("chosen"@), 0x63),
        starts(encode_utf8("reserved-memory"@), 0x72),
        starts(encode_utf8("soc"@), 0x73),
{
    lemma_names();
    lemma_unit_plain("memory"@, mem_start as nat);
    lemma_plain(unit("memory"@, mem_start as nat));
}

/// The edits make every blob on which they succeed fit for a guest.
pub proof fn the_edits_suffice(
    d: Dtb,
    device: BootDevice,
    mem_start: u64,
    mem_size: u64,
    nodes: Seq<VirtioMmioNode>,
    uart_addr: Option<u64>,
    virtio_console_attached: bool,
    virtio: VirtioRegs,
    purgatory: PurgatoryRegs,
)
    requires
        sane(d),
        mem_start + mem_size <= u64::MAX,
        mem_start + purgatory.status_offset <= u64::MAX,
        patch_all(
            d,
            device,
            mem_start,
            mem_size,
            nodes,
            uart_addr,
            virtio_console_attached,
            virtio,
            purgatory,
        ) is Ok,
    ensures
        ({
            let e = patch_all(
                d,
                device,
                mem_start,
                mem_size,
                nodes,
                uart_addr,
                virtio_console_attached,
                virtio,
                purgatory,
            )->Ok_0;
            &&& sane(e)
            &&& fit_for_guest(
                e,
                d,
                device,
                mem_start,
                mem_size,
                nodes,
                uart_addr,
                virtio_console_attached,
                virtio,
                purgatory,
            )
        }),
{
    reveal(fit_for_guest);
    let args = bootargs(device, virtio_console_attached);
    let mem_end = (mem_start + mem_size) as u64;
    let m = encode_utf8(unit("memory"@, mem_start as nat));
    let chosen = encode_utf8("chosen"@);
    let reserved = encode_utf8("reserved-memory"@);
    lemma_letters(mem_start);
    let e1 = patch_memory(d, mem_start, mem_size)->Ok_0;
    lemma_memory(d, mem_start, mem_size);
    let e2 = patch_chosen(e1, args)->Ok_0;
    lemma_chosen(e1, args);
    let e3 = patch_reserved(e2, mem_start, mem_end, virtio, purgatory)->Ok_0;
    lemma_reserved(e2, mem_start, mem_end, virtio, purgatory);
    let e = patch_soc(e3, nodes, uart_addr, virtio)->Ok_0;
    let phandle = lemma_soc(e3, nodes, uart_addr, virtio);
    assert(child(e2.tree, m) == child(e1.tree, m));
    assert(child(e3.tree, m) == child(e2.tree, m));
    assert(child(e.tree, m) == child(e3.tree, m));
    assert(child(e3.tree, chosen) == child(e2.tree, chosen));
    assert(child(e.tree, chosen) == child(e3.tree, chosen));
    assert(child(e2.tree, reserved) == child(e1.tree, reserved));
    assert(child(e1.tree, reserved) == child(d.tree, reserved));
    assert(child(e.tree, reserved) == child(e3.tree, reserved));
    lemma_check(e, mem_start, purgatory);
    assert(holds_devices(child(e.tree, encode_utf8("soc"@))->0, nodes, phandle));
}

/// Packing a blob changes nothing for its guest.
proof fn lemma_packed_fit(
    e: Dtb,
    d: Dtb,
    device: BootDevice,
    mem_start: u64,
    mem_size: u64,
    nodes: Seq<VirtioMmioNode>,
    uart_addr: Option<u64>,
    virtio_console_attached: bool,
    virtio: VirtioRegs,
    purgatory: PurgatoryRegs,
)
    requires
        fit_for_guest(
            e,
            d,
            device,
            mem_start,
            mem_size,
            nodes,
            uart_addr,
            virtio_console_attached,
            virtio,
            purgatory,
        ),
    ensures
        fit_for_guest(
            packed(e),
            d,
            device,
            mem_start,
            mem_size,
            nodes,
            uart_addr,
            virtio_console_attached,
            virtio,
            purgatory,
        ),
        check_patched(packed(e), mem_start, purgatory) is None,
{
    reveal(fit_for_guest);
    assert(packed(e).tree == e.tree);
    assert(check_patched(packed(e), mem_start, purgatory) == check_patched(e, mem_start, purgatory));
}

/// A blob is patched wherever it can be opened and the edits succeed, and what comes out passes the
/// check: the reservation of the status block is there with its range and unmapped, and so are the
/// memory node and the command line.
pub proof fn a_patched_blob_passes_the_check(
    b: Seq<u8>,
    device: BootDevice,
    mem_start: u64,
    mem_size: u64,
    nodes: Seq<VirtioMmioNode>,
    uart_addr: Option<u64>,
    virtio_console_attached: bool,
    virtio: VirtioRegs,
    purgatory: PurgatoryRegs,
)
    requires
        mem_start + mem_size <= u64::MAX,
        mem_start + purgatory.status_offset <= u64::MAX,
    ensures
        ({
            let opened = parse_dtb(b + zeros(2000));
            let edits = patch_all(
                opened->Ok_0,
                device,
                mem_start,
                mem_size,
                nodes,
                uart_addr,
                virtio_console_attached,
                virtio,
                purgatory,
            );
            let r = patched_bytes(
                b,
                device,
                mem_start,
                mem_size,
                nodes,
                uart_addr,
                virtio_console_attached,
                virtio,
                purgatory,
            );
            &&& r is Ok <==> opened is Ok && edits is Ok
            &&& r is Ok ==> {
                &&& check_bytes(r->Ok_0, mem_start, purgatory) is None
                &&& parse_dtb(r->Ok_0) is Ok
                &&& fit_for_guest(
                    parse_dtb(r->Ok_0)->Ok_0,
                    opened->Ok_0,
                    device,
                    mem_start,
                    mem_size,
                    nodes,
                    uart_addr,
                    virtio_console_attached,
                    virtio,
                    purgatory,
                )
            }
        }),
{
    let opened = parse_dtb(b + zeros(2000));
    if opened is Ok {
        let d = opened->Ok_0;
        let edits = patch_all(
            d,
            device,
            mem_start,
            mem_size,
            nodes,
            uart_addr,
            virtio_console_attached,
            virtio,
            purgatory,
        );
        lemma_parsed_sane(b + zeros(2000));
        if edits is Ok {
            let e = edits->Ok_0;
            the_edits_suffice(
                d,
                device,
                mem_start,
                mem_size,
                nodes,
                uart_addr,
                virtio_console_attached,
                virtio,
                purgatory,
            );
            pack_round_trip(e);
            lemma_packed_fit(
                e,
                d,
                device,
                mem_start,
                mem_size,
                nodes,
                uart_addr,
                virtio_console_attached,
                virtio,
                purgatory,
            );
        }
    }
}

/// Neither of the new reservations answers to the name of one for firmware.
proof fn lemma_no_firmware(rc: Seq<Tree>, old: Seq<Tree>, pa: nat, addr: nat)
    requires
        rc.len() >= 2,
        rc == seq![rc[0], rc[1]] + old,
        rc[0].name == encode_utf8(unit("bhx-purgatory"@, pa)),
        rc[1].name == encode_utf8("memory@4000afa00000"@),
        child_from(old, encode_utf8(unit("bhx-opensbi-firmware"@, addr)), 0) == old.len(),
    ensures
        child_from(rc, encode_utf8(unit("bhx-opensbi-firmware"@, addr)), 0) == rc.len(),
{
    let name = unit("bhx-opensbi-firmware"@, addr);
    let own = unit("bhx-purgatory"@, pa);
    let w = encode_utf8(name);
    reveal_strlit("memory@4000afa00000");
    reveal_strlit("bhx-purgatory");
    reveal_strlit("bhx-opensbi-firmware");
    lemma_unit_plain("bhx-opensbi-firmware"@, addr);
    lemma_unit_plain("bhx-purgatory"@, pa);
    assert(name[4] == 'o' && own[4] == 'p');
    lemma_plain(name);
    lemma_plain(own);
    lemma_plain("memory@4000afa00000"@);
    assert(!answers_to(rc[0].name, w)) by {
        if answers_to(rc[0].name, w) {
            if rc[0].name != w {
                assert(rc[0].name.take(w.len() as int)[4] == rc[0].name[4]);
            }
            assert(rc[0].name[4] == w[4]);
        }
    }
    assert(!answers_to(rc[1].name, w)) by {
        if answers_to(rc[1].name, w) {
            lemma_answers_first(rc[1].name, w);
        }
    }
    let rest = rc.skip(1);
    assert(rest =~= seq![rc[1]] + old);
    assert(rc =~= seq![rc[0]] + rest);
    lemma_child_from_shift(rc[1], old, w, 0);
    lemma_child_from_shift(rc[0], rest, w, 0);
    assert(child_from(rest, w, 0) == child_from(rest, w, 1));
    assert(child_from(rc, w, 0) == child_from(rc, w, 1));
}

/// The reservations of a blob that is fit for its guest.
proof fn lemma_fit_reserved(
    e: Dtb,
    d: Dtb,
    device: BootDevice,
    mem_start: u64,
    mem_size: u64,
    nodes: Seq<VirtioMmioNode>,
    uart_addr: Option<u64>,
    virtio_console_attached: bool,
    virtio: VirtioRegs,
    purgatory: PurgatoryRegs,
)
    requires
        fit_for_guest(
            e,
            d,
            device,
            mem_start,
            mem_size,
            nodes,
            uart_addr,
            virtio_console_attached,
            virtio,
            purgatory,
        ),
    ensures
        ({
            let pa = (mem_start + purgatory.status_offset) as nat;
            let top = reserved_settings(
                (mem_start + mem_size - virtio.reserved_size) as nat,
                virtio.reserved_size as nat,
            );
            &&& child(e.tree, encode_utf8("reserved-memory"@)) is Some
            &&& child(e.tree, encode_utf8("reserved-memory"@))->0.children == seq![
                fresh(unit("bhx-purgatory"@, pa), reserved_settings(pa, 0x1000)),
                fresh("memory@4000afa00000"@, top),
            ] + reserved_before(d.tree)
        }),
{
    reveal(fit_for_guest);
}

/// Patching for a cold boot reserves no room for firmware that the blob did not reserve already.
pub proof fn a_cold_boot_reserves_no_firmware(
    b: Seq<u8>,
    device: BootDevice,
    mem_start: u64,
    mem_size: u64,
    nodes: Seq<VirtioMmioNode>,
    uart_addr: Option<u64>,
    virtio_console_attached: bool,
    virtio: VirtioRegs,
    purgatory: PurgatoryRegs,
    addr: nat,
)
    requires
        mem_start + mem_size <= u64::MAX,
        mem_start + purgatory.status_offset <= u64::MAX,
        ({
            let path = "/reserved-memory/"@ + unit("bhx-opensbi-firmware"@, addr);
            &&& parse_dtb(b + zeros(2000)) matches Ok(d) && dtb_path(d, path) == Ok::<
                Option<Seq<int>>,
                Fault,
            >(None)
        }),
    ensures
        patched_bytes(
            b,
            device,
            mem_start,
            mem_size,
            nodes,
            uart_addr,
            virtio_console_attached,
            virtio,
            purgatory,
        ) matches Ok(v) ==> (parse_dtb(v) matches Ok(e) && dtb_path(
            e,
            "/reserved-memory/"@ + unit("bhx-opensbi-firmware"@, addr),
        ) == Ok::<Option<Seq<int>>, Fault>(None)),
{
    let r = patched_bytes(
        b,
        device,
        mem_start,
        mem_size,
        nodes,
        uart_addr,
        virtio_console_attached,
        virtio,
        purgatory,
    );
    a_patched_blob_passes_the_check(
        b,
        device,
        mem_start,
        mem_size,
        nodes,
        uart_addr,
        virtio_console_attached,
        virtio,
        purgatory,
    );
    if r is Ok {
        lemma_fit_reserved(
            parse_dtb(r->Ok_0)->Ok_0,
            parse_dtb(b + zeros(2000))->Ok_0,
            device,
            mem_start,
            mem_size,
            nodes,
            uart_addr,
            virtio_console_attached,
            virtio,
            purgatory,
        );
        lemma_cold(
            parse_dtb(b + zeros(2000))->Ok_0,
            parse_dtb(r->Ok_0)->Ok_0,
            (mem_start + purgatory.status_offset) as nat,
            reserved_settings(
                (mem_start + mem_size - virtio.reserved_size) as nat,
                virtio.reserved_size as nat,
            ),
            addr,
        );
    }
}

proof fn lemma_cold(d: Dtb, e: Dtb, pa: nat, top: Seq<Setting>, addr: nat)
    requires
        pa <= u64::MAX,
        child(e.tree, encode_utf8("reserved-memory"@)) is Some,
        child(e.tree, encode_utf8("reserved-memory"@))->0.children == seq![
            fresh(unit("bhx-purgatory"@, pa), reserved_settings(pa, 0x1000)),
            fresh("memory@4000afa00000"@, top),
        ] + reserved_before(d.tree),
        dtb_path(d, "/reserved-memory/"@ + unit("bhx-opensbi-firmware"@, addr)) == Ok::<
            Option<Seq<int>>,
            Fault,
        >(None),
    ensures
        dtb_path(e, "/reserved-memory/"@ + unit("bhx-opensbi-firmware"@, addr)) == Ok::<
            Option<Seq<int>>,
            Fault,
        >(None),
{
    let name = unit("bhx-opensbi-firmware"@, addr);
    let w = encode_utf8(name);
    let reserved = encode_utf8("reserved-memory"@);
    let old = reserved_before(d.tree);
    let rc = child(e.tree, reserved)->0.children;
    let bare = Tree {
        name: encode_utf8("memory@4000afa00000"@),
        props: Seq::empty(),
        children: Seq::empty(),
    };
    lemma_settings_keep(bare, top);
    lemma_reservation(unit("bhx-purgatory"@, pa), pa, 0x1000);
    assert(rc[0].name == encode_utf8(unit("bhx-purgatory"@, pa)));
    assert(rc[1].name == encode_utf8("memory@4000afa00000"@));
    assert(rc =~= seq![rc[0], rc[1]] + old);
    assert(child_from(old, w, 0) == old.len()) by {
        lemma_firmware_path(d, addr);
        lemma_child_from_sound(old, w, 0);
        lemma_child_from_sound(d.tree.children, reserved, 0);
    }
    lemma_no_firmware(rc, old, pa, addr);
    lemma_firmware_path(e, addr);
}

proof fn lemma_firmware_path(d: Dtb, addr: nat)
    ensures
        ({
            let i = child_from(d.tree.children, encode_utf8("reserved-memory"@), 0);
            let c = d.tree.children[i as int];
            let j = child_from(c.children, encode_utf8(unit("bhx-opensbi-firmware"@, addr)), 0);
            dtb_path(d, "/reserved-memory/"@ + unit("bhx-opensbi-firmware"@, addr)) == if i
                < d.tree.children.len() && j < c.children.len() {
                Ok::<Option<Seq<int>>, Fault>(Some(seq![i as int, j as int]))
            } else {
                Ok::<Option<Seq<int>>, Fault>(None)
            }
        }),
{
    let name = unit("bhx-opensbi-firmware"@, addr);
    lemma_names();
    lemma_unit_plain("bhx-opensbi-firmware"@, addr);
    lemma_path_two(d, "reserved-memory"@, name);
    assert("/reserved-memory/"@ + name =~= "/"@ + "reserved-memory"@ + "/"@ + name);
}

/// What `verify_dtb_invariants` asks of a tree.
pub open spec fn passes(t: Tree, mem_start: u64, purgatory: PurgatoryRegs) -> bool {
    let pa = (mem_start + purgatory.status_offset) as nat;
    let r = child(t, encode_utf8("reserved-memory"@));
    let p = child(r->0, encode_utf8(unit("bhx-purgatory"@, pa)));
    let range = prop_of(p->0, encode_utf8("reg"@));
    let c = child(t, encode_utf8("chosen"@));
    &&& r is Some
    &&& p is Some
    &&& range is Some
    &&& range->0.len() == 16
    &&& un_be64(range->0) == pa
    &&& un_be64(range->0.skip(8)) == 0x1000
    &&& prop_of(p->0, encode_utf8("no-map"@)) is Some
    &&& child(t, encode_utf8(unit("memory"@, mem_start as nat))) is Some
    &&& c is Some
    &&& prop_of(c->0, encode_utf8("bootargs"@)) is Some
}

/// `verify_dtb_invariants` passes exactly what it should.
pub proof fn the_check_is_exact(d: Dtb, mem_start: u64, purgatory: PurgatoryRegs)
    ensures
        check_patched(d, mem_start, purgatory) is None <==> passes(d.tree, mem_start, purgatory),
{
    let pa = (mem_start + purgatory.status_offset) as nat;
    let memory = unit("memory"@, mem_start as nat);
    let name = unit("bhx-purgatory"@, pa);
    let reserved = encode_utf8("reserved-memory"@);
    let chosen = encode_utf8("chosen"@);
    lemma_names();
    lemma_unit_plain("bhx-purgatory"@, pa);
    lemma_unit_plain("memory"@, mem_start as nat);
    lemma_path_two(d, "reserved-memory"@, name);
    assert(purgatory_path(pa) =~= "/"@ + "reserved-memory"@ + "/"@ + name);
    lemma_path_one(d, memory);
    lemma_path_one(d, "chosen"@);
    let i = child_from(d.tree.children, reserved, 0) as int;
    if i < d.tree.children.len() {
        let j = child_from(d.tree.children[i].children, encode_utf8(name), 0) as int;
        if j < d.tree.children[i].children.len() {
            lemma_node_at_two(d.tree, i, j);
        }
    }
    let c = child_from(d.tree.children, chosen, 0) as int;
    if c < d.tree.children.len() {
        lemma_node_at_one(d.tree, c);
    }
}

/// More room behind a blob does not change what it holds.
proof fn lemma_more_room(b: Seq<u8>, n: nat)
    requires
        parse_dtb(b) is Ok,
        parse_dtb(b + zeros(n)) is Ok,
    ensures
        parse_dtb(b + zeros(n))->Ok_0.tree == parse_dtb(b)->Ok_0.tree,
{
    let c = b + zeros(n);
    assert forall|k: int| 0 <= k < 10 implies #[trigger] header_word(c, k) == header_word(b, k) by {
        let x = c.skip(4 * k);
        let y = b.skip(4 * k);
        assert(x[0] == y[0] && x[1] == y[1] && x[2] == y[2] && x[3] == y[3]);
    }
    let off_struct = header_word(b, 2) as int;
    let size_struct = struct_room(b) as int;
    let off_strings = header_word(b, 3) as int;
    let size_strings = header_word(b, 8) as int;
    assert(header_word(c, 1) == header_word(b, 1));
    assert(header_word(c, 4) == header_word(b, 4));
    assert(c.subrange(off_struct, off_struct + size_struct) =~= b.subrange(
        off_struct,
        off_struct + size_struct,
    ));
    assert(c.subrange(off_strings, off_strings + size_strings) =~= b.subrange(
        off_strings,
        off_strings + size_strings,
    ));
}

/// The tree of a blob to which a reservation for firmware was added.
proof fn lemma_released(d: Dtb, mem_start: u64)
    requires
        sane(d),
        child(d.tree, encode_utf8("reserved-memory"@)) is Some,
        add_with(
            d,
            seq![child_from(d.tree.children, encode_utf8("reserved-memory"@), 0) as int],
            unit("bhx-opensbi-firmware"@, mem_start as nat),
            reserved_settings(mem_start as nat, 0x60000),
        ) is Ok,
    ensures
        ({
            let w = encode_utf8("reserved-memory"@);
            let name = unit("bhx-opensbi-firmware"@, mem_start as nat);
            let settings = reserved_settings(mem_start as nat, 0x60000);
            let e = add_with(d, seq![child_from(d.tree.children, w, 0) as int], name, settings)->Ok_0;
            &&& sane(e)
            &&& same_but(d.tree, e.tree, 0x72)
            &&& child(e.tree, w) == Some(with_first(child(d.tree, w)->0, fresh(name, settings)))
        }),
{
    let w = encode_utf8("reserved-memory"@);
    let k = child_from(d.tree.children, w, 0) as int;
    let name = unit("bhx-opensbi-firmware"@, mem_start as nat);
    let settings = reserved_settings(mem_start as nat, 0x60000);
    lemma_names();
    lemma_add_with_sane(d, seq![k], name, settings);
    lemma_add_with(d, seq![k], name, settings);
    lemma_node_at_one(d.tree, k);
    lemma_replaced_first(d.tree, w, with_first(child(d.tree, w)->0, fresh(name, settings)));
}

/// The release of a parked core reserves the room of the firmware, unmapped, and takes nothing from
/// a blob that passed `verify_dtb_invariants`.
pub proof fn a_release_reserves_the_firmware(b: Seq<u8>, mem_start: u64, purgatory: PurgatoryRegs)
    requires
        mem_start + purgatory.status_offset <= u64::MAX,
    ensures
        release_bytes(b, mem_start) matches Ok(v) ==> {
            &&& parse_dtb(v) is Ok
            &&& check_reserved(
                parse_dtb(v)->Ok_0,
                "/reserved-memory/"@ + unit("bhx-opensbi-firmware"@, mem_start as nat),
                mem_start as nat,
                0x60000,
            ) is None
            &&& check_bytes(b, mem_start, purgatory) is None ==> check_bytes(
                v,
                mem_start,
                purgatory,
            ) is None
        },
{
    let r = release_bytes(b, mem_start);
    if r is Ok {
        let d = parse_dtb(b + zeros(4096))->Ok_0;
        let w = encode_utf8("reserved-memory"@);
        let name = unit("bhx-opensbi-firmware"@, mem_start as nat);
        let settings = reserved_settings(mem_start as nat, 0x60000);
        lemma_parsed_sane(b + zeros(4096));
        assert(dtb_path(d, "/reserved-memory"@) == Ok::<Option<Seq<int>>, Fault>(
            Some(seq![child_from(d.tree.children, w, 0) as int]),
        ) && child(d.tree, w) is Some) by {
            lemma_names();
            lemma_path_one(d, "reserved-memory"@);
        }
        let e = add_with(d, seq![child_from(d.tree.children, w, 0) as int], name, settings)->Ok_0;
        lemma_released(d, mem_start);
        pack_round_trip(e);
        assert(packed(e).tree == e.tree);
        lemma_firmware_reserved(packed(e), mem_start);
        if check_bytes(b, mem_start, purgatory) is None {
            lemma_more_room(b, 4096);
            the_check_is_exact(parse_dtb(b)->Ok_0, mem_start, purgatory);
            the_check_is_exact(packed(e), mem_start, purgatory);
            lemma_still_passes(d.tree, e.tree, mem_start, purgatory);
        }
    }
}

/// Where a node stands once another was put in front of the children of the `k`th child.
pub open spec fn moved(path: Seq<int>, k: int) -> Seq<int> {
    if path.len() >= 2 && path[0] == k {
        path.update(1, path[1] + 1)
    } else {
        path
    }
}

/// The release of a parked core only adds: but for one new node below `/reserved-memory`, the blob
/// holds what it held, node by node and property by property.
pub proof fn a_release_only_adds(b: Seq<u8>, mem_start: u64)
    ensures
        release_bytes(b, mem_start) matches Ok(v) ==> {
            let d = parse_dtb(b + zeros(4096))->Ok_0;
            let e = parse_dtb(v)->Ok_0;
            let k = child_from(d.tree.children, encode_utf8("reserved-memory"@), 0) as int;
            &&& parse_dtb(v) is Ok
            &&& parse_dtb(b) is Ok ==> parse_dtb(b)->Ok_0.tree == d.tree
            &&& 0 <= k < d.tree.children.len()
            &&& e.tree == (Tree {
                children: d.tree.children.update(
                    k,
                    with_first(
                        d.tree.children[k],
                        fresh(
                            unit("bhx-opensbi-firmware"@, mem_start as nat),
                            reserved_settings(mem_start as nat, 0x60000),
                        ),
                    ),
                ),
                ..d.tree
            })
            &&& forall|path: Seq<int>| #[trigger]
                has_node(d.tree, path) ==> {
                    &&& has_node(e.tree, moved(path, k))
                    &&& node_at(e.tree, moved(path, k)).name == node_at(d.tree, path).name
                    &&& node_at(e.tree, moved(path, k)).props == node_at(d.tree, path).props
                }
            &&& e.reserve == d.reserve
            &&& e.boot_cpu == d.boot_cpu
        },
{
    let r = release_bytes(b, mem_start);
    if r is Ok {
        let d = parse_dtb(b + zeros(4096))->Ok_0;
        let w = encode_utf8("reserved-memory"@);
        let k = child_from(d.tree.children, w, 0) as int;
        lemma_parsed_sane(b + zeros(4096));
        if parse_dtb(b) is Ok {
            lemma_more_room(b, 4096);
        }
        assert(dtb_path(d, "/reserved-memory"@) == Ok::<Option<Seq<int>>, Fault>(Some(seq![k]))
            && child(d.tree, w) is Some) by {
            lemma_names();
            lemma_path_one(d, "reserved-memory"@);
        }
        let name = unit("bhx-opensbi-firmware"@, mem_start as nat);
        let settings = reserved_settings(mem_start as nat, 0x60000);
        let e = add_with(d, seq![k], name, settings)->Ok_0;
        assert(sane(e)) by {
            lemma_released(d, mem_start);
        }
        pack_round_trip(e);
        lemma_add_with_keeps(d, k, name, settings);
        let f = fresh(name, settings);
        assert forall|path: Seq<int>| #[trigger] has_node(d.tree, path) implies {
            &&& has_node(e.tree, moved(path, k))
            &&& node_at(e.tree, moved(path, k)).name == node_at(d.tree, path).name
            &&& node_at(e.tree, moved(path, k)).props == node_at(d.tree, path).props
        } by {
            lemma_kept(d.tree, e.tree, k, f, path);
        }
    }
}

proof fn lemma_add_with_keeps(d: Dtb, k: int, name: Seq<char>, settings: Seq<Setting>)
    requires
        0 <= k < d.tree.children.len(),
        add_with(d, seq![k], name, settings) is Ok,
    ensures
        ({
            let e = add_with(d, seq![k], name, settings)->Ok_0;
            &&& e.tree == (Tree {
                children: d.tree.children.update(
                    k,
                    with_first(d.tree.children[k], fresh(name, settings)),
                ),
                ..d.tree
            })
            &&& e.reserve == d.reserve
            &&& e.boot_cpu == d.boot_cpu
        }),
{
    lemma_add_with(d, seq![k], name, settings);
    lemma_node_at_one(d.tree, k);
    assert(seq![k].skip(1) =~= Seq::<int>::empty());
    reveal_with_fuel(with_node, 2);
    let (grown, node) = dtb_add(d, seq![k], name)->Ok_0;
    lemma_set_all_rest(grown, node, settings);
}

proof fn lemma_set_all_rest(d: Dtb, node: Seq<int>, settings: Seq<Setting>)
    requires
        set_all(d, node, settings) is Ok,
    ensures
        set_all(d, node, settings)->Ok_0.reserve == d.reserve,
        set_all(d, node, settings)->Ok_0.boot_cpu == d.boot_cpu,
    decreases settings.len(),
{
    if settings.len() > 0 {
        lemma_set_all_rest(d, node, settings.drop_last());
    }
}

proof fn lemma_kept(t: Tree, u: Tree, k: int, f: Tree, path: Seq<int>)
    requires
        0 <= k < t.children.len(),
        u == (Tree { children: t.children.update(k, with_first(t.children[k], f)), ..t }),
        has_node(t, path),
    ensures
        has_node(u, moved(path, k)),
        node_at(u, moved(path, k)).name == node_at(t, path).name,
        node_at(u, moved(path, k)).props == node_at(t, path).props,
{
    reveal_with_fuel(has_node, 3);
    reveal_with_fuel(node_at, 3);
    if path.len() >= 2 && path[0] == k {
        let m = moved(path, k);
        let old = path.skip(1);
        let new = m.skip(1);
        assert(new =~= old.update(0, old[0] + 1));
        assert(new.skip(1) =~= old.skip(1));
        assert(u.children[k].children[old[0] + 1] == t.children[k].children[old[0]]);
    }
}

proof fn lemma_firmware_reserved(e: Dtb, mem_start: u64)
    requires
        ({
            let w = encode_utf8("reserved-memory"@);
            &&& child(e.tree, w) is Some
            &&& child(e.tree, w)->0.children.len() > 0
            &&& child(e.tree, w)->0.children[0] == fresh(
                unit("bhx-opensbi-firmware"@, mem_start as nat),
                reserved_settings(mem_start as nat, 0x60000),
            )
        }),
    ensures
        check_reserved(
            e,
            "/reserved-memory/"@ + unit("bhx-opensbi-firmware"@, mem_start as nat),
            mem_start as nat,
            0x60000,
        ) is None,
{
    let name = unit("bhx-opensbi-firmware"@, mem_start as nat);
    lemma_firmware_path(e, mem_start as nat);
    lemma_reservation(name, mem_start as nat, 0x60000);
    let i = child_from(e.tree.children, encode_utf8("reserved-memory"@), 0) as int;
    assert(child_from(e.tree.children[i].children, encode_utf8(name), 0) == 0);
    lemma_node_at_two(e.tree, i, 0);
}

/// The reservation of the firmware is not taken for that of the parked core.
proof fn lemma_firmware_is_apart(mem_start: nat, pa: nat)
    ensures
        !answers_to(
            encode_utf8(unit("bhx-opensbi-firmware"@, mem_start)),
            encode_utf8(unit("bhx-purgatory"@, pa)),
        ),
{
    let name = unit("bhx-opensbi-firmware"@, mem_start);
    let other = unit("bhx-purgatory"@, pa);
    reveal_strlit("bhx-purgatory");
    reveal_strlit("bhx-opensbi-firmware");
    lemma_unit_plain("bhx-opensbi-firmware"@, mem_start);
    lemma_unit_plain("bhx-purgatory"@, pa);
    assert(name[4] == 'o' && other[4] == 'p');
    lemma_plain(name);
    lemma_plain(other);
    let own = encode_utf8(other);
    let n = encode_utf8(name);
    if answers_to(n, own) {
        if n != own {
            assert(n.take(own.len() as int)[4] == n[4]);
        }
        assert(n[4] == own[4]);
    }
}

proof fn lemma_still_passes(t: Tree, u: Tree, mem_start: u64, purgatory: PurgatoryRegs)
    requires
        passes(t, mem_start, purgatory),
        same_but(t, u, 0x72),
        ({
            let w = encode_utf8("reserved-memory"@);
            child(u, w) == Some(
                with_first(
                    child(t, w)->0,
                    fresh(
                        unit("bhx-opensbi-firmware"@, mem_start as nat),
                        reserved_settings(mem_start as nat, 0x60000),
                    ),
                ),
            )
        }),
    ensures
        passes(u, mem_start, purgatory),
{
    let w = encode_utf8("reserved-memory"@);
    let pa = (mem_start + purgatory.status_offset) as nat;
    let own = encode_utf8(unit("bhx-purgatory"@, pa));
    let name = unit("bhx-opensbi-firmware"@, mem_start as nat);
    let n = fresh(name, reserved_settings(mem_start as nat, 0x60000));
    lemma_letters(mem_start);
    lemma_reservation(name, mem_start as nat, 0x60000);
    lemma_with_first(child(t, w)->0, n, own);
    lemma_firmware_is_apart(mem_start as nat, pa);
    assert(n.name == encode_utf8(name));
}

} // verus!
