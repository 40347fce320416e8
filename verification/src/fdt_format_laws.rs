//! What holds of device trees as they lie in memory, and of each edit of one.
use vstd::prelude::*;
#[allow(unused_imports)]
use vstd::utf8::encode_utf8;

#[allow(unused_imports)]
use crate::boot_laws::a_property_is_what_was_set;
#[allow(unused_imports)]
use crate::bytes::{be32, be32_round_trip, un_be32, un_be64};
#[allow(unused_imports)]
use crate::fdt::{
    call, dtb_add, dtb_path, dtb_rename, dtb_setprop, fault, has_nul, header_word, max_phandle,
    max_phandle_in, nul_message, parse_dtb, phandle_of, reserve_len, resolve_alias, Dtb, Fault,
    FdtErr, HEADER, MAGIC, MAX_SIZE, OLDEST_VERSION, VERSION,
};
#[allow(unused_imports)]
use crate::fdt_edit::{
    answers_to, child_from, component, has_node, node_at, prop_growth, prop_of, resolve,
    skip_slashes, with_node, with_prop,
};
#[allow(unused_imports)]
use crate::fdt_tree::{
    align4, c_len, c_string, flat_forest, flat_node, flat_open, flat_prop, flat_props, flat_tree,
    has_name_at, name_offset, offset_from, pad4, parse_children, parse_props, parse_tree, skip_nops,
    zeros, PropView, Tree, BEGIN_NODE, END, END_NODE, NOP, PROP,
};
#[allow(unused_imports)]
use crate::text::dec;

verus! {

/// The numbers of the format.
pub proof fn the_numbers_of_the_format()
    ensures
        MAGIC == 0xd00d_feed,
        VERSION == 17 && OLDEST_VERSION == 16,
        HEADER == 40,
        MAX_SIZE == 0x7fff_ffff,
        BEGIN_NODE == 1 && END_NODE == 2 && PROP == 3 && NOP == 4 && END == 9,
{
}

/// Each failure has the name that the library of the format gives it, and tells the call and what it
/// was about.
pub proof fn what_a_failure_is_called(op: Seq<char>, arg: Seq<char>, e: FdtErr)
    ensures
        FdtErr::Exists.text() == "FDT_ERR_EXISTS"@,
        FdtErr::NoSpace.text() == "FDT_ERR_NOSPACE"@,
        FdtErr::BadOffset.text() == "FDT_ERR_BADOFFSET"@,
        FdtErr::BadPath.text() == "FDT_ERR_BADPATH"@,
        FdtErr::Truncated.text() == "FDT_ERR_TRUNCATED"@,
        FdtErr::BadMagic.text() == "FDT_ERR_BADMAGIC"@,
        FdtErr::BadVersion.text() == "FDT_ERR_BADVERSION"@,
        FdtErr::BadStructure.text() == "FDT_ERR_BADSTRUCTURE"@,
        fault(op, e).op == op && fault(op, e).message == e.text(),
        call(op, arg) == op + "("@ + arg + ")"@,
{
}

/// A node is opened with 1 and its name, holds its properties and then its children, and is closed
/// with 2.
pub proof fn how_a_node_is_laid_out(t: Tree, strings: Seq<u8>)
    ensures
        flat_open(t.name) == be32(1) + t.name + seq![0u8] + pad4(t.name.len() + 1),
        flat_node(t, strings) == flat_open(t.name) + flat_props(t.props, strings) + flat_forest(
            t.children,
            strings,
        ) + be32(2),
{
}

/// The tree ends with 9.
pub proof fn how_a_tree_ends(t: Tree, strings: Seq<u8>)
    ensures
        flat_tree(t, strings) == flat_node(t, strings) + be32(9),
{
    reveal(flat_tree);
}

/// A property is 3, its length, where its name lies, and its value.
pub proof fn how_a_property_is_laid_out(p: PropView, strings: Seq<u8>)
    ensures
        flat_prop(p, strings) == be32(3) + be32(p.value.len()) + be32(name_offset(strings, p.name))
            + p.value + pad4(p.value.len()),
{
}

/// What is not whole words long is filled up with as few zeros as make it so.
pub proof fn how_words_are_filled_up(n: nat)
    ensures
        align4(n) % 4 == 0 && n <= align4(n) < n + 4,
        pad4(n).len() == align4(n) - n,
        forall|i: int| 0 <= i < pad4(n).len() ==> #[trigger] pad4(n)[i] == 0,
        zeros(n).len() == n,
{
}

/// Properties and children lie in the order in which the node has them.
pub proof fn the_order_is_kept(
    first: PropView,
    props: Seq<PropView>,
    trees: Seq<Tree>,
    last: Tree,
    strings: Seq<u8>,
)
    ensures
        flat_props(seq![first] + props, strings) == flat_prop(first, strings) + flat_props(
            props,
            strings,
        ),
        flat_props(Seq::empty(), strings).len() == 0,
        flat_forest(trees.push(last), strings) == flat_forest(trees, strings) + flat_node(
            last,
            strings,
        ),
        flat_forest(Seq::empty(), strings).len() == 0,
{
    assert((seq![first] + props).skip(1) =~= props);
    assert(trees.push(last).drop_last() =~= trees);
}

/// A string ends before its first zero.
pub proof fn where_a_string_ends(s: Seq<u8>, rest: Seq<u8>)
    requires
        forall|i: int| 0 <= i < s.len() ==> #[trigger] s[i] != 0,
    ensures
        c_len(s + seq![0u8] + rest) == s.len(),
        c_string(s + seq![0u8] + rest) == Some(s),
        c_len(s) == s.len(),
        c_string(s) is None,
    decreases s.len(),
{
    let whole = s + seq![0u8] + rest;
    if s.len() > 0 {
        let t = s.skip(1);
        assert forall|i: int| 0 <= i < t.len() implies #[trigger] t[i] != 0 by {
            assert(s[i + 1] != 0);
        }
        where_a_string_ends(t, rest);
        assert(whole.skip(1) =~= t + seq![0u8] + rest);
    }
    assert(whole.take(s.len() as int) =~= s);
}

/// A word of the header is the big-endian number in its four bytes. The reservations end with the
/// first whose length is zero.
pub proof fn how_a_header_is_read(b: Seq<u8>, k: int, off: nat)
    requires
        0 <= k,
        4 * k + 4 <= b.len(),
    ensures
        header_word(b, k) == ((b[4 * k] * 256 + b[4 * k + 1]) * 256 + b[4 * k + 2]) * 256 + b[4 * k
            + 3],
        off + 16 > b.len() ==> reserve_len(b, off) is None,
        off + 16 <= b.len() && un_be64(b.skip(off + 8int)) == 0 ==> reserve_len(b, off) == Some(
            16nat,
        ),
        off + 16 <= b.len() && un_be64(b.skip(off + 8int)) != 0 ==> (match reserve_len(b, off + 16) {
            Some(n) => reserve_len(b, off) == Some(n + 16),
            None => reserve_len(b, off) is None,
        }),
{
}

/// A blob is refused where it is shorter than its header, has not the mark, is too old or too new, or
/// is longer than what there is; the first of these counts.
pub proof fn which_blobs_are_refused(b: Seq<u8>)
    ensures
        b.len() < 40 ==> parse_dtb(b) == Err::<Dtb, FdtErr>(FdtErr::Truncated),
        b.len() >= 40 && header_word(b, 0) != 0xd00d_feed ==> parse_dtb(b) == Err::<Dtb, FdtErr>(
            FdtErr::BadMagic,
        ),
        b.len() >= 40 && header_word(b, 0) == 0xd00d_feed && (header_word(b, 5) < 16
            || header_word(b, 6) > 17) ==> parse_dtb(b) == Err::<Dtb, FdtErr>(FdtErr::BadVersion),
        b.len() >= 40 && header_word(b, 0) == 0xd00d_feed && header_word(b, 5) >= 16
            && header_word(b, 6) <= 17 && header_word(b, 1) > b.len() ==> parse_dtb(b) == Err::<
            Dtb,
            FdtErr,
        >(FdtErr::NoSpace),
        parse_dtb(b) matches Ok(d) ==> {
            &&& 40 <= b.len() <= 0x7fff_ffff
            &&& d.used <= d.capacity
            &&& d.capacity == b.len()
            &&& d.boot_cpu == header_word(b, 7) as u32
            &&& d.last_compatible == header_word(b, 6) as u32
            &&& d.strings == b.subrange(
                header_word(b, 3) as int,
                (header_word(b, 3) + header_word(b, 8)) as int,
            )
        },
{
}

/// A node answers to its name, and to its name up to an `@` where what is asked for has none.
pub proof fn what_a_node_answers_to(base: Seq<u8>, unit: Seq<u8>, other: Seq<u8>)
    requires
        !base.contains(0x40u8),
    ensures
        answers_to(base, base),
        answers_to(base + seq![0x40u8] + unit, base + seq![0x40u8] + unit),
        answers_to(base + seq![0x40u8] + unit, base),
        !answers_to(base, base + seq![0x40u8] + unit),
        answers_to(base, other) ==> other == base,
        other.contains(0x40u8) && answers_to(base + seq![0x40u8] + unit, other) ==> other == base
            + seq![0x40u8] + unit,
{
    let full = base + seq![0x40u8] + unit;
    assert(full.take(base.len() as int) =~= base);
    assert(full[base.len() as int] == 0x40);
    assert(full != base) by {
        if full == base {
            assert(base.len() == full.len());
        }
    }
    if answers_to(base, other) && other != base {
        assert(base[other.len() as int] == 0x40);
        assert(base.contains(0x40u8));
    }
}

/// The first child that answers is the one that is found.
pub proof fn the_first_that_answers_is_found(children: Seq<Tree>, wanted: Seq<u8>, from: nat)
    requires
        from <= children.len(),
    ensures
        ({
            let i = child_from(children, wanted, from);
            &&& from <= i <= children.len()
            &&& i < children.len() ==> answers_to(children[i as int].name, wanted)
            &&& forall|k: int|
                from <= k < i ==> !answers_to((#[trigger] children[k]).name, wanted)
        }),
    decreases children.len() - from,
{
    if from < children.len() && !answers_to(children[from as int].name, wanted) {
        the_first_that_answers_is_found(children, wanted, from + 1);
    }
}

/// A path is its components between slashes; any number of slashes counts as one.
pub proof fn how_a_path_is_taken_apart(a: Seq<u8>, rest: Seq<u8>)
    requires
        !a.contains(0x2fu8),
    ensures
        component(a) == a,
        component(a + seq![0x2fu8] + rest) == a,
        skip_slashes(seq![0x2fu8] + rest) == skip_slashes(rest),
        a.len() > 0 ==> skip_slashes(a + rest) == a + rest,
    decreases a.len(),
{
    assert((seq![0x2fu8] + rest).skip(1) =~= rest);
    if a.len() > 0 {
        let t = a.skip(1);
        assert(a.contains(a[0]));
        assert(!t.contains(0x2fu8)) by {
            if t.contains(0x2fu8) {
                let i = choose|i: int| 0 <= i < t.len() && t[i] == 0x2f;
                assert(a[i + 1] == 0x2f);
            }
        }
        how_a_path_is_taken_apart(t, rest);
        assert((a + seq![0x2fu8] + rest).skip(1) =~= t + seq![0x2fu8] + rest);
        assert(seq![a[0]] + t =~= a);
    }
}

/// A new node comes first among the children of its parent, under its name and empty; the others stay
/// as they are. It is refused where one answers to its name already.
pub proof fn a_new_node_comes_first(d: Dtb, parent: Seq<int>, name: Seq<char>)
    requires
        !has_nul(name),
        has_node(d.tree, parent),
    ensures
        ({
            let bytes = encode_utf8(name);
            let t = node_at(d.tree, parent);
            let there = exists|k: int|
                0 <= k < t.children.len() && answers_to((#[trigger] t.children[k]).name, bytes);
            let room = d.used + 8 + align4(bytes.len() + 1) <= d.capacity;
            let r = dtb_add(d, parent, name);
            &&& r is Ok <==> !there && room
            &&& there ==> r == Err::<(Dtb, Seq<int>), Fault>(
                Fault { op: "fdt_add_subnode("@ + name + ")"@, message: "FDT_ERR_EXISTS"@ },
            )
            &&& !there && !room ==> r == Err::<(Dtb, Seq<int>), Fault>(
                Fault { op: "fdt_add_subnode("@ + name + ")"@, message: "FDT_ERR_NOSPACE"@ },
            )
            &&& r matches Ok((e, node)) ==> {
                &&& node == parent.push(0)
                &&& e.tree == with_node(
                    d.tree,
                    parent,
                    Tree {
                        children: seq![
                            Tree { name: bytes, props: Seq::empty(), children: Seq::empty() },
                        ] + t.children,
                        ..t
                    },
                )
                &&& e.strings == d.strings && e.reserve == d.reserve && e.boot_cpu == d.boot_cpu
                    && e.capacity == d.capacity
            }
        }),
{
    let bytes = encode_utf8(name);
    let t = node_at(d.tree, parent);
    the_first_that_answers_is_found(t.children, bytes, 0);
    reveal_strlit("fdt_add_subnode");
    reveal_strlit("(");
    reveal_strlit("fdt_add_subnode(");
    assert("fdt_add_subnode("@ =~= "fdt_add_subnode"@ + "("@);
}

/// A property gets its value, whether it was there or not, and no other property changes. A new name
/// takes new room among the names. What does not fit is refused.
pub proof fn a_property_gets_its_value(
    d: Dtb,
    node: Seq<int>,
    name: Seq<char>,
    value: Seq<u8>,
    other: Seq<u8>,
)
    requires
        !has_nul(name),
        has_node(d.tree, node),
        dtb_setprop(d, node, name, value) is Ok,
    ensures
        ({
            let e = dtb_setprop(d, node, name, value)->Ok_0;
            let old = node_at(d.tree, node);
            let new = with_prop(old, encode_utf8(name), value);
            &&& e.tree == with_node(d.tree, node, new)
            &&& prop_of(new, encode_utf8(name)) == Some(value)
            &&& other != encode_utf8(name) ==> prop_of(new, other) == prop_of(old, other)
            &&& new.name == old.name && new.children == old.children
            &&& d.strings.is_prefix_of(e.strings)
            &&& e.capacity == d.capacity
            &&& e.reserve == d.reserve && e.boot_cpu == d.boot_cpu
        }),
{
    let old = node_at(d.tree, node);
    a_property_is_what_was_set(old, encode_utf8(name), value, encode_utf8(name));
    a_property_is_what_was_set(old, encode_utf8(name), value, other);
    let e = dtb_setprop(d, node, name, value)->Ok_0;
    assert(d.strings =~= e.strings.subrange(0, d.strings.len() as int));
}

/// A node keeps everything but its name when it is renamed.
pub proof fn a_renamed_node_keeps_the_rest(d: Dtb, node: Seq<int>, name: Seq<char>)
    requires
        !has_nul(name),
        has_node(d.tree, node),
        dtb_rename(d, node, name) is Ok,
    ensures
        ({
            let e = dtb_rename(d, node, name)->Ok_0;
            let old = node_at(d.tree, node);
            &&& e.tree == with_node(d.tree, node, Tree { name: encode_utf8(name), ..old })
            &&& e.strings == d.strings && e.reserve == d.reserve && e.boot_cpu == d.boot_cpu
        }),
{
}

/// A name with a zero in it is refused with the place of the zero; a path that is empty, or begins
/// with no slash and no alias, is no path.
pub proof fn which_names_are_refused(d: Dtb, name: Seq<char>, value: Seq<u8>)
    ensures
        has_nul(name) <==> encode_utf8(name).contains(0u8),
        nul_message(name) == "nul byte found in provided data at position: "@ + dec(
            c_len(encode_utf8(name)),
        ),
        has_nul(name) ==> {
            let m = nul_message(name);
            &&& dtb_add(d, Seq::empty(), name) == Err::<(Dtb, Seq<int>), Fault>(
                Fault { op: "fdt_add_subnode"@, message: m },
            )
            &&& dtb_rename(d, Seq::empty(), name) == Err::<Dtb, Fault>(
                Fault { op: "fdt_set_name"@, message: m },
            )
            &&& dtb_setprop(d, Seq::empty(), name, value) == Err::<Dtb, Fault>(
                Fault { op: "fdt_setprop"@, message: m },
            )
            &&& dtb_path(d, name) is Err && dtb_path(d, name)->Err_0.message == m
        },
        !has_nul(name) && encode_utf8(name).len() == 0 ==> dtb_path(d, name) is Err && dtb_path(
            d,
            name,
        )->Err_0.message == "FDT_ERR_BADPATH"@,
        !has_nul(name) && encode_utf8(name).len() > 0 && encode_utf8(name)[0] == '/' as u8
            ==> dtb_path(d, name) == Ok::<Option<Seq<int>>, Fault>(
            resolve(d.tree, encode_utf8(name)),
        ),
{
    let b = encode_utf8(name);
    lemma_c_len(b);
    if has_nul(name) {
        assert(b[c_len(b) as int] == 0);
    }
    if b.contains(0u8) {
        let i = choose|i: int| 0 <= i < b.len() && b[i] == 0;
        if c_len(b) == b.len() {
            assert(b[i] != 0);
        }
    }
}

proof fn lemma_c_len(b: Seq<u8>)
    ensures
        c_len(b) <= b.len(),
        forall|i: int| 0 <= i < c_len(b) ==> #[trigger] b[i] != 0,
        c_len(b) < b.len() ==> b[c_len(b) as int] == 0,
    decreases b.len(),
{
    if b.len() > 0 && b[0] != 0 {
        lemma_c_len(b.skip(1));
        assert forall|i: int| 0 <= i < c_len(b) implies #[trigger] b[i] != 0 by {
            if i > 0 {
                assert(b.skip(1)[i - 1] == b[i]);
            }
        }
    }
}

/// The handle of a node is its `phandle`, or else its `linux,phandle`, where that is a word; the
/// largest handle is one that a node has, and none has a larger one.
pub proof fn the_largest_handle(t: Tree, path: Seq<int>)
    requires
        has_node(t, path),
    ensures
        phandle_of(node_at(t, path)) <= max_phandle(t),
        max_phandle(t) == 0 || exists|p: Seq<int>| #[trigger]
            has_node(t, p) && phandle_of(node_at(t, p)) == max_phandle(t),
        prop_of(t, encode_utf8("phandle"@)) matches Some(v) ==> v.len() == 4 ==> phandle_of(t)
            == un_be32(v),
        prop_of(t, encode_utf8("phandle"@)) is None ==> (match prop_of(
            t,
            encode_utf8("linux,phandle"@),
        ) {
            Some(v) => v.len() == 4 ==> phandle_of(t) == un_be32(v),
            None => phandle_of(t) == 0,
        }),
    decreases t,
{
    if path.len() > 0 {
        the_largest_handle(t.children[path[0]], path.skip(1));
        lemma_handle_of(t.children, path[0]);
    }
    if max_phandle(t) != 0 {
        if phandle_of(t) == max_phandle(t) {
            assert(has_node(t, Seq::empty()));
        } else {
            let k = lemma_who(t.children);
            the_largest_handle(t.children[k], Seq::empty());
            if max_phandle(t.children[k]) != 0 {
                let p = choose|p: Seq<int>| #[trigger]
                    has_node(t.children[k], p) && phandle_of(node_at(t.children[k], p))
                        == max_phandle(t.children[k]);
                let q = seq![k] + p;
                assert(q.skip(1) =~= p);
                assert(has_node(t, q));
            }
        }
    }
}

proof fn lemma_handle_of(trees: Seq<Tree>, k: int)
    requires
        0 <= k < trees.len(),
    ensures
        max_phandle(trees[k]) <= max_phandle_in(trees),
    decreases trees.len(),
{
    if k < trees.len() - 1 {
        lemma_handle_of(trees.drop_last(), k);
        assert(trees.drop_last()[k] == trees[k]);
    }
}

proof fn lemma_who(trees: Seq<Tree>) -> (k: int)
    requires
        max_phandle_in(trees) > 0,
    ensures
        0 <= k < trees.len(),
        max_phandle(trees[k]) == max_phandle_in(trees),
    decreases trees.len(),
{
    if max_phandle(trees.last()) == max_phandle_in(trees) {
        trees.len() - 1
    } else {
        let k = lemma_who(trees.drop_last());
        assert(trees.drop_last()[k] == trees[k]);
        k
    }
}

/// Where a name lies is the first place at which it stands with a zero behind it; a name that stands
/// nowhere lies behind all of them.
pub proof fn where_a_name_lies(strings: Seq<u8>, name: Seq<u8>, off: int)
    ensures
        has_name_at(strings, name, off) <==> 0 <= off && (name.push(0)).is_prefix_of(
            strings.skip(off),
        ) && off < strings.len(),
        has_name_at(strings, name, off) ==> name_offset(strings, name) <= off && has_name_at(
            strings,
            name,
            name_offset(strings, name) as int,
        ),
        name_offset(strings, name) <= strings.len(),
        name_offset(strings, name) < strings.len() ==> has_name_at(
            strings,
            name,
            name_offset(strings, name) as int,
        ),
{
    if has_name_at(strings, name, off) {
        assert forall|i: int| 0 <= i < name.len() implies name[i] == strings[off + i] by {
            assert(strings.subrange(off, off + name.len())[i] == strings[off + i]);
        }
        assert(name.push(0) =~= strings.skip(off).subrange(0, name.len() + 1int));
    }
    if 0 <= off < strings.len() && (name.push(0)).is_prefix_of(strings.skip(off)) {
        let rest = strings.skip(off);
        assert(name.push(0)[name.len() as int] == rest[name.len() as int]);
        assert forall|i: int| 0 <= i < name.len() implies name[i] == strings[off + i] by {
            assert(name.push(0)[i] == rest[i]);
        }
        assert(strings.subrange(off, off + name.len()) =~= name);
    }
    lemma_offset_from(strings, name, 0, off);
}

proof fn lemma_offset_from(strings: Seq<u8>, name: Seq<u8>, from: nat, off: int)
    requires
        from <= strings.len(),
    ensures
        from <= offset_from(strings, name, from) <= strings.len(),
        offset_from(strings, name, from) < strings.len() ==> has_name_at(
            strings,
            name,
            offset_from(strings, name, from) as int,
        ),
        from <= off && has_name_at(strings, name, off) ==> offset_from(strings, name, from) <= off,
    decreases strings.len() - from,
{
    if from < strings.len() && !has_name_at(strings, name, from as int) {
        lemma_offset_from(strings, name, from + 1, off);
    }
}

/// A property that is there grows by the words that its value does; a new one takes three words more.
pub proof fn how_much_a_property_takes(t: Tree, name: Seq<u8>, value: Seq<u8>, d: Dtb)
    ensures
        prop_of(t, name) is None ==> prop_growth(t, name, value) == 12 + align4(value.len()),
        prop_of(t, name) is Some ==> prop_growth(t, name, value) == align4(value.len()) - align4(
            prop_of(t, name)->0.len(),
        ),
        prop_of(t, name) is Some ==> prop_growth(t, name, prop_of(t, name)->0) == 0,
{
}

/// A path of one component leads to the first child that answers to it, a longer one on from there.
pub proof fn where_a_path_leads(t: Tree, name: Seq<u8>, rest: Seq<u8>)
    requires
        name.len() > 0,
        !name.contains(0x2fu8),
    ensures
        resolve(t, Seq::empty()) == Some(Seq::<int>::empty()),
        ({
            let i = child_from(t.children, name, 0);
            let path = seq![0x2fu8] + name + seq![0x2fu8] + rest;
            if i >= t.children.len() {
                resolve(t, path) is None
            } else {
                match resolve(t.children[i as int], seq![0x2fu8] + rest) {
                    Some(more) => resolve(t, path) == Some(seq![i as int] + more),
                    None => resolve(t, path) is None,
                }
            }
        }),
{
    let tail = seq![0x2fu8] + rest;
    let path = seq![0x2fu8] + name + tail;
    assert(path =~= seq![0x2fu8] + name + seq![0x2fu8] + rest);
    assert(path =~= seq![0x2fu8] + (name + tail));
    how_a_path_is_taken_apart(name, tail);
    assert(name + tail =~= name + seq![0x2fu8] + rest);
    how_a_path_is_taken_apart(name, rest);
    assert(skip_slashes(seq![0x2fu8] + (name + tail)) == name + tail) by {
        assert((seq![0x2fu8] + (name + tail)).skip(1) =~= name + tail);
    }
    assert((name + tail).skip(name.len() as int) =~= tail);
}

/// A path that begins with another name for a path leads on from where that leads.
pub proof fn where_another_name_leads(t: Tree, path: Seq<u8>, at: Seq<int>, target: Seq<u8>)
    requires
        resolve(t, encode_utf8("/aliases"@)) == Some(at),
        prop_of(node_at(t, at), component(path)) == Some(target.push(0)),
        target.len() > 0,
        target[0] == 0x2f,
        !target.contains(0u8),
    ensures
        resolve_alias(t, path) == Some(
            match resolve(t, target) {
                Some(p) => match resolve(
                    node_at(t, p),
                    path.skip(component(path).len() as int),
                ) {
                    Some(q) => Some(p + q),
                    None => None,
                },
                None => None,
            },
        ),
{
    let v = target.push(0);
    assert forall|i: int| 0 <= i < target.len() implies #[trigger] target[i] != 0 by {
        if target[i] == 0 {
            assert(target.contains(0u8));
        }
    }
    where_a_string_ends(target, Seq::empty());
    assert(target + seq![0u8] + Seq::<u8>::empty() =~= v);
    assert(v.take(target.len() as int) =~= target);
}

/// What a blob of the newest version holds: its tree, its names and its reservations lie where the
/// header says. It takes what it spans where its blocks stand in order, and else what they take.
pub proof fn what_a_blob_holds(b: Seq<u8>)
    requires
        parse_dtb(b) is Ok,
        header_word(b, 5) >= 17,
    ensures
        ({
            let d = parse_dtb(b)->Ok_0;
            let tree = header_word(b, 2) as int;
            let size = header_word(b, 9) as int;
            let names = header_word(b, 3) as int;
            let reserve = header_word(b, 4) as int;
            let total = header_word(b, 1) as int;
            let end = names + header_word(b, 8);
            &&& tree + size <= total <= b.len()
            &&& end <= total
            &&& parse_tree(b.subrange(tree, tree + size), d.strings) == Some(d.tree)
            &&& reserve_len(b.take(total), reserve as nat) == Some(d.reserve.len())
            &&& d.reserve == b.subrange(reserve, reserve + d.reserve.len())
            &&& d.used == if 40 <= reserve && reserve + d.reserve.len() <= tree && tree + size
                <= names {
                end
            } else {
                40 + d.reserve.len() + size + header_word(b, 8)
            }
        }),
{
    lemma_reserve_len(b.take(header_word(b, 1) as int), header_word(b, 4));
}

proof fn lemma_reserve_len(b: Seq<u8>, off: nat)
    ensures
        reserve_len(b, off) matches Some(n) ==> off + n <= b.len(),
    decreases b.len() - off,
{
    if off + 16 <= b.len() && un_be64(b.skip(off + 8int)) != 0 {
        lemma_reserve_len(b, off + 16);
    }
}

/// Words that say nothing are skipped, wherever a property or a node may stand.
pub proof fn empty_words_are_skipped(b: Seq<u8>, strings: Seq<u8>)
    ensures
        parse_props(be32(4) + b, strings) == parse_props(b, strings),
        parse_children(be32(4) + b, strings) == parse_children(b, strings),
        skip_nops(be32(4) + b) == skip_nops(b),
        parse_tree(be32(4) + b, strings) == parse_tree(b, strings),
{
    reveal(parse_tree);
    be32_round_trip(4, b);
    assert((be32(4) + b).skip(4) =~= b);
}

} // verus!
