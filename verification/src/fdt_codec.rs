//! Reading and writing the structure block of a device-tree blob.
use vstd::prelude::*;

#[allow(unused_imports)]
use crate::bytes::{bytes_between, push_all, push_be32, read_be32};
#[allow(unused_imports)]
use crate::fdt_tree::{
    align4, c_len, c_string, flat_forest, flat_node, flat_open, flat_prop, flat_props, flat_tree,
    forest, has_name_at, lemma_forest, lemma_storable_forest, name_offset, offset_from, pad4,
    parse_children, parse_node, parse_props, parse_tree, prop_views, skip_nops, storable,
    storable_prop, tree, tree_extent, zeros, PropView, Tree,
};
use crate::fdt_tree::{Node, Prop, BEGIN_NODE, END, END_NODE, NOP, PROP};

verus! {

/// Where the zero byte stands that ends the string at `pos`.
pub fn string_end(b: &[u8], pos: usize) -> (end: Option<usize>)
    requires
        pos <= b@.len(),
    ensures
        match end {
            Some(e) => pos <= e < b@.len() && c_string(b@.skip(pos as int)) == Some(
                b@.subrange(pos as int, e as int),
            ),
            None => c_string(b@.skip(pos as int)) is None,
        },
{
    let mut e: usize = pos;
    while e < b.len() && b[e] != 0
        invariant
            pos <= e <= b@.len(),
            c_len(b@.skip(pos as int)) == (e - pos) + c_len(b@.skip(e as int)),
        decreases b@.len() - e,
    {
        assert(b@.skip(e as int).skip(1) =~= b@.skip(e + 1));
        e = e + 1;
    }
    if e < b.len() {
        assert(b@.skip(pos as int).take(e - pos) =~= b@.subrange(pos as int, e as int));
        Some(e)
    } else {
        None
    }
}

/// `n` rounded up to a multiple of four.
pub fn round4(n: usize) -> (r: usize)
    requires
        n <= usize::MAX - 3,
    ensures
        r == align4(n as nat),
        n <= r < n + 4,
{
    ((n + 3) / 4) * 4
}

/// The properties found so far, in front of those that are still to be read.
spec fn with_props(found: Seq<PropView>, more: Option<(Seq<PropView>, Seq<u8>)>) -> Option<
    (Seq<PropView>, Seq<u8>),
> {
    match more {
        Some((m, rest)) => Some((found + m, rest)),
        None => None,
    }
}

/// Reads the properties at `start`.
fn read_props(b: &[u8], start: usize, strings: &[u8]) -> (r: Option<(Vec<Prop>, usize)>)
    requires
        start <= b@.len(),
    ensures
        match r {
            Some((props, pos)) => start <= pos <= b@.len() && parse_props(
                b@.skip(start as int),
                strings@,
            ) == Some((prop_views(props@), b@.skip(pos as int))),
            None => parse_props(b@.skip(start as int), strings@) is None,
        },
{
    let ghost whole = parse_props(b@.skip(start as int), strings@);
    let mut props: Vec<Prop> = Vec::new();
    let mut pos: usize = start;
    assert(with_props(prop_views(props@), whole) == whole) by {
        if let Some((m, rest)) = whole {
            assert(prop_views(props@) + m =~= m);
        }
    }
    loop
        invariant
            start <= pos <= b@.len(),
            whole == parse_props(b@.skip(start as int), strings@),
            whole == with_props(
                prop_views(props@),
                parse_props(b@.skip(pos as int), strings@),
            ),
        decreases b@.len() - pos,
    {
        let ghost here = b@.skip(pos as int);
        if b.len() - pos < 4 {
            return None;
        }
        let tag: u32 = read_be32(b, pos);
        if tag == NOP {
            assert(here.skip(4) =~= b@.skip(pos + 4));
            pos = pos + 4;
        } else if tag != PROP {
            assert(prop_views(props@) + Seq::<PropView>::empty() =~= prop_views(props@));
            return Some((props, pos));
        } else {
            if b.len() - pos < 12 {
                return None;
            }
            assert(here.skip(4) =~= b@.skip(pos + 4));
            assert(here.skip(8) =~= b@.skip(pos + 8));
            let len: u32 = read_be32(b, pos + 4);
            let off: u32 = read_be32(b, pos + 8);
            let left: usize = b.len() - pos - 12;
            if off as u64 > strings.len() as u64 || len as u64 > left as u64 || (len as u64 + 3) / 4
                * 4 > left as u64 {
                return None;
            }
            let padded: usize = ((len as u64 + 3) / 4 * 4) as usize;
            let value_end: usize = pos + 12 + len as usize;
            match string_end(strings, off as usize) {
                Some(end) => {
                    let prop: Prop = Prop {
                        name: bytes_between(strings, off as usize, end),
                        value: bytes_between(b, pos + 12, value_end),
                    };
                    let next: usize = pos + 12 + padded;
                    proof {
                        assert(here.skip(12 + align4(len as nat) as int) =~= b@.skip(next as int));
                        assert(here.subrange(12, 12 + len as int) =~= prop.value@);
                        let tail = parse_props(b@.skip(next as int), strings@);
                        if let Some((m, rest)) = tail {
                            assert(prop_views(props@.push(prop)) + m =~= prop_views(props@) + (
                            seq![prop@] + m));
                        }
                    }
                    props.push(prop);
                    pos = next;
                },
                None => {
                    return None;
                },
            }
        }
    }
}

/// The nodes found so far, in front of those that are still to be read.
spec fn with_trees(found: Seq<Tree>, more: Option<(Seq<Tree>, Seq<u8>)>) -> Option<
    (Seq<Tree>, Seq<u8>),
> {
    match more {
        Some((m, rest)) => Some((found + m, rest)),
        None => None,
    }
}

/// Reads the node at `start`.
fn read_node(b: &[u8], start: usize, strings: &[u8]) -> (r: Option<(Node, usize)>)
    requires
        start <= b@.len(),
    ensures
        match r {
            Some((node, pos)) => start < pos <= b@.len() && parse_node(
                b@.skip(start as int),
                strings@,
            ) == Some((tree(node), b@.skip(pos as int))),
            None => parse_node(b@.skip(start as int), strings@) is None,
        },
    decreases b@.len() - start,
{
    let ghost here = b@.skip(start as int);
    if b.len() - start < 4 {
        return None;
    }
    if read_be32(b, start) != BEGIN_NODE {
        return None;
    }
    assert(here.skip(4) =~= b@.skip(start + 4));
    let name_end: usize = match string_end(b, start + 4) {
        Some(e) => e,
        None => {
            return None;
        },
    };
    let name: Vec<u8> = bytes_between(b, start + 4, name_end);
    let left: usize = b.len() - start - 4;
    let taken: usize = name_end - (start + 4) + 1;
    if (taken as u64 + 3) / 4 * 4 > left as u64 {
        return None;
    }
    let body: usize = start + 4 + round4(taken);
    assert(here.skip(4 + align4(taken as nat) as int) =~= b@.skip(body as int));
    let (props, after): (Vec<Prop>, usize) = match read_props(b, body, strings) {
        Some(p) => p,
        None => {
            return None;
        },
    };
    let ghost whole = parse_children(b@.skip(after as int), strings@);
    let mut children: Vec<Node> = Vec::new();
    let mut pos: usize = after;
    proof {
        if let Some((m, rest)) = whole {
            assert(forest(children@) + m =~= m);
        }
    }
    loop
        invariant
            start < after <= pos <= b@.len(),
            whole == parse_children(b@.skip(after as int), strings@),
            whole == with_trees(forest(children@), parse_children(b@.skip(pos as int), strings@)),
            here == b@.skip(start as int),
            parse_node(here, strings@) == match whole {
                Some((c, rest)) => Some(
                    (Tree { name: name@, props: prop_views(props@), children: c }, rest),
                ),
                None => None,
            },
        decreases b@.len() - pos,
    {
        let ghost now = b@.skip(pos as int);
        if b.len() - pos < 4 {
            return None;
        }
        let tag: u32 = read_be32(b, pos);
        if tag == NOP {
            assert(now.skip(4) =~= b@.skip(pos + 4));
            pos = pos + 4;
        } else if tag == END_NODE {
            assert(now.skip(4) =~= b@.skip(pos + 4));
            assert(forest(children@) + Seq::<Tree>::empty() =~= forest(children@));
            let node: Node = Node { name, props, children };
            return Some((node, pos + 4));
        } else {
            match read_node(b, pos, strings) {
                Some((child, next)) => {
                    proof {
                        let tail = parse_children(b@.skip(next as int), strings@);
                        let grown = children@.push(child);
                        assert(grown.drop_last() =~= children@);
                        if let Some((m, rest)) = tail {
                            assert(forest(grown) + m =~= forest(children@) + (seq![tree(child)]
                                + m));
                        }
                    }
                    children.push(child);
                    pos = next;
                },
                None => {
                    return None;
                },
            }
        }
    }
}

/// The index behind the no-operation tags at `start`.
fn read_nops(b: &[u8], start: usize) -> (pos: usize)
    requires
        start <= b@.len(),
    ensures
        start <= pos <= b@.len(),
        skip_nops(b@.skip(start as int)) == b@.skip(pos as int),
{
    let mut pos: usize = start;
    while b.len() - pos >= 4 && read_be32(b, pos) == NOP
        invariant
            start <= pos <= b@.len(),
            skip_nops(b@.skip(start as int)) == skip_nops(b@.skip(pos as int)),
        decreases b@.len() - pos,
    {
        assert(b@.skip(pos as int).skip(4) =~= b@.skip(pos + 4));
        pos = pos + 4;
    }
    pos
}

/// Reads a structure block, and how long it is.
pub fn read_tree(b: &[u8], strings: &[u8]) -> (r: Option<(Node, usize)>)
    ensures
        match r {
            Some((node, len)) => parse_tree(b@, strings@) == Some(tree(node)) && len == tree_extent(
                b@,
                strings@,
            ),
            None => parse_tree(b@, strings@) is None,
        },
{
    proof {
        reveal(parse_tree);
        reveal(tree_extent);
    }
    assert(b@.skip(0) =~= b@);
    let start: usize = read_nops(b, 0);
    match read_node(b, start, strings) {
        Some((node, next)) => {
            let end: usize = read_nops(b, next);
            if b.len() - end >= 4 && read_be32(b, end) == END {
                Some((node, end + 4))
            } else {
                None
            }
        },
        None => None,
    }
}

/// Whether `name` and a zero byte stand at `off`.
fn name_stands_at(strings: &[u8], name: &[u8], off: usize) -> (r: bool)
    requires
        off <= strings@.len(),
    ensures
        r == has_name_at(strings@, name@, off as int),
{
    let total: usize = strings.len();
    if total - off <= name.len() {
        return false;
    }
    let mut i: usize = 0;
    while i < name.len()
        invariant
            i <= name@.len(),
            total == strings@.len(),
            off + name@.len() < total,
            forall|k: int| 0 <= k < i ==> strings@[off + k] == name@[k],
        decreases name@.len() - i,
    {
        if strings[off + i] != name[i] {
            proof {
                let sub = strings@.subrange(off as int, off + name@.len());
                assert(sub[i as int] != name@[i as int]);
            }
            return false;
        }
        i = i + 1;
    }
    assert(strings@.subrange(off as int, off + name@.len()) =~= name@);
    strings[off + name.len()] == 0
}

/// The offset under which `name` is known in the strings block, or its end.
pub fn find_name(strings: &[u8], name: &[u8]) -> (off: usize)
    ensures
        off == name_offset(strings@, name@),
        off <= strings@.len(),
        off < strings@.len() ==> has_name_at(strings@, name@, off as int),
{
    let mut off: usize = 0;
    while off < strings.len() && !name_stands_at(strings, name, off)
        invariant
            off <= strings@.len(),
            name_offset(strings@, name@) == offset_from(strings@, name@, off as nat),
        decreases strings@.len() - off,
    {
        off = off + 1;
    }
    off
}

/// Appends `n` zero bytes.
fn push_zeros(out: &mut Vec<u8>, n: usize)
    ensures
        final(out)@ =~= old(out)@ + zeros(n as nat),
{
    let mut i: usize = 0;
    while i < n
        invariant
            i <= n,
            out@ =~= old(out)@ + zeros(i as nat),
        decreases n - i,
    {
        out.push(0);
        i = i + 1;
    }
}

/// Appends the zero bytes that fill `n` bytes up to a multiple of four.
fn push_pad(out: &mut Vec<u8>, n: usize)
    ensures
        final(out)@ =~= old(out)@ + pad4(n as nat),
{
    let fill: usize = (4 - n % 4) % 4;
    assert(fill == align4(n as nat) - n);
    push_zeros(out, fill);
}

fn write_prop(out: &mut Vec<u8>, p: &Prop, strings: &[u8])
    requires
        p.value@.len() < 0x1_0000_0000,
        strings@.len() < 0x1_0000_0000,
    ensures
        final(out)@ =~= old(out)@ + flat_prop(p@, strings@),
{
    push_be32(out, PROP);
    push_be32(out, p.value.len() as u32);
    let off: usize = find_name(strings, p.name.as_slice());
    push_be32(out, off as u32);
    push_all(out, p.value.as_slice());
    push_pad(out, p.value.len());
}

proof fn lemma_flat_props_push(props: Seq<PropView>, n: int, strings: Seq<u8>)
    requires
        0 <= n < props.len(),
    ensures
        flat_props(props.take(n + 1), strings) == flat_props(props.take(n), strings) + flat_prop(
            props[n],
            strings,
        ),
    decreases n,
{
    if n == 0 {
        assert(props.take(1).skip(1) =~= Seq::<PropView>::empty());
        assert(props.take(0) =~= Seq::<PropView>::empty());
        assert(flat_props(props.take(1), strings) =~= flat_props(props.take(0), strings)
            + flat_prop(props[0], strings));
    } else {
        let rest = props.skip(1);
        lemma_flat_props_push(rest, n - 1, strings);
        assert(props.take(n + 1).skip(1) =~= rest.take(n));
        assert(props.take(n).skip(1) =~= rest.take(n - 1));
        assert(rest[n - 1] == props[n]);
        assert(flat_props(props.take(n + 1), strings) =~= flat_props(props.take(n), strings)
            + flat_prop(props[n], strings));
    }
}

/// Appends a node and everything below it.
pub fn write_node(out: &mut Vec<u8>, node: &Node, strings: &[u8])
    requires
        strings@.len() < 0x1_0000_0000,
        storable(tree(*node), strings@),
    ensures
        final(out)@ == old(out)@ + flat_node(tree(*node), strings@),
    decreases node,
{
    let ghost t = tree(*node);
    let ghost base = out@;
    push_be32(out, BEGIN_NODE);
    push_all(out, node.name.as_slice());
    out.push(0);
    let name_len: usize = node.name.len();
    let fill: usize = (3 - name_len % 4) % 4;
    assert(fill == align4((name_len + 1) as nat) - (name_len + 1));
    push_zeros(out, fill);
    assert(out@ =~= base + flat_open(t.name));
    let ghost opened = out@;
    let mut i: usize = 0;
    assert(t.props.take(0) =~= Seq::<PropView>::empty());
    assert(out@ =~= opened + flat_props(t.props.take(0), strings@));
    while i < node.props.len()
        invariant
            i <= node.props@.len(),
            strings@.len() < 0x1_0000_0000,
            t == tree(*node),
            storable(t, strings@),
            out@ == opened + flat_props(t.props.take(i as int), strings@),
        decreases node.props@.len() - i,
    {
        let ghost sofar = flat_props(t.props.take(i as int), strings@);
        assert(storable_prop(t.props[i as int], strings@));
        write_prop(out, &node.props[i], strings);
        proof {
            lemma_flat_props_push(t.props, i as int, strings@);
            assert((opened + sofar) + flat_prop(t.props[i as int], strings@) =~= opened + (sofar
                + flat_prop(t.props[i as int], strings@)));
        }
        i = i + 1;
    }
    assert(t.props.take(t.props.len() as int) =~= t.props);
    let ghost filled = out@;
    proof {
        lemma_forest(node.children@);
        assert(t.children.take(0) =~= Seq::<Tree>::empty());
        assert(out@ =~= filled + flat_forest(t.children.take(0), strings@));
    }
    let mut k: usize = 0;
    while k < node.children.len()
        invariant
            k <= node.children@.len(),
            strings@.len() < 0x1_0000_0000,
            t == tree(*node),
            storable(t, strings@),
            t.children.len() == node.children@.len(),
            forall|i: int|
                0 <= i < node.children@.len() ==> #[trigger] t.children[i] == tree(
                    node.children@[i],
                ),
            out@ == filled + flat_forest(t.children.take(k as int), strings@),
        decreases node.children@.len() - k,
    {
        let ghost sofar = flat_forest(t.children.take(k as int), strings@);
        proof {
            lemma_storable_forest(t.children, strings@);
            assert(storable(t.children[k as int], strings@));
        }
        write_node(out, &node.children[k], strings);
        proof {
            assert(t.children.take(k + 1).drop_last() =~= t.children.take(k as int));
            assert((filled + sofar) + flat_node(t.children[k as int], strings@) =~= filled + (sofar
                + flat_node(t.children[k as int], strings@)));
        }
        k = k + 1;
    }
    assert(t.children.take(t.children.len() as int) =~= t.children);
    push_be32(out, END_NODE);
    assert(out@ =~= base + flat_node(t, strings@));
}

/// Appends the structure block of a tree.
pub fn write_tree(out: &mut Vec<u8>, node: &Node, strings: &[u8])
    requires
        strings@.len() < 0x1_0000_0000,
        storable(tree(*node), strings@),
    ensures
        final(out)@ =~= old(out)@ + flat_tree(tree(*node), strings@),
{
    proof {
        reveal(flat_tree);
    }
    write_node(out, node, strings);
    push_be32(out, END);
}

} // verus!
