//! Device-tree blobs: opened, edited in place within a fixed capacity, and packed again.
use vstd::prelude::*;
use vstd::string::*;
#[allow(unused_imports)]
use vstd::utf8::{decode_utf8, encode_utf8, valid_utf8};

#[allow(unused_imports)]
use crate::bytes::{be32, be32_round_trip, un_be32, un_be64};
use crate::bytes::{bytes_between, push_all, push_be32, read_be32, read_be64};
use crate::error::{Error, Result};
use crate::fdt_codec::{find_name, read_tree, round4, write_tree};
#[allow(unused_imports)]
use crate::fdt_edit::{
    child_from, component, has_node, lemma_node_storable, lemma_prop_fits, lemma_prop_from,
    lemma_prop_known, lemma_storable_grows, lemma_with_child, lemma_with_node_size,
    lemma_with_node_storable, lemma_with_prop, node_at, places, prop_from, prop_growth, prop_of,
    resolve, skip_slashes, with_child, with_name, with_node, with_prop,
};
use crate::fdt_edit::{find_child, find_node, find_node_mut, find_prop, NodeId};
#[allow(unused_imports)]
use crate::fdt_laws::lemma_resolve_valid;
#[allow(unused_imports)]
use crate::fdt_tree::{
    align4, c_len, flat_tree, forest, has_name_at, knows, lemma_forest, lemma_parsed_tree,
    lemma_tree_size, name_offset, no_zero, node_size, offset_from, parse_tree, prop_views, storable,
    tree, tree_extent, tree_round_trip, zeros, PropView, Tree,
};
use crate::fdt_tree::{Node, Prop};
#[allow(unused_imports)]
use crate::text::dec;
use crate::text::push_dec;

verus! {

pub const MAGIC: u32 = 0xd00d_feed;

/// The version that is written.
pub const VERSION: u32 = 17;

/// The oldest version that is read: its header does not say how long the structure block is.
pub const OLDEST_VERSION: u32 = 16;

/// The size of the header.
pub const HEADER: usize = 40;

/// No blob is larger than this.
pub const MAX_SIZE: usize = 0x7fff_ffff;

// ---------------------------------------------------------------------------
// What a blob holds
// ---------------------------------------------------------------------------

/// Why an operation on a blob fails.
#[derive(Clone, Copy, Debug, PartialEq, Eq, Structural)]
pub enum FdtErr {
    Exists,
    NoSpace,
    BadOffset,
    BadPath,
    Truncated,
    BadMagic,
    BadVersion,
    BadStructure,
}

impl FdtErr {
    pub open spec fn text(self) -> Seq<char> {
        match self {
            FdtErr::Exists => "FDT_ERR_EXISTS"@,
            FdtErr::NoSpace => "FDT_ERR_NOSPACE"@,
            FdtErr::BadOffset => "FDT_ERR_BADOFFSET"@,
            FdtErr::BadPath => "FDT_ERR_BADPATH"@,
            FdtErr::Truncated => "FDT_ERR_TRUNCATED"@,
            FdtErr::BadMagic => "FDT_ERR_BADMAGIC"@,
            FdtErr::BadVersion => "FDT_ERR_BADVERSION"@,
            FdtErr::BadStructure => "FDT_ERR_BADSTRUCTURE"@,
        }
    }

    /// The name of the error.
    pub fn name(self) -> (s: &'static str)
        ensures
            s@ == self.text(),
    {
        match self {
            FdtErr::Exists => "FDT_ERR_EXISTS",
            FdtErr::NoSpace => "FDT_ERR_NOSPACE",
            FdtErr::BadOffset => "FDT_ERR_BADOFFSET",
            FdtErr::BadPath => "FDT_ERR_BADPATH",
            FdtErr::Truncated => "FDT_ERR_TRUNCATED",
            FdtErr::BadMagic => "FDT_ERR_BADMAGIC",
            FdtErr::BadVersion => "FDT_ERR_BADVERSION",
            FdtErr::BadStructure => "FDT_ERR_BADSTRUCTURE",
        }
    }
}

/// A failed operation: what was tried, and what went wrong.
pub struct Fault {
    pub op: Seq<char>,
    pub message: Seq<char>,
}

pub open spec fn fault(op: Seq<char>, e: FdtErr) -> Fault {
    Fault { op, message: e.text() }
}

/// `op(arg)`
pub open spec fn call(op: Seq<char>, arg: Seq<char>) -> Seq<char> {
    op + "("@ + arg + ")"@
}

/// A blob that is open for editing.
pub struct Dtb {
    /// The root node.
    pub tree: Tree,
    /// The strings block.
    pub strings: Seq<u8>,
    /// The memory reservation block, with the entry that ends it.
    pub reserve: Seq<u8>,
    pub boot_cpu: u32,
    pub last_compatible: u32,
    /// The bytes in use.
    pub used: nat,
    /// The bytes that may be in use.
    pub capacity: nat,
}

/// The length of the reservation block at `off`: up to and with its first entry of size zero.
pub open spec fn reserve_len(b: Seq<u8>, off: nat) -> Option<nat>
    decreases b.len() - off,
{
    if off + 16 > b.len() {
        None
    } else if un_be64(b.skip((off + 8) as int)) == 0 {
        Some(16)
    } else {
        match reserve_len(b, off + 16) {
            Some(n) => Some(16 + n),
            None => None,
        }
    }
}

/// The bytes that the blob takes once packed.
pub open spec fn packed_size(d: Dtb) -> nat {
    HEADER as nat + d.reserve.len() + (node_size(d.tree) + 4) + d.strings.len()
}

/// A blob that can be packed and read again.
pub open spec fn sane(d: Dtb) -> bool {
    &&& storable(d.tree, d.strings)
    &&& reserve_len(d.reserve, 0) == Some(d.reserve.len())
    &&& d.last_compatible <= VERSION
    &&& packed_size(d) <= d.used <= d.capacity <= MAX_SIZE
}

/// The `k`th word of the header.
pub open spec fn header_word(b: Seq<u8>, k: int) -> nat {
    un_be32(b.skip(4 * k))
}

/// How many bytes there are for the structure block: as many as the header says, or, where it does
/// not say, all that follow.
pub open spec fn struct_room(b: Seq<u8>) -> nat {
    if header_word(b, 5) >= VERSION {
        header_word(b, 9)
    } else if header_word(b, 2) <= header_word(b, 1) {
        (header_word(b, 1) - header_word(b, 2)) as nat
    } else {
        0
    }
}

/// The blocks stand in the usual order and do not overlap.
pub open spec fn in_order(b: Seq<u8>, reserve: nat, size_struct: nat) -> bool {
    let off_struct = header_word(b, 2);
    let off_strings = header_word(b, 3);
    let off_reserve = header_word(b, 4);
    &&& off_reserve >= HEADER
    &&& off_struct >= off_reserve + reserve
    &&& off_strings >= off_struct + size_struct
    &&& header_word(b, 1) >= off_strings + header_word(b, 8)
}

/// What the bytes of a blob hold. The whole of `b` is the room that editing may use.
pub open spec fn parse_dtb(b: Seq<u8>) -> core::result::Result<Dtb, FdtErr> {
    let total = header_word(b, 1);
    let off_struct = header_word(b, 2);
    let off_strings = header_word(b, 3);
    let off_reserve = header_word(b, 4);
    let size_strings = header_word(b, 8);
    let room = struct_room(b);
    if b.len() < HEADER {
        Err(FdtErr::Truncated)
    } else if header_word(b, 0) != MAGIC {
        Err(FdtErr::BadMagic)
    } else if header_word(b, 5) < OLDEST_VERSION || header_word(b, 6) > VERSION {
        Err(FdtErr::BadVersion)
    } else if b.len() > MAX_SIZE || total > b.len() {
        Err(FdtErr::NoSpace)
    } else if off_struct + room > total || off_strings + size_strings > total {
        Err(FdtErr::Truncated)
    } else {
        match reserve_len(b.take(total as int), off_reserve) {
            None => Err(FdtErr::Truncated),
            Some(reserve) => {
                let strings = b.subrange(off_strings as int, (off_strings + size_strings) as int);
                let blocks = b.subrange(off_struct as int, (off_struct + room) as int);
                let size_struct = if header_word(b, 5) >= VERSION {
                    room
                } else {
                    tree_extent(blocks, strings)
                };
                let tight = HEADER as nat + reserve + size_struct + size_strings;
                let used = if in_order(b, reserve, size_struct) {
                    off_strings + size_strings
                } else {
                    tight
                };
                match parse_tree(blocks, strings) {
                    None => Err(FdtErr::BadStructure),
                    Some(tree) => if used > b.len() {
                        Err(FdtErr::NoSpace)
                    } else {
                        Ok(
                            Dtb {
                                tree,
                                strings,
                                reserve: b.subrange(
                                    off_reserve as int,
                                    (off_reserve + reserve) as int,
                                ),
                                boot_cpu: header_word(b, 7) as u32,
                                last_compatible: header_word(b, 6) as u32,
                                used,
                                capacity: b.len(),
                            },
                        )
                    },
                }
            },
        }
    }
}

/// The header of a packed blob.
#[verifier::opaque]
pub open spec fn flat_header(d: Dtb) -> Seq<u8> {
    let size_struct = node_size(d.tree) + 4;
    let off_struct = HEADER as nat + d.reserve.len();
    be32(MAGIC as nat) + be32(packed_size(d)) + be32(off_struct) + be32(off_struct + size_struct)
        + be32(HEADER as nat) + be32(VERSION as nat) + be32(d.last_compatible as nat) + be32(
        d.boot_cpu as nat,
    ) + be32(d.strings.len()) + be32(size_struct)
}

/// The bytes of a packed blob.
pub open spec fn flat_dtb(d: Dtb) -> Seq<u8> {
    flat_header(d) + d.reserve + flat_tree(d.tree, d.strings) + d.strings
}

/// The same blob without room to spare.
pub open spec fn packed(d: Dtb) -> Dtb {
    Dtb { used: packed_size(d), capacity: packed_size(d), ..d }
}

// ---------------------------------------------------------------------------
// Edits
// ---------------------------------------------------------------------------

/// What a name with a zero byte in it is refused with.
pub open spec fn nul_message(name: Seq<char>) -> Seq<char> {
    "nul byte found in provided data at position: "@ + dec(c_len(encode_utf8(name)))
}

pub open spec fn has_nul(name: Seq<char>) -> bool {
    c_len(encode_utf8(name)) < encode_utf8(name).len()
}

/// The path that another name stands for: the property of that name of `/aliases`, where it holds a
/// path that ends with a zero byte.
pub open spec fn alias_of(t: Tree, name: Seq<u8>) -> Option<Seq<u8>> {
    match resolve(t, encode_utf8("/aliases"@)) {
        Some(p) => match prop_of(node_at(t, p), name) {
            Some(v) => if v.len() > 0 && v[0] == 0x2f && v.last() == 0 {
                Some(v.take(c_len(v) as int))
            } else {
                None
            },
            None => None,
        },
        None => None,
    }
}

/// Where a path leads whose first component is another name for a path; `None` where it is none.
pub open spec fn resolve_alias(t: Tree, path: Seq<u8>) -> Option<Option<Seq<int>>> {
    let name = component(path);
    match alias_of(t, name) {
        Some(target) => Some(
            match resolve(t, target) {
                Some(p) => match resolve(node_at(t, p), path.skip(name.len() as int)) {
                    Some(q) => Some(p + q),
                    None => None,
                },
                None => None,
            },
        ),
        None => None,
    }
}

/// Where a path leads.
pub open spec fn dtb_path(d: Dtb, path: Seq<char>) -> core::result::Result<
    Option<Seq<int>>,
    Fault,
> {
    let bytes = encode_utf8(path);
    if has_nul(path) {
        Err(Fault { op: call("path_offset"@, path), message: nul_message(path) })
    } else if bytes.len() == 0 {
        Err(fault(call("path_offset"@, path), FdtErr::BadPath))
    } else if bytes[0] == 0x2f {
        Ok(resolve(d.tree, bytes))
    } else {
        match resolve_alias(d.tree, bytes) {
            Some(p) => Ok(p),
            None => Err(fault(call("path_offset"@, path), FdtErr::BadPath)),
        }
    }
}

/// A node of a subtree is a node of the tree.
proof fn lemma_below(t: Tree, p: Seq<int>, q: Seq<int>)
    requires
        has_node(t, p),
        has_node(node_at(t, p), q),
    ensures
        has_node(t, p + q),
    decreases p.len(),
{
    if p.len() == 0 {
        assert(p + q =~= q);
    } else {
        lemma_below(t.children[p[0]], p.skip(1), q);
        assert((p + q).skip(1) =~= p.skip(1) + q);
    }
}

/// A path leads to a node.
pub proof fn lemma_path_valid(d: Dtb, path: Seq<char>)
    ensures
        dtb_path(d, path) matches Ok(Some(p)) ==> has_node(d.tree, p),
{
    let bytes = encode_utf8(path);
    lemma_resolve_valid(d.tree, bytes);
    let name = component(bytes);
    if let Some(target) = alias_of(d.tree, name) {
        lemma_resolve_valid(d.tree, target);
        if let Some(p) = resolve(d.tree, target) {
            let rest = bytes.skip(name.len() as int);
            lemma_resolve_valid(node_at(d.tree, p), rest);
            if let Some(q) = resolve(node_at(d.tree, p), rest) {
                lemma_below(d.tree, p, q);
            }
        }
    }
}

/// The blob with a new node, and where that stands.
pub open spec fn dtb_add(d: Dtb, parent: Seq<int>, name: Seq<char>) -> core::result::Result<
    (Dtb, Seq<int>),
    Fault,
> {
    let bytes = encode_utf8(name);
    let op = call("fdt_add_subnode"@, name);
    let growth = 8 + align4(bytes.len() + 1);
    if has_nul(name) {
        Err(Fault { op: "fdt_add_subnode"@, message: nul_message(name) })
    } else if !has_node(d.tree, parent) {
        Err(fault(op, FdtErr::BadOffset))
    } else {
        let node = node_at(d.tree, parent);
        if child_from(node.children, bytes, 0) < node.children.len() {
            Err(fault(op, FdtErr::Exists))
        } else if d.used + growth > d.capacity {
            Err(fault(op, FdtErr::NoSpace))
        } else {
            Ok(
                (
                    Dtb {
                        tree: with_node(d.tree, parent, with_child(node, bytes)),
                        used: d.used + growth,
                        ..d
                    },
                    parent.push(0),
                ),
            )
        }
    }
}

/// The blob with a node renamed.
pub open spec fn dtb_rename(d: Dtb, node: Seq<int>, name: Seq<char>) -> core::result::Result<
    Dtb,
    Fault,
> {
    let bytes = encode_utf8(name);
    let op = call("fdt_set_name"@, name);
    if has_nul(name) {
        Err(Fault { op: "fdt_set_name"@, message: nul_message(name) })
    } else if !has_node(d.tree, node) {
        Err(fault(op, FdtErr::BadOffset))
    } else {
        let old = node_at(d.tree, node);
        let used = d.used - align4(old.name.len() + 1) + align4(bytes.len() + 1);
        if used > d.capacity {
            Err(fault(op, FdtErr::NoSpace))
        } else {
            Ok(
                Dtb {
                    tree: with_node(d.tree, node, with_name(old, bytes)),
                    used: used as nat,
                    ..d
                },
            )
        }
    }
}

/// The blob with a property set. A name that the strings block does not know is added to it.
pub open spec fn dtb_setprop(
    d: Dtb,
    node: Seq<int>,
    name: Seq<char>,
    value: Seq<u8>,
) -> core::result::Result<Dtb, Fault> {
    let bytes = encode_utf8(name);
    let op = call("fdt_setprop"@, name);
    if has_nul(name) {
        Err(Fault { op: "fdt_setprop"@, message: nul_message(name) })
    } else if !has_node(d.tree, node) {
        Err(fault(op, FdtErr::BadOffset))
    } else {
        let old = node_at(d.tree, node);
        let fresh = prop_of(old, bytes) is None && name_offset(d.strings, bytes) == d.strings.len();
        let strings = if fresh {
            d.strings + bytes + seq![0u8]
        } else {
            d.strings
        };
        let used = d.used + (strings.len() - d.strings.len()) + prop_growth(old, bytes, value);
        if used > d.capacity {
            Err(fault(op, FdtErr::NoSpace))
        } else {
            Ok(
                Dtb {
                    tree: with_node(d.tree, node, with_prop(old, bytes, value)),
                    strings,
                    used: used as nat,
                    ..d
                },
            )
        }
    }
}

/// The four bytes of a phandle property, where a node has one of that size.
pub open spec fn phandle_in(t: Tree, name: Seq<u8>) -> Option<nat> {
    match prop_of(t, name) {
        Some(v) => if v.len() == 4 {
            Some(un_be32(v))
        } else {
            None
        },
        None => None,
    }
}

/// The phandle of a node, or zero.
pub open spec fn phandle_of(t: Tree) -> nat {
    match phandle_in(t, encode_utf8("phandle"@)) {
        Some(n) => n,
        None => match phandle_in(t, encode_utf8("linux,phandle"@)) {
            Some(n) => n,
            None => 0,
        },
    }
}

pub open spec fn max_nat(a: nat, b: nat) -> nat {
    if a >= b {
        a
    } else {
        b
    }
}

/// The largest phandle in a tree, or zero.
pub open spec fn max_phandle(t: Tree) -> nat
    decreases t,
{
    max_nat(phandle_of(t), max_phandle_in(t.children))
}

pub open spec fn max_phandle_in(trees: Seq<Tree>) -> nat
    decreases trees,
{
    if trees.len() == 0 {
        0
    } else {
        max_nat(max_phandle_in(trees.drop_last()), max_phandle(trees.last()))
    }
}

// ---------------------------------------------------------------------------
// Packing and reading back
// ---------------------------------------------------------------------------

proof fn lemma_reserve(b: Seq<u8>, off: nat)
    requires
        reserve_len(b, off) is Some,
    ensures
        ({
            let n = reserve_len(b, off)->0;
            &&& 16 <= n
            &&& off + n <= b.len()
            &&& reserve_len(b.subrange(off as int, (off + n) as int), 0) == Some(n)
        }),
    decreases b.len() - off,
{
    let n = reserve_len(b, off)->0;
    if un_be64(b.skip((off + 8) as int)) != 0 {
        lemma_reserve(b, off + 16);
    }
    lemma_reserve_part(b, off, n, 0);
}

/// The reservation block reads the same when it stands alone.
proof fn lemma_reserve_part(b: Seq<u8>, start: nat, n: nat, k: nat)
    requires
        start + n <= b.len(),
        k <= n,
        reserve_len(b, start + k) == Some((n - k) as nat),
    ensures
        reserve_len(b.subrange(start as int, (start + n) as int), k) == Some((n - k) as nat),
    decreases n - k,
{
    let part = b.subrange(start as int, (start + n) as int);
    let off = start + k;
    assert(n - k >= 16) by {
        if un_be64(b.skip((off + 8) as int)) != 0 {
            assert(reserve_len(b, off + 16) is Some);
        }
    }
    assert(un_be64(part.skip((k + 8) as int)) == un_be64(b.skip((off + 8) as int))) by {
        let x = part.skip((k + 8) as int);
        let y = b.skip((off + 8) as int);
        assert forall|i: int| 0 <= i < 8 implies x[i] == y[i] by {}
        assert forall|i: int| 0 <= i < 4 implies x.skip(4)[i] == y.skip(4)[i] by {}
    }
    if un_be64(b.skip((off + 8) as int)) != 0 {
        lemma_reserve_part(b, start, n, k + 16);
    }
}

/// What was read can be packed again.
pub proof fn lemma_parsed_sane(b: Seq<u8>)
    requires
        parse_dtb(b) is Ok,
    ensures
        sane(parse_dtb(b)->Ok_0),
{
    let d = parse_dtb(b)->Ok_0;
    let total = header_word(b, 1);
    let off_struct = header_word(b, 2);
    let blocks = b.subrange(off_struct as int, (off_struct + struct_room(b)) as int);
    let off_reserve = header_word(b, 4);
    lemma_reserve(b.take(total as int), off_reserve);
    lemma_parsed_tree(blocks, d.strings);
    let n = reserve_len(b.take(total as int), off_reserve)->0;
    assert(b.take(total as int).subrange(off_reserve as int, (off_reserve + n) as int)
        =~= d.reserve);
}

proof fn lemma_word(prefix: Seq<u8>, n: nat, rest: Seq<u8>, k: int)
    requires
        prefix.len() == 4 * k,
        n < 0x1_0000_0000,
    ensures
        header_word(prefix + (be32(n) + rest), k) == n,
{
    assert((prefix + (be32(n) + rest)).skip(4 * k) =~= be32(n) + rest);
    be32_round_trip(n, rest);
}

proof fn lemma_move(prefix: Seq<u8>, n: nat, rest: Seq<u8>)
    ensures
        (prefix + be32(n)) + rest == prefix + (be32(n) + rest),
{
    assert((prefix + be32(n)) + rest =~= prefix + (be32(n) + rest));
}

/// The header is ten words: the mark, the whole length, where the tree, the names and the
/// reservations lie, two versions, the processor that boots, and the lengths of the names and of the
/// tree. Behind it come the reservations, the tree and the names.
pub proof fn how_a_blob_is_laid_out(d: Dtb)
    requires
        sane(d),
    ensures
        ({
            let b = flat_dtb(d);
            let tree = flat_tree(d.tree, d.strings);
            let start = 40 + d.reserve.len();
            &&& b.len() == start + tree.len() + d.strings.len()
            &&& b.subrange(40, start as int) == d.reserve
            &&& b.subrange(start as int, (start + tree.len()) as int) == tree
            &&& b.skip((start + tree.len()) as int) == d.strings
            &&& header_word(b, 0) == 0xd00d_feed
            &&& header_word(b, 1) == b.len()
            &&& header_word(b, 2) == start
            &&& header_word(b, 3) == start + tree.len()
            &&& header_word(b, 4) == 40
            &&& header_word(b, 5) == 17
            &&& header_word(b, 6) == d.last_compatible
            &&& header_word(b, 7) == d.boot_cpu
            &&& header_word(b, 8) == d.strings.len()
            &&& header_word(b, 9) == tree.len()
        }),
{
    let tree = flat_tree(d.tree, d.strings);
    let body = d.reserve + tree + d.strings;
    lemma_header(d, body);
    lemma_tree_size(d.tree, d.strings);
    assert(flat_dtb(d) =~= flat_header(d) + body);
}

/// The header of a packed blob reads back word by word.
proof fn lemma_header(d: Dtb, body: Seq<u8>)
    requires
        sane(d),
    ensures
        ({
            let b = flat_header(d) + body;
            let size_struct = node_size(d.tree) + 4;
            let off_struct = HEADER as nat + d.reserve.len();
            &&& flat_header(d).len() == HEADER
            &&& header_word(b, 0) == MAGIC as nat
            &&& header_word(b, 1) == packed_size(d)
            &&& header_word(b, 2) == off_struct
            &&& header_word(b, 3) == off_struct + size_struct
            &&& header_word(b, 4) == HEADER as nat
            &&& header_word(b, 5) == VERSION as nat
            &&& header_word(b, 6) == d.last_compatible as nat
            &&& header_word(b, 7) == d.boot_cpu as nat
            &&& header_word(b, 8) == d.strings.len()
            &&& header_word(b, 9) == size_struct
        }),
{
    reveal(flat_header);
    let size_struct = node_size(d.tree) + 4;
    let off_struct = HEADER as nat + d.reserve.len();
    let p0 = Seq::<u8>::empty();
    let p1 = p0 + be32(MAGIC as nat);
    let p2 = p1 + be32(packed_size(d));
    let p3 = p2 + be32(off_struct);
    let p4 = p3 + be32(off_struct + size_struct);
    let p5 = p4 + be32(HEADER as nat);
    let p6 = p5 + be32(VERSION as nat);
    let p7 = p6 + be32(d.last_compatible as nat);
    let p8 = p7 + be32(d.boot_cpu as nat);
    let p9 = p8 + be32(d.strings.len());
    let p10 = p9 + be32(size_struct);
    assert(p1 =~= be32(MAGIC as nat));
    let b = p10 + body;
    let r9 = body;
    lemma_move(p9, size_struct, r9);
    lemma_word(p9, size_struct, r9, 9);
    let r8 = be32(size_struct) + r9;
    lemma_move(p8, d.strings.len(), r8);
    lemma_word(p8, d.strings.len(), r8, 8);
    let r7 = be32(d.strings.len()) + r8;
    lemma_move(p7, d.boot_cpu as nat, r7);
    lemma_word(p7, d.boot_cpu as nat, r7, 7);
    let r6 = be32(d.boot_cpu as nat) + r7;
    lemma_move(p6, d.last_compatible as nat, r6);
    lemma_word(p6, d.last_compatible as nat, r6, 6);
    let r5 = be32(d.last_compatible as nat) + r6;
    lemma_move(p5, VERSION as nat, r5);
    lemma_word(p5, VERSION as nat, r5, 5);
    let r4 = be32(VERSION as nat) + r5;
    lemma_move(p4, HEADER as nat, r4);
    lemma_word(p4, HEADER as nat, r4, 4);
    let r3 = be32(HEADER as nat) + r4;
    lemma_move(p3, off_struct + size_struct, r3);
    lemma_word(p3, off_struct + size_struct, r3, 3);
    let r2 = be32(off_struct + size_struct) + r3;
    lemma_move(p2, off_struct, r2);
    lemma_word(p2, off_struct, r2, 2);
    let r1 = be32(off_struct) + r2;
    lemma_move(p1, packed_size(d), r1);
    lemma_word(p1, packed_size(d), r1, 1);
    let r0 = be32(packed_size(d)) + r1;
    lemma_move(p0, MAGIC as nat, r0);
    lemma_word(p0, MAGIC as nat, r0, 0);
}

/// Where the four parts of a blob stand.
proof fn lemma_parts(h: Seq<u8>, r: Seq<u8>, t: Seq<u8>, s: Seq<u8>)
    ensures
        ({
            let b = h + r + t + s;
            let x = h.len() as int;
            let y = x + r.len();
            let z = y + t.len();
            let e = z + s.len();
            &&& b.len() == e
            &&& b == h + (r + t + s)
            &&& b.subrange(x, y) == r
            &&& b.subrange(y, z) == t
            &&& b.subrange(z, e) == s
            &&& b.take(e) == b
        }),
{
    let b = h + r + t + s;
    let x = h.len() as int;
    let y = x + r.len();
    let z = y + t.len();
    let e = z + s.len();
    assert(b =~= h + (r + t + s));
    assert(b.subrange(x, y) =~= r);
    assert(b.subrange(y, z) =~= t);
    assert(b.subrange(z, e) =~= s);
    assert(b.take(e) =~= b);
}

/// Opening a packed blob gives back what was packed.
pub proof fn pack_round_trip(d: Dtb)
    requires
        sane(d),
    ensures
        flat_dtb(d).len() == packed_size(d),
        parse_dtb(flat_dtb(d)) == core::result::Result::<Dtb, FdtErr>::Ok(packed(d)),
{
    let b = flat_dtb(d);
    let blocks = flat_tree(d.tree, d.strings);
    let size_struct = node_size(d.tree) + 4;
    let off_struct = HEADER as nat + d.reserve.len();
    assert(blocks.len() == size_struct) by {
        lemma_tree_size(d.tree, d.strings);
    }
    lemma_header(d, d.reserve + blocks + d.strings);
    lemma_parts(flat_header(d), d.reserve, blocks, d.strings);
    assert(parse_tree(blocks, d.strings) == Some(d.tree)) by {
        tree_round_trip(d.tree, d.strings);
    }
    assert(reserve_len(b, HEADER as nat) == Some(d.reserve.len())) by {
        lemma_reserve_inside(b, d.reserve, HEADER as nat, 0);
    }
    assert(in_order(b, d.reserve.len(), size_struct));
}

/// A reservation block reads the same inside a blob.
proof fn lemma_reserve_inside(b: Seq<u8>, part: Seq<u8>, start: nat, k: nat)
    requires
        start + part.len() <= b.len(),
        b.subrange(start as int, (start + part.len()) as int) == part,
        k <= part.len(),
        reserve_len(part, k) == Some((part.len() - k) as nat),
    ensures
        reserve_len(b, start + k) == Some((part.len() - k) as nat),
    decreases part.len() - k,
{
    assert(part.len() - k >= 16) by {
        if un_be64(part.skip((k + 8) as int)) != 0 {
            assert(reserve_len(part, k + 16) is Some);
        }
    }
    assert(un_be64(part.skip((k + 8) as int)) == un_be64(b.skip((start + k + 8) as int))) by {
        let x = part.skip((k + 8) as int);
        let y = b.skip((start + k + 8) as int);
        let sub = b.subrange(start as int, (start + part.len()) as int);
        assert forall|i: int| 0 <= i < 8 implies x[i] == y[i] by {
            assert(sub[k + 8 + i] == b[start + k + 8 + i]);
        }
        assert forall|i: int| 0 <= i < 4 implies x.skip(4)[i] == y.skip(4)[i] by {
            assert(x[i + 4] == y[i + 4]);
        }
    }
    if un_be64(part.skip((k + 8) as int)) != 0 {
        lemma_reserve_inside(b, part, start, k + 16);
    }
}

// ---------------------------------------------------------------------------
// The code
// ---------------------------------------------------------------------------

/// An open blob.
pub struct Fdt {
    root: Node,
    strings: Vec<u8>,
    reserve: Vec<u8>,
    boot_cpu: u32,
    last_compatible: u32,
    used: usize,
    capacity: usize,
}

impl View for Fdt {
    type V = Dtb;

    closed spec fn view(&self) -> Dtb {
        Dtb {
            tree: tree(self.root),
            strings: self.strings@,
            reserve: self.reserve@,
            boot_cpu: self.boot_cpu,
            last_compatible: self.last_compatible,
            used: self.used as nat,
            capacity: self.capacity as nat,
        }
    }
}

/// A result that fails as `expected` does.
pub open spec fn fails_as<T>(r: Result<T>, f: Fault) -> bool {
    r matches Err(e) && e.is_fdt(f.op, f.message)
}

/// `op(arg)` as a string.
fn call_text(op: &str, arg: &str) -> (s: String)
    ensures
        s@ == call(op@, arg@),
{
    let mut s: String = op.to_owned();
    s.append("(");
    s.append(arg);
    s.append(")");
    s
}

/// How many bytes come before the first zero byte.
fn nul_position(bytes: &[u8]) -> (n: usize)
    ensures
        n == c_len(bytes@),
        n <= bytes@.len(),
        n == bytes@.len() ==> no_zero(bytes@),
{
    let mut n: usize = 0;
    assert(bytes@.skip(0) =~= bytes@);
    while n < bytes.len() && bytes[n] != 0
        invariant
            n <= bytes@.len(),
            c_len(bytes@) == n + c_len(bytes@.skip(n as int)),
            forall|i: int| 0 <= i < n ==> #[trigger] bytes@[i] != 0,
        decreases bytes@.len() - n,
    {
        assert(bytes@.skip(n as int).skip(1) =~= bytes@.skip(n + 1));
        n = n + 1;
    }
    n
}

fn nul_error(op: &str, position: usize) -> (e: Error)
    ensures
        e.is_fdt(op@, "nul byte found in provided data at position: "@ + dec(position as nat)),
{
    let mut message: String = "nul byte found in provided data at position: ".to_owned();
    push_dec(&mut message, position as u64);
    Error::fdt(op, message.as_str())
}

fn fdt_error(op: &str, e: FdtErr) -> (r: Error)
    ensures
        r.is_fdt(op@, e.text()),
{
    Error::fdt(op, e.name())
}

/// The index behind the slashes at `from`.
fn slashes_end(b: &[u8], from: usize) -> (i: usize)
    requires
        from <= b@.len(),
    ensures
        from <= i <= b@.len(),
        skip_slashes(b@.skip(from as int)) == b@.skip(i as int),
        i < b@.len() ==> b@[i as int] != 0x2f,
{
    let mut i: usize = from;
    while i < b.len() && b[i] == 0x2f
        invariant
            from <= i <= b@.len(),
            skip_slashes(b@.skip(from as int)) == skip_slashes(b@.skip(i as int)),
        decreases b@.len() - i,
    {
        assert(b@.skip(i as int).skip(1) =~= b@.skip(i + 1));
        i = i + 1;
    }
    i
}

/// The index of the next slash at or behind `from`, or the end.
fn component_end(b: &[u8], from: usize) -> (i: usize)
    requires
        from <= b@.len(),
    ensures
        from <= i <= b@.len(),
        component(b@.skip(from as int)) == b@.subrange(from as int, i as int),
        from < b@.len() && b@[from as int] != 0x2f ==> from < i,
{
    let mut i: usize = from;
    while i < b.len() && b[i] != 0x2f
        invariant
            from <= i <= b@.len(),
            component(b@.skip(from as int)) == b@.subrange(from as int, i as int) + component(
                b@.skip(i as int),
            ),
        decreases b@.len() - i,
    {
        proof {
            let here = b@.skip(i as int);
            assert(here.skip(1) =~= b@.skip(i + 1));
            assert(b@.subrange(from as int, i as int) + (seq![here[0]] + component(here.skip(1)))
                =~= b@.subrange(from as int, i + 1) + component(here.skip(1)));
        }
        i = i + 1;
    }
    assert(b@.subrange(from as int, i as int) + Seq::<u8>::empty() =~= b@.subrange(
        from as int,
        i as int,
    ));
    i
}

/// The places taken so far, in front of those that are still to be taken.
spec fn with_places(taken: Seq<int>, more: Option<Seq<int>>) -> Option<Seq<int>> {
    match more {
        Some(m) => Some(taken + m),
        None => None,
    }
}

/// Where `path` leads from `root`.
fn resolve_path(root: &Node, path: &[u8]) -> (r: Option<NodeId>)
    ensures
        match r {
            Some(id) => resolve(tree(*root), path@) == Some(id@),
            None => resolve(tree(*root), path@) is None,
        },
{
    let ghost whole = resolve(tree(*root), path@);
    let mut taken: Vec<usize> = Vec::new();
    let mut node: &Node = root;
    let mut pos: usize = 0;
    proof {
        assert(path@.skip(0) =~= path@);
        if let Some(m) = whole {
            assert(places(taken@) + m =~= m);
        }
    }
    loop
        invariant
            pos <= path@.len(),
            whole == resolve(tree(*root), path@),
            whole == with_places(places(taken@), resolve(tree(*node), path@.skip(pos as int))),
        decreases path@.len() - pos,
    {
        let start: usize = slashes_end(path, pos);
        if start == path.len() {
            assert(places(taken@) + Seq::<int>::empty() =~= places(taken@));
            return Some(NodeId { path: taken });
        }
        let end: usize = component_end(path, start);
        let name: Vec<u8> = bytes_between(path, start, end);
        let i: usize = find_child(&node.children, name.as_slice());
        proof {
            lemma_forest(node.children@);
            assert(path@.skip(start as int).skip(end - start) =~= path@.skip(end as int));
        }
        if i >= node.children.len() {
            return None;
        }
        proof {
            let tail = resolve(tree(node.children@[i as int]), path@.skip(end as int));
            if let Some(m) = tail {
                assert(places(taken@.push(i)) + m =~= places(taken@) + (seq![i as int] + m));
            }
        }
        taken.push(i);
        node = &node.children[i];
        pos = end;
    }
}

/// The path that another name stands for.
fn alias(root: &Node, name: &[u8]) -> (r: Option<Vec<u8>>)
    ensures
        match r {
            Some(target) => alias_of(tree(*root), name@) == Some(target@),
            None => alias_of(tree(*root), name@) is None,
        },
{
    let id: NodeId = match resolve_path(root, "/aliases".as_bytes()) {
        Some(id) => id,
        None => {
            return None;
        },
    };
    proof {
        lemma_resolve_valid(tree(*root), encode_utf8("/aliases"@));
    }
    let node: &Node = match find_node(root, &id) {
        Some(n) => n,
        None => {
            return None;
        },
    };
    let i: usize = find_prop(&node.props, name);
    if i >= node.props.len() {
        return None;
    }
    let value: &Vec<u8> = &node.props[i].value;
    let len: usize = value.len();
    if len == 0 || value[0] != 0x2f || value[len - 1] != 0 {
        return None;
    }
    let end: usize = nul_position(value.as_slice());
    let target: Vec<u8> = bytes_between(value.as_slice(), 0, end);
    assert(target@ =~= value@.take(end as int));
    Some(target)
}

/// Where a path leads that begins with another name for a path.
fn resolve_aliased(root: &Node, path: &[u8]) -> (r: Option<Option<NodeId>>)
    ensures
        match (r, resolve_alias(tree(*root), path@)) {
            (Some(Some(id)), Some(Some(p))) => id@ == p,
            (Some(None), Some(None)) => true,
            (None, None) => true,
            _ => false,
        },
{
    assert(path@.skip(0) =~= path@);
    let end: usize = component_end(path, 0);
    let name: Vec<u8> = bytes_between(path, 0, end);
    assert(name@ =~= component(path@));
    let target: Vec<u8> = match alias(root, name.as_slice()) {
        Some(t) => t,
        None => {
            return None;
        },
    };
    let first: NodeId = match resolve_path(root, target.as_slice()) {
        Some(id) => id,
        None => {
            return Some(None);
        },
    };
    proof {
        lemma_resolve_valid(tree(*root), target@);
    }
    let node: &Node = match find_node(root, &first) {
        Some(n) => n,
        None => {
            return Some(None);
        },
    };
    let rest: Vec<u8> = bytes_between(path, end, path.len());
    assert(rest@ =~= path@.skip(end as int));
    match resolve_path(node, rest.as_slice()) {
        Some(second) => {
            let mut taken: Vec<usize> = first.path;
            let ghost before = taken@;
            let mut i: usize = 0;
            while i < second.path.len()
                invariant
                    i <= second.path@.len(),
                    taken@ =~= before + second.path@.take(i as int),
                decreases second.path@.len() - i,
            {
                taken.push(second.path[i]);
                i = i + 1;
            }
            assert(second.path@.take(i as int) =~= second.path@);
            assert(places(taken@) =~= places(before) + places(second.path@));
            Some(Some(NodeId { path: taken }))
        },
        None => Some(None),
    }
}

/// The length of the reservation block at `off`.
fn reserve_end(b: &[u8], total: usize, off: usize) -> (r: Option<usize>)
    requires
        total <= b@.len(),
    ensures
        match r {
            Some(e) => off <= e <= total && reserve_len(b@.take(total as int), off as nat) == Some(
                (e - off) as nat,
            ),
            None => reserve_len(b@.take(total as int), off as nat) is None,
        },
{
    let ghost all = b@.take(total as int);
    let mut pos: usize = off;
    while pos <= total && total - pos >= 16
        invariant
            off <= pos,
            total <= b@.len(),
            all == b@.take(total as int),
            pos > off ==> pos <= total,
            match reserve_len(all, pos as nat) {
                Some(n) => reserve_len(all, off as nat) == Some((pos - off + n) as nat),
                None => reserve_len(all, off as nat) is None,
            },
        decreases total - pos,
    {
        let size: u64 = read_be64(b, pos + 8);
        assert(un_be64(all.skip(pos + 8)) == un_be64(b@.skip(pos + 8))) by {
            let x = all.skip(pos + 8);
            let y = b@.skip(pos + 8);
            assert forall|i: int| 0 <= i < 8 implies x[i] == y[i] by {}
            assert forall|i: int| 0 <= i < 4 implies x.skip(4)[i] == y.skip(4)[i] by {}
        }
        if size == 0 {
            return Some(pos + 16);
        }
        pos = pos + 16;
    }
    None
}

/// The largest phandle in a tree.
fn largest_phandle(node: &Node) -> (n: u32)
    ensures
        n == max_phandle(tree(*node)),
    decreases node,
{
    let mut max: u32 = phandle(node);
    let mut i: usize = 0;
    proof {
        lemma_forest(node.children@);
        assert(forest(node.children@).take(0) =~= Seq::<Tree>::empty());
    }
    while i < node.children.len()
        invariant
            i <= node.children@.len(),
            forest(node.children@).len() == node.children@.len(),
            forall|k: int|
                0 <= k < node.children@.len() ==> #[trigger] forest(node.children@)[k] == tree(
                    node.children@[k],
                ),
            max == max_nat(
                phandle_of(tree(*node)),
                max_phandle_in(forest(node.children@).take(i as int)),
            ),
        decreases node.children@.len() - i,
    {
        let below: u32 = largest_phandle(&node.children[i]);
        proof {
            let f = forest(node.children@);
            assert(f.take(i + 1).drop_last() =~= f.take(i as int));
            assert(f.take(i + 1).last() == f[i as int]);
        }
        if below > max {
            max = below;
        }
        i = i + 1;
    }
    assert(forest(node.children@).take(node.children@.len() as int) =~= forest(node.children@));
    max
}

/// The value of a four-byte property.
fn phandle_prop(node: &Node, name: &str) -> (n: Option<u32>)
    ensures
        match n {
            Some(v) => phandle_in(tree(*node), encode_utf8(name@)) == Some(v as nat),
            None => phandle_in(tree(*node), encode_utf8(name@)) is None,
        },
{
    let i: usize = find_prop(&node.props, name.as_bytes());
    if i < node.props.len() && node.props[i].value.len() == 4 {
        let value: &Vec<u8> = &node.props[i].value;
        assert(value@.skip(0) =~= value@);
        Some(read_be32(value.as_slice(), 0))
    } else {
        None
    }
}

/// The phandle of a node, or zero.
fn phandle(node: &Node) -> (n: u32)
    ensures
        n == phandle_of(tree(*node)),
{
    match phandle_prop(node, "phandle") {
        Some(n) => n,
        None => match phandle_prop(node, "linux,phandle") {
            Some(n) => n,
            None => 0,
        },
    }
}

/// A property that is there takes less than what is in use.
pub proof fn lemma_prop_bound(d: Dtb, node: Seq<int>, name: Seq<u8>)
    requires
        sane(d),
        has_node(d.tree, node),
    ensures
        prop_of(node_at(d.tree, node), name) matches Some(v) ==> 12 + align4(v.len()) <= d.used,
{
    let t = node_at(d.tree, node);
    lemma_with_node_size(d.tree, node, t);
    let i = prop_from(t.props, name, 0);
    if i < t.props.len() {
        lemma_prop_fits(t.props, i as int);
    }
}

/// Setting a property keeps a blob sane.
pub proof fn lemma_setprop_sane(d: Dtb, node: Seq<int>, name: Seq<char>, value: Seq<u8>)
    requires
        sane(d),
        dtb_setprop(d, node, name, value) is Ok,
        no_zero(encode_utf8(name)),
        value.len() <= MAX_SIZE,
    ensures
        sane(dtb_setprop(d, node, name, value)->Ok_0),
{
    let bytes = encode_utf8(name);
    let t = node_at(d.tree, node);
    let new = dtb_setprop(d, node, name, value)->Ok_0;
    let strings = new.strings;
    lemma_node_storable(d.tree, node, d.strings);
    lemma_prop_from(t.props, bytes, 0);
    let i = prop_from(t.props, bytes, 0);
    if i < t.props.len() {
        lemma_prop_known(t, i as int, strings);
    } else if name_offset(d.strings, bytes) == d.strings.len() {
        let more = bytes + seq![0u8];
        assert(strings =~= d.strings + more);
        lemma_storable_grows(d.tree, d.strings, more);
        lemma_storable_grows(t, d.strings, more);
        let off = d.strings.len() as int;
        assert(strings.subrange(off, off + bytes.len()) =~= bytes);
        assert(has_name_at(strings, bytes, off));
    } else {
        lemma_offset_stands(d.strings, bytes, 0);
    }
    assert(knows(strings, bytes));
    lemma_with_prop(t, bytes, value, strings);
    lemma_with_node_storable(d.tree, node, with_prop(t, bytes, value), strings);
    lemma_with_node_size(d.tree, node, with_prop(t, bytes, value));
}

proof fn lemma_offset_stands(strings: Seq<u8>, name: Seq<u8>, off: nat)
    requires
        offset_from(strings, name, off) != strings.len(),
        off <= strings.len(),
    ensures
        knows(strings, name),
    decreases strings.len() - off,
{
    if off < strings.len() {
        if has_name_at(strings, name, off as int) {
        } else {
            lemma_offset_stands(strings, name, off + 1);
        }
    }
}

/// Sets a property of the node at `id`, of which `at` is the place or the end.
fn put_prop(root: &mut Node, id: &NodeId, at: usize, name: &[u8], value: &[u8])
    requires
        has_node(tree(*old(root)), id@),
        at == prop_from(node_at(tree(*old(root)), id@).props, name@, 0),
    ensures
        tree(*final(root)) == with_node(
            tree(*old(root)),
            id@,
            with_prop(node_at(tree(*old(root)), id@), name@, value@),
        ),
{
    assert(places(id.path@).skip(0) =~= id@);
    let new_value: Vec<u8> = bytes_between(value, 0, value.len());
    assert(new_value@ =~= value@);
    let n: &mut Node = find_node_mut(root, &id.path, 0);
    let ghost t = tree(*n);
    if at < n.props.len() {
        n.props[at].value = new_value;
        assert(prop_views(n.props@) =~= with_prop(t, name@, value@).props);
    } else {
        let new_name: Vec<u8> = bytes_between(name, 0, name.len());
        assert(new_name@ =~= name@);
        let prop: Prop = Prop { name: new_name, value: new_value };
        n.props.insert(0, prop);
        assert(prop_views(n.props@) =~= with_prop(t, name@, value@).props);
    }
}

impl Fdt {
    /// The blob can be packed and read again.
    pub open spec fn wf(&self) -> bool {
        sane(self@)
    }

    /// Reads a blob. The whole of `bytes` is the room that editing may use.
    #[verifier::rlimit(60)]
    #[verifier::spinoff_prover]
    fn parse(bytes: &[u8]) -> (r: core::result::Result<Fdt, FdtErr>)
        ensures
            match parse_dtb(bytes@) {
                Ok(d) => r matches Ok(f) && f@ == d,
                Err(e) => r matches Err(x) && x == e,
            },
    {
        let size: usize = bytes.len();
        if size < HEADER {
            return Err(FdtErr::Truncated);
        }
        if read_be32(bytes, 0) != MAGIC {
            return Err(FdtErr::BadMagic);
        }
        let version: u32 = read_be32(bytes, 20);
        let last_compatible: u32 = read_be32(bytes, 24);
        if version < OLDEST_VERSION || last_compatible > VERSION {
            return Err(FdtErr::BadVersion);
        }
        if size > MAX_SIZE || read_be32(bytes, 4) as usize > size {
            return Err(FdtErr::NoSpace);
        }
        let total: usize = read_be32(bytes, 4) as usize;
        let off_struct: u64 = read_be32(bytes, 8) as u64;
        let off_strings: u64 = read_be32(bytes, 12) as u64;
        let off_reserve: usize = read_be32(bytes, 16) as usize;
        let boot_cpu: u32 = read_be32(bytes, 28);
        let size_strings: u64 = read_be32(bytes, 32) as u64;
        let room: u64 = if version >= VERSION {
            read_be32(bytes, 36) as u64
        } else if off_struct <= total as u64 {
            total as u64 - off_struct
        } else {
            0
        };
        if off_struct + room > total as u64 || off_strings + size_strings > total as u64 {
            return Err(FdtErr::Truncated);
        }
        let after_reserve: usize = match reserve_end(bytes, total, off_reserve) {
            Some(e) => e,
            None => {
                return Err(FdtErr::Truncated);
            },
        };
        let reserve_size: u64 = (after_reserve - off_reserve) as u64;
        let strings_end: usize = (off_strings + size_strings) as usize;
        let strings: Vec<u8> = bytes_between(bytes, off_strings as usize, strings_end);
        let struct_end: usize = (off_struct + room) as usize;
        let blocks: Vec<u8> = bytes_between(bytes, off_struct as usize, struct_end);
        let (root, extent): (Node, usize) = match read_tree(blocks.as_slice(), strings.as_slice()) {
            Some(n) => n,
            None => {
                return Err(FdtErr::BadStructure);
            },
        };
        proof {
            lemma_parsed_tree(blocks@, strings@);
        }
        let size_struct: u64 = if version >= VERSION {
            room
        } else {
            extent as u64
        };
        let ordered: bool = off_reserve >= HEADER && off_struct >= after_reserve as u64
            && off_strings >= off_struct + size_struct;
        let used: u64 = if ordered {
            off_strings + size_strings
        } else {
            HEADER as u64 + reserve_size + size_struct + size_strings
        };
        if used > size as u64 {
            return Err(FdtErr::NoSpace);
        }
        let reserve: Vec<u8> = bytes_between(bytes, off_reserve, after_reserve);
        Ok(
            Fdt {
                root,
                strings,
                reserve,
                boot_cpu,
                last_compatible,
                used: used as usize,
                capacity: size,
            },
        )
    }

    /// Opens a blob with room for `extra_bytes` more.
    pub fn open_into(src: &[u8], extra_bytes: usize) -> (r: Result<Fdt>)
        requires
            src@.len() + extra_bytes <= usize::MAX,
        ensures
            match parse_dtb(src@ + zeros(extra_bytes as nat)) {
                Ok(d) => r matches Ok(f) && f@ == d && f.wf(),
                Err(e) => fails_as(r, fault("fdt_open_into"@, e)),
            },
    {
        let mut b: Vec<u8> = bytes_between(src, 0, src.len());
        assert(b@ =~= src@);
        let mut k: usize = 0;
        while k < extra_bytes
            invariant
                k <= extra_bytes,
                b@ =~= src@ + zeros(k as nat),
            decreases extra_bytes - k,
        {
            b.push(0);
            k = k + 1;
        }
        assert(b@ == src@ + zeros(extra_bytes as nat));
        match Fdt::parse(b.as_slice()) {
            Ok(f) => {
                proof {
                    lemma_parsed_sane(b@);
                }
                Ok(f)
            },
            Err(e) => Err(fdt_error("fdt_open_into", e)),
        }
    }

    /// Where a path leads. A component may leave out the unit address; a path that does not begin
    /// with a slash begins with an alias.
    pub fn path_offset(&self, path: &str) -> (r: Result<Option<NodeId>>)
        ensures
            match dtb_path(self@, path@) {
                Ok(Some(p)) => r matches Ok(Some(id)) && id@ == p,
                Ok(None) => r matches Ok(None),
                Err(f) => fails_as(r, f),
            },
    {
        let bytes: &[u8] = path.as_bytes();
        let position: usize = nul_position(bytes);
        if position < bytes.len() {
            return Err(nul_error(call_text("path_offset", path).as_str(), position));
        }
        if bytes.len() > 0 && bytes[0] == 0x2f {
            return Ok(resolve_path(&self.root, bytes));
        }
        if bytes.len() > 0 {
            match resolve_aliased(&self.root, bytes) {
                Some(found) => {
                    return Ok(found);
                },
                None => {},
            }
        }
        Err(fdt_error(call_text("path_offset", path).as_str(), FdtErr::BadPath))
    }

    /// Adds an empty node in front of the other children of `parent`.
    pub fn add_subnode(&mut self, parent: &NodeId, name: &str) -> (r: Result<NodeId>)
        requires
            old(self).wf(),
        ensures
            final(self).wf(),
            match dtb_add(old(self)@, parent@, name@) {
                Ok((d, p)) => r matches Ok(id) && id@ == p && final(self)@ == d,
                Err(f) => fails_as(r, f) && final(self)@ == old(self)@,
            },
    {
        let bytes: &[u8] = name.as_bytes();
        let position: usize = nul_position(bytes);
        if position < bytes.len() {
            return Err(nul_error("fdt_add_subnode", position));
        }
        let op: String = call_text("fdt_add_subnode", name);
        match find_node(&self.root, parent) {
            Some(node) => {
                if find_child(&node.children, bytes) < node.children.len() {
                    proof {
                        lemma_forest(node.children@);
                    }
                    return Err(fdt_error(op.as_str(), FdtErr::Exists));
                }
                proof {
                    lemma_forest(node.children@);
                }
            },
            None => {
                return Err(fdt_error(op.as_str(), FdtErr::BadOffset));
            },
        }
        if bytes.len() > self.capacity - self.used || 8 + round4(bytes.len() + 1) > self.capacity
            - self.used {
            return Err(fdt_error(op.as_str(), FdtErr::NoSpace));
        }
        let growth: usize = 8 + round4(bytes.len() + 1);
        let ghost before = self@;
        proof {
            let node = node_at(before.tree, parent@);
            lemma_node_storable(before.tree, parent@, before.strings);
            lemma_with_child(node, bytes@, before.strings);
            lemma_with_node_storable(
                before.tree,
                parent@,
                with_child(node, bytes@),
                before.strings,
            );
            lemma_with_node_size(before.tree, parent@, with_child(node, bytes@));
            assert(places(parent.path@).skip(0) =~= parent@);
        }
        let child: Node = Node {
            name: bytes_between(bytes, 0, bytes.len()),
            props: Vec::new(),
            children: Vec::new(),
        };
        assert(tree(child) == (Tree {
            name: bytes@,
            props: Seq::empty(),
            children: Seq::empty(),
        })) by {
            assert(child.name@ =~= bytes@);
            assert(prop_views(child.props@) =~= Seq::<PropView>::empty());
        }
        let node: &mut Node = find_node_mut(&mut self.root, &parent.path, 0);
        let ghost t = tree(*node);
        let ghost kids = node.children@;
        node.children.insert(0, child);
        proof {
            lemma_forest(kids);
            lemma_forest(node.children@);
            assert(forest(node.children@) =~= seq![tree(child)] + forest(kids));
            assert(tree(*node) == with_child(t, bytes@));
        }
        self.used = self.used + growth;
        let mut path: Vec<usize> = parent.path.clone();
        path.push(0);
        let id: NodeId = NodeId { path };
        assert(id@ =~= parent@.push(0));
        Ok(id)
    }

    /// Renames a node.
    pub fn set_name(&mut self, node: &NodeId, name: &str) -> (r: Result<()>)
        requires
            old(self).wf(),
        ensures
            final(self).wf(),
            match dtb_rename(old(self)@, node@, name@) {
                Ok(d) => r is Ok && final(self)@ == d,
                Err(f) => fails_as(r, f) && final(self)@ == old(self)@,
            },
    {
        let bytes: &[u8] = name.as_bytes();
        let position: usize = nul_position(bytes);
        if position < bytes.len() {
            return Err(nul_error("fdt_set_name", position));
        }
        let op: String = call_text("fdt_set_name", name);
        let ghost before = self@;
        let old_len: usize = match find_node(&self.root, node) {
            Some(n) => n.name.len(),
            None => {
                return Err(fdt_error(op.as_str(), FdtErr::BadOffset));
            },
        };
        let ghost t = node_at(before.tree, node@);
        proof {
            lemma_node_storable(before.tree, node@, before.strings);
            lemma_with_node_size(before.tree, node@, with_name(t, bytes@));
            lemma_with_node_storable(before.tree, node@, with_name(t, bytes@), before.strings);
            assert(align4(t.name.len() + 1) <= node_size(t));
            assert(places(node.path@).skip(0) =~= node@);
        }
        let freed: usize = self.used - round4(old_len + 1);
        if bytes.len() > MAX_SIZE || round4(bytes.len() + 1) > self.capacity - freed {
            return Err(fdt_error(op.as_str(), FdtErr::NoSpace));
        }
        let used: usize = freed + round4(bytes.len() + 1);
        let new_name: Vec<u8> = bytes_between(bytes, 0, bytes.len());
        assert(new_name@ =~= bytes@);
        let n: &mut Node = find_node_mut(&mut self.root, &node.path, 0);
        n.name = new_name;
        self.used = used;
        Ok(())
    }

    /// The name of a node, where it is valid UTF-8.
    pub fn get_name(&self, node: &NodeId) -> (r: Option<String>)
        ensures
            r is Some <==> has_node(self@.tree, node@) && valid_utf8(
                node_at(self@.tree, node@).name,
            ),
            r matches Some(s) ==> s@ == decode_utf8(node_at(self@.tree, node@).name),
    {
        match find_node(&self.root, node) {
            Some(n) => match crate::text::decode(n.name.as_slice()) {
                Some(chars) => Some(crate::text::string_of(chars.as_slice())),
                None => None,
            },
            None => None,
        }
    }

    /// Sets a property.
    pub fn setprop(&mut self, node: &NodeId, name: &str, value: &[u8]) -> (r: Result<()>)
        requires
            old(self).wf(),
        ensures
            final(self).wf(),
            match dtb_setprop(old(self)@, node@, name@, value@) {
                Ok(d) => r is Ok && final(self)@ == d,
                Err(f) => fails_as(r, f) && final(self)@ == old(self)@,
            },
    {
        let bytes: &[u8] = name.as_bytes();
        let position: usize = nul_position(bytes);
        if position < bytes.len() {
            return Err(nul_error("fdt_setprop", position));
        }
        let op: String = call_text("fdt_setprop", name);
        let ghost before = self@;
        let ghost t = node_at(before.tree, node@);
        let (at, old_len): (usize, Option<usize>) = match find_node(&self.root, node) {
            Some(n) => {
                let i: usize = find_prop(&n.props, bytes);
                if i < n.props.len() {
                    (i, Some(n.props[i].value.len()))
                } else {
                    (i, None)
                }
            },
            None => {
                return Err(fdt_error(op.as_str(), FdtErr::BadOffset));
            },
        };
        let fresh: bool = old_len.is_none() && find_name(self.strings.as_slice(), bytes)
            == self.strings.len();
        if value.len() > MAX_SIZE || (fresh && bytes.len() > MAX_SIZE) {
            proof {
                lemma_prop_bound(before, node@, bytes@);
            }
            return Err(fdt_error(op.as_str(), FdtErr::NoSpace));
        }
        let extra: u64 = if fresh {
            bytes.len() as u64 + 1
        } else {
            0
        };
        proof {
            lemma_prop_bound(before, node@, bytes@);
        }
        let (freed, new): (usize, u64) = match old_len {
            Some(n) => (self.used - round4(n), round4(value.len()) as u64),
            None => (self.used, 12 + round4(value.len()) as u64),
        };
        if extra + new > (self.capacity - freed) as u64 {
            return Err(fdt_error(op.as_str(), FdtErr::NoSpace));
        }
        let used: usize = freed + (extra + new) as usize;
        assert(used == before.used + extra + prop_growth(t, bytes@, value@));
        proof {
            lemma_setprop_sane(before, node@, name@, value@);
        }
        if fresh {
            push_all(&mut self.strings, bytes);
            self.strings.push(0);
            assert(self.strings@ =~= before.strings + bytes@ + seq![0u8]);
        }
        put_prop(&mut self.root, node, at, bytes, value);
        self.used = used;
        Ok(())
    }

    /// Sets a property to four bytes, most significant first.
    pub fn setprop_u32(&mut self, node: &NodeId, name: &str, value: u32) -> (r: Result<()>)
        requires
            old(self).wf(),
        ensures
            final(self).wf(),
            match dtb_setprop(old(self)@, node@, name@, be32(value as nat)) {
                Ok(d) => r is Ok && final(self)@ == d,
                Err(f) => fails_as(r, f) && final(self)@ == old(self)@,
            },
    {
        let mut bytes: Vec<u8> = Vec::new();
        push_be32(&mut bytes, value);
        assert(bytes@ =~= be32(value as nat));
        self.setprop(node, name, bytes.as_slice())
    }

    /// Sets a property to a text and a zero byte.
    pub fn setprop_string(&mut self, node: &NodeId, name: &str, value: &str) -> (r: Result<()>)
        requires
            old(self).wf(),
        ensures
            final(self).wf(),
            match dtb_setprop(old(self)@, node@, name@, encode_utf8(value@).push(0)) {
                Ok(d) => r is Ok && final(self)@ == d,
                Err(f) => fails_as(r, f) && final(self)@ == old(self)@,
            },
    {
        let text: &[u8] = value.as_bytes();
        let mut bytes: Vec<u8> = bytes_between(text, 0, text.len());
        bytes.push(0);
        assert(bytes@ =~= encode_utf8(value@).push(0));
        self.setprop(node, name, bytes.as_slice())
    }

    /// The value of a property, where the node has it.
    pub fn getprop(&self, node: &NodeId, name: &str) -> (r: Option<&[u8]>)
        ensures
            r is Some <==> has_node(self@.tree, node@) && prop_of(
                node_at(self@.tree, node@),
                encode_utf8(name@),
            ) is Some,
            r matches Some(v) ==> prop_of(node_at(self@.tree, node@), encode_utf8(name@)) == Some(
                v@,
            ),
    {
        match find_node(&self.root, node) {
            Some(n) => {
                let i: usize = find_prop(&n.props, name.as_bytes());
                if i < n.props.len() {
                    Some(n.props[i].value.as_slice())
                } else {
                    None
                }
            },
            None => None,
        }
    }

    /// The phandle of a node, or zero.
    pub fn get_phandle(&self, node: &NodeId) -> (n: u32)
        ensures
            n == if has_node(self@.tree, node@) {
                phandle_of(node_at(self@.tree, node@))
            } else {
                0
            },
    {
        match find_node(&self.root, node) {
            Some(n) => phandle(n),
            None => 0,
        }
    }

    /// The largest phandle of any node, or zero.
    pub fn find_max_phandle(&self) -> (r: Result<u32>)
        ensures
            r matches Ok(n) && n == max_phandle(self@.tree),
    {
        Ok(largest_phandle(&self.root))
    }

    /// The packed bytes.
    pub fn pack(self) -> (r: Result<Vec<u8>>)
        requires
            self.wf(),
        ensures
            r matches Ok(bytes) && bytes@ == flat_dtb(self@),
    {
        let ghost d = self@;
        let mut blocks: Vec<u8> = Vec::new();
        write_tree(&mut blocks, &self.root, self.strings.as_slice());
        assert(blocks@ =~= flat_tree(d.tree, d.strings));
        proof {
            reveal(flat_header);
            lemma_tree_size(d.tree, d.strings);
        }
        let size_struct: u32 = blocks.len() as u32;
        let size_strings: u32 = self.strings.len() as u32;
        let off_struct: u32 = (HEADER + self.reserve.len()) as u32;
        let mut out: Vec<u8> = Vec::new();
        push_be32(&mut out, MAGIC);
        push_be32(&mut out, off_struct + size_struct + size_strings);
        push_be32(&mut out, off_struct);
        push_be32(&mut out, off_struct + size_struct);
        push_be32(&mut out, HEADER as u32);
        push_be32(&mut out, VERSION);
        push_be32(&mut out, self.last_compatible);
        push_be32(&mut out, self.boot_cpu);
        push_be32(&mut out, size_strings);
        push_be32(&mut out, size_struct);
        assert(out@ =~= flat_header(d));
        push_all(&mut out, self.reserve.as_slice());
        push_all(&mut out, blocks.as_slice());
        push_all(&mut out, self.strings.as_slice());
        assert(out@ =~= flat_dtb(d));
        Ok(out)
    }
}

} // verus!
