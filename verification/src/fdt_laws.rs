//! What edits keep.
use vstd::prelude::*;
#[allow(unused_imports)]
use vstd::utf8::encode_utf8;

#[allow(unused_imports)]
use crate::fdt::{dtb_setprop, Dtb};
#[allow(unused_imports)]
use crate::fdt_edit::{
    child_from, component, has_node, node_at, resolve, skip_slashes, with_node, with_prop,
};
#[allow(unused_imports)]
use crate::fdt_tree::Tree;

verus! {

proof fn lemma_child_from(children: Seq<Tree>, wanted: Seq<u8>, i: nat)
    ensures
        child_from(children, wanted, i) <= children.len(),
    decreases children.len() - i,
{
    if i < children.len() {
        lemma_child_from(children, wanted, i + 1);
    }
}

/// A path leads to a node.
pub proof fn lemma_resolve_valid(t: Tree, path: Seq<u8>)
    ensures
        resolve(t, path) matches Some(p) ==> has_node(t, p),
    decreases path.len(),
{
    let p = skip_slashes(path);
    if p.len() > 0 {
        let name = component(p);
        let i = child_from(t.children, name, 0);
        let rest = p.skip(name.len() as int);
        if i < t.children.len() && rest.len() < path.len() {
            lemma_resolve_valid(t.children[i as int], rest);
            if let Some(more) = resolve(t.children[i as int], rest) {
                let all = seq![i as int] + more;
                assert(all.skip(1) =~= more);
            }
        }
    }
}

/// Replacing a node leaves it where it was.
pub proof fn lemma_with_node(t: Tree, path: Seq<int>, new: Tree)
    requires
        has_node(t, path),
    ensures
        has_node(with_node(t, path, new), path),
        node_at(with_node(t, path, new), path) == new,
    decreases path.len(),
{
    if path.len() > 0 {
        lemma_with_node(t.children[path[0]], path.skip(1), new);
    }
}

/// A property is set on a node that stays, under its name.
pub proof fn lemma_setprop_keeps_node(d: Dtb, node: Seq<int>, name: Seq<char>, value: Seq<u8>)
    requires
        dtb_setprop(d, node, name, value) is Ok,
    ensures
        has_node(dtb_setprop(d, node, name, value)->Ok_0.tree, node),
        node_at(dtb_setprop(d, node, name, value)->Ok_0.tree, node) == with_prop(
            node_at(d.tree, node),
            encode_utf8(name),
            value,
        ),
{
    lemma_with_node(d.tree, node, with_prop(node_at(d.tree, node), encode_utf8(name), value));
}

} // verus!
