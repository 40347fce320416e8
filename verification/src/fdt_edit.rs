//! Finding and changing nodes of a device tree.
use vstd::prelude::*;

use crate::bytes::same_bytes;
#[allow(unused_imports)]
use crate::fdt_tree::{
    align4, forest, forest_size, has_name_at, knows, lemma_forest, lemma_forest_cons,
    lemma_storable_forest, no_zero, node_size, prop_size, prop_views, props_size, storable,
    storable_forest, storable_prop, tree, PropView, Tree,
};
use crate::fdt_tree::{Node, Prop};

verus! {

// ---------------------------------------------------------------------------
// Places in a tree
// ---------------------------------------------------------------------------

/// The place of a node: which child to take at each level below the root.
#[derive(Debug)]
pub struct NodeId {
    pub path: Vec<usize>,
}

/// A row of indices as integers.
pub open spec fn places(path: Seq<usize>) -> Seq<int> {
    path.map(|i: int, x: usize| x as int)
}

impl View for NodeId {
    type V = Seq<int>;

    open spec fn view(&self) -> Seq<int> {
        places(self.path@)
    }
}

/// There is a node at `path`.
pub open spec fn has_node(t: Tree, path: Seq<int>) -> bool
    decreases path.len(),
{
    path.len() == 0 || (0 <= path[0] < t.children.len() && has_node(
        t.children[path[0]],
        path.skip(1),
    ))
}

/// The node at `path`.
pub open spec fn node_at(t: Tree, path: Seq<int>) -> Tree
    decreases path.len(),
{
    if path.len() == 0 {
        t
    } else {
        node_at(t.children[path[0]], path.skip(1))
    }
}

/// `t` with the node at `path` replaced.
pub open spec fn with_node(t: Tree, path: Seq<int>, new: Tree) -> Tree
    decreases path.len(),
{
    if path.len() == 0 {
        new
    } else {
        Tree {
            children: t.children.update(
                path[0],
                with_node(t.children[path[0]], path.skip(1), new),
            ),
            ..t
        }
    }
}

/// The first property at or behind `i` with this name, or the end.
pub open spec fn prop_from(props: Seq<PropView>, name: Seq<u8>, i: nat) -> nat
    decreases props.len() - i,
{
    if i >= props.len() {
        props.len()
    } else if props[i as int].name == name {
        i
    } else {
        prop_from(props, name, i + 1)
    }
}

/// The value of a property of a node, where it has it.
pub open spec fn prop_of(t: Tree, name: Seq<u8>) -> Option<Seq<u8>> {
    let i = prop_from(t.props, name, 0);
    if i < t.props.len() {
        Some(t.props[i as int].value)
    } else {
        None
    }
}

/// `t` with a property set: a new one comes first.
pub open spec fn with_prop(t: Tree, name: Seq<u8>, value: Seq<u8>) -> Tree {
    let i = prop_from(t.props, name, 0);
    Tree {
        props: if i < t.props.len() {
            t.props.update(i as int, PropView { name: t.props[i as int].name, value })
        } else {
            seq![PropView { name, value }] + t.props
        },
        ..t
    }
}

/// `t` with a new, empty child in front of the others.
pub open spec fn with_child(t: Tree, name: Seq<u8>) -> Tree {
    Tree {
        children: seq![Tree { name, props: Seq::empty(), children: Seq::empty() }] + t.children,
        ..t
    }
}

pub open spec fn with_name(t: Tree, name: Seq<u8>) -> Tree {
    Tree { name, ..t }
}

/// Whether a node answers to `wanted`: its unit address may be left out.
pub open spec fn answers_to(name: Seq<u8>, wanted: Seq<u8>) -> bool {
    ||| name == wanted
    ||| {
        &&& !wanted.contains(0x40u8)
        &&& name.len() > wanted.len()
        &&& name.take(wanted.len() as int) == wanted
        &&& name[wanted.len() as int] == 0x40
    }
}

/// The first child at or behind `i` that answers to `wanted`, or the end.
pub open spec fn child_from(children: Seq<Tree>, wanted: Seq<u8>, i: nat) -> nat
    decreases children.len() - i,
{
    if i >= children.len() {
        children.len()
    } else if answers_to(children[i as int].name, wanted) {
        i
    } else {
        child_from(children, wanted, i + 1)
    }
}

/// What follows the leading slashes.
pub open spec fn skip_slashes(path: Seq<u8>) -> Seq<u8>
    decreases path.len(),
{
    if path.len() > 0 && path[0] == 0x2f {
        skip_slashes(path.skip(1))
    } else {
        path
    }
}

/// What stands before the next slash.
pub open spec fn component(path: Seq<u8>) -> Seq<u8>
    decreases path.len(),
{
    if path.len() == 0 || path[0] == 0x2f {
        Seq::empty()
    } else {
        seq![path[0]] + component(path.skip(1))
    }
}

/// Where `path` leads from `t`.
pub open spec fn resolve(t: Tree, path: Seq<u8>) -> Option<Seq<int>>
    decreases path.len(),
{
    let p = skip_slashes(path);
    if p.len() == 0 {
        Some(Seq::empty())
    } else {
        let name = component(p);
        let i = child_from(t.children, name, 0);
        if i >= t.children.len() {
            None
        } else if p.skip(name.len() as int).len() < path.len() {
            match resolve(t.children[i as int], p.skip(name.len() as int)) {
                Some(more) => Some(seq![i as int] + more),
                None => None,
            }
        } else {
            None
        }
    }
}

// ---------------------------------------------------------------------------
// Lemmas
// ---------------------------------------------------------------------------

/// Replacing a node replaces the tree that stands for it, and no other.
pub broadcast proof fn lemma_forest_update(nodes: Seq<Node>, i: int, n: Node)
    requires
        0 <= i < nodes.len(),
    ensures
        #[trigger] forest(nodes.update(i, n)) == forest(nodes).update(i, tree(n)),
{
    lemma_forest(nodes);
    lemma_forest(nodes.update(i, n));
    assert(forest(nodes.update(i, n)) =~= forest(nodes).update(i, tree(n)));
}

proof fn lemma_forest_size_update(trees: Seq<Tree>, i: int, t: Tree)
    requires
        0 <= i < trees.len(),
    ensures
        forest_size(trees.update(i, t)) == forest_size(trees) - node_size(trees[i]) + node_size(t),
    decreases trees.len(),
{
    let new = trees.update(i, t);
    if i == trees.len() - 1 {
        assert(new.drop_last() =~= trees.drop_last());
    } else {
        lemma_forest_size_update(trees.drop_last(), i, t);
        assert(new.drop_last() =~= trees.drop_last().update(i, t));
        assert(new.last() == trees.last());
        assert(trees.drop_last()[i] == trees[i]);
    }
}

proof fn lemma_forest_size_member(trees: Seq<Tree>, i: int)
    requires
        0 <= i < trees.len(),
    ensures
        node_size(trees[i]) <= forest_size(trees),
    decreases trees.len(),
{
    if i < trees.len() - 1 {
        lemma_forest_size_member(trees.drop_last(), i);
        assert(trees.drop_last()[i] == trees[i]);
    }
}

/// Replacing a node changes the size by the difference.
pub proof fn lemma_with_node_size(t: Tree, path: Seq<int>, new: Tree)
    requires
        has_node(t, path),
    ensures
        node_size(with_node(t, path, new)) == node_size(t) - node_size(node_at(t, path))
            + node_size(new),
        node_size(node_at(t, path)) <= node_size(t),
    decreases path.len(),
{
    if path.len() > 0 {
        let child = t.children[path[0]];
        lemma_with_node_size(child, path.skip(1), new);
        lemma_forest_size_update(t.children, path[0], with_node(child, path.skip(1), new));
        lemma_forest_size_member(t.children, path[0]);
    }
}

/// A storable node in a storable tree keeps it storable.
pub proof fn lemma_with_node_storable(t: Tree, path: Seq<int>, new: Tree, strings: Seq<u8>)
    requires
        has_node(t, path),
        storable(t, strings),
        storable(new, strings),
    ensures
        storable(with_node(t, path, new), strings),
        storable(node_at(t, path), strings),
    decreases path.len(),
{
    if path.len() > 0 {
        let child = t.children[path[0]];
        lemma_storable_forest(t.children, strings);
        assert(storable(child, strings));
        lemma_with_node_storable(child, path.skip(1), new, strings);
        let changed = with_node(child, path.skip(1), new);
        let children = t.children.update(path[0], changed);
        lemma_storable_forest(children, strings);
        assert forall|i: int| 0 <= i < children.len() implies storable(
            #[trigger] children[i],
            strings,
        ) by {
            if i != path[0] {
                assert(storable(t.children[i], strings));
            }
        }
    }
}

/// A node of a storable tree is storable.
pub proof fn lemma_node_storable(t: Tree, path: Seq<int>, strings: Seq<u8>)
    requires
        has_node(t, path),
        storable(t, strings),
    ensures
        storable(node_at(t, path), strings),
    decreases path.len(),
{
    if path.len() > 0 {
        lemma_storable_forest(t.children, strings);
        assert(storable(t.children[path[0]], strings));
        lemma_node_storable(t.children[path[0]], path.skip(1), strings);
    }
}

/// More strings keep what was storable storable.
pub proof fn lemma_storable_grows(t: Tree, strings: Seq<u8>, more: Seq<u8>)
    requires
        storable(t, strings),
    ensures
        storable(t, strings + more),
    decreases t,
{
    assert forall|i: int| 0 <= i < t.props.len() implies storable_prop(
        #[trigger] t.props[i],
        strings + more,
    ) by {
        let p = t.props[i];
        assert(storable_prop(p, strings));
        let off = choose|off: int| #[trigger] has_name_at(strings, p.name, off);
        assert((strings + more).subrange(off, off + p.name.len()) =~= strings.subrange(
            off,
            off + p.name.len(),
        ));
        assert(has_name_at(strings + more, p.name, off));
    }
    lemma_forest_grows(t.children, strings, more);
}

proof fn lemma_forest_grows(trees: Seq<Tree>, strings: Seq<u8>, more: Seq<u8>)
    requires
        storable_forest(trees, strings),
    ensures
        storable_forest(trees, strings + more),
    decreases trees,
{
    if trees.len() > 0 {
        lemma_forest_grows(trees.drop_last(), strings, more);
        lemma_storable_grows(trees.last(), strings, more);
    }
}

pub proof fn lemma_prop_from(props: Seq<PropView>, name: Seq<u8>, i: nat)
    ensures
        prop_from(props, name, i) <= props.len() || prop_from(props, name, i) == props.len(),
        prop_from(props, name, i) < props.len() ==> props[prop_from(props, name, i) as int].name
            == name,
    decreases props.len() - i,
{
    if i < props.len() && props[i as int].name != name {
        lemma_prop_from(props, name, i + 1);
    }
}

proof fn lemma_props_size_update(props: Seq<PropView>, i: int, p: PropView)
    requires
        0 <= i < props.len(),
    ensures
        props_size(props.update(i, p)) == props_size(props) - prop_size(props[i]) + prop_size(p),
        prop_size(props[i]) <= props_size(props),
    decreases props.len(),
{
    let new = props.update(i, p);
    if i == 0 {
        assert(new.skip(1) =~= props.skip(1));
    } else {
        lemma_props_size_update(props.skip(1), i - 1, p);
        assert(new.skip(1) =~= props.skip(1).update(i - 1, p));
        assert(props.skip(1)[i - 1] == props[i]);
    }
}

/// A property takes no more than all of them.
pub proof fn lemma_prop_fits(props: Seq<PropView>, i: int)
    requires
        0 <= i < props.len(),
    ensures
        prop_size(props[i]) <= props_size(props),
{
    lemma_props_size_update(props, i, props[i]);
}

/// The names of a storable node's properties are known.
pub proof fn lemma_prop_known(t: Tree, i: int, strings: Seq<u8>)
    requires
        0 <= i < t.props.len(),
        storable(t, strings),
    ensures
        knows(strings, t.props[i].name),
{
    assert(storable_prop(t.props[i], strings));
}

/// The bytes that setting a property adds to the structure block; negative where it shrinks.
pub open spec fn prop_growth(t: Tree, name: Seq<u8>, value: Seq<u8>) -> int {
    match prop_of(t, name) {
        Some(old) => align4(value.len()) - align4(old.len()),
        None => 12 + align4(value.len()) as int,
    }
}

pub proof fn lemma_with_prop(t: Tree, name: Seq<u8>, value: Seq<u8>, strings: Seq<u8>)
    requires
        storable(t, strings),
        no_zero(name),
        knows(strings, name),
        value.len() < 0x1_0000_0000,
    ensures
        storable(with_prop(t, name, value), strings),
        node_size(with_prop(t, name, value)) == node_size(t) + prop_growth(t, name, value),
{
    let i = prop_from(t.props, name, 0);
    let new = with_prop(t, name, value);
    lemma_prop_from(t.props, name, 0);
    if i < t.props.len() {
        lemma_props_size_update(t.props, i as int, PropView { name, value });
        assert forall|k: int| 0 <= k < new.props.len() implies storable_prop(
            #[trigger] new.props[k],
            strings,
        ) by {
            if k != i {
                assert(storable_prop(t.props[k], strings));
            }
        }
    } else {
        assert(new.props.skip(1) =~= t.props);
        assert forall|k: int| 0 <= k < new.props.len() implies storable_prop(
            #[trigger] new.props[k],
            strings,
        ) by {
            if k > 0 {
                assert(storable_prop(t.props[k - 1], strings));
            }
        }
    }
}

pub proof fn lemma_with_child(t: Tree, name: Seq<u8>, strings: Seq<u8>)
    requires
        storable(t, strings),
        no_zero(name),
    ensures
        storable(with_child(t, name), strings),
        node_size(with_child(t, name)) == node_size(t) + 8 + align4(name.len() + 1),
{
    let child = Tree { name, props: Seq::empty(), children: Seq::empty() };
    let new = with_child(t, name);
    lemma_forest_cons(child, t.children);
    lemma_storable_forest(t.children, strings);
    lemma_storable_forest(new.children, strings);
    assert(storable(child, strings)) by {
        assert(storable_forest(child.children, strings));
    }
    assert(node_size(child) == 8 + align4(name.len() + 1)) by {
        assert(props_size(child.props) == 0 && forest_size(child.children) == 0);
    }
    assert forall|i: int| 0 <= i < new.children.len() implies storable(
        #[trigger] new.children[i],
        strings,
    ) by {
        if i > 0 {
            assert(storable(t.children[i - 1], strings));
        }
    }
}

// ---------------------------------------------------------------------------
// Code
// ---------------------------------------------------------------------------

/// The node at `id`, where there is one.
pub fn find_node<'a>(root: &'a Node, id: &NodeId) -> (r: Option<&'a Node>)
    ensures
        r is Some <==> has_node(tree(*root), id@),
        r matches Some(n) ==> tree(*n) == node_at(tree(*root), id@),
{
    let mut node: &Node = root;
    let mut i: usize = 0;
    assert(id@.skip(0) =~= id@);
    while i < id.path.len()
        invariant
            i <= id.path@.len(),
            has_node(tree(*root), id@) == has_node(tree(*node), id@.skip(i as int)),
            node_at(tree(*root), id@) == node_at(tree(*node), id@.skip(i as int)),
        decreases id.path@.len() - i,
    {
        let k: usize = id.path[i];
        assert(id@.skip(i as int)[0] == k);
        proof {
            lemma_forest(node.children@);
            assert(id@.skip(i as int).skip(1) =~= id@.skip(i + 1));
        }
        if k >= node.children.len() {
            return None;
        }
        node = &node.children[k];
        i = i + 1;
    }
    Some(node)
}

/// The node at the end of `path`, to be changed.
pub fn find_node_mut<'a>(node: &'a mut Node, path: &Vec<usize>, from: usize) -> (r: &'a mut Node)
    requires
        from <= path@.len(),
        has_node(tree(*old(node)), places(path@).skip(from as int)),
    ensures
        tree(*r) == node_at(tree(*old(node)), places(path@).skip(from as int)),
        tree(*final(node)) == with_node(
            tree(*old(node)),
            places(path@).skip(from as int),
            tree(*final(r)),
        ),
    decreases path@.len() - from,
{
    broadcast use lemma_forest_update;

    let ghost rest = places(path@).skip(from as int);
    if from == path.len() {
        node
    } else {
        let k: usize = path[from];
        proof {
            lemma_forest(node.children@);
            assert(rest[0] == k);
            assert(rest.skip(1) =~= places(path@).skip(from + 1));
        }
        let ghost before = *node;
        let ghost after = *final(node);
        let r: &mut Node = find_node_mut(&mut node.children[k], path, from + 1);
        proof {
            assert(after.name == before.name && after.props == before.props);
            assert(after.children@ =~= before.children@.update(k as int, after.children@[k as int]));
            assert(tree(after.children@[k as int]) == with_node(tree(before.children@[k as int]), rest.skip(1), tree(*final(r))));
            assert(forest(after.children@) == forest(before.children@).update(k as int, tree(after.children@[k as int])));
            assert(tree(after).children =~= with_node(tree(before), rest, tree(*final(r))).children);
        }
        r
    }
}

/// The index of the first property with this name, or the end.
pub fn find_prop(props: &Vec<Prop>, name: &[u8]) -> (i: usize)
    ensures
        i == prop_from(prop_views(props@), name@, 0),
        i <= props@.len(),
{
    let mut i: usize = 0;
    while i < props.len() && !same_bytes(props[i].name.as_slice(), name)
        invariant
            i <= props@.len(),
            prop_from(prop_views(props@), name@, 0) == prop_from(
                prop_views(props@),
                name@,
                i as nat,
            ),
        decreases props@.len() - i,
    {
        i = i + 1;
    }
    i
}

/// Whether a node answers to `wanted`.
fn node_answers(name: &[u8], wanted: &[u8]) -> (r: bool)
    ensures
        r == answers_to(name@, wanted@),
{
    if name.len() < wanted.len() {
        return false;
    }
    let mut has_at: bool = false;
    let mut i: usize = 0;
    while i < wanted.len()
        invariant
            i <= wanted@.len() <= name@.len(),
            forall|k: int| 0 <= k < i ==> name@[k] == wanted@[k],
            has_at <==> exists|k: int| 0 <= k < i && wanted@[k] == 0x40,
        decreases wanted@.len() - i,
    {
        if name[i] != wanted[i] {
            assert(name@[i as int] != wanted@[i as int]);
            assert(name@.take(wanted@.len() as int)[i as int] == name@[i as int]);
            return false;
        }
        if wanted[i] == 0x40 {
            assert(wanted@[i as int] == 0x40);
            has_at = true;
        }
        i = i + 1;
    }
    assert(has_at <==> wanted@.contains(0x40u8));
    assert(name@.take(wanted@.len() as int) =~= wanted@);
    if name.len() == wanted.len() {
        assert(name@ =~= wanted@);
        return true;
    }
    !has_at && name[wanted.len()] == 0x40
}

/// The index of the first child that answers to `wanted`, or the end.
pub fn find_child(children: &Vec<Node>, wanted: &[u8]) -> (i: usize)
    ensures
        i == child_from(forest(children@), wanted@, 0),
        i <= children@.len(),
{
    proof {
        lemma_forest(children@);
    }
    let mut i: usize = 0;
    while i < children.len() && !node_answers(children[i].name.as_slice(), wanted)
        invariant
            i <= children@.len(),
            forest(children@).len() == children@.len(),
            forall|k: int|
                0 <= k < children@.len() ==> #[trigger] forest(children@)[k] == tree(children@[k]),
            child_from(forest(children@), wanted@, 0) == child_from(
                forest(children@),
                wanted@,
                i as nat,
            ),
        decreases children@.len() - i,
    {
        assert(forest(children@)[i as int].name == children@[i as int].name@);
        i = i + 1;
    }
    if i < children.len() {
        assert(forest(children@)[i as int].name == children@[i as int].name@);
    }
    i
}

} // verus!
