//! The document tree, held in a `tree_ds` tree keyed by identifier.
//!
//! The tree's contents are modelled as the list of its nodes in insertion
//! order, each as (identifier, parent identifier, record).

use vstd::prelude::*;
use tree_ds::prelude::{Node, Tree};
use crate::parser::file::FileData;
use crate::parser::opt_str_view;

verus! {

#[verifier::external_type_specification]
#[verifier::external_body]
#[verifier::reject_recursive_types(Q)]
#[verifier::reject_recursive_types(T)]
pub struct ExTree<Q, T>(Tree<Q, T>) where Q: PartialEq + Eq + Clone, T: PartialEq + Eq + Clone;

/// One node of the document tree: identifier, parent identifier (`None` for
/// a root), record.
pub type TreeEntry = (Seq<char>, Option<Seq<char>>, Option<FileData>);

/// The nodes of a tree in the order they were added: identifier, parent
/// identifier (`None` for a root), record.
pub uninterp spec fn tree_entries(t: Tree<String, FileData>) -> Seq<TreeEntry>;

/// Some node carries identifier `id`.
pub open spec fn has_id(entries: Seq<TreeEntry>, id: Seq<char>) -> bool {
    exists|i: int| 0 <= i < entries.len() && (#[trigger] entries[i]).0 == id
}

/// The identifiers of the nodes, in order.
pub open spec fn entry_ids(entries: Seq<TreeEntry>) -> Seq<Seq<char>> {
    entries.map_values(|e: TreeEntry| e.0)
}

/// The identifier of the first node at or after `i` that has no parent.
pub open spec fn root_from(entries: Seq<TreeEntry>, i: int) -> Option<Seq<char>>
    decreases entries.len() - i,
{
    if i < 0 || i >= entries.len() {
        None
    } else if entries[i].1 is None {
        Some(entries[i].0)
    } else {
        root_from(entries, i + 1)
    }
}

/// The tree's root: its first node without a parent.
pub open spec fn root_of(entries: Seq<TreeEntry>) -> Option<Seq<char>> {
    root_from(entries, 0)
}

/// Relies on tree_ds Tree::new: a new tree has no nodes.
#[verifier::external_body]
pub(crate) fn new_tree(name: &str) -> (t: Tree<String, FileData>)
    ensures
        tree_entries(t) == Seq::<TreeEntry>::empty(),
{
    Tree::new(Some(name))
}

/// Relies on tree_ds Tree::add_node, given Node::new(id, Some(data)):
/// without a parent the node becomes the root, and is refused when the tree
/// has a root already; with a parent it is attached under the first node of
/// that identifier, and is refused when there is none. A refused node leaves
/// the tree as it was. Repeated identifiers are not checked.
#[verifier::external_body]
pub(crate) fn add_node(
    t: &mut Tree<String, FileData>,
    id: String,
    data: FileData,
    parent: Option<&String>,
) -> (added: bool)
    ensures
        added == match parent {
            None => root_of(tree_entries(*old(t))) is None,
            Some(p) => has_id(tree_entries(*old(t)), p@),
        },
        added ==> tree_entries(*final(t)) == tree_entries(*old(t)).push(
            (id@, opt_str_view(parent), Some(data)),
        ),
        !added ==> tree_entries(*final(t)) == tree_entries(*old(t)),
{
    t.add_node(Node::new(id, Some(data)), parent).is_ok()
}

/// Relies on tree_ds Tree::get_node_by_id: it finds a node by identifier.
#[verifier::external_body]
pub(crate) fn contains_id(t: &Tree<String, FileData>, id: &String) -> (r: bool)
    ensures
        r == has_id(tree_entries(*t), id@),
{
    t.get_node_by_id(id).is_some()
}

/// Relies on tree_ds Tree::get_root_node and Node::get_node_id: the root is
/// the first node without a parent.
#[verifier::external_body]
pub(crate) fn root_id(t: &Tree<String, FileData>) -> (r: Option<String>)
    ensures
        match r {
            Some(s) => root_of(tree_entries(*t)) == Some(s@),
            None => root_of(tree_entries(*t)) is None,
        },
{
    match t.get_root_node() {
        Some(n) => n.get_node_id().ok(),
        None => None,
    }
}

/// Relies on tree_ds Tree::get_nodes: it lists every node of the tree.
#[verifier::external_body]
pub(crate) fn node_count(t: &Tree<String, FileData>) -> (r: usize)
    ensures
        r == tree_entries(*t).len(),
{
    t.get_nodes().len()
}

} // verus!
