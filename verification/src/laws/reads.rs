//! The two ways of reading an element, through its leaf and directly, agree.
use vstd::prelude::*;

use crate::array::RealmRef;
use crate::column::bptree::{leaf_under, max_depth};
use crate::column::subtable::SubtableArrayLeaf;
use crate::column::{BpTree, LeafKind};
use crate::error::RealmResult;
use crate::realm::Realm;
use crate::table::row::{row_views, Row};
use crate::value::Value;

verus! {

/// Reading element `index` of a leaf through the leaf and decoding it
/// directly give the same value, or fail together.
pub proof fn lemma_leaf_reads_agree(
    realm: Realm,
    kind: LeafKind,
    leaf_ref: RealmRef,
    index: usize,
    through: RealmResult<Value>,
    direct: RealmResult<Value>,
)
    requires
        !(kind is Subtable),
        call_ensures(BpTree::plain_leaf_value, (realm, kind, leaf_ref, index), through),
        call_ensures(BpTree::plain_leaf_value_direct, (realm, kind, leaf_ref, index), direct),
    ensures
        through is Ok <==> direct is Ok,
        through matches Ok(a) ==> direct matches Ok(b) && a@ == b@,
{
}

/// Reading a cell of subtables through the leaf and decoding it directly
/// give the same rows, or fail together.
pub proof fn lemma_subtable_reads_agree(
    leaf: SubtableArrayLeaf,
    index: usize,
    depth: usize,
    through: RealmResult<Option<Vec<Row>>>,
    direct: RealmResult<Option<Vec<Row>>>,
)
    requires
        leaf.wf(),
        call_ensures(SubtableArrayLeaf::get, (&leaf, index, depth), through),
        call_ensures(
            SubtableArrayLeaf::get_direct,
            (leaf.root.node.realm, leaf.root.node.ref_, index, leaf.context(), depth),
            direct,
        ),
    ensures
        through is Ok <==> direct is Ok,
        through matches Ok(a) ==> direct matches Ok(b) && (a is None <==> b is None) && (a is Some
            ==> row_views(a.unwrap()@) == row_views(
            b.unwrap()@,
        )),
{
}

/// Reading a row of a column whose root is a leaf gives what decoding the
/// element of the root directly gives.
pub proof fn lemma_column_read_is_a_direct_read(
    tree: BpTree,
    index: usize,
    read: RealmResult<Value>,
    direct: RealmResult<Value>,
)
    requires
        tree.wf(),
        !tree.root.node.header.spec_is_inner_bptree(),
        !(tree.kind is Subtable),
        call_ensures(BpTree::get, (&tree, index), read),
        call_ensures(
            BpTree::plain_leaf_value_direct,
            (tree.realm(), tree.kind, tree.root.node.ref_, index),
            direct,
        ),
    ensures
        read is Ok <==> direct is Ok,
        read matches Ok(a) ==> direct matches Ok(b) && a@ == b@,
{
}

/// Reading an element of a tree whose root is an inner node gives what
/// decoding the element directly gives, at the leaf and the place where the
/// walk from the root ends.
pub proof fn lemma_tree_read_is_a_direct_read_at_the_leaf(
    tree: BpTree,
    index: usize,
    read: RealmResult<Value>,
    direct: RealmResult<Value>,
)
    requires
        tree.wf(),
        tree.root.node.header.spec_is_inner_bptree(),
        !(tree.kind is Subtable),
        leaf_under(tree.root, index as int, max_depth(tree.realm())) is Some,
        call_ensures(BpTree::get, (&tree, index), read),
        ({
            let (leaf_ref, index_in_leaf) = leaf_under(
                tree.root,
                index as int,
                max_depth(tree.realm()),
            ).unwrap();
            0 <= index_in_leaf <= usize::MAX && call_ensures(
                BpTree::plain_leaf_value_direct,
                (tree.realm(), tree.kind, leaf_ref, index_in_leaf as usize),
                direct,
            )
        }),
    ensures
        read is Ok <==> direct is Ok,
        read matches Ok(a) ==> direct matches Ok(b) && a@ == b@,
{
}

} // verus!
