//! What holds of the inner nodes of a B+Tree and of the walk through them.
use vstd::prelude::*;

use crate::array::{ref_in_slot, Array, RealmRef};
use crate::cells::tree_count;
use crate::column::bptree::{
    child_ref_of, general_child, inner_at, leaf_under, lemma_child_of_bound,
    lemma_leaf_under_bound,
};
use crate::column::BpTree;
use crate::realm::{header_at, Realm};
use crate::utils::{lemma_upper_bound_sorted, slot_value, sorted_slots, upper_bound_from};

verus! {

/// Every inner node of a B+Tree that the reader has loaded has the has-refs
/// flag set and at least two slots.
pub proof fn lemma_inner_node_shape(realm: Realm, ref_: RealmRef)
    requires
        inner_at(realm, ref_) is Some,
    ensures
        ({
            let node = inner_at(realm, ref_).unwrap();
            &&& node.wf()
            &&& node.node.header.spec_is_inner_bptree()
            &&& node.node.header.spec_has_refs()
            &&& node.spec_size() >= 2
        }),
{
}

/// The last slot of the inner root of a tree that the reader has loaded is
/// twice the number of elements that the tree counts.
pub proof fn lemma_last_slot_is_twice_the_count(tree: BpTree)
    requires
        tree.wf(),
        tree.root.node.header.spec_is_inner_bptree(),
    ensures
        tree_count(tree) matches Some(n) && tree.root.slot(tree.root.spec_size() - 1) == 2 * n,
        inner_at(tree.realm(), tree.root.node.ref_) == Some(tree.root),
{
}

/// The walk from an inner node to a leaf ends at a node that the file holds,
/// without the inner flag, and at a place in it that is no further than the
/// place in the tree.
pub proof fn lemma_walk_ends_at_a_leaf(node: Array, index: int, fuel: nat)
    requires
        0 <= index,
        leaf_under(node, index, fuel) is Some,
    ensures
        ({
            let (leaf_ref, index_in_leaf) = leaf_under(node, index, fuel).unwrap();
            &&& header_at(node.bytes(), leaf_ref.offset()) matches Some(header)
                && !header.spec_is_inner_bptree()
            &&& 0 <= index_in_leaf <= index
        }),
    decreases fuel,
{
    lemma_leaf_under_bound(node, index, fuel);
    match child_ref_of(node, index) {
        Some((child_ref, index_in_child)) => {
            lemma_child_of_bound(node, index);
            match header_at(node.bytes(), child_ref.offset()) {
                Some(header) => if header.spec_is_inner_bptree() && fuel > 0 {
                    match inner_at(node.node.realm, child_ref) {
                        Some(child) => {
                            lemma_walk_ends_at_a_leaf(child, index_in_child, (fuel - 1) as nat);
                        },
                        None => {},
                    }
                },
                None => {},
            }
        },
        None => {},
    }
}

/// In a node of compact form whose children are leaves, element `index` is
/// element `index % elems_per_child` of child `index / elems_per_child`: the
/// places do not drift.
pub proof fn lemma_compact_walk(node: Array, index: int, fuel: nat)
    requires
        0 <= index,
        node.slot(0) % 2 == 1,
        leaf_under(node, index, fuel) is Some,
    ensures
        ({
            let elems_per_child = node.slot(0) as int / 2;
            let child = index / elems_per_child;
            &&& elems_per_child > 0
            &&& 1 + child < node.spec_size() - 1
            &&& ref_in_slot(node.bytes().len() as int, node.slot(1 + child)) matches Some(
                Some(child_ref),
            ) && (!(header_at(node.bytes(), child_ref.offset()).unwrap().spec_is_inner_bptree())
                ==> leaf_under(node, index, fuel) == Some((child_ref, index % elems_per_child)))
        }),
{
}

/// The leaf that child `child` of the inner node `node` refers to, where it
/// refers to one.
pub open spec fn child_leaf<'a>(node: Array<'a>, child: int) -> Option<Array<'a>> {
    match ref_in_slot(node.bytes().len() as int, node.slot(1 + child)) {
        Some(Some(child_ref)) => match Array::at(node.node.realm, child_ref) {
            Some(leaf) => if leaf.node.header.spec_is_inner_bptree() {
                None
            } else {
                Some(leaf)
            },
            None => None,
        },
        _ => None,
    }
}

/// Whether the inner node `node` is in compact form over leaves: each child
/// but the last is a leaf of `elems_per_child` elements, and the last is a
/// leaf of at least one and at most `elems_per_child` elements.
pub open spec fn compact_over_leaves(node: Array, elems_per_child: int) -> bool {
    let children = node.spec_size() - 2;
    &&& node.slot(0) % 2 == 1
    &&& node.slot(0) as int / 2 == elems_per_child
    &&& elems_per_child > 0
    &&& children >= 1
    &&& forall|c: int|
        0 <= c < children ==> (#[trigger] child_leaf(node, c)) is Some && (if c < children - 1 {
            child_leaf(node, c).unwrap().spec_size() == elems_per_child
        } else {
            0 < child_leaf(node, c).unwrap().spec_size() <= elems_per_child
        })
}

/// The number of elements under a node that is in compact form over leaves.
pub open spec fn compact_total(node: Array, elems_per_child: int) -> int {
    let children = node.spec_size() - 2;
    (children - 1) * elems_per_child + child_leaf(node, children - 1).unwrap().spec_size()
}

/// Under a node in compact form over leaves, every element below the total
/// is found: element `index` is element `index % elems_per_child` of child
/// `index / elems_per_child`, and that leaf has such an element.
pub proof fn lemma_compact_tree_finds_every_element(
    node: Array,
    elems_per_child: int,
    index: int,
    fuel: nat,
)
    requires
        node.wf(),
        compact_over_leaves(node, elems_per_child),
        0 <= index < compact_total(node, elems_per_child),
    ensures
        ({
            let child = index / elems_per_child;
            let index_in_leaf = index % elems_per_child;
            &&& 0 <= child < node.spec_size() - 2
            &&& child_leaf(node, child) matches Some(leaf) && 0 <= index_in_leaf < leaf.spec_size()
                && leaf_under(node, index, fuel) == Some((leaf.node.ref_, index_in_leaf))
        }),
{
    let children = node.spec_size() - 2;
    let child = index / elems_per_child;
    let index_in_leaf = index % elems_per_child;
    let last = child_leaf(node, children - 1).unwrap();
    assert(0 <= child <= children - 1 && 0 <= index_in_leaf < elems_per_child && index == child
        * elems_per_child + index_in_leaf) by (nonlinear_arith)
        requires
            child == index / elems_per_child,
            index_in_leaf == index % elems_per_child,
            elems_per_child > 0,
            0 <= index < (children - 1) * elems_per_child + elems_per_child,
            children >= 1,
    ;
    let leaf = child_leaf(node, child).unwrap();
    assert(child_leaf(node, child) is Some);
    if child == children - 1 {
        assert(index_in_leaf < last.spec_size()) by (nonlinear_arith)
            requires
                index == child * elems_per_child + index_in_leaf,
                child == children - 1,
                index < (children - 1) * elems_per_child + last.spec_size(),
        ;
    }
    assert(leaf.wf());
    leaf.lemma_wf();
    leaf.node.lemma_wf();
}

/// In a node of general form whose offsets rise, the child that holds
/// element `index` is the first whose offset is above `index`, and the
/// element's place in it is `index` less the offset before.
pub proof fn lemma_general_child(offsets: Array, index: int)
    requires
        offsets.wf(),
        0 <= index <= u64::MAX,
        sorted_slots(offsets.node.spec_payload(), offsets.width, offsets.spec_size()),
    ensures
        general_child(offsets, index) matches Some((child, index_in_child))
            && 0 <= child <= offsets.spec_size() && (forall|i: int|
            0 <= i < child ==> offsets.slot(i) <= index) && (forall|i: int|
            child <= i < offsets.spec_size() ==> offsets.slot(i) > index) && index_in_child == index
            - (if child == 0 {
            0
        } else {
            offsets.slot(child - 1) as int
        }) && 0 <= index_in_child,
{
    lemma_upper_bound_sorted(
        offsets.node.spec_payload(),
        offsets.width,
        offsets.spec_size(),
        0,
        offsets.spec_size(),
        index as u64,
    );
    let child = upper_bound_from(
        offsets.node.spec_payload(),
        offsets.width,
        0,
        offsets.spec_size(),
        index as u64,
    );
    assert forall|i: int| 0 <= i < offsets.spec_size() implies offsets.slot(i) as int
        == slot_value(offsets.node.spec_payload(), offsets.width, i) by {
        offsets.lemma_slot_readable(i);
    }
}

} // verus!
