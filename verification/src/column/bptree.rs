//! The walk from the root of a B+Tree to the leaf that holds an element.
use vstd::prelude::*;

use crate::array::{ref_in_slot, Array, RealmRef};
use crate::error::{decodes, RealmFileError, RealmResult};
use crate::realm::{header_at, Realm};
use crate::utils::{lemma_upper_bound_range, upper_bound, upper_bound_from};

verus! {

/// The inner node of a B+Tree at `ref_` in `realm`, where there is one: an
/// array with the inner flag and the has-refs flag set and at least two slots.
pub open spec fn inner_at<'a>(realm: Realm<'a>, ref_: RealmRef) -> Option<Array<'a>> {
    match Array::at(realm, ref_) {
        Some(node) => if node.node.header.spec_is_inner_bptree()
            && node.node.header.spec_has_refs() && node.spec_size() >= 2 {
            Some(node)
        } else {
            None
        },
        None => None,
    }
}

/// Which child of a node in compact form holds element `index`, and which of
/// the child's elements it is, when every child but the last holds
/// `elems_per_child` elements.
pub open spec fn compact_child(elems_per_child: int, index: int) -> Option<(int, int)> {
    if elems_per_child <= 0 {
        None
    } else {
        Some((index / elems_per_child, index % elems_per_child))
    }
}

/// Which child of a node in general form holds element `index`, and which of
/// the child's elements it is. Entry `i` of `offsets` is the number of
/// elements in the children up to and with child `i`.
///
/// The child is the first whose entry is above `index`, searched by halving.
/// There is none where the entry before it is above `index` too, which cannot
/// be where the entries never decrease.
pub open spec fn general_child(offsets: Array, index: int) -> Option<(int, int)> {
    let child = upper_bound_from(
        offsets.node.spec_payload(),
        offsets.width,
        0,
        offsets.spec_size(),
        index as u64,
    );
    let before = if child == 0 {
        0
    } else {
        offsets.slot(child - 1) as int
    };
    if before > index {
        None
    } else {
        Some((child, index - before))
    }
}

/// Which child of the inner node `node` holds element `index`, and which of
/// the child's elements it is.
///
/// Slot 0 decides the form. Where it is odd the node is in compact form and
/// the slot, halved, is the number of elements in each child. Where it is even
/// it refers to the array of offsets of the general form.
pub open spec fn child_of(node: Array, index: int) -> Option<(int, int)> {
    let first = node.slot(0);
    if first % 2 == 1 {
        compact_child(first as int / 2, index)
    } else {
        match ref_in_slot(node.bytes().len() as int, first) {
            Some(Some(offsets_ref)) => match Array::at(node.node.realm, offsets_ref) {
                Some(offsets) => general_child(offsets, index),
                None => None,
            },
            _ => None,
        }
    }
}

/// The child of the inner node `node` that holds element `index`, and which
/// of the child's elements it is. The children are the slots between the
/// first and the last; there is none where the child found is not among them
/// or its slot holds no reference.
pub open spec fn child_ref_of(node: Array, index: int) -> Option<(RealmRef, int)> {
    match child_of(node, index) {
        Some((child, index_in_child)) => if 0 <= child && 1 + child < node.spec_size() - 1 {
            match ref_in_slot(node.bytes().len() as int, node.slot(1 + child)) {
                Some(Some(child_ref)) => Some((child_ref, index_in_child)),
                _ => None,
            }
        } else {
            None
        },
        None => None,
    }
}

/// The leaf under the inner node `node` that holds element `index`, and which
/// of the leaf's elements it is, when the walk may still go `fuel` levels
/// down.
///
/// The walk goes to the child that holds the element and ends when that child
/// has the inner flag clear. There is no leaf where a node on the way is
/// damaged, or the fuel does not reach.
pub open spec fn leaf_under(node: Array, index: int, fuel: nat) -> Option<(RealmRef, int)>
    decreases fuel,
{
    match child_ref_of(node, index) {
        Some((child_ref, index_in_child)) => match header_at(node.bytes(), child_ref.offset()) {
            Some(header) => if !header.spec_is_inner_bptree() {
                Some((child_ref, index_in_child))
            } else if fuel == 0 {
                None
            } else {
                match inner_at(node.node.realm, child_ref) {
                    Some(child) => leaf_under(child, index_in_child, (fuel - 1) as nat),
                    None => None,
                }
            },
            None => None,
        },
        None => None,
    }
}

/// How many levels a walk may go down in `realm`: as many as there are places
/// for a node. A walk that goes further has met a node twice.
pub open spec fn max_depth(realm: Realm) -> nat {
    realm@.len() / 8
}

/// The element's index in the child is within the element's index in the node.
pub proof fn lemma_child_of_bound(node: Array, index: int)
    requires
        0 <= index,
    ensures
        child_of(node, index) matches Some((child, index_in_child)) ==> 0 <= child && 0
            <= index_in_child <= index,
{
    let first = node.slot(0);
    if first % 2 == 1 {
        let epc = first as int / 2;
        if epc > 0 {
            assert(0 <= index / epc && 0 <= index % epc <= index) by (nonlinear_arith)
                requires
                    0 <= index,
                    epc > 0,
            ;
        }
    } else {
        match ref_in_slot(node.bytes().len() as int, first) {
            Some(Some(offsets_ref)) => match Array::at(node.node.realm, offsets_ref) {
                Some(offsets) => {
                    lemma_upper_bound_range(
                        offsets.node.spec_payload(),
                        offsets.width,
                        0,
                        offsets.spec_size(),
                        index as u64,
                    );
                },
                None => {},
            },
            _ => {},
        }
    }
}

/// The element's index in its leaf is within its index in the tree.
pub proof fn lemma_leaf_under_bound(node: Array, index: int, fuel: nat)
    requires
        0 <= index,
    ensures
        leaf_under(node, index, fuel) matches Some((leaf_ref, index_in_leaf)) ==> 0
            <= index_in_leaf <= index,
    decreases fuel,
{
    lemma_child_of_bound(node, index);
    match child_ref_of(node, index) {
        Some((child_ref, index_in_child)) => match header_at(node.bytes(), child_ref.offset()) {
            Some(header) => if header.spec_is_inner_bptree() && fuel > 0 {
                match inner_at(node.node.realm, child_ref) {
                    Some(child) => {
                        lemma_leaf_under_bound(child, index_in_child, (fuel - 1) as nat);
                    },
                    None => {},
                }
            },
            None => {},
        },
        None => {},
    }
}

/// Find the index of the child node that contains the specified element
/// index, from the array of offsets of a node in general form.
///
/// Returns the child's number and the element's index in the child.
pub fn find_child_from_offsets<'a>(realm: Realm<'a>, offsets_ref: RealmRef, elem_ndx: usize) -> (r:
    RealmResult<(usize, usize)>)
    ensures
        match Array::at(realm, offsets_ref) {
            Some(offsets) => match general_child(offsets, elem_ndx as int) {
                Some((child, index_in_child)) => r matches Ok((c, i)) && c == child && i
                    == index_in_child,
                None => r matches Err(e) && e is InvalidRealmFile,
            },
            None => r matches Err(e) && e is InvalidRealmFile,
        },
{
    let offsets = Array::from_ref(realm, offsets_ref)?;
    proof {
        offsets.lemma_wf();
    }
    let offsets_data = offsets.node.payload();
    let child_index = upper_bound(offsets_data, offsets.width, offsets.size(), elem_ndx as u64);
    let elem_ndx_offset: u64 = if child_index == 0 {
        0
    } else {
        offsets.get(child_index - 1)
    };
    if elem_ndx_offset > elem_ndx as u64 {
        return Err(RealmFileError::invalid("offsets of a B+Tree node are out of order"));
    }
    let index_in_child = elem_ndx - elem_ndx_offset as usize;
    Ok((child_index, index_in_child))
}

/// Which child of the inner node `node` holds element `index`, and which of
/// the child's elements it is.
pub fn find_bptree_child<'a>(node: &Array<'a>, index: usize) -> (r: RealmResult<(u64, usize)>)
    requires
        node.wf(),
        node.spec_size() >= 1,
    ensures
        match child_of(*node, index as int) {
            Some((child, index_in_child)) => r matches Ok((c, i)) && c == child && i
                == index_in_child,
            None => r matches Err(e) && e is InvalidRealmFile,
        },
{
    proof {
        lemma_child_of_bound(*node, index as int);
    }
    let first_value = node.get(0);
    if first_value % 2 != 0 {
        // Compact form: no array of offsets.
        let elems_per_child = first_value / 2;
        if elems_per_child == 0 {
            return Err(RealmFileError::invalid("B+Tree node with empty children"));
        }
        let child_ndx = index as u64 / elems_per_child;
        let ndx_in_child = index as u64 % elems_per_child;
        return Ok((child_ndx, ndx_in_child as usize));
    }
    // General form: an array of offsets.
    let offsets_ref = match node.get_ref(0)? {
        Some(r) => r,
        None => {
            return Err(RealmFileError::invalid("B+Tree node without offsets"));
        },
    };
    let (child_index, index_in_child) = find_child_from_offsets(
        node.node.realm,
        offsets_ref,
        index,
    )?;
    Ok((child_index as u64, index_in_child))
}

/// The child of the inner node `node` that holds element `index`, and which
/// of the child's elements it is.
pub fn find_bptree_child_in_payload<'a>(node: &Array<'a>, index: usize) -> (r: RealmResult<
    (RealmRef, usize),
>)
    requires
        node.wf(),
        node.spec_size() >= 2,
    ensures
        match child_ref_of(*node, index as int) {
            Some((child_ref, index_in_child)) => r matches Ok((c, i)) && c == child_ref && i
                == index_in_child,
            None => r matches Err(e) && e is InvalidRealmFile,
        },
{
    proof {
        lemma_child_of_bound(*node, index as int);
    }
    let (child_index, index_in_child) = find_bptree_child(node, index)?;
    let size = node.size();
    if child_index >= (size - 2) as u64 {
        return Err(RealmFileError::invalid("B+Tree node has no such child"));
    }
    let child_ref = match node.get_ref(1 + child_index as usize)? {
        Some(r) => r,
        None => {
            return Err(RealmFileError::invalid("B+Tree node with a missing child"));
        },
    };
    Ok((child_ref, index_in_child))
}

/// A B+Tree node that holds a reference to the root node of the B+Tree.
/// Root is not allowed to be a leaf node.
#[derive(Debug, Clone, Copy)]
pub struct BpTreeNode<'a> {
    /// The root, an inner node.
    pub root: Array<'a>,
}

impl<'a> BpTreeNode<'a> {
    /// The root is an inner node of the file.
    pub open spec fn wf(&self) -> bool {
        inner_at(self.root.node.realm, self.root.node.ref_) == Some(self.root)
    }

    /// The number of elements under the root: its last slot, halved.
    pub open spec fn spec_size(&self) -> int {
        self.root.slot(self.root.spec_size() - 1) as int / 2
    }

    /// The leaf that holds element `index`, and which of the leaf's elements
    /// it is.
    pub open spec fn leaf(&self, index: int) -> Option<(RealmRef, int)> {
        leaf_under(self.root, index, max_depth(self.root.node.realm))
    }

    /// Takes `root` as the root of a B+Tree. Fails where `root` is no inner
    /// node with references and at least two slots.
    pub fn new(root: Array<'a>) -> (r: RealmResult<BpTreeNode<'a>>)
        requires
            root.wf(),
        ensures
            decodes(
                r,
                match inner_at(root.node.realm, root.node.ref_) {
                    Some(node) => Some(BpTreeNode { root: node }),
                    None => None,
                },
            ),
    {
        if !root.node.header.is_inner_bptree() || !root.node.header.has_refs() || root.size() < 2 {
            return Err(RealmFileError::invalid("not an inner node of a B+Tree"));
        }
        Ok(BpTreeNode { root })
    }

    /// The leaf that holds element `index`, and which of the leaf's elements
    /// it is.
    pub fn get_bptree_leaf(&self, index: usize) -> (r: RealmResult<(RealmRef, usize)>)
        requires
            self.wf(),
        ensures
            match self.leaf(index as int) {
                Some((leaf_ref, index_in_leaf)) => r matches Ok((l, i)) && l == leaf_ref && i
                    == index_in_leaf,
                None => r matches Err(e) && e is InvalidRealmFile,
            },
    {
        let realm = self.root.node.realm;
        let mut node = self.root;
        let mut index_in_node = index;
        let mut fuel: usize = realm.bytes.len() / 8;
        assert(fuel as nat == max_depth(realm));
        loop
            invariant
                realm == self.root.node.realm,
                node.node.realm == realm,
                inner_at(realm, node.node.ref_) == Some(node),
                leaf_under(node, index_in_node as int, fuel as nat) == self.leaf(index as int),
            decreases fuel,
        {
            proof {
                lemma_child_of_bound(node, index_in_node as int);
            }
            let (child_ref, index_in_child) = find_bptree_child_in_payload(&node, index_in_node)?;
            let child_header = realm.header(child_ref)?;
            if !child_header.is_inner_bptree() {
                return Ok((child_ref, index_in_child));
            }
            if fuel == 0 {
                return Err(RealmFileError::invalid("B+Tree is deeper than the file has nodes"));
            }
            let child = Array::from_ref(realm, child_ref)?;
            proof {
                child.lemma_wf();
                child.node.lemma_wf();
            }
            if !child.node.header.has_refs() || child.size() < 2 {
                return Err(RealmFileError::invalid("not an inner node of a B+Tree"));
            }
            node = child;
            index_in_node = index_in_child;
            fuel = fuel - 1;
        }
    }

    /// The number of elements under the root.
    pub fn get_bptree_size(&self) -> (r: usize)
        requires
            self.wf(),
            self.spec_size() <= usize::MAX,
        ensures
            r == self.spec_size(),
    {
        let v = self.root.back();
        (v / 2) as usize
    }
}

} // verus!
