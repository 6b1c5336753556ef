//! A dump of the tree of nodes of a file, line by line.
use vstd::prelude::*;

use crate::array::{Array, RealmRef};
use crate::column::bptree::max_depth;
use crate::error::{RealmFileError, RealmResult};
use crate::realm::{lemma_len_fits, slot_meaning, NodeHeader, Realm, SlotValue};

verus! {

/// One line of the dump of a tree of nodes.
#[derive(Debug, Clone, Copy)]
pub enum DumpLine {
    /// A node: how deep it stands in the tree, where it stands in the file,
    /// and its header.
    Node { depth: usize, ref_: RealmRef, header: NodeHeader },
    /// The tree goes on below, deeper than the file has nodes.
    TooDeep { depth: usize },
    /// The node above is an inner node of a B+Tree, in compact form or not,
    /// with its first slot and its last slot halved.
    Inner { depth: usize, compact: bool, elems_per_child: u64, total_elements: u64 },
    /// The node above is a leaf without references.
    Leaf { depth: usize, ref_: RealmRef },
    /// Slot `slot` of the node above holds nothing.
    EmptySlot { depth: usize, slot: usize },
    /// Slot `slot` of the node above holds the inline number `value`.
    Inline { depth: usize, slot: usize, value: u64 },
}

/// The reference that a slot of value `v` must hold to be followed: a
/// multiple of 8 that fits a machine word.
pub open spec fn followed(v: u64) -> Option<RealmRef> {
    if v % 8 == 0 && v <= usize::MAX {
        Some(RealmRef(v as usize))
    } else {
        None
    }
}

/// The lines of the dump of the slots `from` to `to` of the array `array`,
/// which stands `depth` deep, when trees may still go `fuel` levels down:
/// for each slot the line that says it is empty, the line of its inline
/// number, or the dump of the node it refers to.
pub open spec fn dump_slots(array: Array, from: int, to: int, depth: int, fuel: nat) -> Option<
    Seq<DumpLine>,
>
    decreases fuel, 0nat, to - from,
{
    if from >= to {
        Some(Seq::empty())
    } else {
        let first = match slot_meaning(array.slot(from)) {
            SlotValue::Ref(child) => if child == 0 {
                Some(seq![DumpLine::EmptySlot { depth: (depth + 1) as usize, slot: from as usize }])
            } else if fuel == 0 {
                None
            } else {
                match followed(child) {
                    Some(child_ref) => dump_of(
                        array.node.realm,
                        child_ref,
                        depth + 1,
                        (fuel - 1) as nat,
                    ),
                    None => None,
                }
            },
            SlotValue::Inline(value) => Some(
                seq![
                    DumpLine::Inline { depth: (depth + 1) as usize, slot: from as usize, value },
                ],
            ),
        };
        match (first, dump_slots(array, from + 1, to, depth, fuel)) {
            (Some(a), Some(b)) => Some(a + b),
            _ => None,
        }
    }
}

/// The lines of the dump of the tree under the node at `ref_`, which stands
/// `depth` deep, when trees may still go `fuel` levels down.
///
/// The first line is the node. A leaf without references gets one more line.
/// An inner node of a B+Tree gets a line for its form, then in general form
/// the dump of its offsets, then the dump of its children, which are the
/// slots between the first and the last. Any other node gets the dump of all
/// its slots. There is no dump where a node is damaged, an inner node has no
/// references or no slot, or a slot to follow holds no multiple of 8.
pub open spec fn dump_of(realm: Realm, ref_: RealmRef, depth: int, fuel: nat) -> Option<
    Seq<DumpLine>,
>
    decreases fuel, 1nat, 0int,
{
    match Array::at(realm, ref_) {
        Some(array) => {
            let header = array.node.header;
            let node = seq![DumpLine::Node { depth: depth as usize, ref_, header }];
            if fuel == 0 {
                Some(node.push(DumpLine::TooDeep { depth: depth as usize }))
            } else if !header.spec_is_inner_bptree() && !header.spec_has_refs() {
                Some(node.push(DumpLine::Leaf { depth: depth as usize, ref_ }))
            } else if !header.spec_is_inner_bptree() {
                match dump_slots(array, 0, array.spec_size(), depth, fuel) {
                    Some(slots) => Some(node + slots),
                    None => None,
                }
            } else if !header.spec_has_refs() || array.spec_size() < 1 {
                None
            } else {
                let first = array.slot(0);
                let form = DumpLine::Inner {
                    depth: depth as usize,
                    compact: first % 2 == 1,
                    elems_per_child: first / 2,
                    total_elements: array.slot(array.spec_size() - 1) / 2,
                };
                let offsets = if first % 2 == 1 {
                    Some(Seq::empty())
                } else {
                    match followed(first) {
                        Some(offsets_ref) => dump_of(realm, offsets_ref, depth + 1, (fuel - 1) as nat),
                        None => None,
                    }
                };
                match (offsets, dump_slots(array, 1, array.spec_size() - 1, depth, fuel)) {
                    (Some(a), Some(b)) => Some(node.push(form) + a + b),
                    _ => None,
                }
            }
        },
        None => None,
    }
}

/// Appends to `out` the lines of the dump of the slots `from` to `to` of
/// `array`.
pub fn walk_slots<'a>(
    array: &Array<'a>,
    from: usize,
    to: usize,
    depth: usize,
    fuel: usize,
    out: &mut Vec<DumpLine>,
) -> (r: RealmResult<()>)
    requires
        array.wf(),
        from <= to <= array.spec_size(),
        depth + fuel < usize::MAX,
    ensures
        match dump_slots(*array, from as int, to as int, depth as int, fuel as nat) {
            Some(lines) => r is Ok && final(out)@ == old(out)@ + lines,
            None => r matches Err(e) && e is InvalidRealmFile,
        },
    decreases fuel, 0nat,
{
    let ghost before = out@;
    let ghost all = dump_slots(*array, from as int, to as int, depth as int, fuel as nat);
    let mut i = from;
    assert(out@.subrange(before.len() as int, out@.len() as int) =~= Seq::<DumpLine>::empty());
    assert(Seq::<DumpLine>::empty() + all.unwrap() =~= all.unwrap());
    while i < to
        invariant
            array.wf(),
            from <= i <= to <= array.spec_size(),
            depth + fuel < usize::MAX,
            all == dump_slots(*array, from as int, to as int, depth as int, fuel as nat),
            before.len() <= out@.len(),
            out@.subrange(0, before.len() as int) == before,
            match dump_slots(*array, i as int, to as int, depth as int, fuel as nat) {
                Some(rest) => all == Some(
                    out@.subrange(before.len() as int, out@.len() as int) + rest,
                ),
                None => all is None,
            },
        decreases to - i,
    {
        let ghost done = out@.subrange(before.len() as int, out@.len() as int);
        let ghost start = out@;
        let value = array.get(i);
        if value % 2 == 1 {
            out.push(DumpLine::Inline { depth: depth + 1, slot: i, value: value / 2 });
        } else if value == 0 {
            out.push(DumpLine::EmptySlot { depth: depth + 1, slot: i });
        } else {
            if fuel == 0 {
                return Err(RealmFileError::invalid("tree is deeper than the file has nodes"));
            }
            if value % 8 != 0 || value > usize::MAX as u64 {
                return Err(RealmFileError::invalid("reference is not a multiple of 8"));
            }
            walk(array.node.realm, RealmRef::new(value as usize), depth + 1, fuel - 1, out)?;
        }
        proof {
            let first = out@.subrange(start.len() as int, out@.len() as int);
            assert(out@ =~= start + first);
            assert(out@.subrange(0, before.len() as int) =~= before);
            assert(out@.subrange(before.len() as int, out@.len() as int) =~= done + first);
            match dump_slots(*array, i + 1, to as int, depth as int, fuel as nat) {
                Some(rest) => {
                    assert(done + (first + rest) =~= (done + first) + rest);
                },
                None => {},
            }
        }
        i += 1;
    }
    proof {
        let done = out@.subrange(before.len() as int, out@.len() as int);
        assert(done + Seq::<DumpLine>::empty() =~= done);
        assert(out@ =~= before + done);
    }
    Ok(())
}

/// Appends to `out` the lines of the dump of the tree under the node at
/// `ref_`.
pub fn walk<'a>(realm: Realm<'a>, ref_: RealmRef, depth: usize, fuel: usize, out: &mut Vec<DumpLine>) -> (r:
    RealmResult<()>)
    requires
        depth + fuel < usize::MAX,
    ensures
        match dump_of(realm, ref_, depth as int, fuel as nat) {
            Some(lines) => r is Ok && final(out)@ == old(out)@ + lines,
            None => r matches Err(e) && e is InvalidRealmFile,
        },
    decreases fuel, 1nat, 0int,
{
    let ghost before = out@;
    let array = Array::from_ref(realm, ref_)?;
    let header = array.node.header;
    let size = array.size();
    out.push(DumpLine::Node { depth, ref_, header });
    let ghost node = seq![DumpLine::Node { depth, ref_, header }];
    assert(out@ =~= before + node);
    if fuel == 0 {
        out.push(DumpLine::TooDeep { depth });
        assert(out@ =~= before + node.push(DumpLine::TooDeep { depth }));
        return Ok(());
    }
    if !header.is_inner_bptree() && !header.has_refs() {
        out.push(DumpLine::Leaf { depth, ref_ });
        assert(out@ =~= before + node.push(DumpLine::Leaf { depth, ref_ }));
        return Ok(());
    }
    if !header.is_inner_bptree() {
        walk_slots(&array, 0, size, depth, fuel, out)?;
        proof {
            let slots = dump_slots(array, 0, size as int, depth as int, fuel as nat).unwrap();
            assert(out@ =~= before + (node + slots));
        }
        return Ok(());
    }
    if !header.has_refs() || size < 1 {
        return Err(RealmFileError::invalid("inner b+tree nodes must have refs"));
    }
    let first = array.front();
    let form = DumpLine::Inner {
        depth,
        compact: first % 2 == 1,
        elems_per_child: first / 2,
        total_elements: array.back() / 2,
    };
    out.push(form);
    assert(out@ =~= before + node.push(form));
    if first % 2 == 0 {
        if first % 8 != 0 || first > usize::MAX as u64 {
            return Err(RealmFileError::invalid("reference is not a multiple of 8"));
        }
        walk(realm, RealmRef::new(first as usize), depth + 1, fuel - 1, out)?;
    }
    let ghost offsets = out@.subrange(before.len() as int + 2, out@.len() as int);
    assert(out@ =~= before + node.push(form) + offsets);
    if size >= 2 {
        walk_slots(&array, 1, size - 1, depth, fuel, out)?;
    }
    proof {
        let slots = dump_slots(array, 1, size - 1, depth as int, fuel as nat).unwrap();
        assert(out@ =~= before + (node.push(form) + offsets + slots));
    }
    Ok(())
}

impl<'a> Realm<'a> {
    /// The lines of the dump of the tree of nodes under the active top
    /// reference.
    pub fn walk_tree(&self) -> (r: RealmResult<Vec<DumpLine>>)
        requires
            self.wf(),
        ensures
            match dump_of(
                *self,
                RealmRef(self.hdr.spec_active_top_ref() as usize),
                0,
                max_depth(*self),
            ) {
                Some(lines) => r matches Ok(v) && v@ == lines,
                None => r matches Err(e) && e is InvalidRealmFile,
            },
    {
        let mut out: Vec<DumpLine> = Vec::new();
        proof {
            lemma_len_fits(self.bytes);
        }
        let fuel = self.bytes.len() / 8;
        walk(*self, self.top_ref(), 0, fuel, &mut out)?;
        assert(Seq::<DumpLine>::empty() + out@ =~= out@);
        Ok(out)
    }
}

} // verus!
