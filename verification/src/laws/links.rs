//! What holds of lists of links and of backlinks.
use vstd::prelude::*;

use crate::array::{ref_in_slot, Array};
use crate::column::backlink::BacklinkArray;
use crate::column::linklist::{links_to, row_numbers, LinkListLeaf};
use crate::value::{BacklinkView, Link};

verus! {

/// A list of links is empty where its slot is 0, holds one link to the
/// tagged row where its slot is tagged, and else holds a link to each row of
/// the array that its slot refers to.
pub proof fn lemma_link_list_slots(leaf: LinkListLeaf, index: int)
    requires
        0 <= index < leaf.root.spec_size(),
    ensures
        ({
            let slot = leaf.root.slot(index);
            let target = leaf.context.target_table_index;
            &&& slot == 0 ==> leaf.element(index) == Some(Seq::<Link>::empty())
            &&& slot % 2 == 1 && slot / 2 <= usize::MAX ==> leaf.element(index) == Some(
                seq![Link { target_table_number: target, row_number: (slot / 2) as usize }],
            )
            &&& slot != 0 && slot % 2 == 0 ==> (leaf.element(index) matches Some(links) ==> {
                &&& ref_in_slot(leaf.root.bytes().len() as int, slot) matches Some(Some(list_ref))
                &&& Array::at(leaf.root.node.realm, list_ref) matches Some(list)
                &&& row_numbers(list) matches Some(rows)
                &&& links == links_to(target, rows)
                &&& links.len() == list.spec_size()
            })
        }),
{
    let slot = leaf.root.slot(index);
    let target = leaf.context.target_table_index;
    if slot == 0 {
        assert(links_to(target, Seq::<usize>::empty()) =~= Seq::<Link>::empty());
    }
    if slot % 2 == 1 && slot / 2 <= usize::MAX {
        assert(links_to(target, seq![(slot / 2) as usize]) =~= seq![
            Link { target_table_number: target, row_number: (slot / 2) as usize },
        ]);
    }
}

/// A backlink is absent where its slot is 0, and a backlink that is there
/// names at least one row.
pub proof fn lemma_backlinks_are_never_empty(leaf: BacklinkArray, index: int)
    requires
        0 <= index < leaf.root.spec_size(),
    ensures
        leaf.root.slot(index) == 0 ==> leaf.element(index) == Some(None::<BacklinkView>),
        leaf.element(index) matches Some(Some(backlink)) ==> backlink.row_numbers.len() >= 1
            && leaf.root.slot(index) != 0,
{
}

} // verus!
