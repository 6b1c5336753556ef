//! What holds of every node and of every reference that the reader follows.
use vstd::prelude::*;

use crate::array::{ref_in_slot, ref_or_tag_in_slot, RealmRef, RefOrTaggedValue};
use crate::realm::RealmNode;

verus! {

/// Every node that the reader has loaded carries the checksum
/// `0x4141_4141`, lies within the file with its whole payload, stands at a
/// multiple of 8, and counts fewer than 2^24 elements.
pub proof fn lemma_loaded_node_is_sound(node: RealmNode)
    requires
        node.wf(),
    ensures
        node.header.checksum == 0x4141_4141,
        node.ref_.offset() % 8 == 0,
        node.ref_.offset() + 8 + node.header.spec_payload_len() <= node.realm@.len(),
        node.header.size < 0x100_0000,
        node.header.spec_width_scheme() < 3,
{
    node.lemma_wf();
}

/// A slot that holds a reference holds 0 or a multiple of 8 with room for a
/// node header behind it in the file.
pub proof fn lemma_reference_slots(len: int, v: u64)
    requires
        len <= usize::MAX,
    ensures
        ref_in_slot(len, v) is Some <==> (v == 0 || (v % 8 == 0 && v + 8 <= len)),
        ref_in_slot(len, v) == Some(None::<RealmRef>) <==> v == 0,
        ref_in_slot(len, v) matches Some(Some(r)) ==> r.offset() == v && r.offset() % 8 == 0
            && r.offset() + 8 <= len,
        ref_or_tag_in_slot(len, v) matches Some(Some(RefOrTaggedValue::Ref(r))) ==> r.offset() == v
            && r.offset() % 8 == 0 && r.offset() + 8 <= len,
        v % 2 == 1 ==> ref_or_tag_in_slot(len, v) == Some(
            Some(RefOrTaggedValue::TaggedValue(v / 2)),
        ),
{
}

} // verus!
