//! References into the file and the basic array of slots.
pub mod array_string;
pub mod array_string_short;
pub mod integer_array;
pub mod long_blobs_array;
pub mod scalar_array;
pub mod small_blobs_array;

use vstd::prelude::*;

use crate::error::{decodes, RealmFileError, RealmResult};
use crate::realm::{
    decode_slot, node_at, slot_meaning, NodeHeader, Realm, RealmNode, SlotValue,
};
use crate::utils::{
    lemma_slot_value_bound, lemma_slots_readable, read_array_value, slot_readable, slot_value,
    slots_readable,
};

verus! {

/// A reference to a node: its byte offset in the file, a multiple of 8.
#[derive(Copy, Clone, Debug, Hash, PartialEq, Eq, Structural)]
pub struct RealmRef(pub usize);

impl RealmRef {
    /// The byte offset that this reference holds.
    pub open spec fn offset(&self) -> int {
        self.0 as int
    }

    /// A reference to the node at byte offset `ref_`.
    pub fn new(ref_: usize) -> (r: RealmRef)
        requires
            ref_ % 8 == 0,
        ensures
            r.offset() == ref_,
    {
        RealmRef(ref_)
    }

    /// The byte offset in the file.
    pub fn to_offset(self) -> (o: usize)
        ensures
            o == self.offset(),
    {
        self.0
    }
}

/// What a slot holds that is not 0: a reference or a tagged number.
#[derive(Debug, Copy, Clone, PartialEq, Eq, Structural)]
pub enum RefOrTaggedValue {
    /// An even slot: the byte offset of a node.
    Ref(RealmRef),
    /// An odd slot: the number that is left when the low bit is dropped.
    TaggedValue(u64),
}

impl RefOrTaggedValue {
    /// What a slot of value `value` holds, by its low bit.
    pub open spec fn of(value: u64) -> RefOrTaggedValue {
        if value % 2 == 0 {
            RefOrTaggedValue::Ref(RealmRef(value as usize))
        } else {
            RefOrTaggedValue::TaggedValue(value / 2)
        }
    }

    /// Tells a reference from a tagged number by the low bit of `value`.
    pub fn from_raw(value: u64) -> (r: RefOrTaggedValue)
        requires
            value % 2 == 0 ==> value <= usize::MAX,
        ensures
            r == Self::of(value),
    {
        assert((value & 1 == 0) == (value % 2 == 0) && value >> 1 == value / 2) by (bit_vector);
        if value & 1 == 0 {
            RefOrTaggedValue::Ref(RealmRef(value as usize))
        } else {
            RefOrTaggedValue::TaggedValue(value >> 1)
        }
    }
}

/// The reference that a slot of value `v` holds in a file of `len` bytes:
/// none where `v` is 0, the offset `v` where that is a multiple of 8 with room
/// for a node header behind it. Any other slot holds no reference.
pub open spec fn ref_in_slot(len: int, v: u64) -> Option<Option<RealmRef>> {
    if v == 0 {
        Some(None)
    } else if v % 8 == 0 && v + 8 <= len {
        Some(Some(RealmRef(v as usize)))
    } else {
        None
    }
}

/// What a slot of value `v` holds in a file of `len` bytes: nothing where `v`
/// is 0, a tagged number where `v` is odd, else a reference as in
/// [`ref_in_slot`].
pub open spec fn ref_or_tag_in_slot(len: int, v: u64) -> Option<Option<RefOrTaggedValue>> {
    if v % 2 == 1 {
        Some(Some(RefOrTaggedValue::TaggedValue(v / 2)))
    } else {
        match ref_in_slot(len, v) {
            Some(Some(r)) => Some(Some(RefOrTaggedValue::Ref(r))),
            Some(None) => Some(None),
            None => None,
        }
    }
}

/// The header of the array at byte offset `offset`: a node whose payload
/// holds all the slots that its header counts.
#[verifier::opaque]
pub open spec fn array_at(bytes: Seq<u8>, offset: int) -> Option<NodeHeader> {
    match node_at(bytes, offset) {
        Some(header) => if slots_readable(
            header.spec_payload_len(),
            header.spec_width(),
            header.size as int,
        ) {
            Some(header)
        } else {
            None
        },
        None => None,
    }
}

/// Basic array. It only supports fetching `u64` values.
#[derive(Debug, Clone, Copy)]
pub struct Array<'a> {
    /// The node that holds the slots.
    pub node: RealmNode<'a>,
    /// The width of a slot in bits.
    pub width: u8,
}

impl<'a> Array<'a> {
    /// The array at `ref_` in `realm`, where there is one.
    pub open spec fn at(realm: Realm<'a>, ref_: RealmRef) -> Option<Array<'a>> {
        match array_at(realm@, ref_.offset()) {
            Some(header) => Some(
                Array {
                    node: RealmNode {
                        realm,
                        ref_,
                        header,
                        cached_payload_len: header.spec_payload_len() as usize,
                    },
                    width: header.spec_width(),
                },
            ),
            None => None,
        }
    }

    /// This is the array that the file holds at the node's reference.
    pub open spec fn wf(&self) -> bool {
        Self::at(self.node.realm, self.node.ref_) == Some(*self)
    }

    /// The number of slots.
    pub open spec fn spec_size(&self) -> int {
        self.node.header.size as int
    }

    /// The value of slot `index`.
    pub open spec fn slot(&self, index: int) -> u64 {
        slot_value(self.node.spec_payload(), self.width, index) as u64
    }

    /// The bytes of the file that holds the array.
    pub open spec fn bytes(&self) -> Seq<u8> {
        self.node.realm@
    }

    /// Loads the array at `ref_`.
    ///
    /// Fails where there is no node at `ref_` or its payload is too short
    /// for its slots.
    pub fn from_ref(realm: Realm<'a>, ref_: RealmRef) -> (r: RealmResult<Array<'a>>)
        ensures
            decodes(r, Self::at(realm, ref_)),
    {
        proof {
            reveal(array_at);
        }
        let node = RealmNode::from_ref(realm, ref_)?;
        let width = node.header.width();
        proof {
            node.lemma_wf();
        }
        assert(node.header.size as u64 * width as u64 <= 0xffff_ffff * 64) by (nonlinear_arith)
            requires
                node.header.size <= 0xffff_ffff,
                width <= 64,
        ;
        let bits: u64 = node.header.size as u64 * width as u64;
        if bits > 8 * (node.cached_payload_len as u64) {
            return Err(RealmFileError::invalid("array payload too short for its slots"));
        }
        Ok(Array { node, width })
    }

    /// The number of slots.
    pub fn size(&self) -> (r: usize)
        ensures
            r == self.spec_size(),
    {
        self.node.header.size as usize
    }

    /// An array of the file is a node of the file whose payload holds all
    /// its slots, at the width that its header names.
    pub proof fn lemma_wf(&self)
        requires
            self.wf(),
        ensures
            self.node.wf(),
            self.width == self.node.header.spec_width(),
            slots_readable(self.node.spec_payload().len() as int, self.width, self.spec_size()),
            self.spec_size() < 0x100_0000,
    {
        reveal(array_at);
        match RealmNode::at(self.node.realm, self.node.ref_) {
            Some(node) => {
                assert(node.wf());
                node.lemma_wf();
            },
            None => {
                reveal(node_at);
            },
        }
    }

    /// Slot `index` can be read.
    pub proof fn lemma_slot_readable(&self, index: int)
        requires
            self.wf(),
            0 <= index < self.spec_size(),
        ensures
            slot_readable(self.node.spec_payload().len() as int, self.width, index),
            self.slot(index) as int == slot_value(self.node.spec_payload(), self.width, index),
    {
        self.lemma_wf();
        lemma_slots_readable(
            self.node.spec_payload().len() as int,
            self.width,
            self.spec_size(),
            index,
        );
        lemma_slot_value_bound(self.node.spec_payload(), self.width, index);
    }

    /// The value of slot `index`.
    pub fn get(&self, index: usize) -> (v: u64)
        requires
            self.wf(),
            index < self.spec_size(),
        ensures
            v == self.slot(index as int),
    {
        proof {
            self.lemma_wf();
            self.lemma_slot_readable(index as int);
        }
        read_array_value(self.node.payload(), self.width, index)
    }

    /// The reference in slot `index`, or `None` where the slot is 0.
    ///
    /// Fails where the slot holds neither 0 nor a multiple of 8 that leaves
    /// room for a node header within the file.
    pub fn get_ref(&self, index: usize) -> (r: RealmResult<Option<RealmRef>>)
        requires
            self.wf(),
            index < self.spec_size(),
        ensures
            decodes(r, ref_in_slot(self.bytes().len() as int, self.slot(index as int))),
            r matches Ok(Some(found)) ==> found.offset() % 8 == 0 && found.offset() + 8
                <= self.bytes().len(),
    {
        let v = self.get(index);
        if v == 0 {
            return Ok(None);
        }
        let len = self.node.realm.bytes.len();
        if v % 8 != 0 || len < 8 || v > (len - 8) as u64 {
            return Err(RealmFileError::invalid("slot holds no usable reference"));
        }
        Ok(Some(RealmRef::new(v as usize)))
    }

    /// What slot `index` holds: a reference, a tagged number, or `None`
    /// where the slot is 0.
    ///
    /// Fails where the slot is even and holds no usable reference.
    pub fn get_ref_or_tagged_value(&self, index: usize) -> (r: RealmResult<
        Option<RefOrTaggedValue>,
    >)
        requires
            self.wf(),
            index < self.spec_size(),
        ensures
            decodes(r, ref_or_tag_in_slot(self.bytes().len() as int, self.slot(index as int))),
    {
        let v = self.get(index);
        if v % 2 == 1 {
            return Ok(Some(RefOrTaggedValue::from_raw(v)));
        }
        match self.get_ref(index)? {
            Some(r) => Ok(Some(RefOrTaggedValue::Ref(r))),
            None => Ok(None),
        }
    }

    /// The node that slot `index` refers to, or `None` where the slot is 0.
    pub open spec fn spec_node(&self, index: int) -> Option<Option<RealmNode<'a>>> {
        match ref_in_slot(self.bytes().len() as int, self.slot(index)) {
            Some(Some(ref_)) => match RealmNode::at(self.node.realm, ref_) {
                Some(node) => Some(Some(node)),
                None => None,
            },
            Some(None) => Some(None),
            None => None,
        }
    }

    /// The node that slot `index` refers to, or `None` where the slot is 0.
    pub fn get_node(&self, index: usize) -> (r: RealmResult<Option<RealmNode<'a>>>)
        requires
            self.wf(),
            index < self.spec_size(),
        ensures
            decodes(r, self.spec_node(index as int)),
    {
        match self.get_ref(index)? {
            Some(ref_) => {
                let node = RealmNode::from_ref(self.node.realm, ref_)?;
                Ok(Some(node))
            },
            None => Ok(None),
        }
    }

    /// The array that slot `index` refers to, or `None` where the slot is 0.
    pub fn get_array(&self, index: usize) -> (r: RealmResult<Option<Array<'a>>>)
        requires
            self.wf(),
            index < self.spec_size(),
        ensures
            decodes(r, self.spec_array(index as int)),
    {
        match self.get_ref(index)? {
            Some(ref_) => {
                let array = Array::from_ref(self.node.realm, ref_)?;
                Ok(Some(array))
            },
            None => Ok(None),
        }
    }

    /// The array that slot `index` refers to, or `None` where the slot is 0.
    pub open spec fn spec_array(&self, index: int) -> Option<Option<Array<'a>>> {
        match ref_in_slot(self.bytes().len() as int, self.slot(index)) {
            Some(Some(ref_)) => match Array::at(self.node.realm, ref_) {
                Some(array) => Some(Some(array)),
                None => None,
            },
            Some(None) => Some(None),
            None => None,
        }
    }

    /// All slots, each read by its low bit as a reference or as an inline
    /// number.
    pub fn decode_slots(&self) -> (r: Vec<SlotValue>)
        requires
            self.wf(),
        ensures
            r@.len() == self.spec_size(),
            forall|i: int| 0 <= i < r@.len() ==> r@[i] == slot_meaning(self.slot(i)),
    {
        let size = self.size();
        let mut out: Vec<SlotValue> = Vec::with_capacity(size);
        let mut i: usize = 0;
        proof {
            self.lemma_wf();
        }
        let payload = self.node.payload();
        while i < size
            invariant
                self.wf(),
                size == self.spec_size(),
                payload@ == self.node.spec_payload(),
                i <= size,
                out@.len() == i,
                forall|j: int| 0 <= j < i ==> out@[j] == slot_meaning(self.slot(j)),
            decreases size - i,
        {
            proof {
                self.lemma_slot_readable(i as int);
            }
            out.push(decode_slot(payload, self.width, i));
            i += 1;
        }
        out
    }

    /// The first slot.
    pub fn front(&self) -> (v: u64)
        requires
            self.wf(),
            self.spec_size() > 0,
        ensures
            v == self.slot(0),
    {
        self.get(0)
    }

    /// The last slot, or 0 where the array is empty.
    pub fn back(&self) -> (v: u64)
        requires
            self.wf(),
        ensures
            v == (if self.spec_size() == 0 {
                0
            } else {
                self.slot(self.spec_size() - 1)
            }),
    {
        let size = self.size();
        if size == 0 {
            return 0;
        }
        self.get(size - 1)
    }
}

} // verus!
