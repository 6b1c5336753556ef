//! A leaf of long strings or blobs.
use vstd::prelude::*;
use vstd::slice::{slice_subrange, slice_to_vec};

use crate::array::{Array, RealmRef};
use crate::error::{decodes, RealmFileError, RealmResult};
use crate::realm::{Realm, RealmNode};
use crate::utils::{
    is_optional_text, is_text_or_empty, string_from_bytes, strip_nul, text_or_empty,
};

verus! {

/// The bytes that the node `item` holds as one blob: the first `size` bytes
/// of its payload. A node of size 0 holds a null; one whose size exceeds its
/// payload holds nothing.
pub open spec fn blob_of(item: RealmNode) -> Option<Option<Seq<u8>>> {
    let size = item.header.size as int;
    if size == 0 {
        Some(None)
    } else if size > item.spec_payload().len() {
        None
    } else {
        Some(Some(item.spec_payload().subrange(0, size)))
    }
}

/// A leaf of references, each to a node that holds one blob.
#[derive(Debug, Clone, Copy)]
pub struct LongBlobsArray<'a> {
    /// The references.
    pub array: Array<'a>,
}

impl<'a> LongBlobsArray<'a> {
    /// The leaf at `ref_` in `realm`, where there is one: an array with the
    /// has-refs flag and the context flag set.
    pub open spec fn at(realm: Realm<'a>, ref_: RealmRef) -> Option<LongBlobsArray<'a>> {
        match Array::at(realm, ref_) {
            Some(array) => if array.node.header.spec_has_refs()
                && array.node.header.spec_context_flag() {
                Some(LongBlobsArray { array })
            } else {
                None
            },
            None => None,
        }
    }

    /// The references are an array of the file.
    pub open spec fn wf(&self) -> bool {
        self.array.wf()
    }

    /// The number of blobs.
    pub open spec fn spec_size(&self) -> int {
        self.array.spec_size()
    }

    /// The bytes of blob `index`, or `None` in it where the blob is null: its
    /// slot is 0 or refers to a node of size 0.
    pub open spec fn element(&self, index: int) -> Option<Option<Seq<u8>>> {
        if !(0 <= index < self.spec_size()) {
            None
        } else {
            match self.array.spec_node(index) {
                Some(Some(item)) => blob_of(item),
                Some(None) => Some(None),
                None => None,
            }
        }
    }

    /// The bytes of the string at `index` without the NUL that ends them.
    pub open spec fn text_element(&self, index: int) -> Option<Option<Seq<u8>>> {
        match self.element(index) {
            Some(Some(bytes)) => Some(Some(strip_nul(bytes))),
            Some(None) => Some(None),
            None => None,
        }
    }

    /// Loads the leaf at `ref_`.
    pub fn from_ref(realm: Realm<'a>, ref_: RealmRef) -> (r: RealmResult<LongBlobsArray<'a>>)
        ensures
            decodes(r, Self::at(realm, ref_)),
            r matches Ok(leaf) ==> leaf.wf(),
    {
        let array = Array::from_ref(realm, ref_)?;
        if !array.node.header.has_refs() {
            return Err(RealmFileError::invalid("a leaf of long blobs must have references"));
        }
        if !array.node.header.context_flag() {
            return Err(RealmFileError::invalid("a leaf of long blobs must have its context flag set"));
        }
        Ok(LongBlobsArray { array })
    }

    /// The bytes of the blob that the node `item` holds.
    pub fn item_bytes(item: RealmNode<'a>) -> (r: RealmResult<Option<Vec<u8>>>)
        requires
            item.wf(),
        ensures
            match blob_of(item) {
                Some(Some(content)) => r matches Ok(Some(bytes)) && bytes@ == content,
                Some(None) => r matches Ok(None),
                None => r matches Err(e) && e is InvalidRealmFile,
            },
    {
        let payload = item.payload();
        let size = item.header.size as usize;
        if size == 0 {
            return Ok(None);
        }
        if size > payload.len() {
            return Err(RealmFileError::invalid("blob longer than its node"));
        }
        Ok(Some(slice_to_vec(slice_subrange(payload, 0, size))))
    }

    /// The bytes of blob `index`, or `None` where the blob is null.
    pub fn get_bytes(&self, index: usize) -> (r: RealmResult<Option<Vec<u8>>>)
        requires
            self.wf(),
        ensures
            match self.element(index as int) {
                Some(Some(content)) => r matches Ok(Some(bytes)) && bytes@ == content,
                Some(None) => r matches Ok(None),
                None => r matches Err(e) && e is InvalidRealmFile,
            },
    {
        if index >= self.array.size() {
            return Err(RealmFileError::invalid("index outside leaf"));
        }
        match self.array.get_node(index)? {
            Some(item) => Self::item_bytes(item),
            None => Ok(None),
        }
    }

    /// The bytes of blob `index` of the leaf at `ref_`.
    pub fn get_bytes_direct(realm: Realm<'a>, ref_: RealmRef, index: usize) -> (r: RealmResult<
        Option<Vec<u8>>,
    >)
        ensures
            match Self::at(realm, ref_) {
                Some(leaf) => match leaf.element(index as int) {
                    Some(Some(content)) => r matches Ok(Some(bytes)) && bytes@ == content,
                    Some(None) => r matches Ok(None),
                    None => r matches Err(e) && e is InvalidRealmFile,
                },
                None => r matches Err(e) && e is InvalidRealmFile,
            },
    {
        let leaf = Self::from_ref(realm, ref_)?;
        leaf.get_bytes(index)
    }

    /// The string at `index`, or `None` where it is null.
    pub fn get(&self, index: usize) -> (r: RealmResult<Option<String>>)
        requires
            self.wf(),
        ensures
            is_optional_text(r, self.text_element(index as int)),
    {
        match self.get_bytes(index)? {
            Some(bytes) => {
                let s = string_from_bytes(bytes)?;
                Ok(Some(s))
            },
            None => Ok(None),
        }
    }

    /// The string at `index` of the leaf at `ref_`, or `None` where it is
    /// null.
    pub fn get_direct(realm: Realm<'a>, ref_: RealmRef, index: usize) -> (r: RealmResult<
        Option<String>,
    >)
        ensures
            is_optional_text(
                r,
                match Self::at(realm, ref_) {
                    Some(leaf) => leaf.text_element(index as int),
                    None => None,
                },
            ),
    {
        let leaf = Self::from_ref(realm, ref_)?;
        leaf.get(index)
    }

    /// The string at `index`, or the empty string where it is null.
    pub fn get_or_default(&self, index: usize) -> (r: RealmResult<String>)
        requires
            self.wf(),
        ensures
            is_text_or_empty(r, self.text_element(index as int)),
    {
        let text = self.get(index)?;
        Ok(text_or_empty(text))
    }

    /// The string at `index` of the leaf at `ref_`, or the empty string
    /// where it is null.
    pub fn get_or_default_direct(realm: Realm<'a>, ref_: RealmRef, index: usize) -> (r:
        RealmResult<String>)
        ensures
            is_text_or_empty(
                r,
                match Self::at(realm, ref_) {
                    Some(leaf) => leaf.text_element(index as int),
                    None => None,
                },
            ),
    {
        let leaf = Self::from_ref(realm, ref_)?;
        leaf.get_or_default(index)
    }

    /// Whether blob `index` is null: its slot is 0 or refers to a node of
    /// size 0. Fails where the leaf has no such blob or the slot refers to no
    /// node.
    pub fn is_null(&self, index: usize) -> (r: RealmResult<bool>)
        requires
            self.wf(),
        ensures
            decodes(
                r,
                if 0 <= index < self.spec_size() {
                    match self.array.spec_node(index as int) {
                        Some(Some(item)) => Some(item.header.size == 0),
                        Some(None) => Some(true),
                        None => None,
                    }
                } else {
                    None
                },
            ),
    {
        if index >= self.array.size() {
            return Err(RealmFileError::invalid("index outside leaf"));
        }
        match self.array.get_node(index)? {
            Some(item) => Ok(item.header.size == 0),
            None => Ok(true),
        }
    }

    /// The number of blobs.
    pub fn size(&self) -> (r: usize)
        ensures
            r == self.spec_size(),
    {
        self.array.size()
    }
}

} // verus!
