//! A leaf of strings or blobs of medium length.
use vstd::prelude::*;
use vstd::slice::{slice_subrange, slice_to_vec};

use crate::array::{Array, RealmRef};
use crate::error::{decodes, RealmFileError, RealmResult};
use crate::realm::{Realm, RealmNode};
use crate::utils::{
    is_optional_text, is_text_or_empty, string_from_bytes, strip_nul, text_or_empty,
};

verus! {

/// A leaf of three parts: the end of each blob within the joined bytes, the
/// joined bytes of all blobs, and, where the leaf can hold nulls, one flag for
/// each blob that is 0 where the blob is null.
#[derive(Debug, Clone, Copy)]
pub struct SmallBlobsArray<'a> {
    /// Where each blob ends in the joined bytes.
    pub lengths: Array<'a>,
    /// The joined bytes of all blobs.
    pub blobs: RealmNode<'a>,
    /// For each blob, 0 where it is null and 1 where it is not.
    pub null: Option<Array<'a>>,
}

impl<'a> SmallBlobsArray<'a> {
    /// The leaf at `ref_` in `realm`, where there is one: an array of two or
    /// three slots that refer to the parts, with as many flags as blobs.
    pub open spec fn at(realm: Realm<'a>, ref_: RealmRef) -> Option<SmallBlobsArray<'a>> {
        match Array::at(realm, ref_) {
            Some(array) => if array.spec_size() != 2 && array.spec_size() != 3 {
                None
            } else {
                match (array.spec_array(0), array.spec_node(1)) {
                    (Some(Some(lengths)), Some(Some(blobs))) => if array.spec_size() == 3 {
                        match array.spec_array(2) {
                            Some(Some(null)) => if null.spec_size() == lengths.spec_size() {
                                Some(SmallBlobsArray { lengths, blobs, null: Some(null) })
                            } else {
                                None
                            },
                            Some(None) => Some(SmallBlobsArray { lengths, blobs, null: None }),
                            None => None,
                        }
                    } else {
                        Some(SmallBlobsArray { lengths, blobs, null: None })
                    },
                    _ => None,
                }
            },
            None => None,
        }
    }

    /// The parts are nodes of one file, with as many flags as blobs.
    pub open spec fn wf(&self) -> bool {
        &&& self.lengths.wf()
        &&& self.blobs.wf()
        &&& match self.null {
            Some(null) => null.wf() && null.spec_size() == self.lengths.spec_size(),
            None => true,
        }
    }

    /// The number of blobs.
    pub open spec fn spec_size(&self) -> int {
        self.lengths.spec_size()
    }

    /// Whether blob `index` is flagged as null.
    pub open spec fn flagged_null(&self, index: int) -> bool {
        match self.null {
            Some(null) => null.slot(index) == 0,
            None => false,
        }
    }

    /// The bytes of blob `index`, or `None` in it where the blob is null.
    ///
    /// A blob starts where the one before it ends. There is none where the
    /// leaf has no such blob, its flag is neither 0 nor 1, it does not end
    /// after its start, or it ends outside the joined bytes.
    pub open spec fn element(&self, index: int) -> Option<Option<Seq<u8>>> {
        if !(0 <= index < self.spec_size()) {
            None
        } else if self.null is Some && self.null.unwrap().slot(index) > 1 {
            None
        } else if self.flagged_null(index) {
            Some(None)
        } else {
            let begin = if index == 0 {
                0
            } else {
                self.lengths.slot(index - 1) as int
            };
            let end = self.lengths.slot(index) as int;
            if end <= begin || end > self.blobs.spec_payload().len() {
                None
            } else {
                Some(Some(self.blobs.spec_payload().subrange(begin, end)))
            }
        }
    }

    /// The bytes of the string at `index` without the NUL that ends them.
    pub open spec fn text_element(&self, index: int) -> Option<Option<Seq<u8>>> {
        match self.element(index) {
            Some(Some(bytes)) => Some(Some(strip_nul(bytes))),
            Some(None) => Some(None),
            None => None,
        }
    }

    /// Loads the leaf at `ref_`.
    pub fn from_ref(realm: Realm<'a>, ref_: RealmRef) -> (r: RealmResult<SmallBlobsArray<'a>>)
        ensures
            decodes(r, Self::at(realm, ref_)),
            r matches Ok(leaf) ==> leaf.wf(),
    {
        let array = Array::from_ref(realm, ref_)?;
        let size = array.size();
        if size != 2 && size != 3 {
            return Err(RealmFileError::invalid("a leaf of blobs has two or three parts"));
        }
        let lengths = match array.get_array(0)? {
            Some(a) => a,
            None => {
                return Err(RealmFileError::invalid("a leaf of blobs needs its lengths"));
            },
        };
        let blobs = match array.get_node(1)? {
            Some(n) => n,
            None => {
                return Err(RealmFileError::invalid("a leaf of blobs needs its bytes"));
            },
        };
        let null = if size == 3 {
            array.get_array(2)?
        } else {
            None
        };
        match null {
            Some(n) => {
                if n.size() != lengths.size() {
                    return Err(
                        RealmFileError::invalid("a leaf of blobs needs one flag for each blob"),
                    );
                }
            },
            None => {},
        }
        Ok(SmallBlobsArray { lengths, blobs, null })
    }

    /// The bytes of blob `index`, or `None` where the blob is null.
    pub fn get_bytes(&self, index: usize) -> (r: RealmResult<Option<Vec<u8>>>)
        requires
            self.wf(),
        ensures
            match self.element(index as int) {
                Some(Some(content)) => r matches Ok(Some(bytes)) && bytes@ == content,
                Some(None) => r matches Ok(None),
                None => r matches Err(e) && e is InvalidRealmFile,
            },
    {
        if index >= self.lengths.size() {
            return Err(RealmFileError::invalid("index outside leaf"));
        }
        match self.null {
            Some(null) => {
                let flag = null.get(index);
                if flag > 1 {
                    return Err(RealmFileError::invalid("invalid null flag"));
                }
                if flag == 0 {
                    return Ok(None);
                }
            },
            None => {},
        }
        let begin: u64 = if index == 0 {
            0
        } else {
            self.lengths.get(index - 1)
        };
        let end: u64 = self.lengths.get(index);
        let payload = self.blobs.payload();
        if end <= begin || end > payload.len() as u64 {
            return Err(RealmFileError::invalid("invalid blob bounds"));
        }
        Ok(Some(slice_to_vec(slice_subrange(payload, begin as usize, end as usize))))
    }

    /// The bytes of blob `index` of the leaf at `ref_`.
    pub fn get_bytes_direct(realm: Realm<'a>, ref_: RealmRef, index: usize) -> (r: RealmResult<
        Option<Vec<u8>>,
    >)
        ensures
            match Self::at(realm, ref_) {
                Some(leaf) => match leaf.element(index as int) {
                    Some(Some(content)) => r matches Ok(Some(bytes)) && bytes@ == content,
                    Some(None) => r matches Ok(None),
                    None => r matches Err(e) && e is InvalidRealmFile,
                },
                None => r matches Err(e) && e is InvalidRealmFile,
            },
    {
        let leaf = Self::from_ref(realm, ref_)?;
        leaf.get_bytes(index)
    }

    /// The string at `index`, or `None` where it is null.
    pub fn get(&self, index: usize) -> (r: RealmResult<Option<String>>)
        requires
            self.wf(),
        ensures
            is_optional_text(r, self.text_element(index as int)),
    {
        match self.get_bytes(index)? {
            Some(bytes) => {
                let s = string_from_bytes(bytes)?;
                Ok(Some(s))
            },
            None => Ok(None),
        }
    }

    /// The string at `index` of the leaf at `ref_`, or `None` where it is
    /// null.
    pub fn get_direct(realm: Realm<'a>, ref_: RealmRef, index: usize) -> (r: RealmResult<
        Option<String>,
    >)
        ensures
            is_optional_text(
                r,
                match Self::at(realm, ref_) {
                    Some(leaf) => leaf.text_element(index as int),
                    None => None,
                },
            ),
    {
        let leaf = Self::from_ref(realm, ref_)?;
        leaf.get(index)
    }

    /// The string at `index`, or the empty string where it is null.
    pub fn get_or_default(&self, index: usize) -> (r: RealmResult<String>)
        requires
            self.wf(),
        ensures
            is_text_or_empty(r, self.text_element(index as int)),
    {
        let text = self.get(index)?;
        Ok(text_or_empty(text))
    }

    /// The string at `index` of the leaf at `ref_`, or the empty string
    /// where it is null.
    pub fn get_or_default_direct(realm: Realm<'a>, ref_: RealmRef, index: usize) -> (r:
        RealmResult<String>)
        ensures
            is_text_or_empty(
                r,
                match Self::at(realm, ref_) {
                    Some(leaf) => leaf.text_element(index as int),
                    None => None,
                },
            ),
    {
        let leaf = Self::from_ref(realm, ref_)?;
        leaf.get_or_default(index)
    }

    /// Whether blob `index` is flagged as null. Fails where the leaf has no
    /// such blob.
    pub fn is_null(&self, index: usize) -> (r: RealmResult<bool>)
        requires
            self.wf(),
        ensures
            decodes(
                r,
                if 0 <= index < self.spec_size() {
                    Some(self.flagged_null(index as int))
                } else {
                    None
                },
            ),
    {
        if index >= self.lengths.size() {
            return Err(RealmFileError::invalid("index outside leaf"));
        }
        match self.null {
            Some(null) => Ok(null.get(index) == 0),
            None => Ok(false),
        }
    }

    /// The number of blobs.
    pub fn size(&self) -> (r: usize)
        ensures
            r == self.spec_size(),
    {
        self.lengths.size()
    }
}

} // verus!
