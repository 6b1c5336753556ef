//! A leaf of strings, in whichever of the three layouts its header names.
use vstd::prelude::*;

use crate::array::array_string_short::ArrayStringShort;
use crate::array::long_blobs_array::LongBlobsArray;
use crate::array::small_blobs_array::SmallBlobsArray;
use crate::array::RealmRef;
use crate::error::{decodes, RealmResult};
use crate::realm::{header_at, Realm};
use crate::utils::{is_optional_text, is_text_or_empty, text_or_empty};

verus! {

/// A leaf of strings. Without the has-refs flag it holds short strings; with
/// it, strings of medium length where the context flag is clear and long
/// strings where it is set.
#[derive(Debug, Clone, Copy)]
pub enum ArrayString<'a> {
    /// Strings of a fixed width.
    Short(ArrayStringShort<'a>),
    /// Strings joined in one node.
    Small(SmallBlobsArray<'a>),
    /// Strings in a node each.
    Long(LongBlobsArray<'a>),
}

impl<'a> ArrayString<'a> {
    /// The leaf at `ref_` in `realm`, where there is one.
    #[verifier::opaque]
    pub open spec fn at(realm: Realm<'a>, ref_: RealmRef) -> Option<ArrayString<'a>> {
        match header_at(realm@, ref_.offset()) {
            Some(header) => if !header.spec_has_refs() {
                match ArrayStringShort::at(realm, ref_) {
                    Some(leaf) => Some(ArrayString::Short(leaf)),
                    None => None,
                }
            } else if !header.spec_context_flag() {
                match SmallBlobsArray::at(realm, ref_) {
                    Some(leaf) => Some(ArrayString::Small(leaf)),
                    None => None,
                }
            } else {
                match LongBlobsArray::at(realm, ref_) {
                    Some(leaf) => Some(ArrayString::Long(leaf)),
                    None => None,
                }
            },
            None => None,
        }
    }

    /// The leaf is made of nodes of one file.
    pub open spec fn wf(&self) -> bool {
        match self {
            ArrayString::Short(leaf) => leaf.wf(),
            ArrayString::Small(leaf) => leaf.wf(),
            ArrayString::Long(leaf) => leaf.wf(),
        }
    }

    /// The number of strings.
    pub open spec fn spec_size(&self) -> int {
        match self {
            ArrayString::Short(leaf) => leaf.spec_size(),
            ArrayString::Small(leaf) => leaf.spec_size(),
            ArrayString::Long(leaf) => leaf.spec_size(),
        }
    }

    /// The bytes of the string at `index`, or `None` in it where the string
    /// is null.
    #[verifier::opaque]
    pub open spec fn element(&self, index: int) -> Option<Option<Seq<u8>>> {
        match self {
            ArrayString::Short(leaf) => leaf.element(index),
            ArrayString::Small(leaf) => leaf.text_element(index),
            ArrayString::Long(leaf) => leaf.text_element(index),
        }
    }

    /// Loads the leaf at `ref_`, in the layout that its header names.
    pub fn from_ref(realm: Realm<'a>, ref_: RealmRef) -> (r: RealmResult<ArrayString<'a>>)
        ensures
            decodes(r, Self::at(realm, ref_)),
            r matches Ok(leaf) ==> leaf.wf(),
    {
        reveal(ArrayString::at);
        let header = realm.header(ref_)?;
        if !header.has_refs() {
            let leaf = ArrayStringShort::from_ref(realm, ref_)?;
            Ok(ArrayString::Short(leaf))
        } else if !header.context_flag() {
            let leaf = SmallBlobsArray::from_ref(realm, ref_)?;
            Ok(ArrayString::Small(leaf))
        } else {
            let leaf = LongBlobsArray::from_ref(realm, ref_)?;
            Ok(ArrayString::Long(leaf))
        }
    }

    /// The string at `index`, or `None` where it is null.
    pub fn get(&self, index: usize) -> (r: RealmResult<Option<String>>)
        requires
            self.wf(),
        ensures
            is_optional_text(r, self.element(index as int)),
    {
        reveal(ArrayString::element);
        match self {
            ArrayString::Short(leaf) => leaf.get(index),
            ArrayString::Small(leaf) => leaf.get(index),
            ArrayString::Long(leaf) => leaf.get(index),
        }
    }

    /// The string at `index` of the leaf at `ref_`, or `None` where it is
    /// null.
    pub fn get_direct(realm: Realm<'a>, ref_: RealmRef, index: usize) -> (r: RealmResult<
        Option<String>,
    >)
        ensures
            is_optional_text(
                r,
                match Self::at(realm, ref_) {
                    Some(leaf) => leaf.element(index as int),
                    None => None,
                },
            ),
    {
        reveal(ArrayString::at);
        reveal(ArrayString::element);
        let header = realm.header(ref_)?;
        if !header.has_refs() {
            ArrayStringShort::get_direct(realm, ref_, index)
        } else if !header.context_flag() {
            SmallBlobsArray::get_direct(realm, ref_, index)
        } else {
            LongBlobsArray::get_direct(realm, ref_, index)
        }
    }

    /// The string at `index`, or the empty string where it is null.
    pub fn get_or_default(&self, index: usize) -> (r: RealmResult<String>)
        requires
            self.wf(),
        ensures
            is_text_or_empty(r, self.element(index as int)),
    {
        let text = self.get(index)?;
        Ok(text_or_empty(text))
    }

    /// The string at `index` of the leaf at `ref_`, or the empty string
    /// where it is null.
    pub fn get_or_default_direct(realm: Realm<'a>, ref_: RealmRef, index: usize) -> (r:
        RealmResult<String>)
        ensures
            is_text_or_empty(
                r,
                match Self::at(realm, ref_) {
                    Some(leaf) => leaf.element(index as int),
                    None => None,
                },
            ),
    {
        let text = Self::get_direct(realm, ref_, index)?;
        Ok(text_or_empty(text))
    }

    /// The number of strings.
    pub fn size(&self) -> (r: usize)
        ensures
            r == self.spec_size(),
    {
        match self {
            ArrayString::Short(leaf) => leaf.size(),
            ArrayString::Small(leaf) => leaf.size(),
            ArrayString::Long(leaf) => leaf.size(),
        }
    }
}

} // verus!
