//! A leaf of booleans or of floating-point numbers.
use vstd::prelude::*;
use vstd::slice::slice_subrange;

use crate::array::{Array, RealmRef};
use crate::endian::{le_u32, le_u64, read_u32, read_u64};
use crate::error::{decodes, RealmFileError, RealmResult};
use crate::realm::Realm;

verus! {

/// A leaf whose elements are booleans, one slot each, or floating-point
/// numbers of four or eight bytes each.
///
/// Read as a nullable leaf, element 0 holds what stands for null and logical
/// element `i` is element `i + 1`.
#[derive(Debug, Clone, Copy)]
pub struct ScalarArray<'a> {
    /// The node, seen as slots.
    pub array: Array<'a>,
}

impl<'a> ScalarArray<'a> {
    /// The leaf at `ref_` in `realm`, where there is one.
    pub open spec fn at(realm: Realm<'a>, ref_: RealmRef) -> Option<ScalarArray<'a>> {
        match Array::at(realm, ref_) {
            Some(array) => Some(ScalarArray { array }),
            None => None,
        }
    }

    /// The node is an array of the file.
    pub open spec fn wf(&self) -> bool {
        self.array.wf()
    }

    /// The payload of the leaf.
    pub open spec fn payload(&self) -> Seq<u8> {
        self.array.node.spec_payload()
    }

    /// Element `index` as a boolean: whether the slot is not 0.
    pub open spec fn bool_element(&self, index: int) -> Option<bool> {
        if 0 <= index < self.array.spec_size() {
            Some(self.array.slot(index) != 0)
        } else {
            None
        }
    }

    /// Element `index` of a nullable leaf of booleans: null where slot
    /// `index + 1` equals slot 0.
    pub open spec fn nullable_bool_element(&self, index: int) -> Option<Option<bool>> {
        if 0 <= index && index + 1 < self.array.spec_size() {
            if self.array.slot(index + 1) == self.array.slot(0) {
                Some(None)
            } else {
                Some(Some(self.array.slot(index + 1) != 0))
            }
        } else {
            None
        }
    }

    /// The bits of element `index` of a leaf of single-precision numbers:
    /// four little-endian bytes of the payload.
    pub open spec fn float_element(&self, index: int) -> Option<u32> {
        if 0 <= index < self.array.spec_size() && 4 * (index + 1) <= self.payload().len() {
            Some(le_u32(self.payload().subrange(4 * index, 4 * index + 4)) as u32)
        } else {
            None
        }
    }

    /// The bits of element `index` of a leaf of double-precision numbers:
    /// eight little-endian bytes of the payload.
    pub open spec fn double_element(&self, index: int) -> Option<u64> {
        if 0 <= index < self.array.spec_size() && 8 * (index + 1) <= self.payload().len() {
            Some(le_u64(self.payload().subrange(8 * index, 8 * index + 8)) as u64)
        } else {
            None
        }
    }

    /// Element `index` of a nullable leaf of single-precision numbers: null
    /// where element `index + 1` has the bits of element 0.
    pub open spec fn nullable_float_element(&self, index: int) -> Option<Option<u32>> {
        match (self.float_element(0), self.float_element(index + 1)) {
            (Some(null_bits), Some(bits)) => if index < 0 {
                None
            } else if bits == null_bits {
                Some(None)
            } else {
                Some(Some(bits))
            },
            _ => None,
        }
    }

    /// Element `index` of a nullable leaf of double-precision numbers: null
    /// where element `index + 1` has the bits of element 0.
    pub open spec fn nullable_double_element(&self, index: int) -> Option<Option<u64>> {
        match (self.double_element(0), self.double_element(index + 1)) {
            (Some(null_bits), Some(bits)) => if index < 0 {
                None
            } else if bits == null_bits {
                Some(None)
            } else {
                Some(Some(bits))
            },
            _ => None,
        }
    }

    /// The number of elements of a nullable leaf: one less than the slots.
    pub open spec fn spec_nullable_size(&self) -> int {
        if self.array.spec_size() == 0 {
            0
        } else {
            self.array.spec_size() - 1
        }
    }

    /// Loads the leaf at `ref_`.
    pub fn from_ref(realm: Realm<'a>, ref_: RealmRef) -> (r: RealmResult<ScalarArray<'a>>)
        ensures
            decodes(r, Self::at(realm, ref_)),
    {
        let array = Array::from_ref(realm, ref_)?;
        Ok(ScalarArray { array })
    }

    /// Element `index` as a boolean. Fails where the leaf has no such element.
    pub fn get_bool(&self, index: usize) -> (r: RealmResult<bool>)
        requires
            self.wf(),
        ensures
            decodes(r, self.bool_element(index as int)),
    {
        if index >= self.array.size() {
            return Err(RealmFileError::invalid("index outside leaf"));
        }
        Ok(self.array.get(index) != 0)
    }

    /// Element `index` of the leaf at `ref_`, as a boolean.
    pub fn get_bool_direct(realm: Realm<'a>, ref_: RealmRef, index: usize) -> (r: RealmResult<bool>)
        ensures
            decodes(
                r,
                match Self::at(realm, ref_) {
                    Some(leaf) => leaf.bool_element(index as int),
                    None => None,
                },
            ),
    {
        let leaf = Self::from_ref(realm, ref_)?;
        leaf.get_bool(index)
    }

    /// Element `index` of a nullable leaf of booleans.
    pub fn get_nullable_bool(&self, index: usize) -> (r: RealmResult<Option<bool>>)
        requires
            self.wf(),
        ensures
            decodes(r, self.nullable_bool_element(index as int)),
    {
        let size = self.array.size();
        if size == 0 || index >= size - 1 {
            return Err(RealmFileError::invalid("index outside leaf"));
        }
        let value = self.array.get(index + 1);
        let null_value = self.array.get(0);
        Ok(
            if value == null_value {
                None
            } else {
                Some(value != 0)
            },
        )
    }

    /// Element `index` of the nullable leaf of booleans at `ref_`.
    pub fn get_nullable_bool_direct(realm: Realm<'a>, ref_: RealmRef, index: usize) -> (r:
        RealmResult<Option<bool>>)
        ensures
            decodes(
                r,
                match Self::at(realm, ref_) {
                    Some(leaf) => leaf.nullable_bool_element(index as int),
                    None => None,
                },
            ),
    {
        let leaf = Self::from_ref(realm, ref_)?;
        leaf.get_nullable_bool(index)
    }

    /// The bits of element `index` of a leaf of single-precision numbers.
    pub fn get_float(&self, index: usize) -> (r: RealmResult<u32>)
        requires
            self.wf(),
        ensures
            decodes(r, self.float_element(index as int)),
    {
        proof {
            self.array.lemma_wf();
            self.array.node.lemma_wf();
        }
        let payload = self.array.node.payload();
        if index >= self.array.size() || payload.len() / 4 <= index {
            return Err(RealmFileError::invalid("index outside leaf"));
        }
        let start = index * 4;
        Ok(read_u32(slice_subrange(payload, start, start + 4)))
    }

    /// The bits of element `index` of the leaf of single-precision numbers
    /// at `ref_`.
    pub fn get_float_direct(realm: Realm<'a>, ref_: RealmRef, index: usize) -> (r: RealmResult<u32>)
        ensures
            decodes(
                r,
                match Self::at(realm, ref_) {
                    Some(leaf) => leaf.float_element(index as int),
                    None => None,
                },
            ),
    {
        let leaf = Self::from_ref(realm, ref_)?;
        leaf.get_float(index)
    }

    /// The bits of element `index` of a leaf of double-precision numbers.
    pub fn get_double(&self, index: usize) -> (r: RealmResult<u64>)
        requires
            self.wf(),
        ensures
            decodes(r, self.double_element(index as int)),
    {
        proof {
            self.array.lemma_wf();
            self.array.node.lemma_wf();
        }
        let payload = self.array.node.payload();
        if index >= self.array.size() || payload.len() / 8 <= index {
            return Err(RealmFileError::invalid("index outside leaf"));
        }
        let start = index * 8;
        Ok(read_u64(slice_subrange(payload, start, start + 8)))
    }

    /// The bits of element `index` of the leaf of double-precision numbers
    /// at `ref_`.
    pub fn get_double_direct(realm: Realm<'a>, ref_: RealmRef, index: usize) -> (r: RealmResult<
        u64,
    >)
        ensures
            decodes(
                r,
                match Self::at(realm, ref_) {
                    Some(leaf) => leaf.double_element(index as int),
                    None => None,
                },
            ),
    {
        let leaf = Self::from_ref(realm, ref_)?;
        leaf.get_double(index)
    }

    /// Element `index` of a nullable leaf of single-precision numbers.
    pub fn get_nullable_float(&self, index: usize) -> (r: RealmResult<Option<u32>>)
        requires
            self.wf(),
        ensures
            decodes(r, self.nullable_float_element(index as int)),
    {
        if index >= self.array.size() {
            return Err(RealmFileError::invalid("index outside leaf"));
        }
        let null_bits = self.get_float(0)?;
        let bits = self.get_float(index + 1)?;
        Ok(
            if bits == null_bits {
                None
            } else {
                Some(bits)
            },
        )
    }

    /// Element `index` of a nullable leaf of double-precision numbers.
    pub fn get_nullable_double(&self, index: usize) -> (r: RealmResult<Option<u64>>)
        requires
            self.wf(),
        ensures
            decodes(r, self.nullable_double_element(index as int)),
    {
        if index >= self.array.size() {
            return Err(RealmFileError::invalid("index outside leaf"));
        }
        let null_bits = self.get_double(0)?;
        let bits = self.get_double(index + 1)?;
        Ok(
            if bits == null_bits {
                None
            } else {
                Some(bits)
            },
        )
    }

    /// Element `index` of the nullable leaf of single-precision numbers at
    /// `ref_`.
    pub fn get_nullable_float_direct(realm: Realm<'a>, ref_: RealmRef, index: usize) -> (r:
        RealmResult<Option<u32>>)
        ensures
            decodes(
                r,
                match Self::at(realm, ref_) {
                    Some(leaf) => leaf.nullable_float_element(index as int),
                    None => None,
                },
            ),
    {
        let leaf = Self::from_ref(realm, ref_)?;
        leaf.get_nullable_float(index)
    }

    /// Element `index` of the nullable leaf of double-precision numbers at
    /// `ref_`.
    pub fn get_nullable_double_direct(realm: Realm<'a>, ref_: RealmRef, index: usize) -> (r:
        RealmResult<Option<u64>>)
        ensures
            decodes(
                r,
                match Self::at(realm, ref_) {
                    Some(leaf) => leaf.nullable_double_element(index as int),
                    None => None,
                },
            ),
    {
        let leaf = Self::from_ref(realm, ref_)?;
        leaf.get_nullable_double(index)
    }

    /// The number of elements.
    pub fn size(&self) -> (r: usize)
        ensures
            r == self.array.spec_size(),
    {
        self.array.size()
    }

    /// The number of elements of a nullable leaf.
    pub fn nullable_size(&self) -> (r: usize)
        ensures
            r == self.spec_nullable_size(),
    {
        let size = self.array.size();
        if size == 0 {
            0
        } else {
            size - 1
        }
    }
}

} // verus!
