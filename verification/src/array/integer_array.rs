//! A leaf of integers.
use vstd::prelude::*;

use crate::array::{Array, RealmRef};
use crate::error::{decodes, RealmFileError, RealmResult};
use crate::realm::Realm;

verus! {

/// The signed number that has the same 64 bits as `v`.
pub open spec fn as_signed(v: u64) -> i64 {
    if v >= 0x8000_0000_0000_0000 {
        (v - 0x1_0000_0000_0000_0000) as i64
    } else {
        v as i64
    }
}

/// The signed number that has the same 64 bits as `v`.
pub fn reinterpret(v: u64) -> (r: i64)
    ensures
        r == as_signed(v),
{
    if v >= 0x8000_0000_0000_0000 {
        (v - 0x8000_0000_0000_0000) as i64 + i64::MIN
    } else {
        v as i64
    }
}

/// A leaf whose slots are integers.
///
/// Read as a nullable leaf, slot 0 holds the number that stands for null and
/// element `i` is slot `i + 1`.
#[derive(Debug, Clone, Copy)]
pub struct IntegerArray<'a> {
    /// The slots.
    pub array: Array<'a>,
}

impl<'a> IntegerArray<'a> {
    /// The leaf at `ref_` in `realm`, where there is one.
    pub open spec fn at(realm: Realm<'a>, ref_: RealmRef) -> Option<IntegerArray<'a>> {
        match Array::at(realm, ref_) {
            Some(array) => Some(IntegerArray { array }),
            None => None,
        }
    }

    /// The slots are an array of the file.
    pub open spec fn wf(&self) -> bool {
        self.array.wf()
    }

    /// Element `index` as an unsigned number.
    pub open spec fn element(&self, index: int) -> Option<u64> {
        if 0 <= index < self.array.spec_size() {
            Some(self.array.slot(index))
        } else {
            None
        }
    }

    /// Element `index` as a signed number.
    pub open spec fn signed_element(&self, index: int) -> Option<i64> {
        match self.element(index) {
            Some(v) => Some(as_signed(v)),
            None => None,
        }
    }

    /// Element `index` of a nullable leaf: null where slot `index + 1` equals
    /// slot 0.
    pub open spec fn nullable_element(&self, index: int) -> Option<Option<i64>> {
        if 0 <= index && index + 1 < self.array.spec_size() {
            if self.array.slot(index + 1) == self.array.slot(0) {
                Some(None)
            } else {
                Some(Some(as_signed(self.array.slot(index + 1))))
            }
        } else {
            None
        }
    }

    /// The number of elements of a nullable leaf: one less than the slots.
    pub open spec fn spec_nullable_size(&self) -> int {
        if self.array.spec_size() == 0 {
            0
        } else {
            self.array.spec_size() - 1
        }
    }

    /// All elements, as unsigned numbers.
    pub open spec fn elements(&self) -> Seq<u64> {
        Seq::new(self.array.spec_size() as nat, |i: int| self.array.slot(i))
    }

    /// Wraps an array as a leaf of integers.
    pub fn from_array(array: Array<'a>) -> (r: IntegerArray<'a>)
        ensures
            r.array == array,
    {
        IntegerArray { array }
    }

    /// Loads the leaf at `ref_`.
    pub fn from_ref(realm: Realm<'a>, ref_: RealmRef) -> (r: RealmResult<IntegerArray<'a>>)
        ensures
            decodes(r, Self::at(realm, ref_)),
    {
        let array = Array::from_ref(realm, ref_)?;
        Ok(Self::from_array(array))
    }

    /// Element `index` as an unsigned number. Fails where the leaf has no
    /// such element.
    pub fn get(&self, index: usize) -> (r: RealmResult<u64>)
        requires
            self.wf(),
        ensures
            decodes(r, self.element(index as int)),
    {
        if index >= self.array.size() {
            return Err(RealmFileError::invalid("index outside leaf"));
        }
        Ok(self.array.get(index))
    }

    /// Element `index` of the leaf at `ref_`, as an unsigned number.
    pub fn get_direct(realm: Realm<'a>, ref_: RealmRef, index: usize) -> (r: RealmResult<u64>)
        ensures
            decodes(
                r,
                match Self::at(realm, ref_) {
                    Some(leaf) => leaf.element(index as int),
                    None => None,
                },
            ),
    {
        let leaf = Self::from_ref(realm, ref_)?;
        leaf.get(index)
    }

    /// Element `index` as a signed number. Fails where the leaf has no such
    /// element.
    pub fn get_signed(&self, index: usize) -> (r: RealmResult<i64>)
        requires
            self.wf(),
        ensures
            decodes(r, self.signed_element(index as int)),
    {
        let v = self.get(index)?;
        Ok(reinterpret(v))
    }

    /// Element `index` of the leaf at `ref_`, as a signed number.
    pub fn get_signed_direct(realm: Realm<'a>, ref_: RealmRef, index: usize) -> (r: RealmResult<
        i64,
    >)
        ensures
            decodes(
                r,
                match Self::at(realm, ref_) {
                    Some(leaf) => leaf.signed_element(index as int),
                    None => None,
                },
            ),
    {
        let leaf = Self::from_ref(realm, ref_)?;
        leaf.get_signed(index)
    }

    /// Element `index` of a nullable leaf. Fails where the leaf has no such
    /// element.
    pub fn get_nullable(&self, index: usize) -> (r: RealmResult<Option<i64>>)
        requires
            self.wf(),
        ensures
            decodes(r, self.nullable_element(index as int)),
    {
        let size = self.array.size();
        if size == 0 || index >= size - 1 {
            return Err(RealmFileError::invalid("index outside leaf"));
        }
        let value = self.array.get(index + 1);
        let null_value = self.array.get(0);
        Ok(
            if value == null_value {
                None
            } else {
                Some(reinterpret(value))
            },
        )
    }

    /// Element `index` of the nullable leaf at `ref_`.
    pub fn get_nullable_direct(realm: Realm<'a>, ref_: RealmRef, index: usize) -> (r: RealmResult<
        Option<i64>,
    >)
        ensures
            decodes(
                r,
                match Self::at(realm, ref_) {
                    Some(leaf) => leaf.nullable_element(index as int),
                    None => None,
                },
            ),
    {
        let leaf = Self::from_ref(realm, ref_)?;
        leaf.get_nullable(index)
    }

    /// Whether element `index` of a nullable leaf is null.
    pub fn is_null(&self, index: usize) -> (r: RealmResult<bool>)
        requires
            self.wf(),
        ensures
            decodes(
                r,
                match self.nullable_element(index as int) {
                    Some(v) => Some(v is None),
                    None => None,
                },
            ),
    {
        let v = self.get_nullable(index)?;
        Ok(v.is_none())
    }

    /// The number of elements.
    pub fn size(&self) -> (r: usize)
        ensures
            r == self.array.spec_size(),
    {
        self.array.size()
    }

    /// The number of elements of a nullable leaf.
    pub fn nullable_size(&self) -> (r: usize)
        ensures
            r == self.spec_nullable_size(),
    {
        let size = self.array.size();
        if size == 0 {
            0
        } else {
            size - 1
        }
    }

    /// All elements, as unsigned numbers.
    pub fn get_integers(&self) -> (r: Vec<u64>)
        requires
            self.wf(),
        ensures
            r@ == self.elements(),
    {
        let size = self.array.size();
        let mut out: Vec<u64> = Vec::with_capacity(size);
        let mut i: usize = 0;
        while i < size
            invariant
                self.wf(),
                size == self.array.spec_size(),
                i <= size,
                out@.len() == i,
                forall|j: int| 0 <= j < i ==> out@[j] == self.array.slot(j),
            decreases size - i,
        {
            out.push(self.array.get(i));
            i += 1;
        }
        assert(out@ =~= self.elements());
        out
    }
}

} // verus!
