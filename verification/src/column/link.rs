//! The leaf of a column of links.
use vstd::prelude::*;

use crate::array::{Array, RealmRef};
use crate::error::{decodes, RealmFileError, RealmResult};
use crate::realm::Realm;
use crate::value::Link;

verus! {

/// What a leaf of links needs to know of its column.
#[derive(Debug, Copy, Clone, PartialEq, Eq, Structural)]
pub struct LinkColumnContext {
    /// The number of the table that the links point into.
    pub target_table_index: usize,
}

/// A leaf of links: each slot is 0 for no link, or one more than the number
/// of the row it points to.
#[derive(Debug, Clone, Copy)]
pub struct LinkLeaf<'a> {
    /// The slots.
    pub root: Array<'a>,
    /// The table that the links point into.
    pub context: LinkColumnContext,
}

impl<'a> LinkLeaf<'a> {
    /// The leaf at `ref_` in `realm`, where there is one.
    pub open spec fn at(realm: Realm<'a>, ref_: RealmRef, context: LinkColumnContext) -> Option<
        LinkLeaf<'a>,
    > {
        match Array::at(realm, ref_) {
            Some(root) => Some(LinkLeaf { root, context }),
            None => None,
        }
    }

    /// The slots are an array of the file.
    pub open spec fn wf(&self) -> bool {
        self.root.wf()
    }

    /// The link at `index`, or `None` in it where the slot is 0. There is
    /// none where the leaf has no such element or the row number does not fit
    /// a machine word.
    pub open spec fn element(&self, index: int) -> Option<Option<Link>> {
        if !(0 <= index < self.root.spec_size()) {
            None
        } else {
            let v = self.root.slot(index);
            if v == 0 {
                Some(None)
            } else if v - 1 > usize::MAX {
                None
            } else {
                Some(
                    Some(
                        Link {
                            target_table_number: self.context.target_table_index,
                            row_number: (v - 1) as usize,
                        },
                    ),
                )
            }
        }
    }

    /// Loads the leaf at `ref_`.
    pub fn from_ref_with_context(realm: Realm<'a>, ref_: RealmRef, context: LinkColumnContext) -> (r:
        RealmResult<LinkLeaf<'a>>)
        ensures
            decodes(r, Self::at(realm, ref_, context)),
    {
        let root = Array::from_ref(realm, ref_)?;
        Ok(LinkLeaf { root, context })
    }

    /// The link at `index`, or `None` where there is no link.
    pub fn get(&self, index: usize) -> (r: RealmResult<Option<Link>>)
        requires
            self.wf(),
        ensures
            decodes(r, self.element(index as int)),
    {
        if index >= self.root.size() {
            return Err(RealmFileError::invalid("index outside leaf"));
        }
        let value = self.root.get(index);
        if value == 0 {
            return Ok(None);
        }
        if value - 1 > usize::MAX as u64 {
            return Err(RealmFileError::invalid("row number too large"));
        }
        Ok(Some(Link::new(self.context.target_table_index, (value - 1) as usize)))
    }

    /// The link at `index` of the leaf at `ref_`.
    pub fn get_direct(
        realm: Realm<'a>,
        ref_: RealmRef,
        index: usize,
        context: LinkColumnContext,
    ) -> (r: RealmResult<Option<Link>>)
        ensures
            decodes(
                r,
                match Self::at(realm, ref_, context) {
                    Some(leaf) => leaf.element(index as int),
                    None => None,
                },
            ),
    {
        let leaf = Self::from_ref_with_context(realm, ref_, context)?;
        leaf.get(index)
    }

    /// Whether there is no link at `index`.
    pub fn is_null(&self, index: usize) -> (r: RealmResult<bool>)
        requires
            self.wf(),
        ensures
            decodes(
                r,
                if 0 <= index < self.root.spec_size() {
                    Some(self.root.slot(index as int) == 0)
                } else {
                    None
                },
            ),
    {
        if index >= self.root.size() {
            return Err(RealmFileError::invalid("index outside leaf"));
        }
        Ok(self.root.get(index) == 0)
    }

    /// The number of elements.
    pub fn size(&self) -> (r: usize)
        ensures
            r == self.root.spec_size(),
    {
        self.root.size()
    }
}

} // verus!
