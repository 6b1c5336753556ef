//! The leaf of a column of subtables.
//!
//! A cell of such a column holds a whole table. Its columns are described
//! once, by a header that the column names; its data is the array that the
//! slot of the cell refers to.
use vstd::prelude::*;

use crate::array::{ref_in_slot, Array, RealmRef};
use crate::cells::leaf_cell;
use crate::column::LeafKind;
use crate::error::{decodes, RealmFileError, RealmResult};
use crate::realm::Realm;
use crate::table::row::{row_views, Row};
use crate::table::Table;
use crate::value::ValueView;

verus! {

/// What a leaf of subtables needs to know of its column.
#[derive(Debug, Clone, Copy, PartialEq, Eq, Structural)]
pub struct SubtableContext {
    /// Where the header of the subtables stands.
    pub header_ref: RealmRef,
}

/// A leaf of subtables: each slot is 0 for no table, or a reference to the
/// data of one.
#[derive(Debug, Clone, Copy)]
pub struct SubtableArrayLeaf<'a> {
    /// The slots.
    pub root: Array<'a>,
    /// The header that describes the columns of every subtable.
    pub header_array: Array<'a>,
}

impl<'a> SubtableArrayLeaf<'a> {
    /// The leaf at `ref_` in `realm`, where there is one: an array, with the
    /// header of its subtables another.
    pub open spec fn at(realm: Realm<'a>, ref_: RealmRef, context: SubtableContext) -> Option<
        SubtableArrayLeaf<'a>,
    > {
        match (Array::at(realm, ref_), Array::at(realm, context.header_ref)) {
            (Some(root), Some(header_array)) => Some(SubtableArrayLeaf { root, header_array }),
            _ => None,
        }
    }

    /// The slots and the header are arrays of one file.
    pub open spec fn wf(&self) -> bool {
        &&& self.root.wf()
        &&& self.header_array.wf()
        &&& self.root.node.realm == self.header_array.node.realm
    }

    /// What the column says of its leaves.
    pub open spec fn context(&self) -> SubtableContext {
        SubtableContext { header_ref: self.header_array.node.ref_ }
    }

    /// Loads the leaf at `ref_` and the header that `context` names.
    pub fn from_ref_with_context(realm: Realm<'a>, ref_: RealmRef, context: SubtableContext) -> (r:
        RealmResult<SubtableArrayLeaf<'a>>)
        ensures
            decodes(r, Self::at(realm, ref_, context)),
    {
        let root = Array::from_ref(realm, ref_)?;
        let header_array = Array::from_ref(realm, context.header_ref)?;
        Ok(SubtableArrayLeaf { root, header_array })
    }

    /// The rows of the subtable at `index`, or `None` where the cell holds no
    /// table, when tables may still nest `depth` levels deep.
    pub fn get(&self, index: usize, depth: usize) -> (r: RealmResult<Option<Vec<Row>>>)
        requires
            self.wf(),
        ensures
            match leaf_cell(
                self.root.node.realm,
                LeafKind::Subtable(self.context()),
                self.root.node.ref_,
                index as int,
                depth as nat,
            ) {
                Ok(ValueView::Table(rows)) => r matches Ok(Some(v)) && row_views(v@) == rows,
                Ok(_) => r matches Ok(None),
                Err(f) => r matches Err(e) && e.reports(f),
            },
        decreases depth, 0nat,
    {
        if index >= self.root.size() {
            return Err(RealmFileError::invalid("index outside leaf"));
        }
        let data_ref = match self.root.get_ref(index)? {
            Some(r) => r,
            None => {
                return Ok(None);
            },
        };
        if depth == 0 {
            return Err(RealmFileError::invalid("tables nest deeper than the file has nodes"));
        }
        let data_array = Array::from_ref(self.root.node.realm, data_ref)?;
        let table = Table::build_from(&self.header_array, data_array, usize::MAX, depth - 1)?;
        let rows = table.get_rows()?;
        Ok(Some(rows))
    }

    /// The rows of the subtable at `index` of the leaf at `ref_`.
    pub fn get_direct(
        realm: Realm<'a>,
        ref_: RealmRef,
        index: usize,
        context: SubtableContext,
        depth: usize,
    ) -> (r: RealmResult<Option<Vec<Row>>>)
        ensures
            match leaf_cell(realm, LeafKind::Subtable(context), ref_, index as int, depth as nat) {
                Ok(ValueView::Table(rows)) => r matches Ok(Some(v)) && row_views(v@) == rows,
                Ok(_) => r matches Ok(None),
                Err(f) => r matches Err(e) && e.reports(f),
            },
        decreases depth, 1nat,
    {
        let leaf = Self::from_ref_with_context(realm, ref_, context)?;
        leaf.get(index, depth)
    }

    /// Whether the cell at `index` holds no table.
    pub fn is_null(&self, index: usize) -> (r: RealmResult<bool>)
        requires
            self.wf(),
        ensures
            decodes(
                r,
                if 0 <= index < self.root.spec_size() {
                    match ref_in_slot(
                        self.root.bytes().len() as int,
                        self.root.slot(index as int),
                    ) {
                        Some(found) => Some(found is None),
                        None => None,
                    }
                } else {
                    None
                },
            ),
    {
        if index >= self.root.size() {
            return Err(RealmFileError::invalid("index outside leaf"));
        }
        let found = self.root.get_ref(index)?;
        Ok(found.is_none())
    }

    /// The number of elements.
    pub fn size(&self) -> (r: usize)
        ensures
            r == self.root.spec_size(),
    {
        self.root.size()
    }
}

} // verus!
