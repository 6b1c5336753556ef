//! The leaf of a column of backlinks.
use vstd::prelude::*;

use crate::array::{ref_or_tag_in_slot, Array, RealmRef, RefOrTaggedValue};
use crate::column::linklist::{read_row_numbers, row_numbers};
use crate::error::{decodes, RealmFileError, RealmResult};
use crate::realm::Realm;
use crate::value::{Backlink, BacklinkView};

verus! {

/// What a leaf of backlinks needs to know of its column.
#[derive(Debug, Copy, Clone, PartialEq, Eq, Structural)]
pub struct BacklinkContext {
    /// The number of the table that the links come from.
    pub target_table_number: usize,
    /// The number of the column that the links come from.
    pub target_table_column_number: usize,
}

/// A leaf of backlinks. A slot is 0 where no row links here, a tagged row
/// number where one row does, or a reference to an array of row numbers.
#[derive(Debug, Clone, Copy)]
pub struct BacklinkArray<'a> {
    /// The slots.
    pub root: Array<'a>,
    /// The table and column that the links come from.
    pub context: BacklinkContext,
}

impl<'a> BacklinkArray<'a> {
    /// The leaf at `ref_` in `realm`, where there is one.
    pub open spec fn at(realm: Realm<'a>, ref_: RealmRef, context: BacklinkContext) -> Option<
        BacklinkArray<'a>,
    > {
        match Array::at(realm, ref_) {
            Some(root) => Some(BacklinkArray { root, context }),
            None => None,
        }
    }

    /// The slots are an array of the file.
    pub open spec fn wf(&self) -> bool {
        self.root.wf()
    }

    /// The rows that link to the row at `index`, or `None` in it where the
    /// slot is 0. An array of rows that is empty is no backlink.
    pub open spec fn rows(&self, index: int) -> Option<Option<Seq<usize>>> {
        if !(0 <= index < self.root.spec_size()) {
            None
        } else {
            match ref_or_tag_in_slot(self.root.bytes().len() as int, self.root.slot(index)) {
                Some(Some(RefOrTaggedValue::Ref(list_ref))) => match Array::at(
                    self.root.node.realm,
                    list_ref,
                ) {
                    Some(list) => match row_numbers(list) {
                        Some(rows) => if rows.len() == 0 {
                            None
                        } else {
                            Some(Some(rows))
                        },
                        None => None,
                    },
                    None => None,
                },
                Some(Some(RefOrTaggedValue::TaggedValue(row))) => if row > usize::MAX {
                    None
                } else {
                    Some(Some(seq![row as usize]))
                },
                Some(None) => Some(None),
                None => None,
            }
        }
    }

    /// The backlink at `index`, or `None` in it where no row links here.
    pub open spec fn element(&self, index: int) -> Option<Option<BacklinkView>> {
        match self.rows(index) {
            Some(Some(rows)) => Some(
                Some(
                    BacklinkView {
                        origin_table_number: self.context.target_table_number,
                        origin_column_number: self.context.target_table_column_number,
                        row_numbers: rows,
                    },
                ),
            ),
            Some(None) => Some(None),
            None => None,
        }
    }

    /// Loads the leaf at `ref_`.
    pub fn from_ref_with_context(realm: Realm<'a>, ref_: RealmRef, context: BacklinkContext) -> (r:
        RealmResult<BacklinkArray<'a>>)
        ensures
            decodes(r, Self::at(realm, ref_, context)),
    {
        let root = Array::from_ref(realm, ref_)?;
        Ok(BacklinkArray { root, context })
    }

    /// The backlink at `index`, or `None` where no row links here.
    pub fn get(&self, index: usize) -> (r: RealmResult<Option<Backlink>>)
        requires
            self.wf(),
        ensures
            match self.element(index as int) {
                Some(Some(view)) => r matches Ok(Some(b)) && b@ == view,
                Some(None) => r matches Ok(None),
                None => r matches Err(e) && e is InvalidRealmFile,
            },
    {
        if index >= self.root.size() {
            return Err(RealmFileError::invalid("index outside leaf"));
        }
        match self.root.get_ref_or_tagged_value(index)? {
            Some(value) => {
                let b = Self::get_from_ref_or_tagged_value(self.root.node.realm, value, self.context)?;
                Ok(Some(b))
            },
            None => Ok(None),
        }
    }

    /// The backlink that a slot holding `value` stands for.
    pub fn get_from_ref_or_tagged_value(
        realm: Realm<'a>,
        value: RefOrTaggedValue,
        context: BacklinkContext,
    ) -> (r: RealmResult<Backlink>)
        ensures
            match value {
                RefOrTaggedValue::Ref(list_ref) => match Array::at(realm, list_ref) {
                    Some(list) => match row_numbers(list) {
                        Some(rows) => if rows.len() == 0 {
                            r matches Err(e) && e is InvalidRealmFile
                        } else {
                            r matches Ok(b) && b@ == (BacklinkView {
                                origin_table_number: context.target_table_number,
                                origin_column_number: context.target_table_column_number,
                                row_numbers: rows,
                            })
                        },
                        None => r matches Err(e) && e is InvalidRealmFile,
                    },
                    None => r matches Err(e) && e is InvalidRealmFile,
                },
                RefOrTaggedValue::TaggedValue(row) => if row > usize::MAX {
                    r matches Err(e) && e is InvalidRealmFile
                } else {
                    r matches Ok(b) && b@ == (BacklinkView {
                        origin_table_number: context.target_table_number,
                        origin_column_number: context.target_table_column_number,
                        row_numbers: seq![row as usize],
                    })
                },
            },
    {
        match value {
            RefOrTaggedValue::Ref(list_ref) => {
                let list = Array::from_ref(realm, list_ref)?;
                let values = read_row_numbers(&list)?;
                if values.len() == 0 {
                    return Err(RealmFileError::invalid("a backlink without rows"));
                }
                Ok(
                    Backlink::new(
                        context.target_table_number,
                        context.target_table_column_number,
                        values,
                    ),
                )
            },
            RefOrTaggedValue::TaggedValue(row) => {
                if row > usize::MAX as u64 {
                    return Err(RealmFileError::invalid("row number too large"));
                }
                let mut one: Vec<usize> = Vec::new();
                one.push(row as usize);
                assert(one@ =~= seq![row as usize]);
                Ok(
                    Backlink::new(
                        context.target_table_number,
                        context.target_table_column_number,
                        one,
                    ),
                )
            },
        }
    }

    /// The backlink at `index` of the leaf at `ref_`.
    pub fn get_direct(realm: Realm<'a>, ref_: RealmRef, index: usize, context: BacklinkContext) -> (r:
        RealmResult<Option<Backlink>>)
        ensures
            match Self::at(realm, ref_, context) {
                Some(leaf) => match leaf.element(index as int) {
                    Some(Some(view)) => r matches Ok(Some(b)) && b@ == view,
                    Some(None) => r matches Ok(None),
                    None => r matches Err(e) && e is InvalidRealmFile,
                },
                None => r matches Err(e) && e is InvalidRealmFile,
            },
    {
        let leaf = Self::from_ref_with_context(realm, ref_, context)?;
        leaf.get(index)
    }

    /// A backlink is never null, though it may be absent.
    pub fn is_null(&self, _index: usize) -> (r: RealmResult<bool>)
        ensures
            r == Ok::<bool, RealmFileError>(false),
    {
        Ok(false)
    }

    /// The number of elements.
    pub fn size(&self) -> (r: usize)
        ensures
            r == self.root.spec_size(),
    {
        self.root.size()
    }
}

} // verus!
