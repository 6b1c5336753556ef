//! The types that a column can have.
use vstd::prelude::*;

use crate::error::{decodes, RealmFileError, RealmResult};

verus! {

/// The type of value contained in a column of a Realm table.
#[derive(Debug, Clone, Copy, PartialEq, Eq, Structural)]
pub enum ColumnType {
    /// Signed integers.
    Int,
    /// Booleans.
    Bool,
    /// Strings.
    String,
    /// Strings of the old enumerated kind.
    OldStringEnum,
    /// Blobs.
    Binary,
    /// Subtables.
    Table,
    /// Values of mixed type, of the old kind.
    OldMixed,
    /// Dates of the old kind.
    OldDateTime,
    /// Timestamps.
    Timestamp,
    /// Single-precision numbers.
    Float,
    /// Double-precision numbers.
    Double,
    /// Reserved for decimals.
    Reserved4,
    /// Links.
    Link,
    /// Lists of links.
    LinkList,
    /// Backlinks.
    BackLink,
}

impl ColumnType {
    /// The column type that the number `value` stands for, 0 to 14.
    pub open spec fn of(value: u64) -> Option<ColumnType> {
        if value == 0 {
            Some(ColumnType::Int)
        } else if value == 1 {
            Some(ColumnType::Bool)
        } else if value == 2 {
            Some(ColumnType::String)
        } else if value == 3 {
            Some(ColumnType::OldStringEnum)
        } else if value == 4 {
            Some(ColumnType::Binary)
        } else if value == 5 {
            Some(ColumnType::Table)
        } else if value == 6 {
            Some(ColumnType::OldMixed)
        } else if value == 7 {
            Some(ColumnType::OldDateTime)
        } else if value == 8 {
            Some(ColumnType::Timestamp)
        } else if value == 9 {
            Some(ColumnType::Float)
        } else if value == 10 {
            Some(ColumnType::Double)
        } else if value == 11 {
            Some(ColumnType::Reserved4)
        } else if value == 12 {
            Some(ColumnType::Link)
        } else if value == 13 {
            Some(ColumnType::LinkList)
        } else if value == 14 {
            Some(ColumnType::BackLink)
        } else {
            None
        }
    }

    /// How many entries of the sub-spec a column of this type takes: one for
    /// a subtable, a link or a list of links, two for a backlink.
    pub open spec fn spec_sub_spec_entries_count(&self) -> int {
        match self {
            ColumnType::Table | ColumnType::Link | ColumnType::LinkList => 1,
            ColumnType::BackLink => 2,
            _ => 0,
        }
    }

    /// The column type that the number `value` stands for. Fails where
    /// `value` is above 14.
    pub fn from_u64(value: u64) -> (r: RealmResult<ColumnType>)
        ensures
            decodes(r, Self::of(value)),
    {
        if value == 0 {
            Ok(ColumnType::Int)
        } else if value == 1 {
            Ok(ColumnType::Bool)
        } else if value == 2 {
            Ok(ColumnType::String)
        } else if value == 3 {
            Ok(ColumnType::OldStringEnum)
        } else if value == 4 {
            Ok(ColumnType::Binary)
        } else if value == 5 {
            Ok(ColumnType::Table)
        } else if value == 6 {
            Ok(ColumnType::OldMixed)
        } else if value == 7 {
            Ok(ColumnType::OldDateTime)
        } else if value == 8 {
            Ok(ColumnType::Timestamp)
        } else if value == 9 {
            Ok(ColumnType::Float)
        } else if value == 10 {
            Ok(ColumnType::Double)
        } else if value == 11 {
            Ok(ColumnType::Reserved4)
        } else if value == 12 {
            Ok(ColumnType::Link)
        } else if value == 13 {
            Ok(ColumnType::LinkList)
        } else if value == 14 {
            Ok(ColumnType::BackLink)
        } else {
            Err(RealmFileError::invalid("unknown column type"))
        }
    }

    /// Whether a column of this type takes entries of the sub-spec.
    pub fn has_sub_spec(&self) -> (r: bool)
        ensures
            r == (self.spec_sub_spec_entries_count() > 0),
    {
        match self {
            ColumnType::Table | ColumnType::Link | ColumnType::LinkList | ColumnType::BackLink => true,
            _ => false,
        }
    }

    /// How many entries of the sub-spec a column of this type takes.
    pub fn sub_spec_entries_count(&self) -> (r: usize)
        ensures
            r == self.spec_sub_spec_entries_count(),
    {
        match self {
            ColumnType::Table | ColumnType::Link | ColumnType::LinkList => 1,
            ColumnType::BackLink => 2,
            _ => 0,
        }
    }
}

} // verus!
