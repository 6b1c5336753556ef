//! The values that a row holds.
pub mod from;
pub mod into;

use vstd::prelude::*;

use crate::table::row::{Row, RowView};

verus! {

/// The column name of the one field of a row that stands for an element of a
/// list of plain values.
pub const ARRAY_VALUE_KEY: &'static str = "!ARRAY_VALUE";

/// A link to a single row in a given table.
#[derive(Debug, Clone, Copy, Hash, PartialEq, Eq, Structural)]
pub struct Link {
    /// The table number of the target table, in the group.
    pub target_table_number: usize,
    /// The row number this link points to.
    pub row_number: usize,
}

impl Link {
    /// Create a new link to a row in a table.
    pub fn new(target_table_number: usize, row_number: usize) -> (r: Link)
        ensures
            r == (Link { target_table_number, row_number }),
    {
        Link { target_table_number, row_number }
    }
}

/// A backlink to one or more rows in a given table. This is the opposite end
/// of a [`Link`]. An empty backlink is represented as [`Value::Null`].
#[derive(Debug, Hash, PartialEq, Eq)]
pub struct Backlink {
    /// The table number of the origin table, in the group.
    pub origin_table_number: usize,
    /// The column number of the origin column, in the table.
    pub origin_column_number: usize,
    /// The row numbers this backlink points to, i.e. the rows in the origin
    /// table that have links to this row.
    pub row_numbers: Vec<usize>,
}

/// What a [`Backlink`] holds.
pub struct BacklinkView {
    /// The table number of the origin table.
    pub origin_table_number: usize,
    /// The column number of the origin column.
    pub origin_column_number: usize,
    /// The rows of the origin table that link here.
    pub row_numbers: Seq<usize>,
}

impl View for Backlink {
    type V = BacklinkView;

    open spec fn view(&self) -> BacklinkView {
        BacklinkView {
            origin_table_number: self.origin_table_number,
            origin_column_number: self.origin_column_number,
            row_numbers: self.row_numbers@,
        }
    }
}

impl Backlink {
    /// Create a new backlink from the rows `row_numbers` of column
    /// `origin_column_number` of table `origin_table_number`.
    pub fn new(origin_table_number: usize, origin_column_number: usize, row_numbers: Vec<usize>) -> (r:
        Backlink)
        ensures
            r@ == (BacklinkView {
                origin_table_number,
                origin_column_number,
                row_numbers: row_numbers@,
            }),
    {
        Backlink { origin_table_number, origin_column_number, row_numbers }
    }
}

/// An instant: seconds since the start of 1970 in UTC, and the nanoseconds
/// within the second.
#[derive(Debug, Clone, Copy, Hash, PartialEq, Eq, Structural)]
pub struct Timestamp {
    /// Whole seconds since 1970-01-01 00:00:00 UTC.
    pub seconds: i64,
    /// Nanoseconds since the last whole second.
    pub nanoseconds: u32,
}

/// A single value from a Realm database. Represents one row in one column.
#[derive(Debug)]
pub enum Value {
    /// A signed integer value.
    Int(i64),
    /// A boolean value.
    Bool(bool),
    /// A string value.
    String(String),
    /// Currently unsupported.
    OldStringEnum(String),
    /// A binary blob value.
    Binary(Vec<u8>),
    /// A subtable value: all rows of the table that the cell holds.
    Table(Vec<Row>),
    /// Currently unsupported.
    OldMixed,
    /// Currently unsupported.
    OldDateTime,
    /// A timestamp value.
    Timestamp(Timestamp),
    /// A single-precision floating-point value, by its bits.
    Float(u32),
    /// A double-precision floating-point value, by its bits.
    Double(u64),
    /// Currently unsupported.
    Reserved4,
    /// A link to a row in a given table.
    Link(Link),
    /// A list of links to rows in a given table. If a row has no links, this
    /// is an empty list.
    LinkList(Vec<Link>),
    /// A backlink: the rows of another table that link to this row.
    BackLink(Backlink),
    /// A null value.
    Null,
}

/// What a [`Value`] holds.
pub enum ValueView {
    /// A signed integer.
    Int(i64),
    /// A boolean.
    Bool(bool),
    /// The characters of a string.
    String(Seq<char>),
    /// The characters of a string of the old enumerated kind.
    OldStringEnum(Seq<char>),
    /// The bytes of a blob.
    Binary(Seq<u8>),
    /// The rows of a subtable.
    Table(Seq<RowView>),
    /// An unsupported kind.
    OldMixed,
    /// An unsupported kind.
    OldDateTime,
    /// An instant.
    Timestamp(Timestamp),
    /// The bits of a single-precision number.
    Float(u32),
    /// The bits of a double-precision number.
    Double(u64),
    /// An unsupported kind.
    Reserved4,
    /// A link.
    Link(Link),
    /// A list of links.
    LinkList(Seq<Link>),
    /// A backlink.
    BackLink(BacklinkView),
    /// Null.
    Null,
}

impl View for Value {
    type V = ValueView;

    open spec fn view(&self) -> ValueView
        decreases self,
    {
        match self {
            Value::Int(i) => ValueView::Int(*i),
            Value::Bool(b) => ValueView::Bool(*b),
            Value::String(s) => ValueView::String(s@),
            Value::OldStringEnum(s) => ValueView::OldStringEnum(s@),
            Value::Binary(b) => ValueView::Binary(b@),
            Value::Table(rows) => ValueView::Table(
                Seq::new(
                    rows@.len(),
                    |i: int|
                        if 0 <= i < rows@.len() {
                            rows@[i].view()
                        } else {
                            arbitrary()
                        },
                ),
            ),
            Value::OldMixed => ValueView::OldMixed,
            Value::OldDateTime => ValueView::OldDateTime,
            Value::Timestamp(t) => ValueView::Timestamp(*t),
            Value::Float(f) => ValueView::Float(*f),
            Value::Double(d) => ValueView::Double(*d),
            Value::Reserved4 => ValueView::Reserved4,
            Value::Link(l) => ValueView::Link(*l),
            Value::LinkList(l) => ValueView::LinkList(l@),
            Value::BackLink(b) => ValueView::BackLink(b@),
            Value::Null => ValueView::Null,
        }
    }
}

impl Clone for Backlink {
    fn clone(&self) -> (r: Backlink)
        ensures
            r@ == self@,
    {
        Backlink {
            origin_table_number: self.origin_table_number,
            origin_column_number: self.origin_column_number,
            row_numbers: self.row_numbers.clone(),
        }
    }
}

impl Clone for Value {
    fn clone(&self) -> (r: Value)
        ensures
            r@ == self@,
        decreases self,
    {
        match self {
            Value::Int(i) => Value::Int(*i),
            Value::Bool(b) => Value::Bool(*b),
            Value::String(s) => Value::String(s.clone()),
            Value::OldStringEnum(s) => Value::OldStringEnum(s.clone()),
            Value::Binary(b) => Value::Binary(b.clone()),
            Value::Table(rows) => {
                let mut copy: Vec<Row> = Vec::new();
                let mut i: usize = 0;
                while i < rows.len()
                    invariant
                        self is Table,
                        self->Table_0 == *rows,
                        i <= rows@.len(),
                        copy@.len() == i,
                        forall|j: int| 0 <= j < i ==> copy@[j]@ == rows@[j]@,
                    decreases rows@.len() - i,
                {
                    assert(decreases_to!(rows => rows[i as int]));
                    copy.push(rows[i].clone());
                    i += 1;
                }
                let r = Value::Table(copy);
                assert(r@ =~= self@) by {
                    assert(r@->Table_0 =~= self@->Table_0);
                }
                r
            },
            Value::OldMixed => Value::OldMixed,
            Value::OldDateTime => Value::OldDateTime,
            Value::Timestamp(t) => Value::Timestamp(*t),
            Value::Float(f) => Value::Float(*f),
            Value::Double(d) => Value::Double(*d),
            Value::Reserved4 => Value::Reserved4,
            Value::Link(l) => Value::Link(*l),
            Value::LinkList(l) => Value::LinkList(l.clone()),
            Value::BackLink(b) => Value::BackLink(b.clone()),
            Value::Null => Value::Null,
        }
    }
}

impl Value {
    /// Returns true if the value is [`Value::Null`].
    pub fn is_none(&self) -> (r: bool)
        ensures
            r == (self@ is Null),
    {
        match self {
            Value::Null => true,
            _ => false,
        }
    }
}

} // verus!
