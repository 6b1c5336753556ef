//! Tables, their columns and their rows.
pub mod column;
pub mod header;
pub mod row;

use vstd::prelude::*;

use crate::array::Array;
use crate::cells::{
    all_rows, backlinks_upto, lemma_rows_upto_fault, lemma_values_upto_fault, column_cell,
    column_count, fields_upto, row_at, row_count_of, row_of_values, rows_upto, table_columns,
    values_upto,
};
use crate::column::{gives_value, Column, ColumnView};
use crate::column::bptree::max_depth;
use crate::error::{Fault, RealmFileError, RealmResult, TableError};
use crate::index::{can_probe, probe_bytes};
use crate::table::header::{column_views, TableHeader};
use crate::table::row::{
    backlink_views, distinct_names, fields_view, has_field_named, reversed, row_views, value_views, Row, RowView,
};
use crate::utils::same_text;
use crate::value::{Backlink, Value, ValueView};

verus! {

/// A view into a single Realm database table.
#[derive(Debug)]
pub struct Table<'a> {
    /// The columns of the table.
    pub header: TableHeader<'a>,
    /// The number of the table in its group.
    pub table_number: usize,
    /// How deep the tables in the cells of this table may nest.
    pub depth: usize,
}

/// `r` is the rows that `s` describes, or the error that reports its fault.
pub open spec fn gives_rows(r: RealmResult<Vec<Row>>, s: Result<Seq<RowView>, Fault>) -> bool {
    match s {
        Ok(v) => r matches Ok(x) && row_views(x@) == v,
        Err(f) => r matches Err(e) && e.reports(f),
    }
}

/// `r` is the row that `s` describes, or the error that reports its fault.
pub open spec fn gives_row(r: RealmResult<Row>, s: Result<RowView, Fault>) -> bool {
    match s {
        Ok(v) => r matches Ok(x) && x@ == v,
        Err(f) => r matches Err(e) && e.reports(f),
    }
}

/// The fields of a row depend on the values of the columns taken only.
pub proof fn lemma_fields_upto_prefix(
    columns: Seq<ColumnView>,
    a: Seq<ValueView>,
    b: Seq<ValueView>,
    count: int,
)
    requires
        count <= a.len(),
        count <= b.len(),
        forall|i: int| 0 <= i < count ==> a[i] == b[i],
    ensures
        fields_upto(columns, a, count) == fields_upto(columns, b, count),
        backlinks_upto(columns, a, count) == backlinks_upto(columns, b, count),
    decreases count,
{
    if count > 0 {
        lemma_fields_upto_prefix(columns, a, b, count - 1);
    }
}

impl<'a> Table<'a> {
    /// The columns are made of nodes of one file.
    pub open spec fn wf(&self) -> bool {
        self.header.wf(self.depth)
    }

    /// The columns of the table.
    pub open spec fn columns(&self) -> Seq<ColumnView<'a>> {
        self.header@
    }

    /// The number of rows of the table: that of its first column.
    pub open spec fn spec_row_count(&self) -> Option<int> {
        row_count_of(self.columns())
    }

    /// Construct a new table instance from the array of a table in the
    /// group: a reference to its header and a reference to its data.
    pub fn build(array: Array<'a>, table_number: usize) -> (r: RealmResult<Table<'a>>)
        requires
            array.wf(),
        ensures
            match Self::spec_build(array) {
                Ok(columns) => r matches Ok(table) && table.columns() == columns && table.wf()
                    && table.table_number == table_number && table.depth
                    == max_depth(array.node.realm),
                Err(f) => r matches Err(e) && e.reports(f),
            },
    {
        if array.size() < 2 {
            return Err(RealmFileError::invalid("a table has a header and data"));
        }
        let header_array = match array.get_array(0)? {
            Some(a) => a,
            None => {
                return Err(RealmFileError::invalid("a table needs its header"));
            },
        };
        let data_array = match array.get_array(1)? {
            Some(a) => a,
            None => {
                return Err(RealmFileError::invalid("a table needs its data"));
            },
        };
        let depth = array.node.realm.bytes.len() / 8;
        Self::build_from(&header_array, data_array, table_number, depth)
    }

    /// The columns of the table that the array `array` of the group stands
    /// for: its slot 0 refers to the header, its slot 1 to the data.
    pub open spec fn spec_build(array: Array<'a>) -> Result<Seq<ColumnView<'a>>, Fault> {
        if array.spec_size() < 2 {
            Err(Fault::Damaged)
        } else {
            match (array.spec_array(0), array.spec_array(1)) {
                (Some(Some(header)), Some(Some(data))) => table_columns(
                    header,
                    data,
                    max_depth(array.node.realm) as usize,
                ),
                _ => Err(Fault::Damaged),
            }
        }
    }

    /// Construct a new table instance from the arrays of its header and of
    /// its data. This is used primarily by subtables, as their header and
    /// data stand in different places.
    pub fn build_from(
        header_array: &Array<'a>,
        data_array: Array<'a>,
        table_number: usize,
        depth: usize,
    ) -> (r: RealmResult<Table<'a>>)
        requires
            header_array.wf(),
            data_array.wf(),
            header_array.node.realm == data_array.node.realm,
        ensures
            match table_columns(*header_array, data_array, depth) {
                Ok(columns) => r matches Ok(table) && table.columns() == columns && table.wf()
                    && table.table_number == table_number && table.depth == depth,
                Err(f) => r matches Err(e) && e.reports(f),
            },
    {
        let header = TableHeader::build(header_array, &data_array, depth)?;
        Ok(Table { header, table_number, depth })
    }

    /// Get the number of the table, starting with 0, within the group.
    ///
    /// Subtables have a table number of `usize::MAX`.
    pub fn get_table_number(&self) -> (r: usize)
        ensures
            r == self.table_number,
    {
        self.table_number
    }

    /// Get the column specifications for the table.
    pub fn get_column_specs(&self) -> (r: &Vec<Column<'a>>)
        ensures
            column_views(r@) == self.columns(),
    {
        self.header.get_columns()
    }

    /// Get the specification for the column with the given number (starting
    /// with 0), or `None` where the table has no such column.
    pub fn get_column_spec(&self, column_number: usize) -> (r: Option<&Column<'a>>)
        ensures
            match r {
                Some(column) => column_number < self.columns().len() && column@
                    == self.columns()[column_number as int],
                None => column_number >= self.columns().len(),
            },
    {
        self.header.get_column(column_number)
    }

    /// Get the number of rows in the table.
    pub fn row_count(&self) -> (r: RealmResult<usize>)
        requires
            self.wf(),
        ensures
            match self.spec_row_count() {
                Some(n) => r matches Ok(c) && c == n,
                None => r matches Err(e) && e is InvalidRealmFile,
            },
    {
        match self.header.get_column(0) {
            Some(first_column) => first_column.count(),
            None => Err(RealmFileError::invalid("No column at index 0: can't load row count")),
        }
    }

    /// Get the row with the given number (starting with 0).
    pub fn get_row(&self, row_number: usize) -> (r: RealmResult<Row>)
        requires
            self.wf(),
            self.spec_row_count() matches Some(rows) && row_number < rows,
        ensures
            gives_row(r, row_at(self.columns(), row_number as int, self.depth as nat)),
            r matches Ok(row) ==> row@.wf(),
        decreases self.depth, 6nat,
    {
        let values = self.load_row(row_number)?;
        Ok(self.make_row(values))
    }

    /// The row that the values `values` of the columns of this table make:
    /// the values of the named columns under their names, and the backlinks.
    pub fn make_row(&self, values: Vec<Value>) -> (r: Row)
        requires
            values@.len() == self.columns().len(),
        ensures
            r@ == row_of_values(self.columns(), value_views(values@)),
            r@.wf(),
    {
        let ghost columns = self.columns();
        let ghost all = value_views(values@);
        let count = self.header.columns.len();
        let mut rest = reversed(values);
        let mut fields: Vec<(String, Value)> = Vec::new();
        let mut backlinks: Vec<Backlink> = Vec::new();
        let mut k: usize = 0;
        assert(fields_view(fields@) =~= fields_upto(columns, all, 0));
        assert(backlink_views(backlinks@) =~= backlinks_upto(columns, all, 0));
        while k < count
            invariant
                columns == self.columns(),
                count == columns.len(),
                all.len() == count,
                k <= count,
                rest@.len() + k == count,
                forall|j: int| 0 <= j < rest@.len() ==> rest@[j]@ == all[count - 1 - j],
                fields_view(fields@) == fields_upto(columns, all, k as int),
                backlink_views(backlinks@) == backlinks_upto(columns, all, k as int),
                distinct_names(fields_view(fields@)),
            decreases count - k,
        {
            let ghost before_fields = fields_view(fields@);
            let ghost before_backlinks = backlink_views(backlinks@);
            let ghost top = rest@[rest@.len() - 1];
            assert(top@ == all[k as int]);
            let column = &self.header.columns[k];
            assert(column@ == columns[k as int]);
            match rest.pop() {
                Some(value) => {
                    match column.name() {
                        Some(name) => {
                            if !has_field_named(&fields, name) {
                                fields.push((name.to_owned(), value));
                                assert(fields_view(fields@) =~= before_fields.push(
                                    (name@, value@),
                                ));
                            }
                        },
                        None => {
                            match value {
                                Value::BackLink(b) => {
                                    backlinks.push(b);
                                    assert(backlink_views(backlinks@) =~= before_backlinks.push(
                                        b@,
                                    ));
                                },
                                _ => {},
                            }
                        },
                    }
                },
                None => {},
            }
            k += 1;
        }
        let r = Row { fields, backlinks };
        assert(r@.fields =~= fields_view(fields@));
        assert(r@.backlinks =~= backlink_views(backlinks@));
        r
    }

    /// Load the values for the row with the given number (starting with 0),
    /// one for each column.
    pub fn load_row(&self, row_number: usize) -> (r: RealmResult<Vec<Value>>)
        requires
            self.wf(),
        ensures
            match values_upto(
                self.columns(),
                row_number as int,
                self.columns().len() as int,
                self.depth as nat,
            ) {
                Ok(values) => r matches Ok(v) && value_views(v@) == values && v@.len()
                    == self.columns().len(),
                Err(f) => r matches Err(e) && e.reports(f),
            },
        decreases self.depth, 5nat,
    {
        let column_count = self.header.column_count();
        let mut values: Vec<Value> = Vec::with_capacity(column_count);
        let mut column_number: usize = 0;
        assert(value_views(values@) =~= Seq::empty());
        while column_number < column_count
            invariant
                self.wf(),
                column_count == self.columns().len(),
                column_number <= column_count,
                values@.len() == column_number,
                values_upto(
                    self.columns(),
                    row_number as int,
                    column_number as int,
                    self.depth as nat,
                ) == Ok::<Seq<ValueView>, Fault>(value_views(values@)),
            decreases column_count - column_number,
        {
            let ghost before = value_views(values@);
            let value = match self.load_column(column_number, row_number) {
                Ok(value) => value,
                Err(e) => {
                    proof {
                        lemma_values_upto_fault(
                            self.columns(),
                            row_number as int,
                            column_number + 1,
                            column_count as int,
                            self.depth as nat,
                        );
                    }
                    return Err(e);
                },
            };
            values.push(value);
            assert(value_views(values@) =~= before.push(value@));
            column_number += 1;
        }
        Ok(values)
    }

    /// Determine the row number for the given value in an indexed column.
    /// Note that if there are multiple rows with the same value, this
    /// function will return the first one.
    ///
    /// Returns an error if there is no column with the given name or if the
    /// column is not indexed.
    ///
    /// Returns `None` if the value is not found in the indexed column.
    pub fn find_row_number_from_indexed_column(&self, indexed_column_name: &str, value: &Value) -> (r:
        Result<Option<usize>, TableError>)
        requires
            self.wf(),
            can_probe(value@),
        ensures
            match self.named_column(indexed_column_name@) {
                None => r matches Err(TableError::ColumnNotFound { name }) && name@
                    == indexed_column_name@,
                Some(column) => if !column.attributes.spec_is_indexed() || column.index is None {
                    r matches Err(TableError::ColumnNotIndexed { name }) && name@
                        == indexed_column_name@
                } else {
                    match column.index.unwrap().first_row(probe_bytes(value@)) {
                        Some(found) => r == Ok::<Option<usize>, TableError>(found),
                        None => r matches Err(TableError::FileError(e))
                            && e is InvalidRealmFile,
                    }
                },
            },
    {
        let columns = self.header.get_columns();
        let mut i: usize = 0;
        while i < columns.len()
            invariant
                self.wf(),
                can_probe(value@),
                column_views(columns@) == self.columns(),
                i <= columns@.len(),
                column_position(self.columns(), indexed_column_name@, i as int) == column_position(
                    self.columns(),
                    indexed_column_name@,
                    0,
                ),
            decreases columns@.len() - i,
        {
            let column = &columns[i];
            assert(column@ == self.columns()[i as int]);
            let found = match column.name() {
                Some(name) => same_text(name, indexed_column_name),
                None => false,
            };
            if found {
                if !column.is_indexed() || column.index.is_none() {
                    return Err(
                        TableError::ColumnNotIndexed {
                            name: indexed_column_name.to_owned(),
                        },
                    );
                }
                return match column.get_row_number_by_index(value) {
                    Ok(row) => Ok(row),
                    Err(e) => Err(TableError::FileError(e)),
                };
            }
            i += 1;
        }
        Err(TableError::ColumnNotFound { name: indexed_column_name.to_owned() })
    }

    /// The first column of the table that has the name `name`.
    pub open spec fn named_column(&self, name: Seq<char>) -> Option<ColumnView<'a>> {
        let p = column_position(self.columns(), name, 0);
        if p < self.columns().len() {
            Some(self.columns()[p])
        } else {
            None
        }
    }

    /// Find and load the row with the given value in an indexed column.
    /// Note that if there are multiple rows with the same value, only the
    /// first one is returned.
    ///
    /// Returns an error if there is no column with the given name, if the
    /// column is not indexed, or if the index names a row that the table
    /// does not have.
    ///
    /// Returns `None` if the value is not found in the indexed column.
    pub fn find_row_from_indexed_column(&self, indexed_column_name: &str, value: &Value) -> (r:
        Result<Option<Row>, TableError>)
        requires
            self.wf(),
            can_probe(value@),
        ensures
            match self.named_column(indexed_column_name@) {
                None => r matches Err(TableError::ColumnNotFound { name }) && name@
                    == indexed_column_name@,
                Some(column) => if !column.attributes.spec_is_indexed() || column.index is None {
                    r matches Err(TableError::ColumnNotIndexed { name }) && name@
                        == indexed_column_name@
                } else {
                    match column.index.unwrap().first_row(probe_bytes(value@)) {
                        Some(Some(n)) => match self.spec_row_count() {
                            Some(rows) => if n < rows {
                                match row_at(self.columns(), n as int, self.depth as nat) {
                                    Ok(row) => r matches Ok(Some(x)) && x@ == row,
                                    Err(f) => r matches Err(TableError::FileError(e))
                                        && e.reports(f),
                                }
                            } else {
                                r matches Err(TableError::FileError(e))
                                    && e is InvalidRealmFile
                            },
                            None => r matches Err(TableError::FileError(e))
                                && e is InvalidRealmFile,
                        },
                        Some(None) => r matches Ok(None),
                        None => r matches Err(TableError::FileError(e))
                            && e is InvalidRealmFile,
                    }
                },
            },
    {
        let row_number = match self.find_row_number_from_indexed_column(indexed_column_name, value)? {
            Some(n) => n,
            None => {
                return Ok(None);
            },
        };
        let rows = match self.row_count() {
            Ok(rows) => rows,
            Err(e) => {
                return Err(TableError::FileError(e));
            },
        };
        if row_number >= rows {
            return Err(
                TableError::FileError(
                    RealmFileError::invalid("the index names a row that the table does not have"),
                ),
            );
        }
        match self.get_row(row_number) {
            Ok(row) => Ok(Some(row)),
            Err(e) => Err(TableError::FileError(e)),
        }
    }

    /// Get all rows in the table.
    pub fn get_rows(&self) -> (r: RealmResult<Vec<Row>>)
        requires
            self.wf(),
        ensures
            gives_rows(r, all_rows(self.columns(), self.depth as nat)),
        decreases self.depth, 7nat,
    {
        let row_count = self.row_count()?;
        let mut rows: Vec<Row> = Vec::new();
        let mut i: usize = 0;
        assert(row_views(rows@) =~= Seq::empty());
        while i < row_count
            invariant
                self.wf(),
                self.spec_row_count() == Some(row_count as int),
                i <= row_count,
                rows_upto(self.columns(), i as int, self.depth as nat) == Ok::<Seq<RowView>, Fault>(
                    row_views(rows@),
                ),
            decreases row_count - i,
        {
            let ghost before = row_views(rows@);
            let row = match self.get_row(i) {
                Ok(row) => row,
                Err(e) => {
                    proof {
                        lemma_rows_upto_fault(
                            self.columns(),
                            i + 1,
                            row_count as int,
                            self.depth as nat,
                        );
                    }
                    return Err(e);
                },
            };
            rows.push(row);
            assert(row_views(rows@) =~= before.push(row@));
            i += 1;
        }
        Ok(rows)
    }

    /// Load the value at the specified column and row. Fails where the
    /// column is shorter than the row number.
    pub fn load_column(&self, column_number: usize, row_number: usize) -> (r: RealmResult<Value>)
        requires
            self.wf(),
            column_number < self.columns().len(),
        ensures
            match column_count(self.columns()[column_number as int]) {
                Some(rows) => if row_number >= rows {
                    r matches Err(e) && e is InvalidRealmFile
                } else {
                    gives_value(
                        r,
                        column_cell(
                            self.columns()[column_number as int],
                            row_number as int,
                            self.depth as nat,
                        ),
                    )
                },
                None => r matches Err(e) && e is InvalidRealmFile,
            },
        decreases self.depth, 4nat,
    {
        let column_spec = &self.header.columns[column_number];
        assert(column_spec@ == self.columns()[column_number as int]);
        let rows = column_spec.count()?;
        if row_number >= rows {
            return Err(RealmFileError::invalid("a column is shorter than the table"));
        }
        column_spec.get(row_number)
    }
}

/// Where the first column named `name` stands among `columns`, looking from
/// `from` on, or the number of columns where there is none.
pub open spec fn column_position(columns: Seq<ColumnView>, name: Seq<char>, from: int) -> int
    decreases columns.len() - from,
{
    if from >= columns.len() {
        columns.len() as int
    } else if columns[from].name == Some(name) {
        from
    } else {
        column_position(columns, name, from + 1)
    }
}

} // verus!
