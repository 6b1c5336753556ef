//! What holds of the rows that are read from a table.
use vstd::prelude::*;

use crate::cells::{backlinks_upto, fields_upto, has_name, row_at, row_of_values, values_upto};
use crate::column::ColumnView;
use crate::error::RealmResult;
use crate::table::row::{lemma_position_from, Row};
use crate::table::Table;
use crate::value::ValueView;

verus! {

/// The backlinks of a row are the values of its unnamed columns that hold a
/// backlink, in the order of the columns: a column that holds none adds
/// nothing.
pub proof fn lemma_row_backlinks(columns: Seq<ColumnView>, values: Seq<ValueView>, count: int, i: int)
    requires
        0 <= count <= columns.len(),
        0 <= i < backlinks_upto(columns, values, count).len(),
    ensures
        exists|k: int|
            0 <= k < count && columns[k].name is None && #[trigger] values[k]
                == ValueView::BackLink(backlinks_upto(columns, values, count)[i]),
    decreases count,
{
    if count > 0 {
        let before = backlinks_upto(columns, values, count - 1);
        if i < before.len() {
            lemma_row_backlinks(columns, values, count - 1, i);
            let k = choose|k: int|
                0 <= k < count - 1 && columns[k].name is None && #[trigger] values[k]
                    == ValueView::BackLink(before[i]);
            assert(values[k] == ValueView::BackLink(backlinks_upto(columns, values, count)[i]));
        } else {
            assert(values[count - 1] == ValueView::BackLink(
                backlinks_upto(columns, values, count)[i],
            ));
        }
    }
}

/// A row has a field for every column that has a name.
pub proof fn lemma_row_has_every_named_column(
    columns: Seq<ColumnView>,
    values: Seq<ValueView>,
    count: int,
    k: int,
)
    requires
        0 <= k < count <= columns.len(),
        columns[k].name is Some,
    ensures
        has_name(fields_upto(columns, values, count), columns[k].name.unwrap()),
    decreases count,
{
    let name = columns[k].name.unwrap();
    let before = fields_upto(columns, values, count - 1);
    let all = fields_upto(columns, values, count);
    if k < count - 1 {
        lemma_row_has_every_named_column(columns, values, count - 1, k);
        let i = choose|i: int| 0 <= i < before.len() && (#[trigger] before[i]).0 == name;
        assert(all[i] == before[i]);
    } else {
        if !has_name(before, name) {
            assert(all[before.len() as int].0 == name);
        }
    }
}

/// A row that was read from a table has a field for every named column of
/// the table.
pub proof fn lemma_read_row_has_every_named_column(table: Table, row_number: int, k: int)
    requires
        0 <= k < table.columns().len(),
        table.columns()[k].name is Some,
        row_at(table.columns(), row_number, table.depth as nat) is Ok,
    ensures
        row_at(table.columns(), row_number, table.depth as nat).unwrap().field(
            table.columns()[k].name.unwrap(),
        ) is Some,
{
    let columns = table.columns();
    let values = values_upto(
        columns,
        row_number,
        columns.len() as int,
        table.depth as nat,
    ).unwrap();
    lemma_row_has_every_named_column(columns, values, columns.len() as int, k);
    let row = row_of_values(columns, values);
    lemma_position_from(row.fields, columns[k].name.unwrap(), 0);
}

/// Reading a row twice gives equal rows, or fails twice.
pub proof fn lemma_reading_a_row_twice(
    table: Table,
    row_number: usize,
    first: RealmResult<Row>,
    second: RealmResult<Row>,
)
    requires
        table.wf(),
        table.spec_row_count() matches Some(rows) && row_number < rows,
        call_ensures(Table::get_row, (&table, row_number), first),
        call_ensures(Table::get_row, (&table, row_number), second),
    ensures
        first is Ok <==> second is Ok,
        first matches Ok(a) ==> second matches Ok(b) && a@ == b@,
{
}

} // verus!
