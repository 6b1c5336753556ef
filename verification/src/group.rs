//! The group: the root of a file, with its tables and their names.
use vstd::prelude::*;

use crate::array::array_string_short::ArrayStringShort;
use crate::array::{Array, RealmRef};
use crate::cells::names_in;
use crate::column::ColumnView;
use crate::column::bptree::max_depth;
use crate::error::{decodes, Fault, RealmFileError, RealmResult, TableError, TableResult};
use crate::realm::Realm;
use crate::table::header::read_column_names;
use crate::table::row::name_views;
use crate::table::Table;
use crate::utils::same_text;

verus! {

/// The group is the central root of a Realm database. It contains all the
/// tables and their names.
#[derive(Debug)]
pub struct Group<'a> {
    /// The array that refers to the tables.
    pub tables_array: Array<'a>,
    /// The names of the tables.
    pub table_names: Vec<String>,
}

/// Where the first of `names` that equals `name` stands, looking from `from`
/// on, or the number of names where there is none.
pub open spec fn name_position(names: Seq<Seq<char>>, name: Seq<char>, from: int) -> int
    decreases names.len() - from,
{
    if from >= names.len() {
        names.len() as int
    } else if names[from] == name {
        from
    } else {
        name_position(names, name, from + 1)
    }
}

impl<'a> Group<'a> {
    /// The array of the tables is an array of the file.
    pub open spec fn wf(&self) -> bool {
        self.tables_array.wf()
    }

    /// The names of the tables.
    pub open spec fn names(&self) -> Seq<Seq<char>> {
        name_views(self.table_names@)
    }

    /// The names of the tables and the array of the tables that the top
    /// array `top` refers to: its slot 0 to a leaf of short strings, its slot
    /// 1 to an array.
    pub open spec fn parts(top: Array<'a>) -> Option<(Seq<Seq<char>>, Array<'a>)> {
        if top.spec_size() < 2 {
            None
        } else {
            match (top.spec_node(0), top.spec_array(1)) {
                (Some(Some(names_node)), Some(Some(tables))) => match names_in(
                    ArrayStringShort { node: names_node },
                ) {
                    Some(names) => Some((names, tables)),
                    None => None,
                },
                _ => None,
            }
        }
    }

    /// The columns of table `table_number`: those of the table that slot
    /// `table_number` of the array of the tables refers to.
    pub open spec fn table_columns(&self, table_number: int) -> Result<Seq<ColumnView<'a>>, Fault> {
        if !(0 <= table_number < self.tables_array.spec_size()) {
            Err(Fault::Damaged)
        } else {
            match self.tables_array.spec_array(table_number) {
                Some(Some(array)) => Table::spec_build(array),
                _ => Err(Fault::Damaged),
            }
        }
    }

    /// Reads the group from the top array of a file.
    pub fn build(array: Array<'a>) -> (r: RealmResult<Group<'a>>)
        requires
            array.wf(),
        ensures
            match Self::parts(array) {
                Some((names, tables)) => r matches Ok(group) && group.wf() && group.names()
                    == names && group.tables_array == tables,
                None => r matches Err(e) && e is InvalidRealmFile,
            },
    {
        if array.size() < 2 {
            return Err(RealmFileError::invalid("the top array has two parts"));
        }
        let names_node = match array.get_node(0)? {
            Some(n) => n,
            None => {
                return Err(RealmFileError::invalid("a group needs the names of its tables"));
            },
        };
        let names = ArrayStringShort { node: names_node };
        let table_names = read_column_names(&names)?;
        let tables_array = match array.get_array(1)? {
            Some(a) => a,
            None => {
                return Err(RealmFileError::invalid("a group needs its tables"));
            },
        };
        Ok(Group { tables_array, table_names })
    }

    /// Get the table with the given number (starting from 0).
    pub fn get_table(&self, table_number: usize) -> (r: RealmResult<Table<'a>>)
        requires
            self.wf(),
            table_number < self.names().len(),
        ensures
            match self.table_columns(table_number as int) {
                Ok(columns) => r matches Ok(table) && table.wf() && table.columns() == columns
                    && table.table_number == table_number && table.depth == max_depth(
                    self.tables_array.node.realm,
                ),
                Err(f) => r matches Err(e) && e.reports(f),
            },
    {
        if table_number >= self.tables_array.size() {
            return Err(RealmFileError::invalid("the group has more names than tables"));
        }
        let table_array = match self.tables_array.get_array(table_number)? {
            Some(a) => a,
            None => {
                return Err(RealmFileError::invalid("a table is missing"));
            },
        };
        Table::build(table_array, table_number)
    }

    /// Get the table with the given name: the first table of that name.
    ///
    /// Fails with `TableNotFound` where no table has the name.
    pub fn get_table_by_name(&self, name: &str) -> (r: TableResult<Table<'a>>)
        requires
            self.wf(),
        ensures
            ({
                let p = name_position(self.names(), name@, 0);
                if p >= self.names().len() {
                    r matches Err(TableError::TableNotFound { name: n }) && n@ == name@
                } else {
                    match self.table_columns(p) {
                        Ok(columns) => r matches Ok(table) && table.wf() && table.columns()
                            == columns && table.table_number == p,
                        Err(f) => r matches Err(TableError::FileError(e)) && e.reports(f),
                    }
                }
            }),
    {
        let mut i: usize = 0;
        while i < self.table_names.len()
            invariant
                self.wf(),
                i <= self.table_names@.len(),
                name_position(self.names(), name@, i as int) == name_position(
                    self.names(),
                    name@,
                    0,
                ),
            decreases self.table_names@.len() - i,
        {
            assert(self.names()[i as int] == self.table_names@[i as int]@);
            if same_text(self.table_names[i].as_str(), name) {
                return match self.get_table(i) {
                    Ok(table) => Ok(table),
                    Err(e) => Err(TableError::FileError(e)),
                };
            }
            i += 1;
        }
        Err(TableError::TableNotFound { name: name.to_owned() })
    }

    /// Get the number of tables in the group.
    pub fn table_count(&self) -> (r: usize)
        ensures
            r == self.names().len(),
    {
        self.table_names.len()
    }

    /// Get the name of the table at the given index.
    pub fn get_table_name(&self, index: usize) -> (r: &str)
        requires
            index < self.names().len(),
        ensures
            r@ == self.names()[index as int],
    {
        self.table_names[index].as_str()
    }

    /// Get the names of all tables in the group.
    pub fn get_table_names(&self) -> (r: &Vec<String>)
        ensures
            name_views(r@) == self.names(),
    {
        &self.table_names
    }
}

impl<'a> Realm<'a> {
    /// The top array of the file: the array at the active top reference.
    pub fn into_top_ref_array(self) -> (r: RealmResult<Array<'a>>)
        requires
            self.wf(),
        ensures
            decodes(r, Array::at(self, RealmRef(self.hdr.spec_active_top_ref() as usize))),
    {
        let ref_ = self.top_ref();
        Array::from_ref(self, ref_)
    }

    /// The group of the file, with its tables and their names.
    pub fn into_group(self) -> (r: RealmResult<Group<'a>>)
        requires
            self.wf(),
        ensures
            match Array::at(self, RealmRef(self.hdr.spec_active_top_ref() as usize)) {
                Some(top) => match Group::parts(top) {
                    Some((names, tables)) => r matches Ok(group) && group.wf() && group.names()
                        == names && group.tables_array == tables,
                    None => r matches Err(e) && e is InvalidRealmFile,
                },
                None => r matches Err(e) && e is InvalidRealmFile,
            },
    {
        let top = self.into_top_ref_array()?;
        Group::build(top)
    }
}

} // verus!
