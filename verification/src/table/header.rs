//! The header of a table: its columns.
use vstd::prelude::*;

use crate::array::array_string_short::ArrayStringShort;
use crate::array::{Array, RealmRef, RefOrTaggedValue};
use crate::cells::{
    attributes_in, column_at, lemma_columns_upto_fault, columns_from_parts, columns_upto,
    data_ref_at, data_slot_of, name_slot_of, names_in, sub_spec_number, sub_spec_ref,
    sub_spec_slot_of, table_columns, types_in,
};
use crate::column::{
    create_backlink_column, create_bool_column, create_bool_null_column, create_double_column,
    create_float_column, create_int_column, create_int_null_column, create_link_column,
    create_linklist_column, create_string_column, create_subtable_column, create_timestamp_column,
    Column, ColumnView,
};
use crate::column_type::ColumnType;
use crate::error::{Fault, RealmFileError, RealmResult};
use crate::table::column::ColumnAttributes;
use crate::table::row::name_views;

verus! {

/// The views of `columns`, in order.
pub open spec fn column_views<'a>(columns: Seq<Column<'a>>) -> Seq<ColumnView<'a>> {
    Seq::new(columns.len(), |i: int| columns[i]@)
}

/// The columns of a table, in the order of the file.
#[derive(Debug)]
pub struct TableHeader<'a> {
    /// The columns.
    pub columns: Vec<Column<'a>>,
}

impl<'a> View for TableHeader<'a> {
    type V = Seq<ColumnView<'a>>;

    open spec fn view(&self) -> Seq<ColumnView<'a>> {
        column_views(self.columns@)
    }
}

impl<'a> TableHeader<'a> {
    /// Every column is made of nodes of one file, and the tables in its cells
    /// may nest `depth` levels deep.
    pub open spec fn wf(&self, depth: usize) -> bool {
        forall|i: int|
            0 <= i < self@.len() ==> (#[trigger] self@[i]).wf() && self@[i].tree.depth == depth
    }

    /// The table or column number that entry `sub_spec_index` of the sub-spec
    /// holds as a tagged number.
    pub fn get_sub_spec_index_value(sub_spec_array: &Option<Array<'a>>, sub_spec_index: usize) -> (r:
        RealmResult<usize>)
        requires
            sub_spec_array matches Some(entries) ==> entries.wf(),
        ensures
            match sub_spec_number(*sub_spec_array, sub_spec_index as int) {
                Some(n) => r matches Ok(v) && v == n,
                None => r matches Err(e) && e is InvalidRealmFile,
            },
    {
        let entries = match sub_spec_array {
            Some(entries) => entries,
            None => {
                return Err(RealmFileError::invalid("expected a sub-spec for a column of links"));
            },
        };
        if sub_spec_index >= entries.size() {
            return Err(RealmFileError::invalid("the sub-spec is too short"));
        }
        match entries.get_ref_or_tagged_value(sub_spec_index)? {
            Some(RefOrTaggedValue::TaggedValue(n)) => {
                if n > usize::MAX as u64 {
                    return Err(RealmFileError::invalid("number too large"));
                }
                Ok(n as usize)
            },
            _ => Err(RealmFileError::invalid("expected a tagged integer for a column of links")),
        }
    }

    /// The reference that entry `sub_spec_index` of the sub-spec holds.
    pub fn get_sub_spec_ref(sub_spec_array: &Option<Array<'a>>, sub_spec_index: usize) -> (r:
        RealmResult<RealmRef>)
        requires
            sub_spec_array matches Some(entries) ==> entries.wf(),
        ensures
            match sub_spec_ref(*sub_spec_array, sub_spec_index as int) {
                Some(n) => r matches Ok(v) && v == n,
                None => r matches Err(e) && e is InvalidRealmFile,
            },
    {
        let entries = match sub_spec_array {
            Some(entries) => entries,
            None => {
                return Err(RealmFileError::invalid("expected a sub-spec for a column of tables"));
            },
        };
        if sub_spec_index >= entries.size() {
            return Err(RealmFileError::invalid("the sub-spec is too short"));
        }
        match entries.get_ref(sub_spec_index)? {
            Some(r) => Ok(r),
            None => Err(RealmFileError::invalid("expected a reference for a column of tables")),
        }
    }

    /// The reference in slot `slot` of the data array.
    pub fn get_data_ref(data_array: &Array<'a>, slot: usize) -> (r: RealmResult<
        RealmRef,
    >)
        requires
            data_array.wf(),
        ensures
            match data_ref_at(*data_array, slot as int) {
                Some(n) => r matches Ok(v) && v == n,
                None => r matches Err(e) && e is InvalidRealmFile,
            },
    {
        if slot >= data_array.size() {
            return Err(RealmFileError::invalid("the data array is too short"));
        }
        match data_array.get_ref(slot)? {
            Some(r) => Ok(r),
            None => Err(RealmFileError::invalid("failed to find the data of a column")),
        }
    }

    /// Makes column `i` of a table, whose data stands in slot
    /// `data_array_index` of the data array, whose entries in the sub-spec
    /// start at `sub_spec_index`, and whose name, if it has one, is name
    /// `name_index`.
    pub fn make_column(
        data_array: &Array<'a>,
        column_types: &Vec<ColumnType>,
        column_names: &Vec<String>,
        column_attributes: &Vec<ColumnAttributes>,
        sub_spec_array: &Option<Array<'a>>,
        i: usize,
        data_array_index: usize,
        sub_spec_index: usize,
        name_index: usize,
        depth: usize,
    ) -> (r: RealmResult<Column<'a>>)
        requires
            data_array.wf(),
            sub_spec_array matches Some(entries) ==> entries.wf() && entries.node.realm
                == data_array.node.realm,
            i < column_types@.len(),
            column_types@.len() == column_attributes@.len(),
            data_array_index == data_slot_of(column_attributes@, i as int),
            sub_spec_index == sub_spec_slot_of(column_types@, i as int),
            name_index == name_slot_of(column_types@, i as int),
            data_array_index < usize::MAX,
            sub_spec_index < usize::MAX,
        ensures
            match column_at(
                *data_array,
                column_types@,
                name_views(column_names@),
                column_attributes@,
                *sub_spec_array,
                i as int,
                depth,
            ) {
                Ok(view) => r matches Ok(column) && column@ == view && column.wf()
                    && column.tree.depth == depth,
                Err(f) => r matches Err(e) && e.reports(f),
            },
            r is Ok ==> data_array_index < 0x100_0000 && (
            column_types@[i as int].spec_sub_spec_entries_count() > 0 ==> sub_spec_index
                < 0x100_0000),
    {
        reveal(column_at);
        proof {
            data_array.lemma_wf();
            match sub_spec_array {
                Some(entries) => {
                    entries.lemma_wf();
                },
                None => {},
            }
        }
        let realm = data_array.node.realm;
        let column_type = column_types[i];
        let attrs = column_attributes[i];
        let ghost names = name_views(column_names@);
        let data_ref = Self::get_data_ref(data_array, data_array_index)?;
        let index_ref = if attrs.is_indexed() {
            let r = Self::get_data_ref(data_array, data_array_index + 1)?;
            Some(r)
        } else {
            None
        };
        match column_type {
            ColumnType::OldStringEnum | ColumnType::Binary | ColumnType::OldMixed
            | ColumnType::OldDateTime | ColumnType::Reserved4 => {
                Err(RealmFileError::unsupported("columns of this type"))
            },
            ColumnType::BackLink => {
                let target_table_number = Self::get_sub_spec_index_value(
                    sub_spec_array,
                    sub_spec_index,
                )?;
                let target_table_column_number = Self::get_sub_spec_index_value(
                    sub_spec_array,
                    sub_spec_index + 1,
                )?;
                create_backlink_column(
                    realm,
                    data_ref,
                    attrs,
                    target_table_number,
                    target_table_column_number,
                    depth,
                )
            },
            _ => {
                if name_index >= column_names.len() {
                    return Err(RealmFileError::invalid("a column without a name"));
                }
                let name = column_names[name_index].clone();
                assert(name@ == names[name_index as int]);
                match column_type {
                    ColumnType::Table => {
                        let header_ref = Self::get_sub_spec_ref(sub_spec_array, sub_spec_index)?;
                        create_subtable_column(realm, header_ref, data_ref, attrs, name, depth)
                    },
                    ColumnType::Link => {
                        let target = Self::get_sub_spec_index_value(
                            sub_spec_array,
                            sub_spec_index,
                        )?;
                        create_link_column(realm, data_ref, attrs, target, name, depth)
                    },
                    ColumnType::LinkList => {
                        let target = Self::get_sub_spec_index_value(
                            sub_spec_array,
                            sub_spec_index,
                        )?;
                        create_linklist_column(realm, data_ref, attrs, target, name, depth)
                    },
                    ColumnType::Timestamp => create_timestamp_column(
                        realm,
                        data_ref,
                        index_ref,
                        attrs,
                        name,
                        depth,
                    ),
                    ColumnType::Int => if attrs.is_nullable() {
                        create_int_null_column(realm, data_ref, index_ref, attrs, name, depth)
                    } else {
                        create_int_column(realm, data_ref, index_ref, attrs, name, depth)
                    },
                    ColumnType::Bool => if attrs.is_nullable() {
                        create_bool_null_column(realm, data_ref, index_ref, attrs, name, depth)
                    } else {
                        create_bool_column(realm, data_ref, index_ref, attrs, name, depth)
                    },
                    ColumnType::Float => create_float_column(realm, data_ref, attrs, name, depth),
                    ColumnType::Double => create_double_column(
                        realm,
                        data_ref,
                        attrs,
                        name,
                        depth,
                    ),
                    _ => create_string_column(realm, data_ref, index_ref, attrs, name, depth),
                }
            },
        }
    }

    /// Makes the columns of a table from the parts of its header: the types,
    /// names and attributes of the columns and the sub-spec.
    ///
    /// The columns are made in order. Two cursors go along: one into the data
    /// array, which a column moves on by one slot and by one more where it
    /// has an index, and one into the sub-spec, which a column moves on by
    /// the number of entries that its type takes.
    pub fn from_parts(
        data_array: &Array<'a>,
        column_types: Vec<ColumnType>,
        column_names: Vec<String>,
        column_attributes: Vec<ColumnAttributes>,
        sub_spec_array: Option<Array<'a>>,
        depth: usize,
    ) -> (r: RealmResult<TableHeader<'a>>)
        requires
            data_array.wf(),
            sub_spec_array matches Some(entries) ==> entries.wf() && entries.node.realm
                == data_array.node.realm,
        ensures
            match columns_from_parts(
                *data_array,
                column_types@,
                name_views(column_names@),
                column_attributes@,
                sub_spec_array,
                depth,
            ) {
                Ok(columns) => r matches Ok(header) && header@ == columns && header.wf(depth),
                Err(f) => r matches Err(e) && e.reports(f),
            },
    {
        // The same does not apply to the names, as backlinks have none.
        if column_types.len() != column_attributes.len() {
            return Err(
                RealmFileError::invalid("number of column types and column attributes should match"),
            );
        }
        let ghost types = column_types@;
        let ghost names = name_views(column_names@);
        let ghost attributes = column_attributes@;
        let count = column_types.len();
        let mut columns: Vec<Column<'a>> = Vec::with_capacity(count);
        let mut data_array_index: usize = 0;
        let mut sub_spec_index: usize = 0;
        let mut name_index: usize = 0;
        let mut i: usize = 0;
        assert(column_views(columns@) =~= Seq::empty());
        while i < count
            invariant
                data_array.wf(),
                sub_spec_array matches Some(entries) ==> entries.wf() && entries.node.realm
                    == data_array.node.realm,
                types == column_types@,
                names == name_views(column_names@),
                attributes == column_attributes@,
                count == types.len(),
                count == attributes.len(),
                i <= count,
                data_array_index == data_slot_of(attributes, i as int),
                sub_spec_index == sub_spec_slot_of(types, i as int),
                name_index == name_slot_of(types, i as int),
                data_array_index <= 0x100_0001,
                sub_spec_index <= 0x100_0001,
                name_index <= i,
                columns@.len() == i,
                columns_upto(
                    *data_array,
                    types,
                    names,
                    attributes,
                    sub_spec_array,
                    i as int,
                    depth,
                ) == Ok::<Seq<ColumnView<'a>>, Fault>(column_views(columns@)),
                forall|j: int|
                    0 <= j < i ==> (#[trigger] columns@[j])@.wf() && columns@[j].tree.depth == depth,
            decreases count - i,
        {
            let made = Self::make_column(
                data_array,
                &column_types,
                &column_names,
                &column_attributes,
                &sub_spec_array,
                i,
                data_array_index,
                sub_spec_index,
                name_index,
                depth,
            );
            let column = match made {
                Ok(column) => column,
                Err(e) => {
                    proof {
                        lemma_columns_upto_fault(
                            *data_array,
                            types,
                            names,
                            attributes,
                            sub_spec_array,
                            i + 1,
                            count as int,
                            depth,
                        );
                    }
                    return Err(e);
                },
            };
            let column_type = column_types[i];
            let attrs = column_attributes[i];
            let ghost before = column_views(columns@);
            columns.push(column);
            assert(column_views(columns@) =~= before.push(column@));
            data_array_index += 1;
            if attrs.is_indexed() {
                // Indexed columns have an additional slot in the data array:
                // for a column with its data in slot N, the index is in slot
                // N + 1.
                data_array_index += 1;
            }
            sub_spec_index += column_type.sub_spec_entries_count();
            if column_type != ColumnType::BackLink {
                name_index += 1;
            }
            i += 1;
        }
        let header = TableHeader { columns };
        assert(header@ =~= column_views(header.columns@));
        Ok(header)
    }

    /// The number of columns.
    pub fn column_count(&self) -> (r: usize)
        ensures
            r == self@.len(),
    {
        self.columns.len()
    }

    /// The columns, in order.
    pub fn get_columns(&self) -> (r: &Vec<Column<'a>>)
        ensures
            column_views(r@) == self@,
    {
        &self.columns
    }

    /// Column `index`, or `None` where the table has no such column.
    pub fn get_column(&self, index: usize) -> (r: Option<&Column<'a>>)
        ensures
            match r {
                Some(column) => index < self@.len() && column@ == self@[index as int],
                None => index >= self@.len(),
            },
    {
        if index < self.columns.len() {
            Some(&self.columns[index])
        } else {
            None
        }
    }

    /// Reads the header of a table from the array `header_array`, and makes
    /// its columns over the data array `data_array`.
    pub fn build(header_array: &Array<'a>, data_array: &Array<'a>, depth: usize) -> (r: RealmResult<
        TableHeader<'a>,
    >)
        requires
            header_array.wf(),
            data_array.wf(),
            header_array.node.realm == data_array.node.realm,
        ensures
            match table_columns(*header_array, *data_array, depth) {
                Ok(columns) => r matches Ok(header) && header@ == columns && header.wf(depth),
                Err(f) => r matches Err(e) && e.reports(f),
            },
    {
        reveal(table_columns);
        if header_array.size() < 3 {
            return Err(RealmFileError::invalid("the header of a table has three parts"));
        }
        let types_array = match header_array.get_array(0)? {
            Some(a) => a,
            None => {
                return Err(RealmFileError::invalid("a table needs the types of its columns"));
            },
        };
        let names_node = match header_array.get_node(1)? {
            Some(n) => n,
            None => {
                return Err(RealmFileError::invalid("a table needs the names of its columns"));
            },
        };
        let attributes_array = match header_array.get_array(2)? {
            Some(a) => a,
            None => {
                return Err(RealmFileError::invalid("a table needs the attributes of its columns"));
            },
        };
        let sub_spec_array = if header_array.size() > 3 {
            header_array.get_array(3)?
        } else {
            None
        };
        let column_types = read_column_types(&types_array)?;
        let names = ArrayStringShort { node: names_node };
        let column_names = read_column_names(&names)?;
        let column_attributes = read_column_attributes(&attributes_array);
        Self::from_parts(
            data_array,
            column_types,
            column_names,
            column_attributes,
            sub_spec_array,
            depth,
        )
    }
}

/// The column types that the slots of `array` stand for.
pub fn read_column_types<'a>(array: &Array<'a>) -> (r: RealmResult<Vec<ColumnType>>)
    requires
        array.wf(),
    ensures
        match types_in(*array) {
            Some(types) => r matches Ok(v) && v@ == types,
            None => r matches Err(e) && e is InvalidRealmFile,
        },
{
    reveal(types_in);
    let size = array.size();
    let mut out: Vec<ColumnType> = Vec::with_capacity(size);
    let mut i: usize = 0;
    while i < size
        invariant
            array.wf(),
            size == array.spec_size(),
            i <= size,
            out@.len() == i,
            forall|j: int|
                0 <= j < i ==> (#[trigger] ColumnType::of(array.slot(j))) == Some(out@[j]),
        decreases size - i,
    {
        match ColumnType::from_u64(array.get(i)) {
            Ok(t) => {
                out.push(t);
            },
            Err(e) => {
                proof {
                    reveal(types_in);
                    assert(ColumnType::of(array.slot(i as int)) is None);
                }
                return Err(e);
            },
        }
        i += 1;
    }
    assert(out@ =~= types_in(*array).unwrap());
    Ok(out)
}

/// The names that the leaf `names` holds.
pub fn read_column_names<'a>(names: &ArrayStringShort<'a>) -> (r: RealmResult<Vec<String>>)
    requires
        names.wf(),
    ensures
        match names_in(*names) {
            Some(all) => r matches Ok(v) && name_views(v@) == all,
            None => r matches Err(e) && e is InvalidRealmFile,
        },
{
    reveal(names_in);
    match names.get_all() {
        Ok(v) => {
            assert forall|i: int| 0 <= i < names.spec_size() implies #[trigger] names.readable(
                i,
            ) by {
                let s = v@[i];
            }
            assert(name_views(v@) =~= names_in(*names).unwrap()) by {
                assert forall|i: int| 0 <= i < v@.len() implies name_views(v@)[i] == names_in(
                    *names,
                ).unwrap()[i] by {
                    let s = v@[i];
                }
            }
            Ok(v)
        },
        Err(e) => Err(e),
    }
}

/// The attributes that the slots of `array` stand for.
pub fn read_column_attributes<'a>(array: &Array<'a>) -> (r: Vec<ColumnAttributes>)
    requires
        array.wf(),
    ensures
        r@ == attributes_in(*array),
{
    let size = array.size();
    let mut out: Vec<ColumnAttributes> = Vec::with_capacity(size);
    let mut i: usize = 0;
    while i < size
        invariant
            array.wf(),
            size == array.spec_size(),
            i <= size,
            out@.len() == i,
            forall|j: int| 0 <= j < i ==> out@[j] == ColumnAttributes(array.slot(j)),
        decreases size - i,
    {
        out.push(ColumnAttributes::from_u64(array.get(i)));
        i += 1;
    }
    assert(out@ =~= attributes_in(*array));
    out
}

} // verus!
