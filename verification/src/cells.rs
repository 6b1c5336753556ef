//! What the bytes of a file say of the cells, rows and columns of a table.
//!
//! A cell of a column of subtables holds a table of its own, so the functions
//! here call one another. Each takes the number of levels that tables may
//! still nest, and gives up where that is used up.
use vstd::prelude::*;
use vstd::utf8::{decode_utf8, valid_utf8};

use crate::array::array_string::ArrayString;
use crate::array::array_string_short::ArrayStringShort;
use crate::array::integer_array::IntegerArray;
use crate::array::scalar_array::ScalarArray;
use crate::array::{ref_in_slot, ref_or_tag_in_slot, Array, RealmRef, RefOrTaggedValue};
use crate::column::backlink::{BacklinkArray, BacklinkContext};
use crate::column::bptree::{leaf_under, max_depth};
use crate::column::link::{LinkColumnContext, LinkLeaf};
use crate::column::linklist::{LinkListColumnContext, LinkListLeaf};
use crate::column::subtable::{SubtableArrayLeaf, SubtableContext};
use crate::column::{BpTree, ColumnView, LeafKind};
use crate::column_type::ColumnType;
use crate::error::{found, Fault};
use crate::index::Index;
use crate::realm::Realm;
use crate::table::column::ColumnAttributes;
use crate::table::row::RowView;
use crate::value::{BacklinkView, Timestamp, ValueView};

verus! {

/// What the `chrono` crate makes of a timestamp of `seconds` and
/// `nanoseconds`: the seconds and nanoseconds of the instant, or `None` where
/// it has no such instant.
pub uninterp spec fn chrono_from_timestamp(seconds: i64, nanoseconds: u32) -> Option<(i64, u32)>;

/// The value of a cell that holds the optional number `v`.
pub open spec fn int_value(v: Option<Option<i64>>) -> Result<ValueView, Fault> {
    match v {
        Some(Some(n)) => Ok(ValueView::Int(n)),
        Some(None) => Ok(ValueView::Null),
        None => Err(Fault::Damaged),
    }
}

/// The value of a cell that holds the optional boolean `v`.
pub open spec fn bool_value(v: Option<Option<bool>>) -> Result<ValueView, Fault> {
    match v {
        Some(Some(b)) => Ok(ValueView::Bool(b)),
        Some(None) => Ok(ValueView::Null),
        None => Err(Fault::Damaged),
    }
}

/// The value of a cell that holds the bits `v` of an optional
/// single-precision number.
pub open spec fn float_value(v: Option<Option<u32>>) -> Result<ValueView, Fault> {
    match v {
        Some(Some(bits)) => Ok(ValueView::Float(bits)),
        Some(None) => Ok(ValueView::Null),
        None => Err(Fault::Damaged),
    }
}

/// The value of a cell that holds the bits `v` of an optional
/// double-precision number.
pub open spec fn double_value(v: Option<Option<u64>>) -> Result<ValueView, Fault> {
    match v {
        Some(Some(bits)) => Ok(ValueView::Double(bits)),
        Some(None) => Ok(ValueView::Null),
        None => Err(Fault::Damaged),
    }
}

/// `v` as a value that is there.
pub open spec fn present<T>(v: Option<T>) -> Option<Option<T>> {
    match v {
        Some(x) => Some(Some(x)),
        None => None,
    }
}

/// The value of a cell of strings with the bytes `content`. A null is the
/// null value in a column that can hold nulls, the empty string in one that
/// cannot. Bytes that are no UTF-8 give no value.
pub open spec fn text_value(content: Option<Option<Seq<u8>>>, nullable: bool) -> Result<
    ValueView,
    Fault,
> {
    match content {
        Some(Some(bytes)) => if valid_utf8(bytes) {
            Ok(ValueView::String(decode_utf8(bytes)))
        } else {
            Err(Fault::Damaged)
        },
        Some(None) => if nullable {
            Ok(ValueView::Null)
        } else {
            Ok(ValueView::String(Seq::empty()))
        },
        None => Err(Fault::Damaged),
    }
}

/// The value of element `index` of the leaf of kind `kind` at `leaf_ref`,
/// for every kind but that of subtables.
#[verifier::opaque]
pub open spec fn plain_leaf_cell(realm: Realm, kind: LeafKind, leaf_ref: RealmRef, index: int) -> Result<
    ValueView,
    Fault,
> {
    match kind {
        LeafKind::Int => match IntegerArray::at(realm, leaf_ref) {
            Some(leaf) => int_value(present(leaf.signed_element(index))),
            None => Err(Fault::Damaged),
        },
        LeafKind::IntNull => match IntegerArray::at(realm, leaf_ref) {
            Some(leaf) => int_value(leaf.nullable_element(index)),
            None => Err(Fault::Damaged),
        },
        LeafKind::Bool => match ScalarArray::at(realm, leaf_ref) {
            Some(leaf) => bool_value(present(leaf.bool_element(index))),
            None => Err(Fault::Damaged),
        },
        LeafKind::BoolNull => match ScalarArray::at(realm, leaf_ref) {
            Some(leaf) => bool_value(leaf.nullable_bool_element(index)),
            None => Err(Fault::Damaged),
        },
        LeafKind::Float => match ScalarArray::at(realm, leaf_ref) {
            Some(leaf) => float_value(present(leaf.float_element(index))),
            None => Err(Fault::Damaged),
        },
        LeafKind::FloatNull => match ScalarArray::at(realm, leaf_ref) {
            Some(leaf) => float_value(leaf.nullable_float_element(index)),
            None => Err(Fault::Damaged),
        },
        LeafKind::Double => match ScalarArray::at(realm, leaf_ref) {
            Some(leaf) => double_value(present(leaf.double_element(index))),
            None => Err(Fault::Damaged),
        },
        LeafKind::DoubleNull => match ScalarArray::at(realm, leaf_ref) {
            Some(leaf) => double_value(leaf.nullable_double_element(index)),
            None => Err(Fault::Damaged),
        },
        LeafKind::String => match ArrayString::at(realm, leaf_ref) {
            Some(leaf) => text_value(leaf.element(index), false),
            None => Err(Fault::Damaged),
        },
        LeafKind::StringNull => match ArrayString::at(realm, leaf_ref) {
            Some(leaf) => text_value(leaf.element(index), true),
            None => Err(Fault::Damaged),
        },
        LeafKind::Link(context) => match LinkLeaf::at(realm, leaf_ref, context) {
            Some(leaf) => match leaf.element(index) {
                Some(Some(link)) => Ok(ValueView::Link(link)),
                Some(None) => Ok(ValueView::Null),
                None => Err(Fault::Damaged),
            },
            None => Err(Fault::Damaged),
        },
        LeafKind::LinkList(context) => match LinkListLeaf::at(realm, leaf_ref, context) {
            Some(leaf) => match leaf.element(index) {
                Some(links) => Ok(ValueView::LinkList(links)),
                None => Err(Fault::Damaged),
            },
            None => Err(Fault::Damaged),
        },
        LeafKind::Backlink(context) => match BacklinkArray::at(realm, leaf_ref, context) {
            Some(leaf) => match leaf.element(index) {
                Some(Some(backlink)) => Ok(ValueView::BackLink(backlink)),
                Some(None) => Ok(ValueView::Null),
                None => Err(Fault::Damaged),
            },
            None => Err(Fault::Damaged),
        },
        LeafKind::Subtable(_) => Err(Fault::Damaged),
    }
}

/// The number of elements of the leaf `root` of kind `kind`. A leaf that can
/// hold nulls keeps what stands for null in its first slot; a leaf of strings
/// has as many elements as its layout says.
#[verifier::opaque]
pub open spec fn leaf_count(kind: LeafKind, root: Array) -> Option<int> {
    match kind {
        LeafKind::IntNull | LeafKind::BoolNull | LeafKind::FloatNull | LeafKind::DoubleNull => Some(
            if root.spec_size() == 0 {
                0
            } else {
                root.spec_size() - 1
            },
        ),
        LeafKind::String | LeafKind::StringNull => match ArrayString::at(
            root.node.realm,
            root.node.ref_,
        ) {
            Some(leaf) => Some(leaf.spec_size()),
            None => None,
        },
        _ => Some(root.spec_size()),
    }
}

/// The number of elements of the tree `tree`: that of its root where the
/// root is a leaf, else the last slot of the root, halved.
pub open spec fn tree_count(tree: BpTree) -> Option<int> {
    if !tree.root.node.header.spec_is_inner_bptree() {
        leaf_count(tree.kind, tree.root)
    } else {
        Some(tree.root.slot(tree.root.spec_size() - 1) as int / 2)
    }
}

/// The number of rows of the column `column`.
pub open spec fn column_count(column: ColumnView) -> Option<int> {
    tree_count(column.tree)
}

/// The timestamp of `seconds` and `nanoseconds`. There is none, and the value
/// is null, where both are 0, where the nanoseconds are no 32-bit number, and
/// where `chrono` has no such instant.
pub open spec fn timestamp_value(seconds: i64, nanoseconds: i64) -> ValueView {
    if nanoseconds < 0 || nanoseconds > u32::MAX {
        ValueView::Null
    } else {
        timestamp_made(seconds, nanoseconds, chrono_from_timestamp(seconds, nanoseconds as u32))
    }
}

/// The value of a timestamp of `seconds` and `nanoseconds` of which `chrono`
/// made `made`: null where both are 0 or `chrono` made nothing, else what it
/// made.
pub open spec fn timestamp_made(seconds: i64, nanoseconds: i64, made: Option<(i64, u32)>) -> ValueView {
    if seconds == 0 && nanoseconds == 0 {
        ValueView::Null
    } else {
        match made {
            Some((s, n)) => ValueView::Timestamp(Timestamp { seconds: s, nanoseconds: n }),
            None => ValueView::Null,
        }
    }
}

/// Where the data of column `i` stands in the data array: one slot for each
/// column before it, and one more for each of those that has an index.
pub open spec fn data_slot_of(attributes: Seq<ColumnAttributes>, i: int) -> int
    decreases i,
{
    if i <= 0 {
        0
    } else {
        data_slot_of(attributes, i - 1) + 1 + if attributes[i - 1].spec_is_indexed() {
            1int
        } else {
            0int
        }
    }
}

/// Where the entries of column `i` stand in the sub-spec: behind those of the
/// columns before it.
pub open spec fn sub_spec_slot_of(types: Seq<ColumnType>, i: int) -> int
    decreases i,
{
    if i <= 0 {
        0
    } else {
        sub_spec_slot_of(types, i - 1) + types[i - 1].spec_sub_spec_entries_count()
    }
}

/// Which of the names is that of column `i`: every column before it but those
/// of backlinks has taken one.
pub open spec fn name_slot_of(types: Seq<ColumnType>, i: int) -> int
    decreases i,
{
    if i <= 0 {
        0
    } else {
        name_slot_of(types, i - 1) + if types[i - 1] == ColumnType::BackLink {
            0int
        } else {
            1int
        }
    }
}

/// The table or column number that entry `slot` of the sub-spec holds as a
/// tagged number.
pub open spec fn sub_spec_number(sub_spec: Option<Array>, slot: int) -> Option<usize> {
    match sub_spec {
        Some(entries) => if 0 <= slot < entries.spec_size() {
            match ref_or_tag_in_slot(entries.bytes().len() as int, entries.slot(slot)) {
                Some(Some(RefOrTaggedValue::TaggedValue(n))) => if n <= usize::MAX {
                    Some(n as usize)
                } else {
                    None
                },
                _ => None,
            }
        } else {
            None
        },
        None => None,
    }
}

/// The reference that entry `slot` of the sub-spec holds.
pub open spec fn sub_spec_ref(sub_spec: Option<Array>, slot: int) -> Option<RealmRef> {
    match sub_spec {
        Some(entries) => if 0 <= slot < entries.spec_size() {
            match ref_in_slot(entries.bytes().len() as int, entries.slot(slot)) {
                Some(Some(r)) => Some(r),
                _ => None,
            }
        } else {
            None
        },
        None => None,
    }
}

/// The reference in slot `slot` of the data array `data`.
pub open spec fn data_ref_at(data: Array, slot: int) -> Option<RealmRef> {
    if 0 <= slot < data.spec_size() {
        match ref_in_slot(data.bytes().len() as int, data.slot(slot)) {
            Some(Some(r)) => Some(r),
            _ => None,
        }
    } else {
        None
    }
}

/// The index of a column whose index stands at `index_ref`, if it has one.
pub open spec fn index_at<'a>(realm: Realm<'a>, index_ref: Option<RealmRef>) -> Option<
    Option<Index<'a>>,
> {
    match index_ref {
        Some(r) => present(Index::at(realm, r)),
        None => Some(None),
    }
}

/// The tree of a column of one tree, with its name and its index.
pub open spec fn one_tree_column<'a>(
    realm: Realm<'a>,
    kind: LeafKind,
    data_ref: RealmRef,
    index_ref: Option<RealmRef>,
    attributes: ColumnAttributes,
    name: Option<Seq<char>>,
    depth: usize,
) -> Option<ColumnView<'a>> {
    match (BpTree::at(realm, data_ref, kind, depth), index_at(realm, index_ref)) {
        (Some(tree), Some(index)) => Some(
            ColumnView { tree, nanoseconds: None, index, attributes, name },
        ),
        _ => None,
    }
}

/// The column of timestamps whose data stands at `data_ref`: an array of two
/// slots that refer to the tree of the seconds, which can be null, and the
/// tree of the nanoseconds.
pub open spec fn timestamp_column<'a>(
    realm: Realm<'a>,
    data_ref: RealmRef,
    index_ref: Option<RealmRef>,
    attributes: ColumnAttributes,
    name: Option<Seq<char>>,
    depth: usize,
) -> Option<ColumnView<'a>> {
    match Array::at(realm, data_ref) {
        Some(pair) => match (data_ref_at(pair, 0), data_ref_at(pair, 1)) {
            (Some(seconds_ref), Some(nanoseconds_ref)) => match (
                BpTree::at(realm, seconds_ref, LeafKind::IntNull, depth),
                BpTree::at(realm, nanoseconds_ref, LeafKind::Int, depth),
                index_at(realm, index_ref),
            ) {
                (Some(tree), Some(nanoseconds), Some(index)) => Some(
                    ColumnView { tree, nanoseconds: Some(nanoseconds), index, attributes, name },
                ),
                _ => None,
            },
            _ => None,
        },
        None => None,
    }
}

/// Whether the reader has no columns of the type `ty`.
pub open spec fn unsupported_type(ty: ColumnType) -> bool {
    ty == ColumnType::OldStringEnum || ty == ColumnType::Binary || ty == ColumnType::OldMixed || ty
        == ColumnType::OldDateTime || ty == ColumnType::Reserved4
}

/// The kind of leaf of a column of type `ty` that has one tree and no entry
/// in the sub-spec.
pub open spec fn plain_kind(ty: ColumnType, nullable: bool) -> LeafKind {
    match ty {
        ColumnType::Int => if nullable {
            LeafKind::IntNull
        } else {
            LeafKind::Int
        },
        ColumnType::Bool => if nullable {
            LeafKind::BoolNull
        } else {
            LeafKind::Bool
        },
        ColumnType::Float => if nullable {
            LeafKind::FloatNull
        } else {
            LeafKind::Float
        },
        ColumnType::Double => if nullable {
            LeafKind::DoubleNull
        } else {
            LeafKind::Double
        },
        _ => if nullable {
            LeafKind::StringNull
        } else {
            LeafKind::String
        },
    }
}

/// Column `i` of the table whose data array is `data`, whose columns have the
/// types `types`, the attributes `attributes` and, but for those of
/// backlinks, the names `names` in turn, and whose sub-spec is `sub_spec`.
///
/// The data of the column stands in the slot of the data array that
/// [`data_slot_of`] gives, its index in the slot after that. A column of
/// subtables takes from the sub-spec the reference to their header; a column
/// of links or of lists of links the number of the table it points into; a
/// column of backlinks the numbers of the table and of the column that the
/// links come from. Columns of floating-point numbers, links, lists of links,
/// backlinks and subtables have no index.
#[verifier::opaque]
pub open spec fn column_at<'a>(
    data: Array<'a>,
    types: Seq<ColumnType>,
    names: Seq<Seq<char>>,
    attributes: Seq<ColumnAttributes>,
    sub_spec: Option<Array<'a>>,
    i: int,
    depth: usize,
) -> Result<ColumnView<'a>, Fault> {
    let realm = data.node.realm;
    let ty = types[i];
    let attrs = attributes[i];
    let slot = data_slot_of(attributes, i);
    let entry = sub_spec_slot_of(types, i);
    let name_slot = name_slot_of(types, i);
    let name = if name_slot < names.len() {
        Some(names[name_slot])
    } else {
        None
    };
    match data_ref_at(data, slot) {
        None => Err(Fault::Damaged),
        Some(data_ref) => if attrs.spec_is_indexed() && data_ref_at(data, slot + 1) is None {
            Err(Fault::Damaged)
        } else if unsupported_type(ty) {
            Err(Fault::Unsupported)
        } else if ty != ColumnType::BackLink && name is None {
            Err(Fault::Damaged)
        } else {
            let index_ref = if attrs.spec_is_indexed() {
                data_ref_at(data, slot + 1)
            } else {
                None
            };
            match ty {
                ColumnType::Table => match sub_spec_ref(sub_spec, entry) {
                    Some(header_ref) => found(
                        one_tree_column(
                            realm,
                            LeafKind::Subtable(SubtableContext { header_ref }),
                            data_ref,
                            None,
                            attrs,
                            name,
                            depth,
                        ),
                    ),
                    None => Err(Fault::Damaged),
                },
                ColumnType::Link => match sub_spec_number(sub_spec, entry) {
                    Some(target_table_index) => found(
                        one_tree_column(
                            realm,
                            LeafKind::Link(LinkColumnContext { target_table_index }),
                            data_ref,
                            None,
                            attrs,
                            name,
                            depth,
                        ),
                    ),
                    None => Err(Fault::Damaged),
                },
                ColumnType::LinkList => match sub_spec_number(sub_spec, entry) {
                    Some(target_table_index) => found(
                        one_tree_column(
                            realm,
                            LeafKind::LinkList(LinkListColumnContext { target_table_index }),
                            data_ref,
                            None,
                            attrs,
                            name,
                            depth,
                        ),
                    ),
                    None => Err(Fault::Damaged),
                },
                ColumnType::BackLink => match (
                    sub_spec_number(sub_spec, entry),
                    sub_spec_number(sub_spec, entry + 1),
                ) {
                    (Some(target_table_number), Some(target_table_column_number)) => found(
                        one_tree_column(
                            realm,
                            LeafKind::Backlink(
                                BacklinkContext { target_table_number, target_table_column_number },
                            ),
                            data_ref,
                            None,
                            attrs,
                            None,
                            depth,
                        ),
                    ),
                    _ => Err(Fault::Damaged),
                },
                ColumnType::Timestamp => found(
                    timestamp_column(realm, data_ref, index_ref, attrs, name, depth),
                ),
                ColumnType::Float | ColumnType::Double => found(
                    one_tree_column(
                        realm,
                        plain_kind(ty, attrs.spec_is_nullable()),
                        data_ref,
                        None,
                        attrs,
                        name,
                        depth,
                    ),
                ),
                _ => found(
                    one_tree_column(
                        realm,
                        plain_kind(ty, attrs.spec_is_nullable()),
                        data_ref,
                        index_ref,
                        attrs,
                        name,
                        depth,
                    ),
                ),
            }
        },
    }
}

/// The first `count` columns of a table, in order, or the fault of the first
/// of them that has one.
pub open spec fn columns_upto<'a>(
    data: Array<'a>,
    types: Seq<ColumnType>,
    names: Seq<Seq<char>>,
    attributes: Seq<ColumnAttributes>,
    sub_spec: Option<Array<'a>>,
    count: int,
    depth: usize,
) -> Result<Seq<ColumnView<'a>>, Fault>
    decreases count,
{
    if count <= 0 {
        Ok(Seq::empty())
    } else {
        match columns_upto(data, types, names, attributes, sub_spec, count - 1, depth) {
            Ok(before) => match column_at(
                data,
                types,
                names,
                attributes,
                sub_spec,
                count - 1,
                depth,
            ) {
                Ok(column) => Ok(before.push(column)),
                Err(f) => Err(f),
            },
            Err(f) => Err(f),
        }
    }
}

/// The columns of a table whose parts were read from its header: as many as
/// there are types, which must be as many as there are attributes.
pub open spec fn columns_from_parts<'a>(
    data: Array<'a>,
    types: Seq<ColumnType>,
    names: Seq<Seq<char>>,
    attributes: Seq<ColumnAttributes>,
    sub_spec: Option<Array<'a>>,
    depth: usize,
) -> Result<Seq<ColumnView<'a>>, Fault> {
    if types.len() != attributes.len() {
        Err(Fault::Damaged)
    } else {
        columns_upto(data, types, names, attributes, sub_spec, types.len() as int, depth)
    }
}

/// The column types that the slots of `array` stand for, where each of them
/// stands for one.
#[verifier::opaque]
pub open spec fn types_in(array: Array) -> Option<Seq<ColumnType>> {
    if forall|i: int| 0 <= i < array.spec_size() ==> (#[trigger] ColumnType::of(array.slot(i)))
        is Some {
        Some(Seq::new(array.spec_size() as nat, |i: int| ColumnType::of(array.slot(i)).unwrap()))
    } else {
        None
    }
}

/// The names that the leaf `names` holds, where each can be read; a null
/// stands for the empty name.
#[verifier::opaque]
pub open spec fn names_in(names: ArrayStringShort) -> Option<Seq<Seq<char>>> {
    if forall|i: int| 0 <= i < names.spec_size() ==> #[trigger] names.readable(i) {
        Some(
            Seq::new(
                names.spec_size() as nat,
                |i: int|
                    match names.element(i) {
                        Some(Some(bytes)) => decode_utf8(bytes),
                        _ => Seq::empty(),
                    },
            ),
        )
    } else {
        None
    }
}

/// The attributes that the slots of `array` stand for.
pub open spec fn attributes_in(array: Array) -> Seq<ColumnAttributes> {
    Seq::new(array.spec_size() as nat, |i: int| ColumnAttributes(array.slot(i)))
}

/// The sub-spec of the table with the header `header`: what slot 3 refers to,
/// where the header has more than three slots.
pub open spec fn sub_spec_of<'a>(header: Array<'a>) -> Option<Option<Array<'a>>> {
    if header.spec_size() > 3 {
        header.spec_array(3)
    } else {
        Some(None)
    }
}

/// The columns of the table whose header is the array `header` and whose
/// data is the array `data`. The header refers to the types of the columns,
/// to their names, to their attributes and, where it has a fourth slot, to
/// the sub-spec.
#[verifier::opaque]
pub open spec fn table_columns<'a>(header: Array<'a>, data: Array<'a>, depth: usize) -> Result<
    Seq<ColumnView<'a>>,
    Fault,
> {
    if header.spec_size() < 3 {
        Err(Fault::Damaged)
    } else {
        match (
            header.spec_array(0),
            header.spec_node(1),
            header.spec_array(2),
            sub_spec_of(header),
        ) {
            (
                Some(Some(types_array)),
                Some(Some(names_node)),
                Some(Some(attributes_array)),
                Some(sub_spec),
            ) => match (types_in(types_array), names_in(ArrayStringShort { node: names_node })) {
                (Some(types), Some(names)) => columns_from_parts(
                    data,
                    types,
                    names,
                    attributes_in(attributes_array),
                    sub_spec,
                    depth,
                ),
                _ => Err(Fault::Damaged),
            },
            _ => Err(Fault::Damaged),
        }
    }
}

/// The fields of a row: the names of the first `count` columns that have one,
/// each with its value, where a name that came before is not taken again.
pub open spec fn fields_upto(columns: Seq<ColumnView>, values: Seq<ValueView>, count: int) -> Seq<
    (Seq<char>, ValueView),
>
    decreases count,
{
    if count <= 0 {
        Seq::empty()
    } else {
        let before = fields_upto(columns, values, count - 1);
        match columns[count - 1].name {
            Some(name) => if has_name(before, name) {
                before
            } else {
                before.push((name, values[count - 1]))
            },
            None => before,
        }
    }
}

/// Whether one of `fields` has the name `name`.
pub open spec fn has_name(fields: Seq<(Seq<char>, ValueView)>, name: Seq<char>) -> bool {
    exists|i: int| 0 <= i < fields.len() && (#[trigger] fields[i]).0 == name
}

/// The backlinks of a row: the values of the first `count` columns that have
/// no name and hold a backlink.
pub open spec fn backlinks_upto(columns: Seq<ColumnView>, values: Seq<ValueView>, count: int) -> Seq<
    BacklinkView,
>
    decreases count,
{
    if count <= 0 {
        Seq::empty()
    } else {
        let before = backlinks_upto(columns, values, count - 1);
        match (columns[count - 1].name, values[count - 1]) {
            (None, ValueView::BackLink(b)) => before.push(b),
            _ => before,
        }
    }
}

/// The row that the values `values` of the columns `columns` make.
pub open spec fn row_of_values(columns: Seq<ColumnView>, values: Seq<ValueView>) -> RowView {
    RowView {
        fields: fields_upto(columns, values, columns.len() as int),
        backlinks: backlinks_upto(columns, values, columns.len() as int),
    }
}

/// The value of element `index` of the leaf of kind `kind` at `leaf_ref`.
///
/// A cell of subtables is null where its slot is 0. Else it holds the rows of
/// the table whose header the column names and whose data the slot refers to,
/// if tables may still nest.
pub open spec fn leaf_cell(realm: Realm, kind: LeafKind, leaf_ref: RealmRef, index: int, depth: nat) -> Result<
    ValueView,
    Fault,
>
    decreases depth, 0nat, 0nat,
{
    match kind {
        LeafKind::Subtable(context) => match SubtableArrayLeaf::at(realm, leaf_ref, context) {
            Some(leaf) => if !(0 <= index < leaf.root.spec_size()) {
                Err(Fault::Damaged)
            } else {
                match ref_in_slot(realm@.len() as int, leaf.root.slot(index)) {
                    Some(Some(data_ref)) => if depth == 0 {
                        Err(Fault::Damaged)
                    } else {
                        match Array::at(realm, data_ref) {
                            Some(data) => match table_rows(
                                leaf.header_array,
                                data,
                                (depth - 1) as nat,
                            ) {
                                Ok(rows) => Ok(ValueView::Table(rows)),
                                Err(f) => Err(f),
                            },
                            None => Err(Fault::Damaged),
                        }
                    },
                    Some(None) => Ok(ValueView::Null),
                    None => Err(Fault::Damaged),
                }
            },
            None => Err(Fault::Damaged),
        },
        _ => plain_leaf_cell(realm, kind, leaf_ref, index),
    }
}

/// The value of element `index` of the tree `tree`: that of the root where
/// the root is a leaf, else that of the leaf which the walk from the root
/// ends at.
pub open spec fn tree_cell(tree: BpTree, index: int, depth: nat) -> Result<ValueView, Fault>
    decreases depth, 1nat, 0nat,
{
    if !tree.root.node.header.spec_is_inner_bptree() {
        leaf_cell(tree.realm(), tree.kind, tree.root.node.ref_, index, depth)
    } else {
        match leaf_under(tree.root, index, max_depth(tree.realm())) {
            Some((leaf_ref, index_in_leaf)) => leaf_cell(
                tree.realm(),
                tree.kind,
                leaf_ref,
                index_in_leaf,
                depth,
            ),
            None => Err(Fault::Damaged),
        }
    }
}

/// The value of row `index` of the column `column`. A timestamp is null where
/// its seconds are, else it is made of its seconds and its nanoseconds.
pub open spec fn column_cell(column: ColumnView, index: int, depth: nat) -> Result<ValueView, Fault>
    decreases depth, 2nat, 0nat,
{
    match column.nanoseconds {
        None => tree_cell(column.tree, index, depth),
        Some(nanoseconds) => match tree_cell(column.tree, index, depth) {
            Ok(ValueView::Int(seconds)) => match tree_cell(nanoseconds, index, depth) {
                Ok(ValueView::Int(n)) => Ok(timestamp_value(seconds, n)),
                Ok(_) => Err(Fault::Damaged),
                Err(f) => Err(f),
            },
            Ok(_) => Ok(ValueView::Null),
            Err(f) => Err(f),
        },
    }
}

/// The values of row `index` in the first `count` of `columns`, or the fault
/// of the first of them that has one. A column that is shorter than the row
/// number has none.
pub open spec fn values_upto(columns: Seq<ColumnView>, index: int, count: int, depth: nat) -> Result<
    Seq<ValueView>,
    Fault,
>
    decreases depth, 3nat, count,
{
    if count <= 0 {
        Ok(Seq::empty())
    } else {
        match values_upto(columns, index, count - 1, depth) {
            Ok(before) => match column_count(columns[count - 1]) {
                Some(rows) => if index >= rows {
                    Err(Fault::Damaged)
                } else {
                    match column_cell(columns[count - 1], index, depth) {
                        Ok(value) => Ok(before.push(value)),
                        Err(f) => Err(f),
                    }
                },
                None => Err(Fault::Damaged),
            },
            Err(f) => Err(f),
        }
    }
}

/// Row `index` of the table with the columns `columns`.
pub open spec fn row_at(columns: Seq<ColumnView>, index: int, depth: nat) -> Result<RowView, Fault>
    decreases depth, 4nat, 0nat,
{
    match values_upto(columns, index, columns.len() as int, depth) {
        Ok(values) => Ok(row_of_values(columns, values)),
        Err(f) => Err(f),
    }
}

/// The first `count` rows of the table with the columns `columns`, or the
/// fault of the first of them that has one.
pub open spec fn rows_upto(columns: Seq<ColumnView>, count: int, depth: nat) -> Result<
    Seq<RowView>,
    Fault,
>
    decreases depth, 5nat, count,
{
    if count <= 0 {
        Ok(Seq::empty())
    } else {
        match rows_upto(columns, count - 1, depth) {
            Ok(before) => match row_at(columns, count - 1, depth) {
                Ok(row) => Ok(before.push(row)),
                Err(f) => Err(f),
            },
            Err(f) => Err(f),
        }
    }
}

/// The number of rows of the table with the columns `columns`: that of its
/// first column. A table without columns has none.
pub open spec fn row_count_of(columns: Seq<ColumnView>) -> Option<int> {
    if columns.len() == 0 {
        None
    } else {
        column_count(columns[0])
    }
}

/// All rows of the table with the columns `columns`.
pub open spec fn all_rows(columns: Seq<ColumnView>, depth: nat) -> Result<Seq<RowView>, Fault>
    decreases depth, 6nat, 0nat,
{
    match row_count_of(columns) {
        Some(count) => rows_upto(columns, count, depth),
        None => Err(Fault::Damaged),
    }
}

/// All rows of the table whose header is the array `header` and whose data
/// is the array `data`, when tables may nest `depth` levels deep in it.
pub open spec fn table_rows(header: Array, data: Array, depth: nat) -> Result<Seq<RowView>, Fault>
    decreases depth, 7nat, 0nat,
{
    if depth > usize::MAX {
        Err(Fault::Damaged)
    } else {
        match table_columns(header, data, depth as usize) {
            Ok(columns) => all_rows(columns, depth),
            Err(f) => Err(f),
        }
    }
}

/// Once a column has a fault, the columns have that fault.
pub proof fn lemma_columns_upto_fault<'a>(
    data: Array<'a>,
    types: Seq<ColumnType>,
    names: Seq<Seq<char>>,
    attributes: Seq<ColumnAttributes>,
    sub_spec: Option<Array<'a>>,
    k: int,
    n: int,
    depth: usize,
)
    requires
        0 <= k <= n,
        columns_upto(data, types, names, attributes, sub_spec, k, depth) is Err,
    ensures
        columns_upto(data, types, names, attributes, sub_spec, n, depth) == columns_upto(
            data,
            types,
            names,
            attributes,
            sub_spec,
            k,
            depth,
        ),
    decreases n - k,
{
    if k < n {
        lemma_columns_upto_fault(data, types, names, attributes, sub_spec, k, n - 1, depth);
    }
}

/// Once a column has a fault in a row, the row has that fault.
pub proof fn lemma_values_upto_fault(columns: Seq<ColumnView>, index: int, k: int, n: int, depth: nat)
    requires
        0 <= k <= n,
        values_upto(columns, index, k, depth) is Err,
    ensures
        values_upto(columns, index, n, depth) == values_upto(columns, index, k, depth),
    decreases n - k,
{
    if k < n {
        lemma_values_upto_fault(columns, index, k, n - 1, depth);
    }
}

/// Once a row has a fault, the rows have that fault.
pub proof fn lemma_rows_upto_fault(columns: Seq<ColumnView>, k: int, n: int, depth: nat)
    requires
        0 <= k <= n,
        rows_upto(columns, k, depth) is Err,
    ensures
        rows_upto(columns, n, depth) == rows_upto(columns, k, depth),
    decreases n - k,
{
    if k < n {
        lemma_rows_upto_fault(columns, k, n - 1, depth);
    }
}

} // verus!
