//! The columns of a table.
pub mod backlink;
pub mod bptree;
pub mod link;
pub mod linklist;
pub mod subtable;
pub mod timestamp;

use vstd::prelude::*;

use crate::array::array_string::ArrayString;
use crate::array::integer_array::IntegerArray;
use crate::array::scalar_array::ScalarArray;
use crate::array::{Array, RealmRef};
use crate::cells::{
    column_cell, column_count, leaf_count, one_tree_column, plain_kind, plain_leaf_cell, timestamp_column,
    tree_cell, tree_count,
};
use crate::column::backlink::{BacklinkArray, BacklinkContext};
use crate::column::bptree::{inner_at, BpTreeNode};
use crate::column::link::{LinkColumnContext, LinkLeaf};
use crate::column::linklist::{LinkListColumnContext, LinkListLeaf};
use crate::column::subtable::{SubtableArrayLeaf, SubtableContext};
use crate::column::timestamp::make_timestamp;
use crate::error::{decodes, Fault, RealmFileError, RealmResult};
use crate::index::{can_probe, probe_bytes, Index};
use crate::realm::Realm;
use crate::table::column::ColumnAttributes;
use crate::column_type::ColumnType;
use crate::table::row::{row_views, Row};
use crate::value::{Value, ValueView};

verus! {

/// The kinds of leaf that a column can have, each with what the leaf needs to
/// know of its column.
#[derive(Debug, Clone, Copy, PartialEq, Eq, Structural)]
pub enum LeafKind {
    /// Integers.
    Int,
    /// Integers or null.
    IntNull,
    /// Booleans.
    Bool,
    /// Booleans or null.
    BoolNull,
    /// Single-precision numbers.
    Float,
    /// Single-precision numbers or null.
    FloatNull,
    /// Double-precision numbers.
    Double,
    /// Double-precision numbers or null.
    DoubleNull,
    /// Strings.
    String,
    /// Strings or null.
    StringNull,
    /// Links into a table.
    Link(LinkColumnContext),
    /// Lists of links into a table.
    LinkList(LinkListColumnContext),
    /// Backlinks from a column of a table.
    Backlink(BacklinkContext),
    /// Subtables with a common header.
    Subtable(SubtableContext),
}

/// A B+Tree of leaves of one kind.
#[derive(Debug, Clone, Copy)]
pub struct BpTree<'a> {
    /// The root: a leaf, or an inner node.
    pub root: Array<'a>,
    /// The kind of the leaves.
    pub kind: LeafKind,
    /// How deep the tables in the cells of this tree may nest.
    pub depth: usize,
}

impl<'a> BpTree<'a> {
    /// The tree with its root at `ref_` in `realm`, where there is one: the
    /// root is an array, and where it has the inner flag set it has
    /// references, at least two slots, and a number of elements that fits a
    /// machine word.
    pub open spec fn at(realm: Realm<'a>, ref_: RealmRef, kind: LeafKind, depth: usize) -> Option<
        BpTree<'a>,
    > {
        match Array::at(realm, ref_) {
            Some(root) => if !root.node.header.spec_is_inner_bptree() {
                Some(BpTree { root, kind, depth })
            } else if inner_at(realm, ref_) is Some && root.slot(root.spec_size() - 1) % 2 == 0
                && root.slot(root.spec_size() - 1) / 2 <= usize::MAX {
                Some(BpTree { root, kind, depth })
            } else {
                None
            },
            None => None,
        }
    }

    /// This is the tree that the file holds at the root's reference.
    pub open spec fn wf(&self) -> bool {
        Self::at(self.root.node.realm, self.root.node.ref_, self.kind, self.depth) == Some(*self)
    }

    /// The file that holds the tree.
    pub open spec fn realm(&self) -> Realm<'a> {
        self.root.node.realm
    }
}

/// A column of a table: its data, its index where it has one, its attributes
/// and its name. A column of backlinks has no name.
#[derive(Debug)]
pub struct Column<'a> {
    /// The data of the column. For a column of timestamps, the seconds.
    pub tree: BpTree<'a>,
    /// For a column of timestamps, the nanoseconds.
    pub nanoseconds: Option<BpTree<'a>>,
    /// The index of the column.
    pub index: Option<Index<'a>>,
    /// The attributes of the column.
    pub attributes: ColumnAttributes,
    /// The name of the column.
    pub name: Option<String>,
}

/// What a [`Column`] holds.
pub struct ColumnView<'a> {
    /// The data of the column. For a column of timestamps, the seconds.
    pub tree: BpTree<'a>,
    /// For a column of timestamps, the nanoseconds.
    pub nanoseconds: Option<BpTree<'a>>,
    /// The index of the column.
    pub index: Option<Index<'a>>,
    /// The attributes of the column.
    pub attributes: ColumnAttributes,
    /// The characters of the name of the column.
    pub name: Option<Seq<char>>,
}

impl<'a> View for Column<'a> {
    type V = ColumnView<'a>;

    open spec fn view(&self) -> ColumnView<'a> {
        ColumnView {
            tree: self.tree,
            nanoseconds: self.nanoseconds,
            index: self.index,
            attributes: self.attributes,
            name: match self.name {
                Some(n) => Some(n@),
                None => None,
            },
        }
    }
}

impl<'a> ColumnView<'a> {
    /// The parts of the column are nodes of one file, and each is what the
    /// file holds at its place.
    pub open spec fn wf(&self) -> bool {
        &&& self.tree.wf()
        &&& match self.nanoseconds {
            Some(n) => n.wf() && n.realm() == self.tree.realm() && n.depth == self.tree.depth,
            None => true,
        }
        &&& match self.index {
            Some(i) => i.wf() && i.array.node.realm == self.tree.realm(),
            None => true,
        }
    }
}

/// `r` is the value that `s` describes, or the error that reports its fault.
pub open spec fn gives_value(r: RealmResult<Value>, s: Result<ValueView, Fault>) -> bool {
    match s {
        Ok(v) => r matches Ok(x) && x@ == v,
        Err(f) => r matches Err(e) && e.reports(f),
    }
}

/// The value that holds the optional number `v`.
pub fn value_of_int(v: Option<i64>) -> (r: Value)
    ensures
        r@ == (match v {
            Some(n) => ValueView::Int(n),
            None => ValueView::Null,
        }),
{
    match v {
        Some(n) => Value::Int(n),
        None => Value::Null,
    }
}

/// The value that holds the optional boolean `v`.
pub fn value_of_bool(v: Option<bool>) -> (r: Value)
    ensures
        r@ == (match v {
            Some(b) => ValueView::Bool(b),
            None => ValueView::Null,
        }),
{
    match v {
        Some(b) => Value::Bool(b),
        None => Value::Null,
    }
}

/// The value that holds the bits `v` of an optional single-precision number.
pub fn value_of_float(v: Option<u32>) -> (r: Value)
    ensures
        r@ == (match v {
            Some(bits) => ValueView::Float(bits),
            None => ValueView::Null,
        }),
{
    match v {
        Some(bits) => Value::Float(bits),
        None => Value::Null,
    }
}

/// The value that holds the bits `v` of an optional double-precision number.
pub fn value_of_double(v: Option<u64>) -> (r: Value)
    ensures
        r@ == (match v {
            Some(bits) => ValueView::Double(bits),
            None => ValueView::Null,
        }),
{
    match v {
        Some(bits) => Value::Double(bits),
        None => Value::Null,
    }
}

/// The value that holds the optional string `v`.
pub fn value_of_text(v: Option<String>) -> (r: Value)
    ensures
        r@ == (match v {
            Some(s) => ValueView::String(s@),
            None => ValueView::Null,
        }),
{
    match v {
        Some(s) => Value::String(s),
        None => Value::Null,
    }
}

/// The value that holds the rows `v` of a subtable, if there is one.
pub fn value_of_rows(v: Option<Vec<Row>>) -> (r: Value)
    ensures
        r@ == (match v {
            Some(rows) => ValueView::Table(row_views(rows@)),
            None => ValueView::Null,
        }),
{
    match v {
        Some(rows) => {
            let r = Value::Table(rows);
            assert(r@->Table_0 =~= row_views(rows@));
            r
        },
        None => Value::Null,
    }
}

impl<'a> BpTree<'a> {
    /// Loads the tree with its root at `ref_`.
    pub fn from_ref_with_context(realm: Realm<'a>, ref_: RealmRef, kind: LeafKind, depth: usize) -> (r:
        RealmResult<BpTree<'a>>)
        ensures
            decodes(r, Self::at(realm, ref_, kind, depth)),
    {
        let root = Array::from_ref(realm, ref_)?;
        if root.node.header.is_inner_bptree() {
            if !root.node.header.has_refs() || root.size() < 2 {
                return Err(RealmFileError::invalid("not an inner node of a B+Tree"));
            }
            if root.back() % 2 != 0 {
                return Err(RealmFileError::invalid("B+Tree with an odd last slot"));
            }
            if root.back() / 2 > usize::MAX as u64 {
                return Err(RealmFileError::invalid("B+Tree with too many elements"));
            }
        }
        Ok(BpTree { root, kind, depth })
    }

    /// Whether the root is a leaf.
    pub fn root_is_leaf(&self) -> (r: bool)
        ensures
            r == !self.root.node.header.spec_is_inner_bptree(),
    {
        !self.root.node.header.is_inner_bptree()
    }

    /// The root as the inner node that it is.
    pub fn root_as_node(&self) -> (r: BpTreeNode<'a>)
        requires
            self.wf(),
            self.root.node.header.spec_is_inner_bptree(),
        ensures
            r.root == self.root,
            r.wf(),
    {
        BpTreeNode { root: self.root }
    }

    /// Element `index` of the leaf of numbers or booleans at `leaf_ref`, read
    /// through the leaf.
    pub fn number_leaf_value(realm: Realm<'a>, kind: LeafKind, leaf_ref: RealmRef, index: usize) -> (r:
        RealmResult<Value>)
        requires
            kind is Int || kind is IntNull || kind is Bool || kind is BoolNull || kind is Float
                || kind is FloatNull || kind is Double || kind is DoubleNull,
        ensures
            gives_value(r, plain_leaf_cell(realm, kind, leaf_ref, index as int)),
    {
        reveal(plain_leaf_cell);
        match kind {
            LeafKind::Int => {
                let leaf = IntegerArray::from_ref(realm, leaf_ref)?;
                let v = leaf.get_signed(index)?;
                Ok(Value::Int(v))
            },
            LeafKind::IntNull => {
                let leaf = IntegerArray::from_ref(realm, leaf_ref)?;
                let v = leaf.get_nullable(index)?;
                Ok(value_of_int(v))
            },
            LeafKind::Bool => {
                let leaf = ScalarArray::from_ref(realm, leaf_ref)?;
                let v = leaf.get_bool(index)?;
                Ok(Value::Bool(v))
            },
            LeafKind::BoolNull => {
                let leaf = ScalarArray::from_ref(realm, leaf_ref)?;
                let v = leaf.get_nullable_bool(index)?;
                Ok(value_of_bool(v))
            },
            LeafKind::Float => {
                let leaf = ScalarArray::from_ref(realm, leaf_ref)?;
                let v = leaf.get_float(index)?;
                Ok(Value::Float(v))
            },
            LeafKind::FloatNull => {
                let leaf = ScalarArray::from_ref(realm, leaf_ref)?;
                let v = leaf.get_nullable_float(index)?;
                Ok(value_of_float(v))
            },
            LeafKind::Double => {
                let leaf = ScalarArray::from_ref(realm, leaf_ref)?;
                let v = leaf.get_double(index)?;
                Ok(Value::Double(v))
            },
            _ => {
                let leaf = ScalarArray::from_ref(realm, leaf_ref)?;
                let v = leaf.get_nullable_double(index)?;
                Ok(value_of_double(v))
            },
        }
    }

    /// Element `index` of the leaf of numbers or booleans at `leaf_ref`,
    /// decoded without the leaf.
    pub fn number_leaf_value_direct(
        realm: Realm<'a>,
        kind: LeafKind,
        leaf_ref: RealmRef,
        index: usize,
    ) -> (r: RealmResult<Value>)
        requires
            kind is Int || kind is IntNull || kind is Bool || kind is BoolNull || kind is Float
                || kind is FloatNull || kind is Double || kind is DoubleNull,
        ensures
            gives_value(r, plain_leaf_cell(realm, kind, leaf_ref, index as int)),
    {
        reveal(plain_leaf_cell);
        match kind {
            LeafKind::Int => {
                let v = IntegerArray::get_signed_direct(realm, leaf_ref, index)?;
                Ok(Value::Int(v))
            },
            LeafKind::IntNull => {
                let v = IntegerArray::get_nullable_direct(realm, leaf_ref, index)?;
                Ok(value_of_int(v))
            },
            LeafKind::Bool => {
                let v = ScalarArray::get_bool_direct(realm, leaf_ref, index)?;
                Ok(Value::Bool(v))
            },
            LeafKind::BoolNull => {
                let v = ScalarArray::get_nullable_bool_direct(realm, leaf_ref, index)?;
                Ok(value_of_bool(v))
            },
            LeafKind::Float => {
                let v = ScalarArray::get_float_direct(realm, leaf_ref, index)?;
                Ok(Value::Float(v))
            },
            LeafKind::FloatNull => {
                let v = ScalarArray::get_nullable_float_direct(realm, leaf_ref, index)?;
                Ok(value_of_float(v))
            },
            LeafKind::Double => {
                let v = ScalarArray::get_double_direct(realm, leaf_ref, index)?;
                Ok(Value::Double(v))
            },
            _ => {
                let v = ScalarArray::get_nullable_double_direct(realm, leaf_ref, index)?;
                Ok(value_of_double(v))
            },
        }
    }

    /// Element `index` of the leaf of strings at `leaf_ref`, read through
    /// the leaf.
    pub fn text_leaf_value(realm: Realm<'a>, kind: LeafKind, leaf_ref: RealmRef, index: usize) -> (r:
        RealmResult<Value>)
        requires
            kind is String || kind is StringNull,
        ensures
            gives_value(r, plain_leaf_cell(realm, kind, leaf_ref, index as int)),
    {
        reveal(plain_leaf_cell);
        let leaf = ArrayString::from_ref(realm, leaf_ref)?;
        match kind {
            LeafKind::String => {
                let v = leaf.get_or_default(index)?;
                Ok(Value::String(v))
            },
            _ => {
                let v = leaf.get(index)?;
                Ok(value_of_text(v))
            },
        }
    }

    /// Element `index` of the leaf of strings at `leaf_ref`, decoded without
    /// the leaf.
    pub fn text_leaf_value_direct(realm: Realm<'a>, kind: LeafKind, leaf_ref: RealmRef, index: usize) -> (r:
        RealmResult<Value>)
        requires
            kind is String || kind is StringNull,
        ensures
            gives_value(r, plain_leaf_cell(realm, kind, leaf_ref, index as int)),
    {
        reveal(plain_leaf_cell);
        match kind {
            LeafKind::String => {
                let v = ArrayString::get_or_default_direct(realm, leaf_ref, index)?;
                Ok(Value::String(v))
            },
            _ => {
                let v = ArrayString::get_direct(realm, leaf_ref, index)?;
                Ok(value_of_text(v))
            },
        }
    }

    /// Element `index` of the leaf of links, lists of links or backlinks at
    /// `leaf_ref`, read through the leaf.
    pub fn link_leaf_value(realm: Realm<'a>, kind: LeafKind, leaf_ref: RealmRef, index: usize) -> (r:
        RealmResult<Value>)
        requires
            kind is Link || kind is LinkList || kind is Backlink,
        ensures
            gives_value(r, plain_leaf_cell(realm, kind, leaf_ref, index as int)),
    {
        reveal(plain_leaf_cell);
        match kind {
            LeafKind::Link(context) => {
                let leaf = LinkLeaf::from_ref_with_context(realm, leaf_ref, context)?;
                match leaf.get(index)? {
                    Some(link) => Ok(Value::Link(link)),
                    None => Ok(Value::Null),
                }
            },
            LeafKind::LinkList(context) => {
                let leaf = LinkListLeaf::from_ref_with_context(realm, leaf_ref, context)?;
                let links = leaf.get(index)?;
                Ok(Value::LinkList(links))
            },
            LeafKind::Backlink(context) => {
                let leaf = BacklinkArray::from_ref_with_context(realm, leaf_ref, context)?;
                match leaf.get(index)? {
                    Some(backlink) => Ok(Value::BackLink(backlink)),
                    None => Ok(Value::Null),
                }
            },
            _ => Err(RealmFileError::invalid("not a leaf of links")),
        }
    }

    /// Element `index` of the leaf of links, lists of links or backlinks at
    /// `leaf_ref`, decoded without the leaf.
    pub fn link_leaf_value_direct(realm: Realm<'a>, kind: LeafKind, leaf_ref: RealmRef, index: usize) -> (r:
        RealmResult<Value>)
        requires
            kind is Link || kind is LinkList || kind is Backlink,
        ensures
            gives_value(r, plain_leaf_cell(realm, kind, leaf_ref, index as int)),
    {
        reveal(plain_leaf_cell);
        match kind {
            LeafKind::Link(context) => {
                match LinkLeaf::get_direct(realm, leaf_ref, index, context)? {
                    Some(link) => Ok(Value::Link(link)),
                    None => Ok(Value::Null),
                }
            },
            LeafKind::LinkList(context) => {
                let links = LinkListLeaf::get_direct(realm, leaf_ref, index, context)?;
                Ok(Value::LinkList(links))
            },
            LeafKind::Backlink(context) => {
                match BacklinkArray::get_direct(realm, leaf_ref, index, context)? {
                    Some(backlink) => Ok(Value::BackLink(backlink)),
                    None => Ok(Value::Null),
                }
            },
            _ => Err(RealmFileError::invalid("not a leaf of links")),
        }
    }

    /// Element `index` of the leaf at `leaf_ref`, of a kind other than that
    /// of subtables, read through the leaf.
    pub fn plain_leaf_value(realm: Realm<'a>, kind: LeafKind, leaf_ref: RealmRef, index: usize) -> (r:
        RealmResult<Value>)
        requires
            !(kind is Subtable),
        ensures
            gives_value(r, plain_leaf_cell(realm, kind, leaf_ref, index as int)),
    {
        match kind {
            LeafKind::String | LeafKind::StringNull => Self::text_leaf_value(
                realm,
                kind,
                leaf_ref,
                index,
            ),
            LeafKind::Link(_) | LeafKind::LinkList(_) | LeafKind::Backlink(_) => Self::link_leaf_value(
                realm,
                kind,
                leaf_ref,
                index,
            ),
            _ => Self::number_leaf_value(realm, kind, leaf_ref, index),
        }
    }

    /// Element `index` of the leaf at `leaf_ref`, of a kind other than that
    /// of subtables, decoded without the leaf.
    pub fn plain_leaf_value_direct(
        realm: Realm<'a>,
        kind: LeafKind,
        leaf_ref: RealmRef,
        index: usize,
    ) -> (r: RealmResult<Value>)
        requires
            !(kind is Subtable),
        ensures
            gives_value(r, plain_leaf_cell(realm, kind, leaf_ref, index as int)),
    {
        match kind {
            LeafKind::String | LeafKind::StringNull => Self::text_leaf_value_direct(
                realm,
                kind,
                leaf_ref,
                index,
            ),
            LeafKind::Link(_) | LeafKind::LinkList(_) | LeafKind::Backlink(_) => {
                Self::link_leaf_value_direct(realm, kind, leaf_ref, index)
            },
            _ => Self::number_leaf_value_direct(realm, kind, leaf_ref, index),
        }
    }

    /// The value of element `index` of the tree.
    ///
    /// Where the root is a leaf the element is read through the leaf. Else
    /// the walk finds the leaf and the place in it, and the element is
    /// decoded there without the leaf.
    pub fn get(&self, index: usize) -> (r: RealmResult<Value>)
        requires
            self.wf(),
        ensures
            gives_value(r, tree_cell(*self, index as int, self.depth as nat)),
        decreases self.depth, 2nat,
    {
        let realm = self.root.node.realm;
        if self.root_is_leaf() {
            return match self.kind {
                LeafKind::Subtable(context) => {
                    let leaf = SubtableArrayLeaf::from_ref_with_context(
                        realm,
                        self.root.node.ref_,
                        context,
                    )?;
                    let rows = leaf.get(index, self.depth)?;
                    Ok(value_of_rows(rows))
                },
                _ => Self::plain_leaf_value(realm, self.kind, self.root.node.ref_, index),
            };
        }
        let (leaf_ref, index_in_leaf) = self.root_as_node().get_bptree_leaf(index)?;
        match self.kind {
            LeafKind::Subtable(context) => {
                let rows = SubtableArrayLeaf::get_direct(
                    realm,
                    leaf_ref,
                    index_in_leaf,
                    context,
                    self.depth,
                )?;
                Ok(value_of_rows(rows))
            },
            _ => Self::plain_leaf_value_direct(realm, self.kind, leaf_ref, index_in_leaf),
        }
    }

    /// Whether element `index` of the tree is null. A tree of backlinks has
    /// no nulls, though a backlink may be absent.
    pub fn is_null(&self, index: usize) -> (r: RealmResult<bool>)
        requires
            self.wf(),
        ensures
            match tree_cell(*self, index as int, self.depth as nat) {
                Ok(v) => r matches Ok(b) && b == (v is Null && !(self.kind is Backlink)),
                Err(f) => r matches Err(e) && e.reports(f),
            },
    {
        let value = self.get(index)?;
        match self.kind {
            LeafKind::Backlink(_) => Ok(false),
            _ => Ok(value.is_none()),
        }
    }

    /// The number of elements of the tree.
    pub fn count(&self) -> (r: RealmResult<usize>)
        requires
            self.wf(),
        ensures
            match tree_count(*self) {
                Some(n) => r matches Ok(c) && c == n,
                None => r matches Err(e) && e is InvalidRealmFile,
            },
    {
        reveal(leaf_count);
        if self.root_is_leaf() {
            match self.kind {
                LeafKind::IntNull | LeafKind::BoolNull | LeafKind::FloatNull | LeafKind::DoubleNull => {
                    let size = self.root.size();
                    Ok(
                        if size == 0 {
                            0
                        } else {
                            size - 1
                        },
                    )
                },
                LeafKind::String | LeafKind::StringNull => {
                    let leaf = ArrayString::from_ref(self.root.node.realm, self.root.node.ref_)?;
                    Ok(leaf.size())
                },
                _ => Ok(self.root.size()),
            }
        } else {
            Ok(self.root_as_node().get_bptree_size())
        }
    }
}

impl<'a> Column<'a> {
    /// The parts of the column are nodes of one file.
    pub open spec fn wf(&self) -> bool {
        self@.wf()
    }

    /// A column of one tree of leaves of kind `kind`, with its data at
    /// `data_ref` and its index, where it has one, at `index_ref`.
    pub fn new(
        realm: Realm<'a>,
        data_ref: RealmRef,
        index_ref: Option<RealmRef>,
        attributes: ColumnAttributes,
        name: Option<String>,
        kind: LeafKind,
        depth: usize,
    ) -> (r: RealmResult<Column<'a>>)
        ensures
            match one_tree_column(
                realm,
                kind,
                data_ref,
                index_ref,
                attributes,
                match name {
                    Some(n) => Some(n@),
                    None => None,
                },
                depth,
            ) {
                Some(view) => r matches Ok(column) && column@ == view && column.wf(),
                None => r matches Err(e) && e is InvalidRealmFile,
            },
    {
        let tree = BpTree::from_ref_with_context(realm, data_ref, kind, depth)?;
        let index = match index_ref {
            Some(ref_) => {
                let i = Index::from_ref(realm, ref_)?;
                Some(i)
            },
            None => None,
        };
        Ok(Column { tree, nanoseconds: None, index, attributes, name })
    }

    /// A column of timestamps, with the pair of its trees at `data_ref` and
    /// its index, where it has one, at `index_ref`.
    pub fn new_timestamp(
        realm: Realm<'a>,
        data_ref: RealmRef,
        index_ref: Option<RealmRef>,
        attributes: ColumnAttributes,
        name: String,
        depth: usize,
    ) -> (r: RealmResult<Column<'a>>)
        ensures
            match timestamp_column(realm, data_ref, index_ref, attributes, Some(name@), depth) {
                Some(view) => r matches Ok(column) && column@ == view && column.wf(),
                None => r matches Err(e) && e is InvalidRealmFile,
            },
    {
        let pair = Array::from_ref(realm, data_ref)?;
        if pair.size() < 2 {
            return Err(RealmFileError::invalid("a column of timestamps has two trees"));
        }
        let seconds_ref = match pair.get_ref(0)? {
            Some(r) => r,
            None => {
                return Err(RealmFileError::invalid("a column of timestamps needs its seconds"));
            },
        };
        let nanoseconds_ref = match pair.get_ref(1)? {
            Some(r) => r,
            None => {
                return Err(RealmFileError::invalid("a column of timestamps needs its nanoseconds"));
            },
        };
        let tree = BpTree::from_ref_with_context(realm, seconds_ref, LeafKind::IntNull, depth)?;
        let nanoseconds = BpTree::from_ref_with_context(
            realm,
            nanoseconds_ref,
            LeafKind::Int,
            depth,
        )?;
        let index = match index_ref {
            Some(ref_) => {
                let i = Index::from_ref(realm, ref_)?;
                Some(i)
            },
            None => None,
        };
        Ok(Column { tree, nanoseconds: Some(nanoseconds), index, attributes, name: Some(name) })
    }

    /// Get the value for this column for the row with the given index.
    pub fn get(&self, index: usize) -> (r: RealmResult<Value>)
        requires
            self.wf(),
            column_count(self@) matches Some(rows) && index < rows,
        ensures
            gives_value(r, column_cell(self@, index as int, self.tree.depth as nat)),
        decreases self.tree.depth, 3nat,
    {
        match self.nanoseconds {
            None => self.tree.get(index),
            Some(nanoseconds) => {
                let seconds = match self.tree.get(index)? {
                    Value::Int(seconds) => seconds,
                    _ => {
                        return Ok(Value::Null);
                    },
                };
                match nanoseconds.get(index)? {
                    Value::Int(n) => Ok(make_timestamp(seconds, n)),
                    _ => Err(RealmFileError::invalid("nanoseconds are integers")),
                }
            },
        }
    }

    /// Check whether the value at the given index is null. A column of
    /// backlinks or of lists of links has no nulls.
    pub fn is_null(&self, index: usize) -> (r: RealmResult<bool>)
        requires
            self.wf(),
            column_count(self@) matches Some(rows) && index < rows,
        ensures
            match column_cell(self@, index as int, self.tree.depth as nat) {
                Ok(v) => r matches Ok(b) && b == (v is Null && !(self.tree.kind is Backlink)),
                Err(f) => r matches Err(e) && e.reports(f),
            },
    {
        let value = self.get(index)?;
        match self.tree.kind {
            LeafKind::Backlink(_) => Ok(false),
            _ => Ok(value.is_none()),
        }
    }

    /// Get the total number of values in this column.
    pub fn count(&self) -> (r: RealmResult<usize>)
        requires
            self.wf(),
        ensures
            match column_count(self@) {
                Some(n) => r matches Ok(c) && c == n,
                None => r matches Err(e) && e is InvalidRealmFile,
            },
    {
        self.tree.count()
    }

    /// Get whether this column is nullable.
    pub fn nullable(&self) -> (r: bool)
        ensures
            r == self.attributes.spec_is_nullable(),
    {
        self.attributes.is_nullable()
    }

    /// Is this column indexed? If so, rows can be found by a known value of
    /// this column.
    pub fn is_indexed(&self) -> (r: bool)
        ensures
            r == self.attributes.spec_is_indexed(),
    {
        self.attributes.is_indexed()
    }

    /// Look up a value for this column in the index: the first row that the
    /// index files under the value, or `None` where it files none.
    pub fn get_row_number_by_index(&self, lookup_value: &Value) -> (r: RealmResult<Option<usize>>)
        requires
            self.wf(),
            self.index is Some,
            can_probe(lookup_value@),
        ensures
            decodes(r, self.index.unwrap().first_row(probe_bytes(lookup_value@))),
    {
        match &self.index {
            Some(index) => index.find_first(lookup_value),
            None => Err(RealmFileError::invalid("the column has no index")),
        }
    }

    /// Get the name of this column. All columns except backlinks are named.
    pub fn name(&self) -> (r: Option<&str>)
        ensures
            match self@.name {
                Some(n) => r matches Some(s) && s@ == n,
                None => r is None,
            },
    {
        match &self.name {
            Some(n) => Some(n.as_str()),
            None => None,
        }
    }
}

/// A column of integers.
pub fn create_int_column<'a>(
    realm: Realm<'a>,
    data_ref: RealmRef,
    index_ref: Option<RealmRef>,
    attributes: ColumnAttributes,
    name: String,
    depth: usize,
) -> (r: RealmResult<Column<'a>>)
    ensures
        match one_tree_column(realm, LeafKind::Int, data_ref, index_ref, attributes, Some(name@), depth) {
            Some(view) => r matches Ok(column) && column@ == view && column.wf(),
            None => r matches Err(e) && e is InvalidRealmFile,
        },
{
    Column::new(realm, data_ref, index_ref, attributes, Some(name), LeafKind::Int, depth)
}

/// A column of integers that can be null.
pub fn create_int_null_column<'a>(
    realm: Realm<'a>,
    data_ref: RealmRef,
    index_ref: Option<RealmRef>,
    attributes: ColumnAttributes,
    name: String,
    depth: usize,
) -> (r: RealmResult<Column<'a>>)
    ensures
        match one_tree_column(realm, LeafKind::IntNull, data_ref, index_ref, attributes, Some(name@), depth) {
            Some(view) => r matches Ok(column) && column@ == view && column.wf(),
            None => r matches Err(e) && e is InvalidRealmFile,
        },
{
    Column::new(realm, data_ref, index_ref, attributes, Some(name), LeafKind::IntNull, depth)
}

/// A column of booleans.
pub fn create_bool_column<'a>(
    realm: Realm<'a>,
    data_ref: RealmRef,
    index_ref: Option<RealmRef>,
    attributes: ColumnAttributes,
    name: String,
    depth: usize,
) -> (r: RealmResult<Column<'a>>)
    ensures
        match one_tree_column(realm, LeafKind::Bool, data_ref, index_ref, attributes, Some(name@), depth) {
            Some(view) => r matches Ok(column) && column@ == view && column.wf(),
            None => r matches Err(e) && e is InvalidRealmFile,
        },
{
    Column::new(realm, data_ref, index_ref, attributes, Some(name), LeafKind::Bool, depth)
}

/// A column of booleans that can be null.
pub fn create_bool_null_column<'a>(
    realm: Realm<'a>,
    data_ref: RealmRef,
    index_ref: Option<RealmRef>,
    attributes: ColumnAttributes,
    name: String,
    depth: usize,
) -> (r: RealmResult<Column<'a>>)
    ensures
        match one_tree_column(realm, LeafKind::BoolNull, data_ref, index_ref, attributes, Some(name@), depth) {
            Some(view) => r matches Ok(column) && column@ == view && column.wf(),
            None => r matches Err(e) && e is InvalidRealmFile,
        },
{
    Column::new(realm, data_ref, index_ref, attributes, Some(name), LeafKind::BoolNull, depth)
}

/// A column of single-precision numbers, which can be null where the
/// attributes say so. Such a column has no index.
pub fn create_float_column<'a>(
    realm: Realm<'a>,
    data_ref: RealmRef,
    attributes: ColumnAttributes,
    name: String,
    depth: usize,
) -> (r: RealmResult<Column<'a>>)
    ensures
        match one_tree_column(
            realm,
            plain_kind(
                ColumnType::Float,
                attributes.spec_is_nullable(),
            ),
            data_ref,
            None,
            attributes,
            Some(name@),
            depth,
        ) {
            Some(view) => r matches Ok(column) && column@ == view && column.wf(),
            None => r matches Err(e) && e is InvalidRealmFile,
        },
{
    let kind = if attributes.is_nullable() {
        LeafKind::FloatNull
    } else {
        LeafKind::Float
    };
    Column::new(realm, data_ref, None, attributes, Some(name), kind, depth)
}

/// A column of double-precision numbers, which can be null where the
/// attributes say so. Such a column has no index.
pub fn create_double_column<'a>(
    realm: Realm<'a>,
    data_ref: RealmRef,
    attributes: ColumnAttributes,
    name: String,
    depth: usize,
) -> (r: RealmResult<Column<'a>>)
    ensures
        match one_tree_column(
            realm,
            plain_kind(
                ColumnType::Double,
                attributes.spec_is_nullable(),
            ),
            data_ref,
            None,
            attributes,
            Some(name@),
            depth,
        ) {
            Some(view) => r matches Ok(column) && column@ == view && column.wf(),
            None => r matches Err(e) && e is InvalidRealmFile,
        },
{
    let kind = if attributes.is_nullable() {
        LeafKind::DoubleNull
    } else {
        LeafKind::Double
    };
    Column::new(realm, data_ref, None, attributes, Some(name), kind, depth)
}

/// A column of strings, which can be null where the attributes say so.
pub fn create_string_column<'a>(
    realm: Realm<'a>,
    data_ref: RealmRef,
    index_ref: Option<RealmRef>,
    attributes: ColumnAttributes,
    name: String,
    depth: usize,
) -> (r: RealmResult<Column<'a>>)
    ensures
        match one_tree_column(
            realm,
            plain_kind(
                ColumnType::String,
                attributes.spec_is_nullable(),
            ),
            data_ref,
            index_ref,
            attributes,
            Some(name@),
            depth,
        ) {
            Some(view) => r matches Ok(column) && column@ == view && column.wf(),
            None => r matches Err(e) && e is InvalidRealmFile,
        },
{
    let kind = if attributes.is_nullable() {
        LeafKind::StringNull
    } else {
        LeafKind::String
    };
    Column::new(realm, data_ref, index_ref, attributes, Some(name), kind, depth)
}

/// A column of timestamps.
pub fn create_timestamp_column<'a>(
    realm: Realm<'a>,
    data_ref: RealmRef,
    index_ref: Option<RealmRef>,
    attributes: ColumnAttributes,
    name: String,
    depth: usize,
) -> (r: RealmResult<Column<'a>>)
    ensures
        match timestamp_column(realm, data_ref, index_ref, attributes, Some(name@), depth) {
            Some(view) => r matches Ok(column) && column@ == view && column.wf(),
            None => r matches Err(e) && e is InvalidRealmFile,
        },
{
    Column::new_timestamp(realm, data_ref, index_ref, attributes, name, depth)
}

/// A column of links into the table `target_table_index`. Such a column has
/// no index.
pub fn create_link_column<'a>(
    realm: Realm<'a>,
    data_ref: RealmRef,
    attributes: ColumnAttributes,
    target_table_index: usize,
    name: String,
    depth: usize,
) -> (r: RealmResult<Column<'a>>)
    ensures
        match one_tree_column(
            realm,
            LeafKind::Link(LinkColumnContext { target_table_index }),
            data_ref,
            None,
            attributes,
            Some(name@),
            depth,
        ) {
            Some(view) => r matches Ok(column) && column@ == view && column.wf(),
            None => r matches Err(e) && e is InvalidRealmFile,
        },
{
    Column::new(
        realm,
        data_ref,
        None,
        attributes,
        Some(name),
        LeafKind::Link(LinkColumnContext { target_table_index }),
        depth,
    )
}

/// A column of lists of links into the table `target_table_index`. Such a
/// column has no index.
pub fn create_linklist_column<'a>(
    realm: Realm<'a>,
    data_ref: RealmRef,
    attributes: ColumnAttributes,
    target_table_index: usize,
    name: String,
    depth: usize,
) -> (r: RealmResult<Column<'a>>)
    ensures
        match one_tree_column(
            realm,
            LeafKind::LinkList(LinkListColumnContext { target_table_index }),
            data_ref,
            None,
            attributes,
            Some(name@),
            depth,
        ) {
            Some(view) => r matches Ok(column) && column@ == view && column.wf(),
            None => r matches Err(e) && e is InvalidRealmFile,
        },
{
    Column::new(
        realm,
        data_ref,
        None,
        attributes,
        Some(name),
        LeafKind::LinkList(LinkListColumnContext { target_table_index }),
        depth,
    )
}

/// A column of backlinks from column `target_table_column_number` of table
/// `target_table_number`. Such a column has no name and no index.
pub fn create_backlink_column<'a>(
    realm: Realm<'a>,
    data_ref: RealmRef,
    attributes: ColumnAttributes,
    target_table_number: usize,
    target_table_column_number: usize,
    depth: usize,
) -> (r: RealmResult<Column<'a>>)
    ensures
        match one_tree_column(
            realm,
            LeafKind::Backlink(BacklinkContext { target_table_number, target_table_column_number }),
            data_ref,
            None,
            attributes,
            None,
            depth,
        ) {
            Some(view) => r matches Ok(column) && column@ == view && column.wf(),
            None => r matches Err(e) && e is InvalidRealmFile,
        },
{
    Column::new(
        realm,
        data_ref,
        None,
        attributes,
        None,
        LeafKind::Backlink(BacklinkContext { target_table_number, target_table_column_number }),
        depth,
    )
}

/// A column of subtables whose header stands at `header_ref`. Such a column
/// has no index.
pub fn create_subtable_column<'a>(
    realm: Realm<'a>,
    header_ref: RealmRef,
    data_ref: RealmRef,
    attributes: ColumnAttributes,
    name: String,
    depth: usize,
) -> (r: RealmResult<Column<'a>>)
    ensures
        match one_tree_column(
            realm,
            LeafKind::Subtable(SubtableContext { header_ref }),
            data_ref,
            None,
            attributes,
            Some(name@),
            depth,
        ) {
            Some(view) => r matches Ok(column) && column@ == view && column.wf(),
            None => r matches Err(e) && e is InvalidRealmFile,
        },
{
    Column::new(
        realm,
        data_ref,
        None,
        attributes,
        Some(name),
        LeafKind::Subtable(SubtableContext { header_ref }),
        depth,
    )
}

} // verus!
