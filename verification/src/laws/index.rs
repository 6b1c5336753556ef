//! What holds of looking up a value in the index of a column.
use vstd::prelude::*;
use vstd::utf8::encode_utf8_decode_utf8;

use crate::array::{ref_or_tag_in_slot, Array, RealmRef, RefOrTaggedValue};
use crate::cells::{column_cell, column_count, plain_leaf_cell};
use crate::column::bptree::{leaf_under, max_depth};
use crate::column::{ColumnView, LeafKind};
use crate::error::{Fault, TableError, TableResult};
use crate::index::{as_unsigned, can_probe, key_at, le_bytes, probe_bytes, Index};
use crate::realm::Realm;
use crate::table::Table;
use crate::utils::{lemma_lower_bound_sorted, slot_value, sorted_slots};
use crate::value::{Link, Value, ValueView};

verus! {

/// In an index node whose keys rise and that leads to no other node, a
/// value is found at the slot of its key, and is not found where no key of
/// the node is its key.
pub proof fn lemma_index_node_lookup(index: Index, value: Seq<u8>, fuel: nat)
    requires
        index.wf(),
        !index.array.node.header.spec_is_inner_bptree(),
        index.offsets.spec_size() < index.array.spec_size(),
        sorted_slots(index.offsets.node.spec_payload(), 32, index.offsets.spec_size()),
    ensures
        ({
            let key = key_at(value, 0);
            let pos = index.position(key);
            &&& 0 <= pos <= index.offsets.spec_size()
            &&& forall|i: int| 0 <= i < pos ==> index.key(i) < key
            &&& forall|i: int| pos <= i < index.offsets.spec_size() ==> index.key(i) >= key
            &&& (forall|i: int| 0 <= i < index.offsets.spec_size() ==> index.key(i) != key)
                ==> index.find_from(value, 0, fuel) == Some(None::<usize>)
            &&& (pos < index.offsets.spec_size() && index.key(pos) == key && pos + 1
                < index.array.spec_size() && index.array.slot(pos + 1) % 2 == 1
                && index.array.slot(pos + 1) / 2 <= usize::MAX) ==> index.find_from(value, 0, fuel)
                == Some(Some((index.array.slot(pos + 1) / 2) as usize))
        }),
{
    let key = key_at(value, 0);
    let pos = index.position(key);
    index.lemma_wf();
    lemma_lower_bound_sorted(
        index.offsets.node.spec_payload(),
        32,
        index.offsets.spec_size(),
        0,
        index.offsets.spec_size(),
        key as u64,
    );
    assert forall|i: int| 0 <= i < pos implies index.key(i) < key by {
        assert(slot_value(index.offsets.node.spec_payload(), 32, i) < key as u64);
    }
    assert forall|i: int| pos <= i < index.offsets.spec_size() implies index.key(i) >= key by {
        assert(slot_value(index.offsets.node.spec_payload(), 32, i) >= key as u64);
    }
    if pos < index.offsets.spec_size() {
        assert(index.key(pos) >= key);
    }
}

/// Whether an index files the value `v`: it is an integer, a boolean, a
/// timestamp or a string that is not empty.
pub open spec fn filed(v: ValueView) -> bool {
    can_probe(v) && !(v matches ValueView::String(s) && s.len() == 0)
}

/// Whether the index of the column `column` agrees with its rows: each value
/// that an index files is filed under a row that holds it, and under no row
/// behind the first that holds it.
pub open spec fn index_agrees(column: ColumnView, depth: nat) -> bool {
    &&& column.index is Some
    &&& column_count(column) is Some
    &&& forall|r: int|
        0 <= r < column_count(column).unwrap() ==> index_agrees_at(column, r, depth)
}

/// Whether the index of the column `column` agrees with its row `r`.
pub open spec fn index_agrees_at(column: ColumnView, r: int, depth: nat) -> bool {
    match column_cell(column, r, depth) {
        Ok(v) => filed(v) ==> (column.index.unwrap().first_row(probe_bytes(v))
            matches Some(Some(found)) && found <= r && column_cell(
            column,
            found as int,
            depth,
        ) == Ok::<ValueView, Fault>(v)),
        Err(_) => true,
    }
}

/// In a table whose index agrees with its rows, looking up the value of a
/// row of an indexed column finds a row that holds the value, and none
/// behind the row.
pub proof fn lemma_index_lookup_is_sound(
    table: Table,
    name: &str,
    value: Value,
    r: int,
    found: TableResult<Option<usize>>,
)
    requires
        table.wf(),
        table.named_column(name@) matches Some(column) && column.attributes.spec_is_indexed()
            && index_agrees(column, table.depth as nat) && 0 <= r
            < column_count(column).unwrap() && column_cell(
            column,
            r,
            table.depth as nat,
        ) == Ok::<ValueView, Fault>(value@),
        filed(value@),
        call_ensures(Table::find_row_number_from_indexed_column, (&table, name, &value), found),
    ensures
        found matches Ok(Some(row)) && row <= r && column_cell(
            table.named_column(name@).unwrap(),
            row as int,
            table.depth as nat,
        ) == Ok::<ValueView, Fault>(value@),
{
    let column = table.named_column(name@).unwrap();
    assert(index_agrees_at(column, r, table.depth as nat));
}

/// In a table whose index agrees with its rows and whose indexed column
/// holds no value twice, looking up the value of a row finds that row.
pub proof fn lemma_index_lookup_is_complete(
    table: Table,
    name: &str,
    value: Value,
    r: int,
    found: TableResult<Option<usize>>,
)
    requires
        table.wf(),
        table.named_column(name@) matches Some(column) && column.attributes.spec_is_indexed()
            && index_agrees(column, table.depth as nat) && 0 <= r
            < column_count(column).unwrap() && column_cell(
            column,
            r,
            table.depth as nat,
        ) == Ok::<ValueView, Fault>(value@) && (forall|a: int, b: int|
            0 <= a < b < column_count(column).unwrap() ==> column_cell(
                column,
                a,
                table.depth as nat,
            ) != column_cell(column, b, table.depth as nat)),
        filed(value@),
        call_ensures(Table::find_row_number_from_indexed_column, (&table, name, &value), found),
    ensures
        found == Ok::<Option<usize>, TableError>(Some(r as usize)),
{
    lemma_index_lookup_is_sound(table, name, value, r, found);
}

/// The pairs of `filed` whose bytes have the key `key` at `offset`.
pub open spec fn under_key(filed: Set<(Seq<u8>, int)>, offset: int, key: int) -> Set<
    (Seq<u8>, int),
> {
    Set::new(|p: (Seq<u8>, int)| filed.contains(p) && key_at(p.0, offset) == key)
}

/// Whether slot `i` of the index node `index` files the pairs `under`, which
/// all have key `i` of the node at `offset`.
///
/// A tagged slot files one row. A reference to a node with the context flag
/// clear files the rows of one value, of which the first comes first. A
/// reference to a node with the context flag set files the pairs by their
/// next four bytes.
pub open spec fn slot_files(index: Index, i: int, under: Set<(Seq<u8>, int)>, offset: int, fuel: nat) -> bool
    decreases fuel, 0nat,
{
    let realm = index.array.node.realm;
    match ref_or_tag_in_slot(realm@.len() as int, index.array.slot(i + 1)) {
        Some(Some(RefOrTaggedValue::TaggedValue(row))) => row <= usize::MAX && forall|
            p: (Seq<u8>, int),
        | #[trigger] under.contains(p) ==> p.1 == row,
        Some(Some(RefOrTaggedValue::Ref(target_ref))) => match Array::at(realm, target_ref) {
            Some(target) => if !target.node.header.spec_context_flag() {
                &&& target.spec_size() > 0
                &&& target.slot(0) <= usize::MAX
                &&& forall|p: (Seq<u8>, int)| #[trigger]
                    under.contains(p) ==> target.slot(0) <= p.1 && under.contains(
                        (p.0, target.slot(0) as int),
                    )
            } else {
                match Index::at(realm, target_ref) {
                    Some(sub) => fuel > 0 && trie_files(sub, under, offset + 4, (fuel - 1) as nat),
                    None => false,
                }
            },
            None => false,
        },
        _ => false,
    }
}

/// Whether the trie under the index node `index` files the pairs `filed` of
/// bytes and rows, from byte `offset` of the bytes on.
///
/// The keys of the node rise strictly, each has its slot, the key of every
/// pair is among them, and each slot files the pairs of its key.
pub open spec fn trie_files(index: Index, filed: Set<(Seq<u8>, int)>, offset: int, fuel: nat) -> bool
    decreases fuel, 1nat,
{
    &&& index.wf()
    &&& !index.array.node.header.spec_is_inner_bptree()
    &&& index.offsets.spec_size() < index.array.spec_size()
    &&& forall|i: int, j: int|
        0 <= i < j < index.offsets.spec_size() ==> index.key(i) < index.key(j)
    &&& forall|p: (Seq<u8>, int)| #[trigger]
        filed.contains(p) ==> exists|i: int|
            0 <= i < index.offsets.spec_size() && #[trigger] index.key(i) == key_at(p.0, offset)
    &&& forall|i: int|
        0 <= i < index.offsets.spec_size() ==> slot_files(
            index,
            i,
            under_key(filed, offset, #[trigger] index.key(i)),
            offset,
            fuel,
        )
}

/// In a trie that files the pairs `filed`, looking up the bytes of a pair
/// finds a row that is filed under the same bytes, and none behind the row
/// of the pair.
pub proof fn lemma_trie_lookup(
    index: Index,
    filed: Set<(Seq<u8>, int)>,
    offset: int,
    fuel: nat,
    value: Seq<u8>,
    row: int,
)
    requires
        trie_files(index, filed, offset, fuel),
        filed.contains((value, row)),
    ensures
        index.find_from(value, offset, fuel) matches Some(Some(found)) && found <= row
            && filed.contains((value, found as int)),
    decreases fuel,
{
    let key = key_at(value, offset);
    let size = index.offsets.spec_size();
    let payload = index.offsets.node.spec_payload();
    let i = choose|i: int| 0 <= i < size && #[trigger] index.key(i) == key;
    index.lemma_wf();
    assert(sorted_slots(payload, 32, size)) by {
        assert forall|a: int, b: int| 0 <= a <= b < size implies slot_value(payload, 32, a)
            <= slot_value(payload, 32, b) by {
            if a < b {
                assert(index.key(a) < index.key(b));
            }
        }
    }
    lemma_lower_bound_sorted(payload, 32, size, 0, size, key as u64);
    let pos = index.position(key);
    if pos < i {
        assert(index.key(pos) < index.key(i));
        assert(slot_value(payload, 32, pos) >= key as u64);
    }
    if pos > i {
        assert(slot_value(payload, 32, i) < key as u64);
    }
    assert(pos == i);
    assert(0 <= i < index.offsets.spec_size());
    assert(slot_files(index, i, under_key(filed, offset, index.key(i)), offset, fuel));
    let under = under_key(filed, offset, index.key(i));
    assert(under.contains((value, row)));
    let realm = index.array.node.realm;
    match ref_or_tag_in_slot(realm@.len() as int, index.array.slot(i + 1)) {
        Some(Some(RefOrTaggedValue::Ref(target_ref))) => {
            let target = Array::at(realm, target_ref).unwrap();
            if target.node.header.spec_context_flag() {
                let sub = Index::at(realm, target_ref).unwrap();
                lemma_trie_lookup(sub, under, offset + 4, (fuel - 1) as nat, value, row);
            } else {
                assert(under.contains((value, target.slot(0) as int)));
            }
        },
        _ => {},
    }
}

/// In a trie that files the pairs `filed`, and files no bytes under two
/// rows, looking up the bytes of a pair finds the row of the pair.
pub proof fn lemma_trie_lookup_without_duplicates(
    index: Index,
    filed: Set<(Seq<u8>, int)>,
    fuel: nat,
    value: Seq<u8>,
    row: int,
)
    requires
        trie_files(index, filed, 0, fuel),
        filed.contains((value, row)),
        forall|a: int, b: int|
            filed.contains((value, a)) && filed.contains((value, b)) ==> a == b,
    ensures
        index.find_from(value, 0, fuel) == Some(Some(row as usize)),
        0 <= row <= usize::MAX,
{
    lemma_trie_lookup(index, filed, 0, fuel, value, row);
}

/// 256 to the power `k`.
pub open spec fn bytes_bound(k: nat) -> nat
    decreases k,
{
    if k == 0 {
        1
    } else {
        256 * bytes_bound((k - 1) as nat)
    }
}

/// The first `k` bytes of a number have length `k`.
pub proof fn lemma_le_bytes_len(v: nat, k: nat)
    ensures
        le_bytes(v, k).len() == k,
    decreases k,
{
    if k > 0 {
        lemma_le_bytes_len(v / 256, (k - 1) as nat);
    }
}

/// Two numbers below 256 to the power `k` that have the same first `k`
/// bytes are the same number.
pub proof fn lemma_le_bytes_injective(a: nat, b: nat, k: nat)
    requires
        a < bytes_bound(k),
        b < bytes_bound(k),
        le_bytes(a, k) == le_bytes(b, k),
    ensures
        a == b,
    decreases k,
{
    if k > 0 {
        let x = le_bytes(a, k);
        let y = le_bytes(b, k);
        let ra = le_bytes(a / 256, (k - 1) as nat);
        let rb = le_bytes(b / 256, (k - 1) as nat);
        lemma_le_bytes_len(a / 256, (k - 1) as nat);
        lemma_le_bytes_len(b / 256, (k - 1) as nat);
        assert(x[0] == (a % 256) as u8);
        assert(y[0] == (b % 256) as u8);
        assert(a % 256 == b % 256);
        assert(ra =~= x.subrange(1, x.len() as int));
        assert(rb =~= y.subrange(1, y.len() as int));
        lemma_le_bytes_injective(a / 256, b / 256, (k - 1) as nat);
    }
}

/// Two values of one kind that an index files under the same bytes are the
/// same value.
pub proof fn lemma_probe_bytes_injective(a: ValueView, b: ValueView)
    requires
        same_kind(a, b),
        probe_bytes(a) == probe_bytes(b),
    ensures
        a == b,
{
    assert(bytes_bound(8) == 0x1_0000_0000_0000_0000 && bytes_bound(4) == 0x1_0000_0000) by {
        reveal_with_fuel(bytes_bound, 9);
    }
    match (a, b) {
        (ValueView::Int(x), ValueView::Int(y)) => {
            lemma_le_bytes_injective(
                as_unsigned(x) as nat,
                as_unsigned(y) as nat,
                8,
            );
            assert(x == y);
        },
        (ValueView::Bool(x), ValueView::Bool(y)) => {
            assert(seq![1u8][0] == 1u8 && seq![0u8][0] == 0u8);
            assert(probe_bytes(a)[0] == (if x {
                1u8
            } else {
                0u8
            }));
            assert(probe_bytes(b)[0] == (if y {
                1u8
            } else {
                0u8
            }));
            assert(x == y);
        },
        (ValueView::String(x), ValueView::String(y)) => {
            encode_utf8_decode_utf8(x);
            encode_utf8_decode_utf8(y);
            assert(x == y);
        },
        (ValueView::Timestamp(x), ValueView::Timestamp(y)) => {
            let xs = le_bytes(as_unsigned(x.seconds) as nat, 8);
            let ys = le_bytes(as_unsigned(y.seconds) as nat, 8);
            let xn = le_bytes(x.nanoseconds as nat, 4);
            let yn = le_bytes(y.nanoseconds as nat, 4);
            lemma_le_bytes_len(as_unsigned(x.seconds) as nat, 8);
            lemma_le_bytes_len(as_unsigned(y.seconds) as nat, 8);
            lemma_le_bytes_len(x.nanoseconds as nat, 4);
            lemma_le_bytes_len(y.nanoseconds as nat, 4);
            assert(xs =~= (xs + xn).subrange(0, 8));
            assert(ys =~= (ys + yn).subrange(0, 8));
            assert(xn =~= (xs + xn).subrange(8, 12));
            assert(yn =~= (ys + yn).subrange(8, 12));
            lemma_le_bytes_injective(
                as_unsigned(x.seconds) as nat,
                as_unsigned(y.seconds) as nat,
                8,
            );
            lemma_le_bytes_injective(x.nanoseconds as nat, y.nanoseconds as nat, 4);
            assert(x.seconds == y.seconds);
            assert(x.nanoseconds == y.nanoseconds);
            assert(x == y);
        },
        _ => {},
    }
}

/// The pairs that the index of the column `column` has to file: for each
/// row whose value an index files, the bytes of the value and the row.
pub open spec fn rows_to_file(column: ColumnView, depth: nat) -> Set<(Seq<u8>, int)> {
    Set::new(
        |p: (Seq<u8>, int)|
            0 <= p.1 < column_count(column).unwrap() && (column_cell(
                column,
                p.1,
                depth,
            ) matches Ok(v) && filed(v) && p.0 == probe_bytes(v)),
    )
}

/// Whether `a` and `b` are both integers, both booleans, both strings or both
/// timestamps.
pub open spec fn same_kind(a: ValueView, b: ValueView) -> bool {
    (a is Int && b is Int) || (a is Bool && b is Bool) || (a is String && b is String) || (
    a is Timestamp && b is Timestamp)
}

/// Whether the values of the column `column` that an index files are of one
/// kind.
pub open spec fn values_of_one_kind(column: ColumnView, depth: nat) -> bool {
    forall|a: int, b: int|
        0 <= a < column_count(column).unwrap() && 0 <= b
            < column_count(column).unwrap() && (#[trigger] column_cell(
            column,
            a,
            depth,
        )) is Ok && (#[trigger] column_cell(column, b, depth)) is Ok && filed(
            column_cell(column, a, depth).unwrap(),
        ) && filed(column_cell(column, b, depth).unwrap()) ==> same_kind(
            column_cell(column, a, depth).unwrap(),
            column_cell(column, b, depth).unwrap(),
        )
}

/// In a column whose index files the rows of the column, looking up the
/// value of a row finds a row that holds the value, and none behind the
/// row.
pub proof fn lemma_filed_rows_are_found(column: ColumnView, depth: nat, r: int, v: ValueView)
    requires
        column.index is Some,
        column_count(column) is Some,
        trie_files(
            column.index.unwrap(),
            rows_to_file(column, depth),
            0,
            max_depth(column.index.unwrap().array.node.realm),
        ),
        0 <= r < column_count(column).unwrap(),
        column_cell(column, r, depth) == Ok::<ValueView, Fault>(v),
        filed(v),
    ensures
        index_agrees_at(column, r, depth),
{
    lemma_filed_values_are_of_one_kind(column, depth);
    let index = column.index.unwrap();
    let pairs = rows_to_file(column, depth);
    let bytes = probe_bytes(v);
    assert(pairs.contains((bytes, r)));
    lemma_trie_lookup(
        index,
        pairs,
        0,
        max_depth(index.array.node.realm),
        bytes,
        r,
    );
    let found = index.first_row(bytes).unwrap().unwrap();
    assert(pairs.contains((bytes, found as int)));
    let there = column_cell(column, found as int, depth).unwrap();
    lemma_probe_bytes_injective(there, v);
}

/// The values of a leaf of a kind other than that of subtables are of the
/// kind of the leaf, or null.
pub proof fn lemma_plain_cells_are_of_the_leaf_kind(
    realm: Realm,
    kind: LeafKind,
    leaf_ref: RealmRef,
    index: int,
)
    requires
        plain_leaf_cell(realm, kind, leaf_ref, index) is Ok,
    ensures
        ({
            let v = plain_leaf_cell(realm, kind, leaf_ref, index).unwrap();
            match kind {
                LeafKind::Int => v is Int,
                LeafKind::IntNull => v is Int || v is Null,
                LeafKind::Bool => v is Bool,
                LeafKind::BoolNull => v is Bool || v is Null,
                LeafKind::Float => v is Float,
                LeafKind::FloatNull => v is Float || v is Null,
                LeafKind::Double => v is Double,
                LeafKind::DoubleNull => v is Double || v is Null,
                LeafKind::String => v is String,
                LeafKind::StringNull => v is String || v is Null,
                LeafKind::Link(_) => v is Link || v is Null,
                LeafKind::LinkList(_) => v is LinkList,
                LeafKind::Backlink(_) => v is BackLink || v is Null,
                LeafKind::Subtable(_) => false,
            }
        }),
{
    reveal(plain_leaf_cell);
}

/// The values of a column that an index files are of one kind.
pub proof fn lemma_filed_values_are_of_one_kind(column: ColumnView, depth: nat)
    requires
        column_count(column) is Some,
    ensures
        values_of_one_kind(column, depth),
{
    assert forall|a: int, b: int|
        0 <= a < column_count(column).unwrap() && 0 <= b
            < column_count(column).unwrap() && (#[trigger] column_cell(
            column,
            a,
            depth,
        )) is Ok && (#[trigger] column_cell(column, b, depth)) is Ok && filed(
            column_cell(column, a, depth).unwrap(),
        ) && filed(column_cell(column, b, depth).unwrap()) implies same_kind(
        column_cell(column, a, depth).unwrap(),
        column_cell(column, b, depth).unwrap(),
    ) by {
        lemma_filed_value_kind(column, depth, a);
        lemma_filed_value_kind(column, depth, b);
    }
}

/// A value of a column that an index files is a timestamp in a column of
/// timestamps, and else an integer, a boolean or a string, as the leaves of
/// the column say.
pub proof fn lemma_filed_value_kind(column: ColumnView, depth: nat, r: int)
    requires
        column_cell(column, r, depth) is Ok,
        filed(column_cell(column, r, depth).unwrap()),
    ensures
        ({
            let v = column_cell(column, r, depth).unwrap();
            if column.nanoseconds is Some {
                v is Timestamp
            } else {
                match column.tree.kind {
                    LeafKind::Int | LeafKind::IntNull => v is Int,
                    LeafKind::Bool | LeafKind::BoolNull => v is Bool,
                    LeafKind::String | LeafKind::StringNull => v is String,
                    _ => false,
                }
            }
        }),
{
    let tree = column.tree;
    if column.nanoseconds is None {
        let leaf = if !tree.root.node.header.spec_is_inner_bptree() {
            (tree.root.node.ref_, r)
        } else {
            leaf_under(tree.root, r, max_depth(tree.realm())).unwrap()
        };
        if !(tree.kind is Subtable) {
            lemma_plain_cells_are_of_the_leaf_kind(tree.realm(), tree.kind, leaf.0, leaf.1);
        }
    }
}

/// The index of a column that files the rows of the column agrees with the
/// rows.
pub proof fn lemma_filed_index_agrees(column: ColumnView, depth: nat)
    requires
        column.index is Some,
        column_count(column) is Some,
        trie_files(
            column.index.unwrap(),
            rows_to_file(column, depth),
            0,
            max_depth(column.index.unwrap().array.node.realm),
        ),
    ensures
        index_agrees(column, depth),
{
    assert forall|r: int|
        0 <= r < column_count(column).unwrap() implies index_agrees_at(
        column,
        r,
        depth,
    ) by {
        match column_cell(column, r, depth) {
            Ok(v) => if filed(v) {
                lemma_filed_rows_are_found(column, depth, r, v);
            },
            Err(_) => {},
        }
    }
}

/// In a column whose index files the rows of the column and that holds no
/// value twice, looking up the value of a row finds that row.
pub proof fn lemma_filed_rows_are_found_exactly(column: ColumnView, depth: nat, r: int, v: ValueView)
    requires
        column.index is Some,
        column_count(column) is Some,
        trie_files(
            column.index.unwrap(),
            rows_to_file(column, depth),
            0,
            max_depth(column.index.unwrap().array.node.realm),
        ),
        0 <= r < column_count(column).unwrap(),
        column_cell(column, r, depth) == Ok::<ValueView, Fault>(v),
        filed(v),
        forall|a: int, b: int|
            0 <= a < b < column_count(column).unwrap() ==> column_cell(
                column,
                a,
                depth,
            ) != column_cell(column, b, depth),
    ensures
        column.index.unwrap().first_row(probe_bytes(v)) == Some(Some(r as usize)),
{
    lemma_filed_rows_are_found(column, depth, r, v);
}

} // verus!
