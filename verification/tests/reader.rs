//! End-to-end tests on files that are built in memory.
use realm_db_reader::array::array_string::ArrayString;
use realm_db_reader::array::integer_array::IntegerArray;
use realm_db_reader::array::{Array, RealmRef, RefOrTaggedValue};
use realm_db_reader::realm::SlotValue;
use realm_db_reader::column::link::{LinkColumnContext, LinkLeaf};
use realm_db_reader::column::linklist::{LinkListColumnContext, LinkListLeaf};
use realm_db_reader::column::backlink::{BacklinkArray, BacklinkContext};
use realm_db_reader::column::{BpTree, LeafKind};
use realm_db_reader::error::ValueError;
use realm_db_reader::value::into::take_field;
use realm_db_reader::{
    Backlink, Group, Link, Realm, RealmFileError, Row, Table, TableError, Timestamp, Value,
};

const INNER: u8 = 0x80;
const HAS_REFS: u8 = 0x40;
const CONTEXT: u8 = 0x20;

const TYPE_INT: u64 = 0;
const TYPE_BOOL: u64 = 1;
const TYPE_STRING: u64 = 2;
const TYPE_BINARY: u64 = 4;
const TYPE_TABLE: u64 = 5;
const TYPE_TIMESTAMP: u64 = 8;
const TYPE_FLOAT: u64 = 9;
const TYPE_DOUBLE: u64 = 10;
const TYPE_LINK: u64 = 12;
const TYPE_LINK_LIST: u64 = 13;
const TYPE_BACK_LINK: u64 = 14;

const INDEXED: u64 = 1;
const NULLABLE: u64 = 16;

/// Builds the bytes of a file node by node.
struct Builder {
    bytes: Vec<u8>,
}

fn tagged(v: u64) -> u64 {
    (v << 1) | 1
}

fn width_index(width: usize) -> u8 {
    match width {
        0 => 0,
        1 => 1,
        2 => 2,
        4 => 3,
        8 => 4,
        16 => 5,
        32 => 6,
        64 => 7,
        _ => panic!("no such width"),
    }
}

impl Builder {
    fn new() -> Builder {
        Builder { bytes: vec![0u8; 24] }
    }

    fn pad(&mut self) {
        while self.bytes.len() % 8 != 0 {
            self.bytes.push(0);
        }
    }

    /// Appends a node and returns its reference.
    fn node(&mut self, flags: u8, size: usize, payload: &[u8]) -> u64 {
        self.pad();
        let at: u64 = self.bytes.len() as u64;
        self.bytes.extend_from_slice(b"AAAA");
        self.bytes.push(flags);
        self.bytes.push(((size >> 16) & 0xff) as u8);
        self.bytes.push(((size >> 8) & 0xff) as u8);
        self.bytes.push((size & 0xff) as u8);
        self.bytes.extend_from_slice(payload);
        self.pad();
        at
    }

    /// An array of slots of 64 bits.
    fn ints(&mut self, flags: u8, values: &[u64]) -> u64 {
        let mut payload: Vec<u8> = Vec::new();
        for v in values {
            payload.extend_from_slice(&v.to_le_bytes());
        }
        self.node(flags | 7, values.len(), &payload)
    }

    /// An array of slots of `width` bits, packed.
    fn packed(&mut self, flags: u8, width: usize, values: &[u64]) -> u64 {
        let bits: usize = values.len() * width;
        let mut payload: Vec<u8> = vec![0u8; (bits + 7) / 8];
        for (i, v) in values.iter().enumerate() {
            if width < 8 {
                if width > 0 {
                    let per: usize = 8 / width;
                    payload[i / per] |= (*v as u8) << (width * (i % per));
                }
            } else {
                let n: usize = width / 8;
                payload[i * n..(i + 1) * n].copy_from_slice(&v.to_le_bytes()[..n]);
            }
        }
        self.node(flags | width_index(width), values.len(), &payload)
    }

    /// A leaf of short strings of `width` bytes each.
    fn short_strings(&mut self, width: usize, items: &[Option<&str>]) -> u64 {
        let mut payload: Vec<u8> = Vec::new();
        for item in items {
            let mut slot: Vec<u8> = vec![0u8; width];
            match item {
                Some(s) => {
                    let b = s.as_bytes();
                    assert!(b.len() < width);
                    slot[..b.len()].copy_from_slice(b);
                    slot[width - 1] = (width - 1 - b.len()) as u8;
                },
                None => {
                    if width > 0 {
                        slot[width - 1] = width as u8;
                    }
                },
            }
            payload.extend_from_slice(&slot);
        }
        self.node((1 << 3) | width_index(width), items.len(), &payload)
    }

    /// A node of plain bytes.
    fn blob(&mut self, bytes: &[u8]) -> u64 {
        self.node(2 << 3, bytes.len(), bytes)
    }

    /// A leaf of strings of medium length, each stored with a NUL behind it.
    fn small_blobs(&mut self, items: &[Option<&str>], with_nulls: bool) -> u64 {
        let mut joined: Vec<u8> = Vec::new();
        let mut ends: Vec<u64> = Vec::new();
        let mut flags: Vec<u64> = Vec::new();
        for item in items {
            match item {
                Some(s) => {
                    joined.extend_from_slice(s.as_bytes());
                    joined.push(0);
                    flags.push(1);
                },
                None => {
                    flags.push(0);
                },
            }
            ends.push(joined.len() as u64);
        }
        let lengths = self.ints(0, &ends);
        let blobs = self.blob(&joined);
        if with_nulls {
            let nulls = self.ints(0, &flags);
            self.ints(HAS_REFS, &[lengths, blobs, nulls])
        } else {
            self.ints(HAS_REFS, &[lengths, blobs])
        }
    }

    /// A leaf of long strings, each in a node of its own with a NUL behind it.
    fn long_blobs(&mut self, items: &[Option<&str>]) -> u64 {
        let mut refs: Vec<u64> = Vec::new();
        for item in items {
            match item {
                Some(s) => {
                    let mut b: Vec<u8> = s.as_bytes().to_vec();
                    b.push(0);
                    refs.push(self.blob(&b));
                },
                None => refs.push(0),
            }
        }
        self.ints(HAS_REFS | CONTEXT, &refs)
    }

    /// An inner node in compact form.
    fn compact(&mut self, elems_per_child: u64, children: &[u64], total: u64) -> u64 {
        let mut slots: Vec<u64> = vec![tagged(elems_per_child)];
        slots.extend_from_slice(children);
        slots.push(total * 2);
        self.ints(INNER | HAS_REFS, &slots)
    }

    /// An inner node in general form.
    fn general(&mut self, offsets: &[u64], children: &[u64], total: u64) -> u64 {
        let offsets_ref = self.ints(0, offsets);
        let mut slots: Vec<u64> = vec![offsets_ref];
        slots.extend_from_slice(children);
        slots.push(total * 2);
        self.ints(INNER | HAS_REFS, &slots)
    }

    /// An index node with the keys `keys` and what is filed under each.
    fn index_node(&mut self, flags: u8, keys: &[u32], slots: &[u64]) -> u64 {
        let wide: Vec<u64> = keys.iter().map(|k| *k as u64).collect();
        let offsets = self.packed(0, 32, &wide);
        let mut all: Vec<u64> = vec![offsets];
        all.extend_from_slice(slots);
        self.ints(HAS_REFS | flags, &all)
    }

    /// A table: its header and its data.
    fn table(
        &mut self,
        types: &[u64],
        names: &[&str],
        attributes: &[u64],
        sub_spec: Option<&[u64]>,
        data: &[u64],
    ) -> u64 {
        let header = self.header(types, names, attributes, sub_spec);
        let data_ref = self.ints(HAS_REFS, data);
        self.ints(HAS_REFS, &[header, data_ref])
    }

    /// The header of a table.
    fn header(
        &mut self,
        types: &[u64],
        names: &[&str],
        attributes: &[u64],
        sub_spec: Option<&[u64]>,
    ) -> u64 {
        let types_ref = self.ints(0, types);
        let named: Vec<Option<&str>> = names.iter().map(|n| Some(*n)).collect();
        let names_ref = self.short_strings(16, &named);
        let attributes_ref = self.ints(0, attributes);
        match sub_spec {
            Some(entries) => {
                let sub_spec_ref = self.ints(HAS_REFS, entries);
                self.ints(HAS_REFS, &[types_ref, names_ref, attributes_ref, sub_spec_ref])
            },
            None => self.ints(HAS_REFS, &[types_ref, names_ref, attributes_ref]),
        }
    }

    /// The top array of a group of the tables `tables` with the names `names`.
    fn group(&mut self, names: &[&str], tables: &[u64]) -> u64 {
        let named: Vec<Option<&str>> = names.iter().map(|n| Some(*n)).collect();
        let names_ref = self.short_strings(16, &named);
        let tables_ref = self.ints(HAS_REFS, tables);
        self.ints(HAS_REFS, &[names_ref, tables_ref])
    }

    /// The bytes of the file, with `top` as its active top reference.
    fn finish(mut self, top: u64) -> Vec<u8> {
        self.bytes[0..8].copy_from_slice(&top.to_le_bytes());
        self.bytes[16..20].copy_from_slice(b"T-DB");
        self.bytes[20] = 9;
        self.bytes[21] = 9;
        self.bytes
    }
}

fn key(s: &[u8]) -> u32 {
    let mut b = [0u8; 4];
    for (i, c) in s.iter().take(4).enumerate() {
        b[i] = *c;
    }
    u32::from_be_bytes(b)
}

fn int_of(v: &Value) -> i64 {
    match v {
        Value::Int(n) => *n,
        other => panic!("not an integer: {:?}", other),
    }
}

fn text_of(v: &Value) -> &str {
    match v {
        Value::String(s) => s.as_str(),
        other => panic!("not a string: {:?}", other),
    }
}

fn is_invalid<T>(r: Result<T, RealmFileError>) -> bool {
    matches!(r, Err(RealmFileError::InvalidRealmFile { .. }))
}

/// The file of the people: one table with an indexed column of strings and a
/// column of integers.
fn people_file() -> Vec<u8> {
    let mut b = Builder::new();
    let ids = b.short_strings(8, &[Some("alice"), Some("bob")]);
    let index = b.index_node(0, &[key(b"alic"), key(b"bobX")], &[tagged(0), tagged(1)]);
    let ages = b.ints(0, &[30, 25]);
    let table = b.table(
        &[TYPE_STRING, TYPE_INT],
        &["id", "age"],
        &[INDEXED, 0],
        None,
        &[ids, index, ages],
    );
    let top = b.group(&["people"], &[table]);
    b.finish(top)
}

#[test]
fn minimal_file_has_two_people() {
    let bytes = people_file();
    let realm = Realm::from_bytes(&bytes).unwrap();
    let group = realm.into_group().unwrap();
    assert_eq!(group.table_count(), 1);
    assert_eq!(group.get_table_name(0), "people");
    assert_eq!(group.get_table_names(), &vec!["people".to_string()]);
    let table = group.get_table_by_name("people").unwrap();
    assert_eq!(table.get_table_number(), 0);
    assert_eq!(table.row_count().unwrap(), 2);
    let row = table.get_row(0).unwrap();
    assert_eq!(text_of(row.get("id").unwrap()), "alice");
    assert_eq!(int_of(row.get("age").unwrap()), 30);
    let row = table.get_row(1).unwrap();
    assert_eq!(text_of(row.get("id").unwrap()), "bob");
    assert_eq!(int_of(row.get("age").unwrap()), 25);
    let bob = Value::String("bob".to_string());
    assert_eq!(table.find_row_number_from_indexed_column("id", &bob).unwrap(), Some(1));
    let alice = Value::from("alice");
    assert_eq!(table.find_row_number_from_indexed_column("id", &alice).unwrap(), Some(0));
    let charlie = Value::String("charlie".to_string());
    assert!(table.find_row_from_indexed_column("id", &charlie).unwrap().is_none());
    let found = table.find_row_from_indexed_column("id", &bob).unwrap().unwrap();
    assert_eq!(int_of(found.get("age").unwrap()), 25);
    assert_eq!(table.get_rows().unwrap().len(), 2);
}

#[test]
fn table_errors_name_what_is_missing() {
    let bytes = people_file();
    let group = Realm::from_bytes(&bytes).unwrap().into_group().unwrap();
    match group.get_table_by_name("nobody") {
        Err(TableError::TableNotFound { name }) => assert_eq!(name, "nobody"),
        other => panic!("unexpected: {:?}", other.is_ok()),
    }
    let table = group.get_table(0).unwrap();
    let v = Value::Int(1);
    match table.find_row_number_from_indexed_column("height", &v) {
        Err(TableError::ColumnNotFound { name }) => assert_eq!(name, "height"),
        other => panic!("unexpected: {:?}", other),
    }
    match table.find_row_number_from_indexed_column("age", &v) {
        Err(TableError::ColumnNotIndexed { name }) => assert_eq!(name, "age"),
        other => panic!("unexpected: {:?}", other),
    }
    match table.find_row_from_indexed_column("age", &v) {
        Err(TableError::ColumnNotIndexed { name }) => assert_eq!(name, "age"),
        other => panic!("unexpected: {:?}", other.is_ok()),
    }
}

#[test]
fn rows_have_a_field_for_every_named_column() {
    let bytes = people_file();
    let group = Realm::from_bytes(&bytes).unwrap().into_group().unwrap();
    let table = group.get_table(0).unwrap();
    let row = table.get_row(1).unwrap();
    for column in table.get_column_specs() {
        match column.name() {
            Some(name) => assert!(row.has_field(name)),
            None => {},
        }
    }
    assert!(!row.has_field("height"));
    assert_eq!(row.entries().len(), 2);
    assert_eq!(row.values().len(), 2);
    assert!(table.get_column_spec(0).unwrap().is_indexed());
    assert!(!table.get_column_spec(1).unwrap().is_indexed());
    assert!(!table.get_column_spec(1).unwrap().nullable());
    assert!(table.get_column_spec(2).is_none());
}

#[test]
fn reading_a_row_twice_gives_equal_rows() {
    let bytes = people_file();
    let group = Realm::from_bytes(&bytes).unwrap().into_group().unwrap();
    let table = group.get_table(0).unwrap();
    let first = table.get_row(0).unwrap();
    let second = table.get_row(0).unwrap();
    assert_eq!(format!("{:?}", first), format!("{:?}", second));
    let copy = first.clone();
    assert_eq!(format!("{:?}", first), format!("{:?}", copy));
}

#[test]
fn index_finds_every_value_at_its_row() {
    let bytes = people_file();
    let group = Realm::from_bytes(&bytes).unwrap().into_group().unwrap();
    let table = group.get_table(0).unwrap();
    let rows = table.get_rows().unwrap();
    for (r, row) in rows.iter().enumerate() {
        let v = row.get("id").unwrap().clone();
        let found = table.find_row_number_from_indexed_column("id", &v).unwrap().unwrap();
        assert!(found <= r);
        assert_eq!(found, r);
        let there = table.get_row(found).unwrap();
        assert_eq!(text_of(there.get("id").unwrap()), text_of(&v));
    }
}

#[test]
fn optional_int_column() {
    let mut b = Builder::new();
    // Slot 0 holds what stands for null.
    let q = b.ints(0, &[7, 0, 7, u64::MAX]);
    let table = b.table(&[TYPE_INT], &["q"], &[NULLABLE], None, &[q]);
    let top = b.group(&["m"], &[table]);
    let bytes = b.finish(top);
    let group = Realm::from_bytes(&bytes).unwrap().into_group().unwrap();
    let table = group.get_table_by_name("m").unwrap();
    assert_eq!(table.row_count().unwrap(), 3);
    let column = table.get_column_spec(0).unwrap();
    assert!(column.nullable());
    assert_eq!(column.count().unwrap(), 3);
    assert_eq!(int_of(&column.get(0).unwrap()), 0);
    assert!(column.is_null(1).unwrap());
    assert!(column.get(1).unwrap().is_none());
    assert!(!column.is_null(2).unwrap());
    assert_eq!(int_of(&column.get(2).unwrap()), -1);
}

#[test]
fn long_strings() {
    let medium: String = "m".repeat(500);
    let long: String = "é".repeat(5000);
    assert_eq!(long.len(), 10_000);
    let mut b = Builder::new();
    let short_leaf = b.short_strings(4, &[Some("hi")]);
    let medium_leaf = b.small_blobs(&[Some(medium.as_str())], false);
    let long_leaf = b.long_blobs(&[Some(long.as_str())]);
    let tree = b.general(&[1, 2], &[short_leaf, medium_leaf, long_leaf], 3);
    let table = b.table(&[TYPE_STRING], &["s"], &[0], None, &[tree]);
    let top = b.group(&["t"], &[table]);
    let bytes = b.finish(top);
    let group = Realm::from_bytes(&bytes).unwrap().into_group().unwrap();
    let table = group.get_table(0).unwrap();
    assert_eq!(table.row_count().unwrap(), 3);
    let rows = table.get_rows().unwrap();
    assert_eq!(text_of(rows[0].get("s").unwrap()), "hi");
    assert_eq!(text_of(rows[1].get("s").unwrap()), medium.as_str());
    assert_eq!(text_of(rows[2].get("s").unwrap()), long.as_str());
    assert!(!text_of(rows[1].get("s").unwrap()).contains('\0'));
    assert!(!text_of(rows[2].get("s").unwrap()).contains('\0'));
}

#[test]
fn bptree_compact() {
    let mut b = Builder::new();
    let mut leaves: Vec<u64> = Vec::new();
    for l in 0..100u64 {
        let values: Vec<u64> = (0..100u64).map(|i| (l * 100 + i) * 3).collect();
        leaves.push(b.ints(0, &values));
    }
    let tree = b.compact(100, &leaves, 10_000);
    let table = b.table(&[TYPE_INT], &["n"], &[0], None, &[tree]);
    let top = b.group(&["t"], &[table]);
    let bytes = b.finish(top);
    let group = Realm::from_bytes(&bytes).unwrap().into_group().unwrap();
    let table = group.get_table(0).unwrap();
    assert_eq!(table.row_count().unwrap(), 10_000);
    let column = table.get_column_spec(0).unwrap();
    assert_eq!(int_of(&column.get(9_999).unwrap()), 29_997);
    for k in 0..100usize {
        assert_eq!(int_of(&column.get(k * 100).unwrap()), (k as i64) * 300);
        assert_eq!(int_of(&column.get(k * 100 + 99).unwrap()), (k as i64) * 300 + 297);
    }
    assert_eq!(int_of(table.get_row(4_321).unwrap().get("n").unwrap()), 12_963);
}

#[test]
fn bptree_general_form_and_nested_inner_nodes() {
    let mut b = Builder::new();
    let a = b.ints(0, &[10, 11, 12]);
    let c = b.ints(0, &[20]);
    let d = b.ints(0, &[30, 31]);
    let left = b.general(&[3], &[a, c], 4);
    let right = b.compact(2, &[d], 2);
    // The offsets of the root: the left child ends at 4.
    let root = b.general(&[4], &[left, right], 6);
    let table = b.table(&[TYPE_INT], &["n"], &[0], None, &[root]);
    let top = b.group(&["t"], &[table]);
    let bytes = b.finish(top);
    let group = Realm::from_bytes(&bytes).unwrap().into_group().unwrap();
    let table = group.get_table(0).unwrap();
    assert_eq!(table.row_count().unwrap(), 6);
    let expected: [i64; 6] = [10, 11, 12, 20, 30, 31];
    let rows = table.get_rows().unwrap();
    for (i, e) in expected.iter().enumerate() {
        assert_eq!(int_of(rows[i].get("n").unwrap()), *e);
    }
}

#[test]
fn link_and_backlink() {
    let mut b = Builder::new();
    // Table A: a link to table B; row 0 points at row 5 of B, row 1 at none.
    let links = b.ints(0, &[6, 0]);
    let table_a = b.table(&[TYPE_LINK], &["link_to_b"], &[0], Some(&[tagged(1)]), &[links]);
    // Table B: six rows, with the backlinks from column 0 of table A.
    let numbers = b.ints(0, &[0, 1, 2, 3, 4, 5]);
    let back = b.ints(HAS_REFS, &[0, 0, 0, 0, 0, tagged(0)]);
    let table_b = b.table(
        &[TYPE_INT, TYPE_BACK_LINK],
        &["n"],
        &[0, 0],
        Some(&[tagged(0), tagged(0)]),
        &[numbers, back],
    );
    let top = b.group(&["A", "B"], &[table_a, table_b]);
    let bytes = b.finish(top);
    let group = Realm::from_bytes(&bytes).unwrap().into_group().unwrap();
    let a = group.get_table_by_name("A").unwrap();
    let b_table = group.get_table_by_name("B").unwrap();
    assert_eq!(b_table.get_table_number(), 1);
    let row = a.get_row(0).unwrap();
    match row.get("link_to_b").unwrap() {
        Value::Link(link) => assert_eq!(*link, Link::new(1, 5)),
        other => panic!("not a link: {:?}", other),
    }
    assert!(a.get_row(1).unwrap().get("link_to_b").unwrap().is_none());
    assert!(a.get_column_spec(0).unwrap().is_null(1).unwrap());
    let target = b_table.get_row(5).unwrap();
    assert_eq!(target.backlinks(), &vec![Backlink::new(0, 0, vec![0])]);
    assert_eq!(int_of(target.get("n").unwrap()), 5);
    // A row that nothing links to has no backlinks, and the column is not
    // null there.
    let other = b_table.get_row(2).unwrap();
    assert!(other.backlinks().is_empty());
    let column = b_table.get_column_spec(1).unwrap();
    assert!(column.name().is_none());
    assert!(!column.is_null(2).unwrap());
    assert!(column.get(2).unwrap().is_none());
}

struct Item {
    name: String,
    qty: i64,
}

impl TryFrom<Row> for Item {
    type Error = ValueError;

    fn try_from(mut row: Row) -> Result<Item, ValueError> {
        let name: String = take_field(&mut row, "name", "Item")?.try_into()?;
        let qty: i64 = take_field(&mut row, "qty", "Item")?.try_into()?;
        Ok(Item { name, qty })
    }
}

#[test]
fn subtable() {
    let mut b = Builder::new();
    let sub_header = b.header(&[TYPE_STRING, TYPE_INT], &["name", "qty"], &[0, 0], None);
    // The subtable of row 0: two items.
    let names = b.short_strings(8, &[Some("nut"), Some("bolt")]);
    let qtys = b.ints(0, &[4, 9]);
    let data0 = b.ints(HAS_REFS, &[names, qtys]);
    // The subtable of row 1: no items.
    let no_names = b.short_strings(8, &[]);
    let no_qtys = b.ints(0, &[]);
    let data1 = b.ints(HAS_REFS, &[no_names, no_qtys]);
    // Row 2 has no subtable at all.
    let cells = b.ints(HAS_REFS, &[data0, data1, 0]);
    let table = b.table(&[TYPE_TABLE], &["items"], &[0], Some(&[sub_header]), &[cells]);
    let top = b.group(&["orders"], &[table]);
    let bytes = b.finish(top);
    let group = Realm::from_bytes(&bytes).unwrap().into_group().unwrap();
    let table = group.get_table(0).unwrap();
    assert_eq!(table.row_count().unwrap(), 3);

    let mut row = table.get_row(0).unwrap();
    let items: Vec<Item> = row.take("items").unwrap().try_into().unwrap();
    assert_eq!(items.len(), 2);
    assert_eq!(items[0].name, "nut");
    assert_eq!(items[0].qty, 4);
    assert_eq!(items[1].name, "bolt");
    assert_eq!(items[1].qty, 9);
    assert!(!row.has_field("items"));

    let mut row = table.get_row(1).unwrap();
    let items: Vec<Item> = row.take("items").unwrap().try_into().unwrap();
    assert!(items.is_empty());

    let mut row = table.get_row(2).unwrap();
    let value = row.take("items").unwrap();
    assert!(value.is_none());
    let column = table.get_column_spec(0).unwrap();
    assert!(column.is_null(2).unwrap());
    assert!(!column.is_null(0).unwrap());
    let failed: Result<Vec<Item>, ValueError> = value.try_into();
    assert!(matches!(failed, Err(ValueError::ExpectedTable { .. })));
}

#[test]
fn subtable_rows_that_lack_a_field_fail_the_list() {
    let mut b = Builder::new();
    let sub_header = b.header(&[TYPE_STRING], &["name"], &[0], None);
    let names = b.short_strings(8, &[Some("nut")]);
    let data0 = b.ints(HAS_REFS, &[names]);
    let cells = b.ints(HAS_REFS, &[data0]);
    let table = b.table(&[TYPE_TABLE], &["items"], &[0], Some(&[sub_header]), &[cells]);
    let top = b.group(&["orders"], &[table]);
    let bytes = b.finish(top);
    let group = Realm::from_bytes(&bytes).unwrap().into_group().unwrap();
    let mut row = group.get_table(0).unwrap().get_row(0).unwrap();
    let failed: Result<Vec<Item>, ValueError> = row.take("items").unwrap().try_into();
    match failed {
        Err(ValueError::VecConversionError { source, .. }) => match *source {
            ValueError::MissingField { field, target_type, remaining_fields } => {
                assert_eq!(field, "qty");
                assert_eq!(target_type, "Item");
                assert!(!remaining_fields.has_field("name"));
            },
            other => panic!("unexpected: {:?}", other),
        },
        _ => panic!("the list should fail"),
    }
}

#[test]
fn width_zero_leaves() {
    let mut b = Builder::new();
    let zeros = b.packed(0, 0, &[0, 0, 0]);
    let strings = b.short_strings(0, &[None, None]);
    let bytes = b.finish(24);
    let realm = Realm::from_bytes(&bytes).unwrap();
    let leaf = IntegerArray::from_ref(realm, RealmRef::new(zeros as usize)).unwrap();
    assert_eq!(leaf.size(), 3);
    assert_eq!(leaf.get(2).unwrap(), 0);
    assert_eq!(leaf.get_signed(0).unwrap(), 0);
    // Read as a leaf that can hold nulls, every element equals slot 0.
    assert_eq!(leaf.get_nullable(0).unwrap(), None);
    assert_eq!(leaf.get_nullable(1).unwrap(), None);
    assert!(leaf.is_null(1).unwrap());
    assert!(is_invalid(leaf.get(3)));
    let leaf = ArrayString::from_ref(realm, RealmRef::new(strings as usize)).unwrap();
    assert_eq!(leaf.size(), 2);
    assert_eq!(leaf.get(0).unwrap(), None);
    assert_eq!(leaf.get_or_default(1).unwrap(), "");
    assert!(is_invalid(leaf.get(2)));
}

#[test]
fn link_list_slots() {
    let mut b = Builder::new();
    let targets = b.ints(0, &[4, 2, 9]);
    let leaf = b.ints(HAS_REFS, &[0, tagged(7), targets]);
    let bytes = b.finish(24);
    let realm = Realm::from_bytes(&bytes).unwrap();
    let context = LinkListColumnContext { target_table_index: 3 };
    let leaf = LinkListLeaf::from_ref_with_context(realm, RealmRef::new(leaf as usize), context)
        .unwrap();
    assert_eq!(leaf.get(0).unwrap(), vec![]);
    assert_eq!(leaf.get(1).unwrap(), vec![Link::new(3, 7)]);
    assert_eq!(leaf.get(2).unwrap(), vec![Link::new(3, 4), Link::new(3, 2), Link::new(3, 9)]);
    assert!(!leaf.is_null(0).unwrap());
    assert!(is_invalid(leaf.get(3)));
    let direct = LinkListLeaf::get_direct(realm, RealmRef::new(leaf.root.node.ref_.0), 2, context);
    assert_eq!(direct.unwrap(), leaf.get(2).unwrap());
}

#[test]
fn backlink_slots() {
    let mut b = Builder::new();
    let origins = b.ints(0, &[1, 8]);
    let empty = b.ints(0, &[]);
    let leaf = b.ints(HAS_REFS, &[0, tagged(5), origins, empty]);
    let bytes = b.finish(24);
    let realm = Realm::from_bytes(&bytes).unwrap();
    let context = BacklinkContext { target_table_number: 2, target_table_column_number: 4 };
    let leaf = BacklinkArray::from_ref_with_context(realm, RealmRef::new(leaf as usize), context)
        .unwrap();
    assert_eq!(leaf.get(0).unwrap(), None);
    assert_eq!(leaf.get(1).unwrap(), Some(Backlink::new(2, 4, vec![5])));
    assert_eq!(leaf.get(2).unwrap(), Some(Backlink::new(2, 4, vec![1, 8])));
    // A backlink without rows is written as 0, never as an empty list.
    assert!(is_invalid(leaf.get(3)));
    assert!(!leaf.is_null(0).unwrap());
}

#[test]
fn link_leaf_reads_through_the_leaf_and_directly() {
    let mut b = Builder::new();
    let leaf = b.ints(0, &[0, 1, 42]);
    let bytes = b.finish(24);
    let realm = Realm::from_bytes(&bytes).unwrap();
    let context = LinkColumnContext { target_table_index: 9 };
    let at = RealmRef::new(leaf as usize);
    let leaf = LinkLeaf::from_ref_with_context(realm, at, context).unwrap();
    for i in 0..4usize {
        let through = leaf.get(i);
        let direct = LinkLeaf::get_direct(realm, at, i, context);
        match (through, direct) {
            (Ok(a), Ok(b)) => assert_eq!(a, b),
            (Err(_), Err(_)) => assert_eq!(i, 3),
            _ => panic!("the two ways disagree"),
        }
    }
    assert_eq!(leaf.get(2).unwrap(), Some(Link::new(9, 41)));
    assert_eq!(leaf.get(0).unwrap(), None);
}

#[test]
fn short_strings_that_are_empty_are_not_null() {
    let mut b = Builder::new();
    let leaf = b.short_strings(4, &[Some(""), None, Some("abc")]);
    let bytes = b.finish(24);
    let realm = Realm::from_bytes(&bytes).unwrap();
    let leaf = ArrayString::from_ref(realm, RealmRef::new(leaf as usize)).unwrap();
    assert_eq!(leaf.get(0).unwrap(), Some("".to_string()));
    assert_eq!(leaf.get(1).unwrap(), None);
    assert_eq!(leaf.get(2).unwrap(), Some("abc".to_string()));
    assert_eq!(leaf.get_or_default(1).unwrap(), "");
}

#[test]
fn short_string_with_a_count_above_its_width_is_damage() {
    let mut b = Builder::new();
    let leaf = b.node((1 << 3) | 3, 1, &[b'a', 0, 0, 5]);
    let bytes = b.finish(24);
    let realm = Realm::from_bytes(&bytes).unwrap();
    let leaf = ArrayString::from_ref(realm, RealmRef::new(leaf as usize)).unwrap();
    assert!(is_invalid(leaf.get(0)));
}

#[test]
fn medium_strings_lose_their_nul_and_keep_their_nulls() {
    let mut b = Builder::new();
    let leaf = b.small_blobs(&[Some("one"), None, Some("three")], true);
    let bytes = b.finish(24);
    let realm = Realm::from_bytes(&bytes).unwrap();
    let at = RealmRef::new(leaf as usize);
    let leaf = ArrayString::from_ref(realm, at).unwrap();
    assert_eq!(leaf.size(), 3);
    assert_eq!(leaf.get(0).unwrap(), Some("one".to_string()));
    assert_eq!(leaf.get(1).unwrap(), None);
    assert_eq!(leaf.get(2).unwrap(), Some("three".to_string()));
    assert_eq!(ArrayString::get_direct(realm, at, 2).unwrap(), Some("three".to_string()));
    assert_eq!(ArrayString::get_or_default_direct(realm, at, 1).unwrap(), "");
}

#[test]
fn strings_that_are_no_utf8_are_damage() {
    let mut b = Builder::new();
    let leaf = b.node((1 << 3) | 3, 1, &[0xff, 0xfe, 0, 1]);
    let bytes = b.finish(24);
    let realm = Realm::from_bytes(&bytes).unwrap();
    let leaf = ArrayString::from_ref(realm, RealmRef::new(leaf as usize)).unwrap();
    assert!(is_invalid(leaf.get(0)));
}

#[test]
fn tree_reads_the_same_through_the_leaf_and_directly() {
    let mut b = Builder::new();
    let leaf = b.ints(0, &[5, 6, 7]);
    let tree = b.compact(3, &[leaf], 3);
    let bytes = b.finish(24);
    let realm = Realm::from_bytes(&bytes).unwrap();
    let as_leaf = BpTree::from_ref_with_context(realm, RealmRef::new(leaf as usize), LeafKind::Int, 0)
        .unwrap();
    let as_tree = BpTree::from_ref_with_context(realm, RealmRef::new(tree as usize), LeafKind::Int, 0)
        .unwrap();
    assert!(as_leaf.root_is_leaf());
    assert!(!as_tree.root_is_leaf());
    assert_eq!(as_leaf.count().unwrap(), 3);
    assert_eq!(as_tree.count().unwrap(), 3);
    for i in 0..3usize {
        assert_eq!(int_of(&as_leaf.get(i).unwrap()), int_of(&as_tree.get(i).unwrap()));
    }
    assert!(is_invalid(as_leaf.get(3)));
    assert!(is_invalid(as_tree.get(3)));
}

#[test]
fn bool_float_and_double_columns() {
    let mut b = Builder::new();
    let flags = b.packed(0, 1, &[1, 0, 1]);
    let maybe = b.packed(0, 2, &[2, 1, 2, 0]);
    let floats = b.node((1 << 3) | 3, 3, &[1.5f32.to_le_bytes(), 0f32.to_le_bytes(), (-2f32).to_le_bytes()].concat());
    let doubles = b.node((1 << 3) | 4, 3, &[2.25f64.to_le_bytes(), 1e300f64.to_le_bytes(), 0f64.to_le_bytes()].concat());
    let table = b.table(
        &[TYPE_BOOL, TYPE_BOOL, TYPE_FLOAT, TYPE_DOUBLE],
        &["flag", "maybe", "f", "d"],
        &[0, NULLABLE, 0, 0],
        None,
        &[flags, maybe, floats, doubles],
    );
    let top = b.group(&["t"], &[table]);
    let bytes = b.finish(top);
    let group = Realm::from_bytes(&bytes).unwrap().into_group().unwrap();
    let table = group.get_table(0).unwrap();
    assert_eq!(table.row_count().unwrap(), 3);
    let rows = table.get_rows().unwrap();
    assert!(matches!(rows[0].get("flag"), Some(Value::Bool(true))));
    assert!(matches!(rows[1].get("flag"), Some(Value::Bool(false))));
    assert!(matches!(rows[0].get("maybe"), Some(Value::Bool(true))));
    assert!(matches!(rows[1].get("maybe"), Some(Value::Null)));
    assert!(matches!(rows[2].get("maybe"), Some(Value::Bool(false))));
    match rows[0].get("f") {
        Some(Value::Float(bits)) => assert_eq!(f32::from_bits(*bits), 1.5),
        other => panic!("unexpected: {:?}", other),
    }
    match rows[2].get("f") {
        Some(Value::Float(bits)) => assert_eq!(f32::from_bits(*bits), -2.0),
        other => panic!("unexpected: {:?}", other),
    }
    match rows[1].get("d") {
        Some(Value::Double(bits)) => assert_eq!(f64::from_bits(*bits), 1e300),
        other => panic!("unexpected: {:?}", other),
    }
    assert_eq!(rows[0].get("d").unwrap().clone().try_into_double_bits().unwrap(), 2.25f64.to_bits());
    assert_eq!(rows[0].get("f").unwrap().clone().try_into_float_bits().unwrap(), 1.5f32.to_bits());
    assert_eq!(format!("{:?}", Value::from_float_bits(7)), format!("{:?}", Value::Float(7)));
    assert_eq!(format!("{:?}", Value::from_double_bits(7)), format!("{:?}", Value::Double(7)));
}

/// A file with one indexed column of integers and one of timestamps.
fn events_file() -> Vec<u8> {
    let mut b = Builder::new();
    let numbers = b.ints(0, &[10, 300, 300]);
    // An integer is filed under its eight bytes, low byte first: 10 under 0a 00
    // 00 00, then 00 00 00 00, then X. The three parts are a chain of tries.
    let tail = b.index_node(CONTEXT, &[key(b"X")], &[tagged(0)]);
    let high = b.index_node(CONTEXT, &[key(&[0, 0, 0, 0])], &[tail]);
    let bucket = b.ints(0, &[1, 2]);
    let number_index = b.index_node(
        0,
        &[key(&[10, 0, 0, 0]), key(&[0x2c, 1, 0, 0])],
        &[high, bucket],
    );
    let seconds = b.ints(0, &[u64::MAX - 5, 1_431_648_000, u64::MAX - 5, 0, 0]);
    let nanos = b.ints(0, &[7, 0, 0, 5]);
    let pair = b.ints(HAS_REFS, &[seconds, nanos]);
    let when_index = b.index_node(0, &[key(&[0x00, 0x37, 0x55, 0x55])], &[tagged(0)]);
    let table = b.table(
        &[TYPE_INT, TYPE_TIMESTAMP],
        &["n", "when"],
        &[INDEXED, INDEXED | NULLABLE],
        None,
        &[numbers, number_index, pair, when_index],
    );
    let top = b.group(&["events"], &[table]);
    b.finish(top)
}

#[test]
fn indexed_integers() {
    let bytes = events_file();
    let group = Realm::from_bytes(&bytes).unwrap().into_group().unwrap();
    let table = group.get_table(0).unwrap();
    assert_eq!(table.find_row_number_from_indexed_column("n", &Value::Int(10)).unwrap(), Some(0));
    // Two rows hold 300; the index names the first.
    assert_eq!(table.find_row_number_from_indexed_column("n", &Value::Int(300)).unwrap(), Some(1));
    assert_eq!(table.find_row_number_from_indexed_column("n", &Value::Int(11)).unwrap(), None);
    assert_eq!(table.find_row_number_from_indexed_column("n", &Value::Int(-1)).unwrap(), None);
}

#[test]
fn timestamps() {
    let bytes = events_file();
    let group = Realm::from_bytes(&bytes).unwrap().into_group().unwrap();
    let table = group.get_table(0).unwrap();
    let column = table.get_column_spec(1).unwrap();
    assert_eq!(column.count().unwrap(), 4);
    match column.get(0).unwrap() {
        Value::Timestamp(t) => assert_eq!(t, Timestamp { seconds: 1_431_648_000, nanoseconds: 7 }),
        other => panic!("unexpected: {:?}", other),
    }
    // The seconds are null.
    assert!(column.get(1).unwrap().is_none());
    assert!(column.is_null(1).unwrap());
    // Seconds and nanoseconds are both 0.
    assert!(column.get(2).unwrap().is_none());
    // Seconds are 0, nanoseconds are not.
    match column.get(3).unwrap() {
        Value::Timestamp(t) => assert_eq!(t, Timestamp { seconds: 0, nanoseconds: 5 }),
        other => panic!("unexpected: {:?}", other),
    }
    let probe = Value::Timestamp(Timestamp { seconds: 1_431_648_000, nanoseconds: 7 });
    assert_eq!(table.find_row_number_from_indexed_column("when", &probe).unwrap(), Some(0));
}

#[test]
fn files_that_are_no_realm_files() {
    assert!(is_invalid(Realm::from_bytes(&[0u8; 23])));
    assert!(is_invalid(Realm::from_bytes(&[0u8; 24])));
    let mut bytes = people_file();
    bytes[17] = b'+';
    assert!(is_invalid(Realm::from_bytes(&bytes)));
    let mut bytes = people_file();
    bytes[23] = 0x80;
    assert!(matches!(Realm::from_bytes(&bytes), Err(RealmFileError::Unsupported { .. })));
    // The second top reference is taken where bit 0 of the flags is set.
    let mut bytes = people_file();
    bytes[23] = 1;
    let top = bytes[0..8].to_vec();
    bytes[8..16].copy_from_slice(&top);
    bytes[0..8].copy_from_slice(&[0u8; 8]);
    assert_eq!(Realm::from_bytes(&bytes).unwrap().into_group().unwrap().table_count(), 1);
    // A top reference that is no multiple of 8.
    let mut bytes = people_file();
    bytes[0] = bytes[0] | 4;
    assert!(is_invalid(Realm::from_bytes(&bytes)));
}

#[test]
fn damaged_nodes() {
    let bytes = people_file();
    let realm = Realm::from_bytes(&bytes).unwrap();
    let top = realm.top_ref();
    assert!(Array::from_ref(realm, top).is_ok());
    // A reference past the end of the file.
    let far = RealmRef::new((bytes.len() + 8) & !7);
    assert!(is_invalid(Array::from_ref(realm, far)));
    assert!(is_invalid(realm.header(far)));
    // A reference that is no multiple of 8.
    assert!(is_invalid(realm.header(RealmRef(top.to_offset() + 4))));
    // A wrong checksum.
    let mut broken = bytes.clone();
    broken[top.to_offset()] = b'B';
    let realm = Realm::from_bytes(&broken).unwrap();
    assert!(is_invalid(realm.header(top)));
    assert!(is_invalid(realm.into_group()));
    // The reserved width scheme.
    let mut broken = bytes.clone();
    broken[top.to_offset() + 4] |= 0x18;
    let realm = Realm::from_bytes(&broken).unwrap();
    assert!(is_invalid(realm.header(top)));
    // A node whose payload runs past the end of the file.
    let mut broken = bytes.clone();
    broken[top.to_offset() + 5] = 0xff;
    let realm = Realm::from_bytes(&broken).unwrap();
    assert!(realm.header(top).is_ok());
    assert!(is_invalid(Array::from_ref(realm, top)));
}

#[test]
fn columns_of_a_type_that_is_not_supported() {
    let mut b = Builder::new();
    let data = b.ints(0, &[1]);
    let table = b.table(&[TYPE_BINARY], &["blob"], &[0], None, &[data]);
    let unknown = b.table(&[99], &["x"], &[0], None, &[data]);
    let top = b.group(&["t", "u"], &[table, unknown]);
    let bytes = b.finish(top);
    let group = Realm::from_bytes(&bytes).unwrap().into_group().unwrap();
    assert!(matches!(group.get_table(0), Err(RealmFileError::Unsupported { .. })));
    assert!(is_invalid(group.get_table(1)));
    assert!(matches!(
        group.get_table_by_name("t"),
        Err(TableError::FileError(RealmFileError::Unsupported { .. }))
    ));
}

#[test]
fn a_tree_that_loops_is_damage() {
    let mut b = Builder::new();
    // An inner node whose only child is the node itself.
    let at: u64 = b.bytes.len() as u64;
    let node = b.compact(4, &[at], 4);
    assert_eq!(node, at);
    let bytes = b.finish(24);
    let realm = Realm::from_bytes(&bytes).unwrap();
    let tree = BpTree::from_ref_with_context(realm, RealmRef::new(node as usize), LeafKind::Int, 0)
        .unwrap();
    assert_eq!(tree.count().unwrap(), 4);
    assert!(is_invalid(tree.get(1)));
}

#[test]
fn a_table_without_columns_has_no_row_count() {
    let mut b = Builder::new();
    let table = b.table(&[], &[], &[], None, &[]);
    let top = b.group(&["empty"], &[table]);
    let bytes = b.finish(top);
    let group = Realm::from_bytes(&bytes).unwrap().into_group().unwrap();
    let table: Table = group.get_table(0).unwrap();
    assert!(is_invalid(table.row_count()));
    assert!(is_invalid(table.get_rows()));
    let _: &Group = &group;
}

#[test]
fn arrays_hand_out_their_slots() {
    let mut b = Builder::new();
    let inner = b.ints(0, &[1, 2]);
    let array = b.ints(HAS_REFS, &[inner, 0, tagged(21), 12]);
    let bytes = b.finish(24);
    let realm = Realm::from_bytes(&bytes).unwrap();
    let array = Array::from_ref(realm, RealmRef::new(array as usize)).unwrap();
    assert_eq!(array.size(), 4);
    assert_eq!(array.front(), inner);
    assert_eq!(array.back(), 12);
    assert_eq!(array.get(2), 43);
    assert_eq!(
        array.decode_slots(),
        vec![SlotValue::Ref(inner), SlotValue::Ref(0), SlotValue::Inline(21), SlotValue::Ref(12)]
    );
    assert_eq!(array.get_ref(0).unwrap(), Some(RealmRef::new(inner as usize)));
    assert_eq!(array.get_ref(1).unwrap(), None);
    // A tagged number and a number that is no multiple of 8 are no references.
    assert!(is_invalid(array.get_ref(2)));
    assert!(is_invalid(array.get_ref(3)));
    assert_eq!(
        array.get_ref_or_tagged_value(2).unwrap(),
        Some(RefOrTaggedValue::TaggedValue(21))
    );
    assert_eq!(array.get_ref_or_tagged_value(1).unwrap(), None);
    assert!(is_invalid(array.get_ref_or_tagged_value(3)));
    let child = array.get_array(0).unwrap().unwrap();
    assert_eq!(IntegerArray::from_array(child).get_integers(), vec![1, 2]);
    assert_eq!(array.get_node(0).unwrap().unwrap().header.size, 2);
    assert!(array.get_node(1).unwrap().is_none());
    assert_eq!(IntegerArray::get_direct(realm, RealmRef::new(inner as usize), 1).unwrap(), 2);
}

#[test]
fn trees_say_which_elements_are_null() {
    let mut b = Builder::new();
    let leaf = b.ints(0, &[9, 9, 4]);
    let bytes = b.finish(24);
    let realm = Realm::from_bytes(&bytes).unwrap();
    let at = RealmRef::new(leaf as usize);
    let tree = BpTree::from_ref_with_context(realm, at, LeafKind::IntNull, 0).unwrap();
    assert_eq!(tree.count().unwrap(), 2);
    assert!(tree.is_null(0).unwrap());
    assert!(!tree.is_null(1).unwrap());
    assert!(is_invalid(tree.is_null(2)));
    let plain = BpTree::from_ref_with_context(realm, at, LeafKind::Int, 0).unwrap();
    assert_eq!(plain.count().unwrap(), 3);
    assert!(!plain.is_null(0).unwrap());
}

#[test]
fn inner_nodes_that_have_the_wrong_shape_are_damage() {
    let mut b = Builder::new();
    let leaf = b.ints(0, &[1, 2]);
    // An inner node needs the has-refs flag.
    let no_refs = b.ints(INNER, &[tagged(2), leaf, 4]);
    // An inner node needs at least two slots.
    let short = b.ints(INNER | HAS_REFS, &[tagged(2)]);
    // The last slot of the root is twice the number of elements.
    let odd = b.ints(INNER | HAS_REFS, &[tagged(2), leaf, 5]);
    // A node in compact form holds at least one element in each child.
    let empty_children = b.ints(INNER | HAS_REFS, &[tagged(0), leaf, 4]);
    // A node without offsets is in neither form.
    let no_offsets = b.ints(INNER | HAS_REFS, &[0, leaf, 4]);
    let good = b.compact(2, &[leaf], 2);
    let bytes = b.finish(24);
    let realm = Realm::from_bytes(&bytes).unwrap();
    let tree = |at: u64| BpTree::from_ref_with_context(realm, RealmRef::new(at as usize), LeafKind::Int, 0);
    assert!(is_invalid(tree(no_refs)));
    assert!(is_invalid(tree(short)));
    assert!(is_invalid(tree(odd)));
    let t = tree(empty_children).unwrap();
    assert!(is_invalid(t.get(0)));
    let t = tree(no_offsets).unwrap();
    assert!(is_invalid(t.get(0)));
    let t = tree(good).unwrap();
    assert_eq!(t.count().unwrap(), 2);
    assert_eq!(int_of(&t.get(1).unwrap()), 2);
    // The last slot is no child.
    assert!(is_invalid(t.get(2)));
}

#[test]
fn offsets_that_fall_are_damage() {
    let mut b = Builder::new();
    let first = b.ints(0, &[1, 2, 3]);
    let second = b.ints(0, &[4]);
    // The only offset lies above the element, so the child is the first, and
    // the second child starts at element 5.
    let root = b.general(&[5], &[first, second], 4);
    // Here the offsets fall, and send the element past the end of a leaf.
    let fallen = b.general(&[9, 2], &[first, second, second], 4);
    let bytes = b.finish(24);
    let realm = Realm::from_bytes(&bytes).unwrap();
    let tree = BpTree::from_ref_with_context(realm, RealmRef::new(root as usize), LeafKind::Int, 0)
        .unwrap();
    assert_eq!(int_of(&tree.get(2).unwrap()), 3);
    assert!(is_invalid(tree.get(3)));
    let tree = BpTree::from_ref_with_context(realm, RealmRef::new(fallen as usize), LeafKind::Int, 0)
        .unwrap();
    assert!(is_invalid(tree.get(3)));
}

#[test]
fn the_dump_of_a_tree_goes_node_by_node() {
    let mut b = Builder::new();
    let leaf = b.ints(0, &[1, 2]);
    let offsets_leaf = b.ints(0, &[3]);
    let compact = b.compact(2, &[leaf], 2);
    let offsets = b.ints(0, &[2]);
    let general = b.ints(INNER | HAS_REFS, &[offsets, offsets_leaf, 2]);
    let top = b.ints(HAS_REFS, &[compact, 0, tagged(9), general]);
    let bytes = b.finish(top);
    let realm = Realm::from_bytes(&bytes).unwrap();
    let lines = realm.walk_tree().unwrap();
    let shown: Vec<String> = lines.iter().map(|l| format!("{:?}", l)).collect();
    let kinds: Vec<&str> = shown.iter().map(|l| l.split(' ').next().unwrap()).collect();
    assert_eq!(
        kinds,
        vec![
            "Node", "Node", "Inner", "Node", "Leaf", "EmptySlot", "Inline", "Node", "Inner",
            "Node", "Leaf", "Node", "Leaf",
        ]
    );
    match lines[0] {
        realm_db_reader::debug::DumpLine::Node { depth, ref_, header } => {
            assert_eq!(depth, 0);
            assert_eq!(ref_.to_offset() as u64, top);
            assert_eq!(header.size, 4);
        },
        other => panic!("unexpected: {:?}", other),
    }
    match lines[2] {
        realm_db_reader::debug::DumpLine::Inner { depth, compact, elems_per_child, total_elements } => {
            assert_eq!(depth, 1);
            assert!(compact);
            assert_eq!(elems_per_child, 2);
            assert_eq!(total_elements, 2);
        },
        other => panic!("unexpected: {:?}", other),
    }
    match lines[6] {
        realm_db_reader::debug::DumpLine::Inline { depth, slot, value } => {
            assert_eq!((depth, slot, value), (1, 2, 9));
        },
        other => panic!("unexpected: {:?}", other),
    }
    match lines[8] {
        realm_db_reader::debug::DumpLine::Inner { compact, total_elements, .. } => {
            assert!(!compact);
            assert_eq!(total_elements, 1);
        },
        other => panic!("unexpected: {:?}", other),
    }
    // A slot that is no multiple of 8 cannot be followed.
    let mut b = Builder::new();
    let top = b.ints(HAS_REFS, &[12]);
    let bytes = b.finish(top);
    assert!(is_invalid(Realm::from_bytes(&bytes).unwrap().walk_tree()));
}

#[test]
fn link_lists_and_nullable_columns_in_a_table() {
    let mut b = Builder::new();
    let targets = b.ints(0, &[2, 0]);
    let lists = b.ints(HAS_REFS, &[targets, 0, tagged(1)]);
    let names = b.small_blobs(&[Some("ann"), None, Some("")], true);
    // Element 0 stands for null.
    let sentinel = f32::NAN.to_le_bytes();
    let floats = b.node(
        (1 << 3) | 3,
        4,
        &[sentinel, 0.5f32.to_le_bytes(), sentinel, 4f32.to_le_bytes()].concat(),
    );
    let table = b.table(
        &[TYPE_LINK_LIST, TYPE_STRING, TYPE_FLOAT],
        &["friends", "name", "score"],
        &[0, NULLABLE, NULLABLE],
        Some(&[tagged(7)]),
        &[lists, names, floats],
    );
    let top = b.group(&["t"], &[table]);
    let bytes = b.finish(top);
    let group = Realm::from_bytes(&bytes).unwrap().into_group().unwrap();
    let table = group.get_table(0).unwrap();
    assert_eq!(table.row_count().unwrap(), 3);
    let rows = table.get_rows().unwrap();
    match rows[0].get("friends") {
        Some(Value::LinkList(links)) => assert_eq!(links, &vec![Link::new(7, 2), Link::new(7, 0)]),
        other => panic!("unexpected: {:?}", other),
    }
    match rows[1].get("friends") {
        Some(Value::LinkList(links)) => assert!(links.is_empty()),
        other => panic!("unexpected: {:?}", other),
    }
    match rows[2].get("friends") {
        Some(Value::LinkList(links)) => assert_eq!(links, &vec![Link::new(7, 1)]),
        other => panic!("unexpected: {:?}", other),
    }
    assert_eq!(text_of(rows[0].get("name").unwrap()), "ann");
    assert!(rows[1].get("name").unwrap().is_none());
    assert_eq!(text_of(rows[2].get("name").unwrap()), "");
    match rows[0].get("score") {
        Some(Value::Float(bits)) => assert_eq!(f32::from_bits(*bits), 0.5),
        other => panic!("unexpected: {:?}", other),
    }
    assert!(rows[1].get("score").unwrap().is_none());
    match rows[2].get("score") {
        Some(Value::Float(bits)) => assert_eq!(f32::from_bits(*bits), 4.0),
        other => panic!("unexpected: {:?}", other),
    }
    let friends = table.get_column_spec(0).unwrap();
    assert!(!friends.is_null(1).unwrap());
    assert!(table.get_column_spec(1).unwrap().is_null(1).unwrap());
}
