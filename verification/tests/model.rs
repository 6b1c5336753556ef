//! Rows made by hand, and the models that are made of them.
use realm_db_reader::error::ValueError;
use realm_db_reader::value::into::{array_value, take_field};
use realm_db_reader::value::ARRAY_VALUE_KEY;
use realm_db_reader::{Backlink, Link, RealmFileError, Row, TableError, Timestamp, Value};

#[derive(Debug, PartialEq)]
struct SubModel {
    left: i64,
    right: i64,
}

impl TryFrom<Row> for SubModel {
    type Error = ValueError;

    fn try_from(mut row: Row) -> Result<SubModel, ValueError> {
        let left: i64 = take_field(&mut row, "left", "SubModel")?.try_into()?;
        let right: i64 = take_field(&mut row, "right", "SubModel")?.try_into()?;
        Ok(SubModel { left, right })
    }
}

struct MyModel {
    id: String,
    foo: Option<String>,
    bar: Option<Timestamp>,
    baz: i64,
    qux: Option<i64>,
    other: bool,
    items: Vec<String>,
    sub_items: Vec<SubModel>,
}

impl TryFrom<Row> for MyModel {
    type Error = ValueError;

    fn try_from(mut row: Row) -> Result<MyModel, ValueError> {
        let id: String = take_field(&mut row, "id", "MyModel")?.try_into()?;
        let foo: Option<String> = take_field(&mut row, "foo", "MyModel")?.try_into()?;
        let bar: Option<Timestamp> = take_field(&mut row, "bar", "MyModel")?.try_into()?;
        let baz: i64 = take_field(&mut row, "baz", "MyModel")?.try_into()?;
        let qux: Option<i64> = take_field(&mut row, "qux", "MyModel")?.try_into()?;
        let other: bool = take_field(&mut row, "!invalid_rust_alias", "MyModel")?.try_into()?;
        let items: Vec<String> = take_field(&mut row, "items", "MyModel")?.try_into()?;
        let sub_items: Vec<SubModel> = take_field(&mut row, "children", "MyModel")?.try_into()?;
        Ok(MyModel { id, foo, bar, baz, qux, other, items, sub_items })
    }
}

fn names(all: &[&str]) -> Vec<String> {
    all.iter().map(|n| n.to_string()).collect()
}

#[test]
fn test_realm_model() {
    let foo_values = [Some("hello".to_string()), None];
    let bar_values = [Some(Timestamp { seconds: 1_700_000_000, nanoseconds: 12 }), None];
    let qux_values: [Option<i64>; 2] = [Some(42), None];

    for foo_value in foo_values.iter() {
        for bar_value in bar_values.iter() {
            for qux_value in qux_values.iter() {
                let values: Vec<Value> = vec![
                    "id_value".into(),
                    foo_value.clone().into(),
                    (*bar_value).into(),
                    "extra_field".into(),
                    100i64.into(),
                    (*qux_value).into(),
                    true.into(),
                    "extra_field".into(),
                    vec![
                        Row::new(vec!["member1".into()], names(&[ARRAY_VALUE_KEY])),
                        Row::new(vec!["member2".into()], names(&[ARRAY_VALUE_KEY])),
                    ]
                    .into(),
                    vec![
                        Row::new(vec![1i64.into(), 2i64.into()], names(&["left", "right"])),
                        Row::new(vec![3i64.into(), 4i64.into()], names(&["left", "right"])),
                    ]
                    .into(),
                ];
                let row = Row::new(
                    values,
                    names(&[
                        "id",
                        "foo",
                        "bar",
                        "some_other_field",
                        "baz",
                        "qux",
                        "!invalid_rust_alias",
                        "another_field",
                        "items",
                        "children",
                    ]),
                );

                let my_model: MyModel = row.try_into().unwrap();
                assert_eq!(my_model.id, "id_value");
                assert_eq!(my_model.foo, *foo_value);
                assert_eq!(my_model.bar, *bar_value);
                assert_eq!(my_model.baz, 100);
                assert_eq!(my_model.qux, *qux_value);
                assert!(my_model.other);
                assert_eq!(my_model.items, vec!["member1".to_string(), "member2".to_string()]);
                assert_eq!(
                    my_model.sub_items,
                    vec![SubModel { left: 1, right: 2 }, SubModel { left: 3, right: 4 }]
                );
            }
        }
    }
}

struct LinkModel {
    id: String,
    link_a: Link,
    optional_link: Option<Link>,
    backlinks: Vec<Backlink>,
}

impl TryFrom<Row> for LinkModel {
    type Error = ValueError;

    fn try_from(mut row: Row) -> Result<LinkModel, ValueError> {
        let id: String = take_field(&mut row, "id", "LinkModel")?.try_into()?;
        let link_a: Link = take_field(&mut row, "link_a", "LinkModel")?.try_into()?;
        let optional_link: Option<Link> =
            take_field(&mut row, "optional_link", "LinkModel")?.try_into()?;
        let backlinks = row.take_backlinks();
        Ok(LinkModel { id, link_a, optional_link, backlinks })
    }
}

#[test]
fn test_model_with_links() {
    let values: Vec<Value> = vec![
        "123456789".into(),
        "irrelevant_field".into(),
        Link::new(12, 5).into(),
        vec![Link::new(13, 6)].into(),
        Value::Null,
        Backlink::new(12, 5, vec![1989]).into(),
    ];
    // Backlinks are unnamed.
    let row = Row::new(values, names(&["id", "other_field", "link_a", "link_b", "optional_link"]));

    let model: LinkModel = row.try_into().unwrap();
    assert_eq!(model.id, "123456789");
    assert_eq!(model.backlinks, vec![Backlink::new(12, 5, vec![1989])]);
    assert_eq!(model.link_a, Link::new(12, 5));
    assert_eq!(model.optional_link, None);
}

#[test]
fn a_row_keeps_its_first_field_of_a_name() {
    let row = Row::new(
        vec![Value::Int(1), Value::Int(2), Value::Int(3)],
        names(&["a", "b", "a"]),
    );
    assert_eq!(row.entries().len(), 2);
    assert!(matches!(row.get("a"), Some(Value::Int(1))));
    assert!(matches!(row.get("b"), Some(Value::Int(2))));
    assert!(row.get("c").is_none());
}

#[test]
fn a_row_gives_up_what_is_taken() {
    let mut row = Row::new(
        vec![Value::Int(1), Backlink::new(0, 1, vec![2]).into(), Value::Bool(true)],
        names(&["a", "b"]),
    );
    assert_eq!(row.backlinks().len(), 1);
    assert!(matches!(row.take("a"), Some(Value::Int(1))));
    assert!(row.take("a").is_none());
    assert!(!row.has_field("a"));
    assert!(row.has_field("b"));
    assert_eq!(row.take_backlinks(), vec![Backlink::new(0, 1, vec![2])]);
    assert!(row.take_backlinks().is_empty());
    let owned = row.into_owned();
    assert!(matches!(owned.get("b"), Some(Value::Bool(true))));
}

#[test]
fn values_that_have_another_type_are_refused() {
    let r: Result<i64, ValueError> = Value::Bool(true).try_into();
    match r {
        Err(ValueError::UnexpectedType { expected, found }) => {
            assert_eq!(expected, "i64");
            assert!(matches!(found, Value::Bool(true)));
        },
        _ => panic!("a boolean is no integer"),
    }
    let r: Result<String, ValueError> = Value::Null.try_into();
    assert!(matches!(r, Err(ValueError::UnexpectedType { expected: "String", .. })));
    let r: Result<Option<String>, ValueError> = Value::Null.try_into();
    assert_eq!(r.unwrap(), None);
    let r: Result<Option<bool>, ValueError> = Value::Bool(false).try_into();
    assert_eq!(r.unwrap(), Some(false));
    let r: Result<bool, ValueError> = Value::Int(0).try_into();
    assert!(matches!(r, Err(ValueError::UnexpectedType { expected: "bool", .. })));
    let r: Result<Timestamp, ValueError> = Value::Int(0).try_into();
    assert!(matches!(r, Err(ValueError::UnexpectedType { expected: "Timestamp", .. })));
    let r: Result<Link, ValueError> = Value::Null.try_into();
    assert!(matches!(r, Err(ValueError::UnexpectedType { expected: "Link", .. })));
    let r: Result<Backlink, ValueError> = Value::Null.try_into();
    assert!(matches!(r, Err(ValueError::UnexpectedType { expected: "Backlink", .. })));
    let r: Result<u32, ValueError> = Value::Double(1).try_into_float_bits();
    assert!(matches!(r, Err(ValueError::UnexpectedType { expected: "f32", .. })));
    let r: Result<u64, ValueError> = Value::Float(1).try_into_double_bits();
    assert!(matches!(r, Err(ValueError::UnexpectedType { expected: "f64", .. })));
}

#[test]
fn a_row_that_is_no_element_of_a_list_is_refused() {
    let row = Row::new(vec![Value::Int(5)], names(&["n"]));
    let r: Result<i64, ValueError> = row.try_into();
    match r {
        Err(ValueError::ExpectedArrayRow { field, found }) => {
            assert_eq!(field, ARRAY_VALUE_KEY);
            assert!(found.has_field("n"));
        },
        _ => panic!("the row has no element"),
    }
    let row = Row::new(vec![Value::Int(5)], names(&[ARRAY_VALUE_KEY]));
    assert!(matches!(array_value(row), Ok(Value::Int(5))));
    let row = Row::new(vec![Value::Int(5)], names(&[ARRAY_VALUE_KEY]));
    let n: i64 = row.try_into().unwrap();
    assert_eq!(n, 5);
    let list: Value = vec![Row::new(vec![Value::Bool(true)], names(&[ARRAY_VALUE_KEY]))].into();
    let r: Result<Vec<i64>, ValueError> = list.try_into();
    assert!(matches!(r, Err(ValueError::VecConversionError { .. })));
}

#[test]
fn a_missing_field_is_named() {
    let mut row = Row::new(vec![Value::Int(5)], names(&["n"]));
    match take_field(&mut row, "m", "Model") {
        Err(ValueError::MissingField { field, target_type, remaining_fields }) => {
            assert_eq!(field, "m");
            assert_eq!(target_type, "Model");
            assert!(remaining_fields.has_field("n"));
        },
        _ => panic!("the row has no such field"),
    }
    assert!(row.has_field("n"));
}

#[test]
fn values_say_whether_they_are_null() {
    assert!(Value::Null.is_none());
    assert!(!Value::Int(0).is_none());
    let v: Value = Option::<i64>::None.into();
    assert!(v.is_none());
    let v: Value = Some(3i64).into();
    assert!(matches!(v, Value::Int(3)));
    let v: Value = Some("x".to_string()).into();
    assert!(matches!(v, Value::String(_)));
    let v: Value = Some(Link::new(1, 2)).into();
    assert!(matches!(v, Value::Link(_)));
    let v: Value = Some(true).into();
    assert!(matches!(v, Value::Bool(true)));
    let copy = Value::Table(vec![Row::new(vec![Value::Int(1)], names(&["a"]))]).clone();
    match copy {
        Value::Table(rows) => assert!(matches!(rows[0].get("a"), Some(Value::Int(1)))),
        _ => panic!("a copy of a table is a table"),
    }
}

#[test]
fn a_file_error_becomes_a_table_error() {
    let e = RealmFileError::invalid("broken");
    match TableError::from(e) {
        TableError::FileError(RealmFileError::InvalidRealmFile { reason }) => {
            assert_eq!(reason, "broken")
        },
        other => panic!("unexpected: {:?}", other),
    }
    match RealmFileError::unsupported("later") {
        RealmFileError::Unsupported { reason } => assert_eq!(reason, "later"),
        other => panic!("unexpected: {:?}", other),
    }
}
