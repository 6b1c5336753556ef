//! Taking plain data out of values.
use vstd::prelude::*;
use vstd::std_specs::convert::TryFromSpecImpl;

use crate::error::{ValueError, ValueResult};
use crate::table::row::Row;
use crate::value::{Backlink, Link, Timestamp, Value, ValueView, ARRAY_VALUE_KEY};

verus! {

/// The value of the one field of a row that stands for an element of a list
/// of plain values. Fails with `ExpectedArrayRow` where the row has no such
/// field.
pub fn array_value(row: Row) -> (r: ValueResult<Value>)
    ensures
        match row@.field(ARRAY_VALUE_KEY@) {
            Some(v) => r matches Ok(x) && x@ == v,
            None => r matches Err(ValueError::ExpectedArrayRow { field, found }) && found@
                == row@,
        },
{
    let mut row = row;
    match row.take(ARRAY_VALUE_KEY) {
        Some(value) => Ok(value),
        None => Err(ValueError::ExpectedArrayRow { field: ARRAY_VALUE_KEY, found: row.into_owned() }),
    }
}

/// Takes the field `field` out of `row` for the model `target_type`. Fails
/// with `MissingField`, which holds what is left of the row, where the row
/// has no such field.
pub fn take_field(row: &mut Row, field: &'static str, target_type: &'static str) -> (r: ValueResult<
    Value,
>)
    ensures
        match old(row)@.field(field@) {
            Some(v) => r matches Ok(x) && x@ == v && final(row)@ == old(row)@.without(field@),
            None => r matches Err(ValueError::MissingField { field: f, target_type: t, remaining_fields })
                && f@ == field@ && t@ == target_type@ && remaining_fields@ == old(row)@
                && final(row)@ == old(row)@,
        },
{
    match row.take(field) {
        Some(value) => Ok(value),
        None => Err(
            ValueError::MissingField { field, target_type, remaining_fields: row.clone().into_owned() },
        ),
    }
}

/// The rows of the subtable that `value` holds. Fails with `ExpectedTable`
/// where `value` holds no subtable.
pub fn table_rows_of(value: Value) -> (r: ValueResult<Vec<Row>>)
    ensures
        match value {
            Value::Table(rows) => r == Ok::<Vec<Row>, ValueError>(rows),
            other => r == Err::<Vec<Row>, ValueError>(ValueError::ExpectedTable { found: other }),
        },
{
    match value {
        Value::Table(rows) => Ok(rows),
        other => Err(ValueError::ExpectedTable { found: other }),
    }
}

/// The error that says that an element of a list of `element_type` could not
/// be made of its row, because of `source`.
pub fn element_error(element_type: &'static str, source: ValueError) -> (r: ValueError)
    ensures
        r == (ValueError::VecConversionError { element_type, source: Box::new(source) }),
{
    ValueError::VecConversionError { element_type, source: Box::new(source) }
}

impl Value {
    /// The bits of the single-precision number that the value holds.
    pub fn try_into_float_bits(self) -> (r: ValueResult<u32>)
        ensures
            match self {
                Value::Float(bits) => r == Ok::<u32, ValueError>(bits),
                other => r == Err::<u32, ValueError>(
                    ValueError::UnexpectedType { expected: "f32", found: other },
                ),
            },
    {
        match self {
            Value::Float(bits) => Ok(bits),
            other => Err(ValueError::UnexpectedType { expected: "f32", found: other }),
        }
    }

    /// The bits of the double-precision number that the value holds.
    pub fn try_into_double_bits(self) -> (r: ValueResult<u64>)
        ensures
            match self {
                Value::Double(bits) => r == Ok::<u64, ValueError>(bits),
                other => r == Err::<u64, ValueError>(
                    ValueError::UnexpectedType { expected: "f64", found: other },
                ),
            },
    {
        match self {
            Value::Double(bits) => Ok(bits),
            other => Err(ValueError::UnexpectedType { expected: "f64", found: other }),
        }
    }
}

impl TryFrom<Value> for String {
    type Error = ValueError;

    /// The string that `value` holds.
    fn try_from(value: Value) -> (r: Result<String, ValueError>) {
        match value {
            Value::String(v) => Ok(v),
            other => Err(ValueError::UnexpectedType { expected: "String", found: other }),
        }
    }
}

impl TryFromSpecImpl<Value> for String {
    open spec fn obeys_try_from_spec() -> bool {
        true
    }

    open spec fn try_from_spec(value: Value) -> Result<String, ValueError> {
        match value {
            Value::String(v) => Ok(v),
            other => Err(ValueError::UnexpectedType { expected: "String", found: other }),
        }
    }
}

impl TryFrom<Value> for Option<String> {
    type Error = ValueError;

    /// The string that `value` holds, or `None` where it is null.
    fn try_from(value: Value) -> (r: Result<Option<String>, ValueError>) {
        match value {
            Value::String(v) => Ok(Some(v)),
            Value::Null => Ok(None),
            other => Err(ValueError::UnexpectedType { expected: "String", found: other }),
        }
    }
}

impl TryFromSpecImpl<Value> for Option<String> {
    open spec fn obeys_try_from_spec() -> bool {
        true
    }

    open spec fn try_from_spec(value: Value) -> Result<Option<String>, ValueError> {
        match value {
            Value::String(v) => Ok(Some(v)),
            Value::Null => Ok(None),
            other => Err(ValueError::UnexpectedType { expected: "String", found: other }),
        }
    }
}

impl TryFrom<Value> for i64 {
    type Error = ValueError;

    /// The integer that `value` holds.
    fn try_from(value: Value) -> (r: Result<i64, ValueError>) {
        match value {
            Value::Int(v) => Ok(v),
            other => Err(ValueError::UnexpectedType { expected: "i64", found: other }),
        }
    }
}

impl TryFromSpecImpl<Value> for i64 {
    open spec fn obeys_try_from_spec() -> bool {
        true
    }

    open spec fn try_from_spec(value: Value) -> Result<i64, ValueError> {
        match value {
            Value::Int(v) => Ok(v),
            other => Err(ValueError::UnexpectedType { expected: "i64", found: other }),
        }
    }
}

impl TryFrom<Value> for Option<i64> {
    type Error = ValueError;

    /// The integer that `value` holds, or `None` where it is null.
    fn try_from(value: Value) -> (r: Result<Option<i64>, ValueError>) {
        match value {
            Value::Int(v) => Ok(Some(v)),
            Value::Null => Ok(None),
            other => Err(ValueError::UnexpectedType { expected: "i64", found: other }),
        }
    }
}

impl TryFromSpecImpl<Value> for Option<i64> {
    open spec fn obeys_try_from_spec() -> bool {
        true
    }

    open spec fn try_from_spec(value: Value) -> Result<Option<i64>, ValueError> {
        match value {
            Value::Int(v) => Ok(Some(v)),
            Value::Null => Ok(None),
            other => Err(ValueError::UnexpectedType { expected: "i64", found: other }),
        }
    }
}

impl TryFrom<Value> for bool {
    type Error = ValueError;

    /// The boolean that `value` holds.
    fn try_from(value: Value) -> (r: Result<bool, ValueError>) {
        match value {
            Value::Bool(v) => Ok(v),
            other => Err(ValueError::UnexpectedType { expected: "bool", found: other }),
        }
    }
}

impl TryFromSpecImpl<Value> for bool {
    open spec fn obeys_try_from_spec() -> bool {
        true
    }

    open spec fn try_from_spec(value: Value) -> Result<bool, ValueError> {
        match value {
            Value::Bool(v) => Ok(v),
            other => Err(ValueError::UnexpectedType { expected: "bool", found: other }),
        }
    }
}

impl TryFrom<Value> for Option<bool> {
    type Error = ValueError;

    /// The boolean that `value` holds, or `None` where it is null.
    fn try_from(value: Value) -> (r: Result<Option<bool>, ValueError>) {
        match value {
            Value::Bool(v) => Ok(Some(v)),
            Value::Null => Ok(None),
            other => Err(ValueError::UnexpectedType { expected: "bool", found: other }),
        }
    }
}

impl TryFromSpecImpl<Value> for Option<bool> {
    open spec fn obeys_try_from_spec() -> bool {
        true
    }

    open spec fn try_from_spec(value: Value) -> Result<Option<bool>, ValueError> {
        match value {
            Value::Bool(v) => Ok(Some(v)),
            Value::Null => Ok(None),
            other => Err(ValueError::UnexpectedType { expected: "bool", found: other }),
        }
    }
}

impl TryFrom<Value> for Timestamp {
    type Error = ValueError;

    /// The timestamp that `value` holds.
    fn try_from(value: Value) -> (r: Result<Timestamp, ValueError>) {
        match value {
            Value::Timestamp(v) => Ok(v),
            other => Err(ValueError::UnexpectedType { expected: "Timestamp", found: other }),
        }
    }
}

impl TryFromSpecImpl<Value> for Timestamp {
    open spec fn obeys_try_from_spec() -> bool {
        true
    }

    open spec fn try_from_spec(value: Value) -> Result<Timestamp, ValueError> {
        match value {
            Value::Timestamp(v) => Ok(v),
            other => Err(ValueError::UnexpectedType { expected: "Timestamp", found: other }),
        }
    }
}

impl TryFrom<Value> for Option<Timestamp> {
    type Error = ValueError;

    /// The timestamp that `value` holds, or `None` where it is null.
    fn try_from(value: Value) -> (r: Result<Option<Timestamp>, ValueError>) {
        match value {
            Value::Timestamp(v) => Ok(Some(v)),
            Value::Null => Ok(None),
            other => Err(ValueError::UnexpectedType { expected: "Timestamp", found: other }),
        }
    }
}

impl TryFromSpecImpl<Value> for Option<Timestamp> {
    open spec fn obeys_try_from_spec() -> bool {
        true
    }

    open spec fn try_from_spec(value: Value) -> Result<Option<Timestamp>, ValueError> {
        match value {
            Value::Timestamp(v) => Ok(Some(v)),
            Value::Null => Ok(None),
            other => Err(ValueError::UnexpectedType { expected: "Timestamp", found: other }),
        }
    }
}

impl TryFrom<Value> for Backlink {
    type Error = ValueError;

    /// The backlink that `value` holds.
    fn try_from(value: Value) -> (r: Result<Backlink, ValueError>) {
        match value {
            Value::BackLink(v) => Ok(v),
            other => Err(ValueError::UnexpectedType { expected: "Backlink", found: other }),
        }
    }
}

impl TryFromSpecImpl<Value> for Backlink {
    open spec fn obeys_try_from_spec() -> bool {
        true
    }

    open spec fn try_from_spec(value: Value) -> Result<Backlink, ValueError> {
        match value {
            Value::BackLink(v) => Ok(v),
            other => Err(ValueError::UnexpectedType { expected: "Backlink", found: other }),
        }
    }
}

impl TryFrom<Value> for Link {
    type Error = ValueError;

    /// The link that `value` holds.
    fn try_from(value: Value) -> (r: Result<Link, ValueError>) {
        match value {
            Value::Link(v) => Ok(v),
            other => Err(ValueError::UnexpectedType { expected: "Link", found: other }),
        }
    }
}

impl TryFromSpecImpl<Value> for Link {
    open spec fn obeys_try_from_spec() -> bool {
        true
    }

    open spec fn try_from_spec(value: Value) -> Result<Link, ValueError> {
        match value {
            Value::Link(v) => Ok(v),
            other => Err(ValueError::UnexpectedType { expected: "Link", found: other }),
        }
    }
}

impl TryFrom<Value> for Option<Link> {
    type Error = ValueError;

    /// The link that `value` holds, or `None` where it is null.
    fn try_from(value: Value) -> (r: Result<Option<Link>, ValueError>) {
        match value {
            Value::Link(v) => Ok(Some(v)),
            Value::Null => Ok(None),
            other => Err(ValueError::UnexpectedType { expected: "Link", found: other }),
        }
    }
}

impl TryFromSpecImpl<Value> for Option<Link> {
    open spec fn obeys_try_from_spec() -> bool {
        true
    }

    open spec fn try_from_spec(value: Value) -> Result<Option<Link>, ValueError> {
        match value {
            Value::Link(v) => Ok(Some(v)),
            Value::Null => Ok(None),
            other => Err(ValueError::UnexpectedType { expected: "Link", found: other }),
        }
    }
}

impl TryFrom<Row> for String {
    type Error = ValueError;

    /// The element of a list that `row` stands for: the value of its one field.
    fn try_from(row: Row) -> (r: Result<String, ValueError>)
        ensures
            match row@.field(ARRAY_VALUE_KEY@) {
                Some(v) => match r {
                    Ok(x) => v == ValueView::String(x@),
                    Err(e) => e is UnexpectedType && !(exists|x: String| v == ValueView::String(x@)),
                },
                None => r matches Err(ValueError::ExpectedArrayRow { field, found }) && found@
                    == row@,
            },
    {
        let value = array_value(row)?;
        <String as TryFrom<Value>>::try_from(value)
    }
}

impl TryFromSpecImpl<Row> for String {
    open spec fn obeys_try_from_spec() -> bool {
        false
    }

    open spec fn try_from_spec(row: Row) -> Result<String, ValueError> {
        Err(ValueError::ExpectedArrayRow { field: ARRAY_VALUE_KEY, found: row })
    }
}

impl TryFrom<Row> for i64 {
    type Error = ValueError;

    /// The element of a list that `row` stands for: the value of its one field.
    fn try_from(row: Row) -> (r: Result<i64, ValueError>)
        ensures
            match row@.field(ARRAY_VALUE_KEY@) {
                Some(v) => match r {
                    Ok(x) => v == ValueView::Int(x),
                    Err(e) => e is UnexpectedType && !(exists|x: i64| v == ValueView::Int(x)),
                },
                None => r matches Err(ValueError::ExpectedArrayRow { field, found }) && found@
                    == row@,
            },
    {
        let value = array_value(row)?;
        <i64 as TryFrom<Value>>::try_from(value)
    }
}

impl TryFromSpecImpl<Row> for i64 {
    open spec fn obeys_try_from_spec() -> bool {
        false
    }

    open spec fn try_from_spec(row: Row) -> Result<i64, ValueError> {
        Err(ValueError::ExpectedArrayRow { field: ARRAY_VALUE_KEY, found: row })
    }
}

impl TryFrom<Row> for bool {
    type Error = ValueError;

    /// The element of a list that `row` stands for: the value of its one field.
    fn try_from(row: Row) -> (r: Result<bool, ValueError>)
        ensures
            match row@.field(ARRAY_VALUE_KEY@) {
                Some(v) => match r {
                    Ok(x) => v == ValueView::Bool(x),
                    Err(e) => e is UnexpectedType && !(exists|x: bool| v == ValueView::Bool(x)),
                },
                None => r matches Err(ValueError::ExpectedArrayRow { field, found }) && found@
                    == row@,
            },
    {
        let value = array_value(row)?;
        <bool as TryFrom<Value>>::try_from(value)
    }
}

impl TryFromSpecImpl<Row> for bool {
    open spec fn obeys_try_from_spec() -> bool {
        false
    }

    open spec fn try_from_spec(row: Row) -> Result<bool, ValueError> {
        Err(ValueError::ExpectedArrayRow { field: ARRAY_VALUE_KEY, found: row })
    }
}

impl TryFrom<Row> for Timestamp {
    type Error = ValueError;

    /// The element of a list that `row` stands for: the value of its one field.
    fn try_from(row: Row) -> (r: Result<Timestamp, ValueError>)
        ensures
            match row@.field(ARRAY_VALUE_KEY@) {
                Some(v) => match r {
                    Ok(x) => v == ValueView::Timestamp(x),
                    Err(e) => e is UnexpectedType && !(exists|x: Timestamp| v == ValueView::Timestamp(x)),
                },
                None => r matches Err(ValueError::ExpectedArrayRow { field, found }) && found@
                    == row@,
            },
    {
        let value = array_value(row)?;
        <Timestamp as TryFrom<Value>>::try_from(value)
    }
}

impl TryFromSpecImpl<Row> for Timestamp {
    open spec fn obeys_try_from_spec() -> bool {
        false
    }

    open spec fn try_from_spec(row: Row) -> Result<Timestamp, ValueError> {
        Err(ValueError::ExpectedArrayRow { field: ARRAY_VALUE_KEY, found: row })
    }
}

impl TryFrom<Row> for Backlink {
    type Error = ValueError;

    /// The element of a list that `row` stands for: the value of its one field.
    fn try_from(row: Row) -> (r: Result<Backlink, ValueError>)
        ensures
            match row@.field(ARRAY_VALUE_KEY@) {
                Some(v) => match r {
                    Ok(x) => v == ValueView::BackLink(x@),
                    Err(e) => e is UnexpectedType && !(exists|x: Backlink| v == ValueView::BackLink(x@)),
                },
                None => r matches Err(ValueError::ExpectedArrayRow { field, found }) && found@
                    == row@,
            },
    {
        let value = array_value(row)?;
        <Backlink as TryFrom<Value>>::try_from(value)
    }
}

impl TryFromSpecImpl<Row> for Backlink {
    open spec fn obeys_try_from_spec() -> bool {
        false
    }

    open spec fn try_from_spec(row: Row) -> Result<Backlink, ValueError> {
        Err(ValueError::ExpectedArrayRow { field: ARRAY_VALUE_KEY, found: row })
    }
}

impl TryFrom<Row> for Link {
    type Error = ValueError;

    /// The element of a list that `row` stands for: the value of its one field.
    fn try_from(row: Row) -> (r: Result<Link, ValueError>)
        ensures
            match row@.field(ARRAY_VALUE_KEY@) {
                Some(v) => match r {
                    Ok(x) => v == ValueView::Link(x),
                    Err(e) => e is UnexpectedType && !(exists|x: Link| v == ValueView::Link(x)),
                },
                None => r matches Err(ValueError::ExpectedArrayRow { field, found }) && found@
                    == row@,
            },
    {
        let value = array_value(row)?;
        <Link as TryFrom<Value>>::try_from(value)
    }
}

impl TryFromSpecImpl<Row> for Link {
    open spec fn obeys_try_from_spec() -> bool {
        false
    }

    open spec fn try_from_spec(row: Row) -> Result<Link, ValueError> {
        Err(ValueError::ExpectedArrayRow { field: ARRAY_VALUE_KEY, found: row })
    }
}

impl<T: TryFrom<Row, Error = ValueError>> TryFrom<Value> for Vec<T> {
    type Error = ValueError;

    /// The list that the subtable in `value` stands for: one element made of
    /// each row, in order. Fails with `ExpectedTable` where `value` holds no
    /// subtable, and with `VecConversionError` at the first row of which no
    /// element can be made.
    fn try_from(value: Value) -> (r: Result<Vec<T>, ValueError>)
        ensures
            match value {
                Value::Table(rows) => match r {
                    Ok(list) => list@.len() == rows@.len() && forall|i: int|
                        0 <= i < rows@.len() ==> call_ensures(
                            T::try_from,
                            (rows@[i],),
                            Ok::<T, ValueError>(#[trigger] list@[i]),
                        ),
                    Err(e) => e matches ValueError::VecConversionError { element_type, source }
                        && exists|i: int|
                        0 <= i < rows@.len() && call_ensures(
                            T::try_from,
                            (#[trigger] rows@[i],),
                            Err::<T, ValueError>(*source),
                        ),
                },
                other => r == Err::<Vec<T>, ValueError>(ValueError::ExpectedTable { found: other }),
            },
    {
        let rows = table_rows_of(value)?;
        let ghost all = rows@;
        let mut rest = crate::table::row::reversed(rows);
        let mut result: Vec<T> = Vec::with_capacity(rest.len());
        while rest.len() > 0
            invariant
                value matches Value::Table(rows) && rows@ == all,
                rest@.len() + result@.len() == all.len(),
                forall|j: int| 0 <= j < rest@.len() ==> rest@[j] == all[all.len() - 1 - j],
                forall|i: int|
                    0 <= i < result@.len() ==> call_ensures(
                        T::try_from,
                        (all[i],),
                        Ok::<T, ValueError>(#[trigger] result@[i]),
                    ),
            decreases rest@.len(),
        {
            let ghost at = result@.len() as int;
            match rest.pop() {
                Some(row) => {
                    assert(row == all[at]);
                    match T::try_from(row) {
                        Ok(element) => {
                            result.push(element);
                        },
                        Err(e) => {
                            let error = element_error("element", e);
                            assert(call_ensures(
                                T::try_from,
                                (all[at],),
                                Err::<T, ValueError>(e),
                            ));
                            return Err(error);
                        },
                    }
                },
                None => {},
            }
        }
        Ok(result)
    }
}

impl<T: TryFrom<Row, Error = ValueError>> TryFromSpecImpl<Value> for Vec<T> {
    open spec fn obeys_try_from_spec() -> bool {
        false
    }

    open spec fn try_from_spec(value: Value) -> Result<Vec<T>, ValueError> {
        Err(ValueError::ExpectedTable { found: value })
    }
}

} // verus!
