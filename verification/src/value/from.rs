//! Making values from plain data.
use vstd::prelude::*;
use vstd::std_specs::convert::FromSpecImpl;

use crate::table::row::Row;
use crate::value::{Backlink, Link, Timestamp, Value, ValueView};

verus! {

impl From<i64> for Value {
    /// The integer `value` as a value.
    fn from(value: i64) -> (r: Value) {
        Value::Int(value)
    }
}

impl FromSpecImpl<i64> for Value {
    open spec fn obeys_from_spec() -> bool {
        true
    }

    open spec fn from_spec(value: i64) -> Value {
        Value::Int(value)
    }
}

impl From<bool> for Value {
    /// The boolean `value` as a value.
    fn from(value: bool) -> (r: Value) {
        Value::Bool(value)
    }
}

impl FromSpecImpl<bool> for Value {
    open spec fn obeys_from_spec() -> bool {
        true
    }

    open spec fn from_spec(value: bool) -> Value {
        Value::Bool(value)
    }
}

impl From<String> for Value {
    /// The string `value` as a value.
    fn from(value: String) -> (r: Value) {
        Value::String(value)
    }
}

impl FromSpecImpl<String> for Value {
    open spec fn obeys_from_spec() -> bool {
        true
    }

    open spec fn from_spec(value: String) -> Value {
        Value::String(value)
    }
}

impl From<&str> for Value {
    /// The text `value` as a value.
    fn from(value: &str) -> (r: Value)
        ensures
            r@ == ValueView::String(value@),
    {
        Value::String(value.to_owned())
    }
}

impl FromSpecImpl<&str> for Value {
    open spec fn obeys_from_spec() -> bool {
        false
    }

    open spec fn from_spec(value: &str) -> Value {
        Value::Null
    }
}

impl From<Timestamp> for Value {
    /// The timestamp `value` as a value.
    fn from(value: Timestamp) -> (r: Value) {
        Value::Timestamp(value)
    }
}

impl FromSpecImpl<Timestamp> for Value {
    open spec fn obeys_from_spec() -> bool {
        true
    }

    open spec fn from_spec(value: Timestamp) -> Value {
        Value::Timestamp(value)
    }
}

impl From<Link> for Value {
    /// The link `value` as a value.
    fn from(value: Link) -> (r: Value) {
        Value::Link(value)
    }
}

impl FromSpecImpl<Link> for Value {
    open spec fn obeys_from_spec() -> bool {
        true
    }

    open spec fn from_spec(value: Link) -> Value {
        Value::Link(value)
    }
}

impl From<Vec<Link>> for Value {
    /// The list of links `value` as a value.
    fn from(value: Vec<Link>) -> (r: Value) {
        Value::LinkList(value)
    }
}

impl FromSpecImpl<Vec<Link>> for Value {
    open spec fn obeys_from_spec() -> bool {
        true
    }

    open spec fn from_spec(value: Vec<Link>) -> Value {
        Value::LinkList(value)
    }
}

impl From<Backlink> for Value {
    /// The backlink `value` as a value.
    fn from(value: Backlink) -> (r: Value) {
        Value::BackLink(value)
    }
}

impl FromSpecImpl<Backlink> for Value {
    open spec fn obeys_from_spec() -> bool {
        true
    }

    open spec fn from_spec(value: Backlink) -> Value {
        Value::BackLink(value)
    }
}

impl From<Vec<Row>> for Value {
    /// The rows `value` of a subtable as a value.
    fn from(value: Vec<Row>) -> (r: Value) {
        Value::Table(value)
    }
}

impl FromSpecImpl<Vec<Row>> for Value {
    open spec fn obeys_from_spec() -> bool {
        true
    }

    open spec fn from_spec(value: Vec<Row>) -> Value {
        Value::Table(value)
    }
}

impl From<Option<i64>> for Value {
    /// The integer `value` as a value, or null where there is none.
    fn from(value: Option<i64>) -> (r: Value) {
        match value {
            Some(v) => Value::Int(v),
            None => Value::Null,
        }
    }
}

impl FromSpecImpl<Option<i64>> for Value {
    open spec fn obeys_from_spec() -> bool {
        true
    }

    open spec fn from_spec(value: Option<i64>) -> Value {
        match value {
            Some(v) => Value::Int(v),
            None => Value::Null,
        }
    }
}

impl From<Option<bool>> for Value {
    /// The boolean `value` as a value, or null where there is none.
    fn from(value: Option<bool>) -> (r: Value) {
        match value {
            Some(v) => Value::Bool(v),
            None => Value::Null,
        }
    }
}

impl FromSpecImpl<Option<bool>> for Value {
    open spec fn obeys_from_spec() -> bool {
        true
    }

    open spec fn from_spec(value: Option<bool>) -> Value {
        match value {
            Some(v) => Value::Bool(v),
            None => Value::Null,
        }
    }
}

impl From<Option<String>> for Value {
    /// The string `value` as a value, or null where there is none.
    fn from(value: Option<String>) -> (r: Value) {
        match value {
            Some(v) => Value::String(v),
            None => Value::Null,
        }
    }
}

impl FromSpecImpl<Option<String>> for Value {
    open spec fn obeys_from_spec() -> bool {
        true
    }

    open spec fn from_spec(value: Option<String>) -> Value {
        match value {
            Some(v) => Value::String(v),
            None => Value::Null,
        }
    }
}

impl From<Option<Timestamp>> for Value {
    /// The timestamp `value` as a value, or null where there is none.
    fn from(value: Option<Timestamp>) -> (r: Value) {
        match value {
            Some(v) => Value::Timestamp(v),
            None => Value::Null,
        }
    }
}

impl FromSpecImpl<Option<Timestamp>> for Value {
    open spec fn obeys_from_spec() -> bool {
        true
    }

    open spec fn from_spec(value: Option<Timestamp>) -> Value {
        match value {
            Some(v) => Value::Timestamp(v),
            None => Value::Null,
        }
    }
}

impl From<Option<Link>> for Value {
    /// The link `value` as a value, or null where there is none.
    fn from(value: Option<Link>) -> (r: Value) {
        match value {
            Some(v) => Value::Link(v),
            None => Value::Null,
        }
    }
}

impl FromSpecImpl<Option<Link>> for Value {
    open spec fn obeys_from_spec() -> bool {
        true
    }

    open spec fn from_spec(value: Option<Link>) -> Value {
        match value {
            Some(v) => Value::Link(v),
            None => Value::Null,
        }
    }
}

impl Value {
    /// The single-precision number with the bits `bits` as a value.
    pub fn from_float_bits(bits: u32) -> (r: Value)
        ensures
            r@ == ValueView::Float(bits),
    {
        Value::Float(bits)
    }

    /// The double-precision number with the bits `bits` as a value.
    pub fn from_double_bits(bits: u64) -> (r: Value)
        ensures
            r@ == ValueView::Double(bits),
    {
        Value::Double(bits)
    }
}

} // verus!
