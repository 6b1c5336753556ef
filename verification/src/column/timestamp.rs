//! Timestamps: seconds and nanoseconds that `chrono` takes for an instant.
use vstd::prelude::*;

use crate::cells::{chrono_from_timestamp, timestamp_made, timestamp_value};
use crate::value::{Timestamp, Value};

verus! {

/// Calls `chrono::DateTime::from_timestamp`, which makes the instant in UTC
/// that lies `seconds` seconds and `nanoseconds` nanoseconds after the start
/// of 1970, and hands back its `timestamp` and `timestamp_subsec_nanos`.
/// `chrono` has no instant for seconds out of its range or nanoseconds that
/// are invalid; where it has one, the two numbers come back as they went in.
#[verifier::external_body]
pub(crate) fn utc_from_timestamp(seconds: i64, nanoseconds: u32) -> (r: Option<(i64, u32)>)
    ensures
        r == chrono_from_timestamp(seconds, nanoseconds),
        r matches Some((s, n)) ==> s == seconds && n == nanoseconds,
{
    match chrono::DateTime::from_timestamp(seconds, nanoseconds) {
        Some(instant) => Some((instant.timestamp(), instant.timestamp_subsec_nanos())),
        None => None,
    }
}

/// The value of a timestamp of `seconds` and `nanoseconds` of which `chrono`
/// made `made`: null where both are 0 or `chrono` made nothing, else what it
/// made.
pub fn timestamp_from_made(seconds: i64, nanoseconds: i64, made: Option<(i64, u32)>) -> (r: Value)
    ensures
        r@ == timestamp_made(seconds, nanoseconds, made),
{
    if seconds == 0 && nanoseconds == 0 {
        return Value::Null;
    }
    match made {
        Some((s, n)) => Value::Timestamp(Timestamp { seconds: s, nanoseconds: n }),
        None => Value::Null,
    }
}

/// The value of a timestamp of `seconds` and `nanoseconds`: null where both
/// are 0, where the nanoseconds are no 32-bit number, and where `chrono` has
/// no such instant.
pub fn make_timestamp(seconds: i64, nanoseconds: i64) -> (r: Value)
    ensures
        r@ == timestamp_value(seconds, nanoseconds),
{
    if nanoseconds < 0 || nanoseconds > u32::MAX as i64 {
        return Value::Null;
    }
    let made = utc_from_timestamp(seconds, nanoseconds as u32);
    timestamp_from_made(seconds, nanoseconds, made)
}

} // verus!
