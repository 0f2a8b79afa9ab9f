//! Points in time.

use crate::error::{data_invalid, Error, ErrorView};
use chrono::{DateTime, Utc};
use vstd::prelude::*;

verus! {

/// The first millisecond that has a date: the beginning of the year -262143.
pub const FIRST_MILLISECOND: i64 = -8334601228800000;

/// The last millisecond that has a date: the end of the year 262142.
pub const LAST_MILLISECOND: i64 = 8210266876799999;

/// A point in time, in UTC.
#[derive(Debug, Clone, Copy, PartialEq, Eq, Structural)]
pub struct UtcTime {
    /// Whole seconds from the beginning of 1970.
    pub seconds: i64,
    /// Nanoseconds into the second.
    pub nanoseconds: u32,
}

/// The point in time that lies this many milliseconds after the beginning of 1970.
pub open spec fn time_at(timestamp_ms: i64) -> UtcTime {
    UtcTime {
        seconds: (timestamp_ms as int / 1000) as i64,
        nanoseconds: ((timestamp_ms as int % 1000) * 1000000) as u32,
    }
}

/// The seconds and nanoseconds of a timestamp in milliseconds.
///
/// Calls `DateTime::<Utc>::from_timestamp_millis`, which gives a date to the milliseconds of the
/// years -262143 to 262142 and none to the others, and reads the seconds and the nanoseconds of
/// that date with `timestamp` and `timestamp_subsec_nanos`: the seconds are the milliseconds
/// divided by a thousand and rounded down, the nanoseconds are what the division leaves.
#[verifier::external_body]
fn split_millis(timestamp_ms: i64) -> (r: Option<(i64, u32)>)
    ensures
        r is Some <==> FIRST_MILLISECOND <= timestamp_ms <= LAST_MILLISECOND,
        r matches Some(t) ==> t.0 == timestamp_ms as int / 1000 && t.1 == (timestamp_ms as int % 1000) * 1000000,
{
    match DateTime::<Utc>::from_timestamp_millis(timestamp_ms) {
        Some(t) => Some((t.timestamp(), t.timestamp_subsec_nanos())),
        None => None,
    }
}

/// The error about a timestamp that is too far from the present to be a date.
pub open spec fn invalid_timestamp() -> ErrorView {
    data_invalid("Invalid timestamp"@)
}

/// The point in time of a timestamp in milliseconds, or an error where the timestamp is too far
/// from the present to be a date.
pub fn timestamp_ms_to_utc(timestamp_ms: i64) -> (r: Result<UtcTime, Error>)
    ensures
        match r {
            Ok(t) => FIRST_MILLISECOND <= timestamp_ms <= LAST_MILLISECOND && t == time_at(timestamp_ms),
            Err(e) => !(FIRST_MILLISECOND <= timestamp_ms <= LAST_MILLISECOND) && e@ == invalid_timestamp(),
        },
{
    match split_millis(timestamp_ms) {
        Some(t) => Ok(UtcTime { seconds: t.0, nanoseconds: t.1 }),
        None => Err(Error::data_invalid("Invalid timestamp".to_owned())),
    }
}

} // verus!
