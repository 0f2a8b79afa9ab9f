//! The logs that table metadata keeps of its own changes.

use crate::error::Error;
use crate::time::{invalid_timestamp, time_at, timestamp_ms_to_utc, UtcTime, FIRST_MILLISECOND, LAST_MILLISECOND};
use vstd::prelude::*;

verus! {

/// Encodes changes to the previous metadata files for the table
#[derive(Debug, PartialEq, Eq)]
pub struct MetadataLog {
    /// The file for the log.
    pub metadata_file: String,
    /// Time new metadata was created
    pub timestamp_ms: i64,
}

impl Clone for MetadataLog {
    fn clone(&self) -> (r: Self)
        ensures
            r == *self,
    {
        MetadataLog { metadata_file: self.metadata_file.clone(), timestamp_ms: self.timestamp_ms }
    }
}

/// A log of when each snapshot was made.
#[derive(Debug, PartialEq, Eq, Clone, Copy, Structural)]
pub struct SnapshotLog {
    /// Id of the snapshot.
    pub snapshot_id: i64,
    /// Last updated timestamp
    pub timestamp_ms: i64,
}

impl SnapshotLog {
    /// Returns the last updated timestamp as a point in time with millisecond precision
    pub fn timestamp(self) -> (r: Result<UtcTime, Error>)
        ensures
            match r {
                Ok(t) => FIRST_MILLISECOND <= self.timestamp_ms <= LAST_MILLISECOND && t == time_at(
                    self.timestamp_ms,
                ),
                Err(e) => !(FIRST_MILLISECOND <= self.timestamp_ms <= LAST_MILLISECOND) && e@
                    == invalid_timestamp(),
            },
    {
        timestamp_ms_to_utc(self.timestamp_ms)
    }

    /// Returns the timestamp in milliseconds
    pub fn timestamp_ms(&self) -> (r: i64)
        ensures
            r == self.timestamp_ms,
    {
        self.timestamp_ms
    }
}

} // verus!
