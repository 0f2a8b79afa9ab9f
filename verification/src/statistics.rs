//! Files with statistics of the data of a snapshot.

use crate::string_map::StringMap;
use vstd::prelude::*;

verus! {

/// A part of a statistics file.
#[derive(Debug, Clone, PartialEq, Eq)]
pub struct BlobMetadata {
    /// What the part holds.
    pub blob_type: String,
    /// Id of the snapshot that the part was computed from.
    pub snapshot_id: i64,
    /// Sequence number of that snapshot.
    pub sequence_number: i64,
    /// Ids of the fields that the part was computed from.
    pub fields: Vec<i32>,
    pub properties: StringMap<String>,
}

/// A file with statistics of the columns of a table.
#[derive(Debug, Clone, PartialEq, Eq)]
pub struct StatisticsFile {
    /// Id of the snapshot that the statistics describe.
    pub snapshot_id: i64,
    pub statistics_path: String,
    pub file_size_in_bytes: i64,
    pub file_footer_size_in_bytes: i64,
    pub key_metadata: Option<String>,
    pub blob_metadata: Vec<BlobMetadata>,
}

/// A file with statistics of the partitions of a table.
#[derive(Debug, Clone, PartialEq, Eq)]
pub struct PartitionStatisticsFile {
    /// Id of the snapshot that the statistics describe.
    pub snapshot_id: i64,
    pub statistics_path: String,
    pub file_size_in_bytes: i64,
}

} // verus!
