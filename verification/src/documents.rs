//! The forms that table metadata has in metadata files, one for each version of the format.

use crate::partition::{PartitionField, PartitionSpec};
use crate::logs::{MetadataLog, SnapshotLog};
use crate::schema::{SchemaV1, SchemaV2};
use crate::snapshot::{SnapshotReference, SnapshotV1, SnapshotV2};
use crate::sort::SortOrder;
use crate::statistics::{PartitionStatisticsFile, StatisticsFile};
use crate::string_map::StringMap;
use uuid::Uuid;
use vstd::prelude::*;

verus! {

/// The number of a format version, which is known beforehand.
#[derive(Debug, Clone, Copy, PartialEq, Eq)]
pub struct VersionNumber<const V: u8>;

impl<const V: u8> VersionNumber<V> {
    /// The number as a file gives it.
    pub fn serialize(&self) -> (r: u8)
        ensures
            r == V,
    {
        V
    }

    /// Reads the number from a file, which must give the one that is expected.
    pub fn deserialize(value: u8) -> (r: Result<VersionNumber<V>, String>)
        ensures
            match r {
                Ok(_) => value == V,
                Err(message) => value != V && message@ == "Invalid Version"@,
            },
    {
        if value == V {
            Ok(VersionNumber::<V>)
        } else {
            Err("Invalid Version".to_owned())
        }
    }
}

/// Table metadata as a file of some version gives it.
#[derive(Debug, PartialEq, Eq)]
pub enum TableMetadataEnum {
    V2(TableMetadataV2),
    V1(TableMetadataV1),
}

/// Defines the structure of a v2 table metadata for serialization/deserialization
#[derive(Debug, PartialEq, Eq)]
pub struct TableMetadataV2 {
    pub format_version: VersionNumber<2>,
    pub table_uuid: Uuid,
    pub location: String,
    pub last_sequence_number: i64,
    pub last_updated_ms: i64,
    pub last_column_id: i32,
    pub schemas: Vec<SchemaV2>,
    pub current_schema_id: i32,
    pub partition_specs: Vec<PartitionSpec>,
    pub default_spec_id: i32,
    pub last_partition_id: i32,
    pub properties: Option<StringMap<String>>,
    pub current_snapshot_id: Option<i64>,
    pub snapshots: Option<Vec<SnapshotV2>>,
    pub snapshot_log: Option<Vec<SnapshotLog>>,
    pub metadata_log: Option<Vec<MetadataLog>>,
    pub sort_orders: Vec<SortOrder>,
    pub default_sort_order_id: i64,
    pub refs: Option<StringMap<SnapshotReference>>,
    pub statistics: Vec<StatisticsFile>,
    pub partition_statistics: Vec<PartitionStatisticsFile>,
}

/// Defines the structure of a v1 table metadata for serialization/deserialization
#[derive(Debug, PartialEq, Eq)]
pub struct TableMetadataV1 {
    pub format_version: VersionNumber<1>,
    pub table_uuid: Option<Uuid>,
    pub location: String,
    pub last_updated_ms: i64,
    pub last_column_id: i32,
    /// `schema` is optional to prioritize `schemas` and `current-schema-id`, allowing liberal reading of V1 metadata.
    pub schema: Option<SchemaV1>,
    pub schemas: Option<Vec<SchemaV1>>,
    pub current_schema_id: Option<i32>,
    /// `partition_spec` is optional to prioritize `partition_specs`, aligning with liberal reading of potentially invalid V1 metadata.
    pub partition_spec: Option<Vec<PartitionField>>,
    pub partition_specs: Option<Vec<PartitionSpec>>,
    pub default_spec_id: Option<i32>,
    pub last_partition_id: Option<i32>,
    pub properties: Option<StringMap<String>>,
    pub current_snapshot_id: Option<i64>,
    pub snapshots: Option<Vec<SnapshotV1>>,
    pub snapshot_log: Option<Vec<SnapshotLog>>,
    pub metadata_log: Option<Vec<MetadataLog>>,
    pub sort_orders: Option<Vec<SortOrder>>,
    pub default_sort_order_id: Option<i64>,
    pub statistics: Vec<StatisticsFile>,
    pub partition_statistics: Vec<PartitionStatisticsFile>,
}

} // verus!
