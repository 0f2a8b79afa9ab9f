//! Table metadata: what a table is, at one point in its history.

use crate::datatypes::{NestedFieldRef, StructType};
use crate::error::Error;
use crate::format_version::FormatVersion;
use crate::logs::{MetadataLog, SnapshotLog};
use crate::partition::{PartitionSpecRef, PartitionSpecView};
use crate::schema::{SchemaId, SchemaRef, SchemaView};
use crate::snapshot::{SnapshotRef, SnapshotReference, SnapshotView};
use crate::sort::{SortOrderRef, SortOrderView};
use crate::statistics::{PartitionStatisticsFile, StatisticsFile};
use crate::string_map::StringMap;
use crate::time::{invalid_timestamp, time_at, timestamp_ms_to_utc, UtcTime, FIRST_MILLISECOND, LAST_MILLISECOND};
use std::collections::hash_map::Values;
use std::collections::HashMap;
use std::sync::Arc;
use uuid::Uuid;
use vstd::prelude::*;
use vstd::std_specs::iter::IteratorSpec;

verus! {

broadcast use vstd::std_specs::hash::group_hash_axioms;

/// The branch that follows the current snapshot.
pub const MAIN_BRANCH: &'static str = "main";

/// How far entries of a log may run against the order of time, in milliseconds.
pub const ONE_MINUTE_MS: i64 = 60000;

/// The snapshot id that stands for no snapshot.
pub const EMPTY_SNAPSHOT_ID: i64 = -1;

/// The sequence number before the first change.
pub const INITIAL_SEQUENCE_NUMBER: i64 = 0;

/// Reference to [`TableMetadata`].
pub type TableMetadataRef = Arc<TableMetadata>;

/// Fields of the table metadata.
///
/// The validity of the data is checked when metadata is read; see [`TableMetadata::try_normalize`].
#[derive(Debug, PartialEq, Eq)]
pub struct TableMetadata {
    /// Integer Version for the format.
    pub format_version: FormatVersion,
    /// A UUID that identifies the table
    pub table_uuid: Uuid,
    /// Location tables base location
    pub location: String,
    /// The tables highest sequence number
    pub last_sequence_number: i64,
    /// Timestamp in milliseconds from the unix epoch when the table was last updated.
    pub last_updated_ms: i64,
    /// An integer; the highest assigned column ID for the table.
    pub last_column_id: i32,
    /// The schemas of the table, by their ids.
    pub schemas: HashMap<i32, SchemaRef>,
    /// ID of the table's current schema.
    pub current_schema_id: i32,
    /// The partition specs of the table, by their ids.
    pub partition_specs: HashMap<i32, PartitionSpecRef>,
    /// The "current" spec that writers should use by default.
    pub default_spec: PartitionSpecRef,
    /// Partition type of the default partition spec.
    pub default_partition_type: StructType,
    /// An integer; the highest assigned partition field ID across all partition specs for the table.
    pub last_partition_id: i32,
    /// A string to string map of table properties. This is used to control settings that
    /// affect reading and writing and is not intended to be used for arbitrary metadata.
    /// For example, commit.retry.num-retries is used to control the number of commit retries.
    pub properties: StringMap<String>,
    /// long ID of the current table snapshot; must be the same as the current
    /// ID of the main branch in refs.
    pub current_snapshot_id: Option<i64>,
    /// The valid snapshots, by their ids. Valid snapshots are snapshots for which all
    /// data files exist in the file system. A data file must not be deleted
    /// from the file system until the last snapshot in which it was listed is
    /// garbage collected.
    pub snapshots: HashMap<i64, SnapshotRef>,
    /// A list of timestamp and snapshot ID pairs that encodes changes
    /// to the current snapshot for the table. Each time the current-snapshot-id
    /// is changed, a new entry should be added with the last-updated-ms
    /// and the new current-snapshot-id. When snapshots are expired from
    /// the list of valid snapshots, all entries before a snapshot that has
    /// expired should be removed.
    pub snapshot_log: Vec<SnapshotLog>,
    /// A list of timestamp and metadata file location pairs
    /// that encodes changes to the previous metadata files for the table.
    /// Each time a new metadata file is created, a new entry of the
    /// previous metadata file location should be added to the list.
    /// Tables can be configured to remove the oldest metadata log entries and
    /// keep a fixed-size log of the most recent entries after a commit.
    pub metadata_log: Vec<MetadataLog>,
    /// The sort orders of the table, by their ids.
    pub sort_orders: HashMap<i64, SortOrderRef>,
    /// Default sort order id of the table. Note that this could be used by
    /// writers, but is not used when reading because reads use the specs
    /// stored in manifest files.
    pub default_sort_order_id: i64,
    /// A map of snapshot references. The map keys are the unique snapshot reference
    /// names in the table, and the map values are snapshot reference objects.
    pub refs: StringMap<SnapshotReference>,
    /// Mapping of snapshot ids to statistics files.
    pub statistics: HashMap<i64, StatisticsFile>,
    /// Mapping of snapshot ids to partition statistics files.
    pub partition_statistics: HashMap<i64, PartitionStatisticsFile>,
    /// Encryption Keys
    pub encryption_keys: StringMap<String>,
}

/// What [`TableMetadata`] is.
pub ghost struct TableMetadataView {
    pub format_version: FormatVersion,
    pub table_uuid: Uuid,
    pub location: Seq<char>,
    pub last_sequence_number: i64,
    pub last_updated_ms: i64,
    pub last_column_id: i32,
    pub schemas: Map<i32, SchemaView>,
    pub current_schema_id: i32,
    pub partition_specs: Map<i32, PartitionSpecView>,
    pub default_spec: PartitionSpecView,
    pub default_partition_type: Seq<NestedFieldRef>,
    pub last_partition_id: i32,
    pub properties: Map<Seq<char>, String>,
    pub current_snapshot_id: Option<i64>,
    pub snapshots: Map<i64, SnapshotView>,
    pub snapshot_log: Seq<SnapshotLog>,
    pub metadata_log: Seq<MetadataLog>,
    pub sort_orders: Map<i64, SortOrderView>,
    pub default_sort_order_id: i64,
    pub refs: Map<Seq<char>, SnapshotReference>,
    pub statistics: Map<i64, StatisticsFile>,
    pub partition_statistics: Map<i64, PartitionStatisticsFile>,
    pub encryption_keys: Map<Seq<char>, String>,
}

/// A map of shared values as a map of what the values are.
pub open spec fn seen<K, T: View>(m: Map<K, Arc<T>>) -> Map<K, T::V> {
    Map::new(|k: K| m.contains_key(k), |k: K| m[k]@)
}

impl View for TableMetadata {
    type V = TableMetadataView;

    open spec fn view(&self) -> TableMetadataView {
        TableMetadataView {
            format_version: self.format_version,
            table_uuid: self.table_uuid,
            location: self.location@,
            last_sequence_number: self.last_sequence_number,
            last_updated_ms: self.last_updated_ms,
            last_column_id: self.last_column_id,
            schemas: seen(self.schemas@),
            current_schema_id: self.current_schema_id,
            partition_specs: seen(self.partition_specs@),
            default_spec: self.default_spec@,
            default_partition_type: self.default_partition_type@,
            last_partition_id: self.last_partition_id,
            properties: self.properties@,
            current_snapshot_id: self.current_snapshot_id,
            snapshots: seen(self.snapshots@),
            snapshot_log: self.snapshot_log@,
            metadata_log: self.metadata_log@,
            sort_orders: seen(self.sort_orders@),
            default_sort_order_id: self.default_sort_order_id,
            refs: self.refs@,
            statistics: self.statistics@,
            partition_statistics: self.partition_statistics@,
            encryption_keys: self.encryption_keys@,
        }
    }
}

impl TableMetadata {
    /// Returns format version of this metadata.
    #[inline]
    pub fn format_version(&self) -> (r: FormatVersion)
        ensures
            r == self@.format_version,
    {
        self.format_version
    }

    /// Returns uuid of current table.
    #[inline]
    pub fn uuid(&self) -> (r: Uuid)
        ensures
            r == self@.table_uuid,
    {
        self.table_uuid
    }

    /// Returns table location.
    #[inline]
    pub fn location(&self) -> (r: &str)
        ensures
            r@ == self@.location,
    {
        self.location.as_str()
    }

    /// Returns last sequence number.
    #[inline]
    pub fn last_sequence_number(&self) -> (r: i64)
        ensures
            r == self@.last_sequence_number,
    {
        self.last_sequence_number
    }

    /// Returns the next sequence number for the table.
    ///
    /// For format version 1, it always returns the initial sequence number.
    /// For other versions, it returns the last sequence number incremented by 1.
    #[inline]
    pub fn next_sequence_number(&self) -> (r: i64)
        requires
            self@.format_version != FormatVersion::V1 ==> self@.last_sequence_number < i64::MAX,
        ensures
            r == (if self@.format_version == FormatVersion::V1 {
                INITIAL_SEQUENCE_NUMBER as int
            } else {
                self@.last_sequence_number + 1
            }),
    {
        match self.format_version {
            FormatVersion::V1 => INITIAL_SEQUENCE_NUMBER,
            _ => self.last_sequence_number + 1,
        }
    }

    /// Returns the last column id.
    #[inline]
    pub fn last_column_id(&self) -> (r: i32)
        ensures
            r == self@.last_column_id,
    {
        self.last_column_id
    }

    /// Returns the last partition_id
    #[inline]
    pub fn last_partition_id(&self) -> (r: i32)
        ensures
            r == self@.last_partition_id,
    {
        self.last_partition_id
    }

    /// Returns last updated time.
    #[inline]
    pub fn last_updated_timestamp(&self) -> (r: Result<UtcTime, Error>)
        ensures
            match r {
                Ok(t) => FIRST_MILLISECOND <= self@.last_updated_ms <= LAST_MILLISECOND && t == time_at(
                    self@.last_updated_ms,
                ),
                Err(e) => !(FIRST_MILLISECOND <= self@.last_updated_ms <= LAST_MILLISECOND) && e@
                    == invalid_timestamp(),
            },
    {
        timestamp_ms_to_utc(self.last_updated_ms)
    }

    /// Returns last updated time in milliseconds.
    #[inline]
    pub fn last_updated_ms(&self) -> (r: i64)
        ensures
            r == self@.last_updated_ms,
    {
        self.last_updated_ms
    }

    /// Returns schemas
    #[inline]
    pub fn schemas_iter(&self) -> (r: Values<'_, i32, SchemaRef>)
        ensures
            r.remaining().unref().to_set() == self.schemas@.values(),
            r.remaining().len() == self.schemas@.len(),
    {
        self.schemas.values()
    }

    /// Lookup schema by id.
    #[inline]
    pub fn schema_by_id(&self, schema_id: SchemaId) -> (r: Option<&SchemaRef>)
        ensures
            match r {
                Some(s) => self.schemas@.contains_key(schema_id) && *s == self.schemas@[schema_id],
                None => !self.schemas@.contains_key(schema_id),
            },
    {
        self.schemas.get(&schema_id)
    }

    /// Get current schema
    #[inline]
    pub fn current_schema(&self) -> (r: &SchemaRef)
        requires
            self.schemas@.contains_key(self.current_schema_id),
        ensures
            *r == self.schemas@[self.current_schema_id],
    {
        self.schema_by_id(self.current_schema_id).unwrap()
    }

    /// Get the id of the current schema
    #[inline]
    pub fn current_schema_id(&self) -> (r: SchemaId)
        ensures
            r == self@.current_schema_id,
    {
        self.current_schema_id
    }

    /// Returns all partition specs.
    #[inline]
    pub fn partition_specs_iter(&self) -> (r: Values<'_, i32, PartitionSpecRef>)
        ensures
            r.remaining().unref().to_set() == self.partition_specs@.values(),
            r.remaining().len() == self.partition_specs@.len(),
    {
        self.partition_specs.values()
    }

    /// Lookup partition spec by id.
    #[inline]
    pub fn partition_spec_by_id(&self, spec_id: i32) -> (r: Option<&PartitionSpecRef>)
        ensures
            match r {
                Some(s) => self.partition_specs@.contains_key(spec_id) && *s == self.partition_specs@[spec_id],
                None => !self.partition_specs@.contains_key(spec_id),
            },
    {
        self.partition_specs.get(&spec_id)
    }

    /// Get default partition spec
    #[inline]
    pub fn default_partition_spec(&self) -> (r: &PartitionSpecRef)
        ensures
            *r == self.default_spec,
    {
        &self.default_spec
    }

    /// Return the partition type of the default partition spec.
    #[inline]
    pub fn default_partition_type(&self) -> (r: &StructType)
        ensures
            *r == self.default_partition_type,
    {
        &self.default_partition_type
    }

    /// Returns spec id of the "current" partition spec.
    #[inline]
    pub fn default_partition_spec_id(&self) -> (r: i32)
        ensures
            r == self@.default_spec.spec_id,
    {
        self.default_spec.spec_id()
    }

    /// Returns all snapshots
    #[inline]
    pub fn snapshots(&self) -> (r: Values<'_, i64, SnapshotRef>)
        ensures
            r.remaining().unref().to_set() == self.snapshots@.values(),
            r.remaining().len() == self.snapshots@.len(),
    {
        self.snapshots.values()
    }

    /// Lookup snapshot by id.
    #[inline]
    pub fn snapshot_by_id(&self, snapshot_id: i64) -> (r: Option<&SnapshotRef>)
        ensures
            match r {
                Some(s) => self.snapshots@.contains_key(snapshot_id) && *s == self.snapshots@[snapshot_id],
                None => !self.snapshots@.contains_key(snapshot_id),
            },
    {
        self.snapshots.get(&snapshot_id)
    }

    /// Returns snapshot history.
    #[inline]
    pub fn history(&self) -> (r: &[SnapshotLog])
        ensures
            r@ == self@.snapshot_log,
    {
        self.snapshot_log.as_slice()
    }

    /// Returns the metadata log.
    #[inline]
    pub fn metadata_log(&self) -> (r: &[MetadataLog])
        ensures
            r@ == self@.metadata_log,
    {
        self.metadata_log.as_slice()
    }

    /// Get current snapshot
    #[inline]
    pub fn current_snapshot(&self) -> (r: Option<&SnapshotRef>)
        requires
            self.current_snapshot_id matches Some(id) ==> self.snapshots@.contains_key(id),
        ensures
            match self.current_snapshot_id {
                Some(id) => r == Some(&self.snapshots@[id]),
                None => r is None,
            },
    {
        match self.current_snapshot_id {
            Some(id) => self.snapshot_by_id(id),
            None => None,
        }
    }

    /// Get the current snapshot id
    #[inline]
    pub fn current_snapshot_id(&self) -> (r: Option<i64>)
        ensures
            r == self@.current_snapshot_id,
    {
        self.current_snapshot_id
    }

    /// Get the snapshot for a reference
    /// Returns an option if the `ref_name` is not found
    #[inline]
    pub fn snapshot_for_ref(&self, ref_name: &str) -> (r: Option<&SnapshotRef>)
        requires
            self.refs@.contains_key(ref_name@) ==> self.snapshots@.contains_key(self.refs@[ref_name@].snapshot_id),
        ensures
            r == (if self.refs@.contains_key(ref_name@) {
                Some(&self.snapshots@[self.refs@[ref_name@].snapshot_id])
            } else {
                None
            }),
    {
        match self.refs.get(ref_name) {
            Some(reference) => self.snapshot_by_id(reference.snapshot_id),
            None => None,
        }
    }

    /// Return all sort orders.
    #[inline]
    pub fn sort_orders_iter(&self) -> (r: Values<'_, i64, SortOrderRef>)
        ensures
            r.remaining().unref().to_set() == self.sort_orders@.values(),
            r.remaining().len() == self.sort_orders@.len(),
    {
        self.sort_orders.values()
    }

    /// Lookup sort order by id.
    #[inline]
    pub fn sort_order_by_id(&self, sort_order_id: i64) -> (r: Option<&SortOrderRef>)
        ensures
            match r {
                Some(s) => self.sort_orders@.contains_key(sort_order_id) && *s == self.sort_orders@[sort_order_id],
                None => !self.sort_orders@.contains_key(sort_order_id),
            },
    {
        self.sort_orders.get(&sort_order_id)
    }

    /// Returns the default sort order.
    #[inline]
    pub fn default_sort_order(&self) -> (r: &SortOrderRef)
        requires
            self.sort_orders@.contains_key(self.default_sort_order_id),
        ensures
            *r == self.sort_orders@[self.default_sort_order_id],
    {
        self.sort_orders.get(&self.default_sort_order_id).unwrap()
    }

    /// Returns default sort order id.
    #[inline]
    pub fn default_sort_order_id(&self) -> (r: i64)
        ensures
            r == self@.default_sort_order_id,
    {
        self.default_sort_order_id
    }

    /// Returns properties of table.
    #[inline]
    pub fn properties(&self) -> (r: &StringMap<String>)
        ensures
            *r == self.properties,
    {
        &self.properties
    }

    /// Return location of statistics files.
    #[inline]
    pub fn statistics_iter(&self) -> (r: Values<'_, i64, StatisticsFile>)
        ensures
            r.remaining().unref().to_set() == self.statistics@.values(),
            r.remaining().len() == self.statistics@.len(),
    {
        self.statistics.values()
    }

    /// Return location of partition statistics files.
    #[inline]
    pub fn partition_statistics_iter(&self) -> (r: Values<'_, i64, PartitionStatisticsFile>)
        ensures
            r.remaining().unref().to_set() == self.partition_statistics@.values(),
            r.remaining().len() == self.partition_statistics@.len(),
    {
        self.partition_statistics.values()
    }

    /// Get a statistics file for a snapshot id.
    #[inline]
    pub fn statistics_for_snapshot(&self, snapshot_id: i64) -> (r: Option<&StatisticsFile>)
        ensures
            match r {
                Some(s) => self.statistics@.contains_key(snapshot_id) && *s == self.statistics@[snapshot_id],
                None => !self.statistics@.contains_key(snapshot_id),
            },
    {
        self.statistics.get(&snapshot_id)
    }

    /// Get a partition statistics file for a snapshot id.
    #[inline]
    pub fn partition_statistics_for_snapshot(&self, snapshot_id: i64) -> (r: Option<&PartitionStatisticsFile>)
        ensures
            match r {
                Some(s) => self.partition_statistics@.contains_key(snapshot_id) && *s
                    == self.partition_statistics@[snapshot_id],
                None => !self.partition_statistics@.contains_key(snapshot_id),
            },
    {
        self.partition_statistics.get(&snapshot_id)
    }

    /// All encryption keys, each with its id.
    #[inline]
    pub fn encryption_keys_iter(&self) -> (r: &Vec<(String, String)>)
        ensures
            crate::string_map::names_differ(r@),
            crate::string_map::entries_map(r@) == self@.encryption_keys,
    {
        self.encryption_keys.entries()
    }

    /// Get the encryption key for a given key id
    #[inline]
    pub fn encryption_key(&self, key_id: &str) -> (r: Option<&String>)
        ensures
            match r {
                Some(key) => self@.encryption_keys.contains_key(key_id@) && *key == self@.encryption_keys[key_id@],
                None => !self@.encryption_keys.contains_key(key_id@),
            },
    {
        self.encryption_keys.get(key_id)
    }
}

fn copy_snapshot_log(log: &Vec<SnapshotLog>) -> (r: Vec<SnapshotLog>)
    ensures
        r@ == log@,
{
    let copy: Vec<SnapshotLog> = log.clone();
    proof {
        assert(copy@ =~= log@);
    }
    copy
}

fn copy_metadata_log(log: &Vec<MetadataLog>) -> (r: Vec<MetadataLog>)
    ensures
        r@ == log@,
{
    let copy: Vec<MetadataLog> = log.clone();
    proof {
        assert(copy@ =~= log@);
    }
    copy
}

fn copy_texts(texts: &StringMap<String>) -> (r: StringMap<String>)
    ensures
        r@ == texts@,
{
    let copy: StringMap<String> = texts.clone();
    proof {
        assert(copy@ =~= texts@);
    }
    copy
}

fn copy_refs(refs: &StringMap<SnapshotReference>) -> (r: StringMap<SnapshotReference>)
    ensures
        r@ == refs@,
{
    let copy: StringMap<SnapshotReference> = refs.clone();
    proof {
        assert(copy@ =~= refs@);
    }
    copy
}

impl Clone for TableMetadata {
    fn clone(&self) -> (r: Self)
        ensures
            r@ == self@,
    {
        TableMetadata {
            format_version: self.format_version,
            table_uuid: self.table_uuid,
            location: self.location.clone(),
            last_sequence_number: self.last_sequence_number,
            last_updated_ms: self.last_updated_ms,
            last_column_id: self.last_column_id,
            schemas: self.schemas.clone(),
            current_schema_id: self.current_schema_id,
            partition_specs: self.partition_specs.clone(),
            default_spec: crate::shared::share(&self.default_spec),
            default_partition_type: self.default_partition_type.clone(),
            last_partition_id: self.last_partition_id,
            properties: copy_texts(&self.properties),
            current_snapshot_id: self.current_snapshot_id,
            snapshots: self.snapshots.clone(),
            snapshot_log: copy_snapshot_log(&self.snapshot_log),
            metadata_log: copy_metadata_log(&self.metadata_log),
            sort_orders: self.sort_orders.clone(),
            default_sort_order_id: self.default_sort_order_id,
            refs: copy_refs(&self.refs),
            statistics: self.statistics.clone(),
            partition_statistics: self.partition_statistics.clone(),
            encryption_keys: copy_texts(&self.encryption_keys),
        }
    }
}

} // verus!
