//! What metadata answers, told on the values that it holds.

use crate::builder::TableMetadataBuilder;
use crate::datatypes::StructType;
use crate::documents::TableMetadataEnum;
use crate::error::{Error, ErrorKind};
use crate::format_version::FormatVersion;
use crate::logs::{MetadataLog, SnapshotLog};
use crate::metadata::TableMetadata;
use crate::partition::PartitionSpecRef;
use crate::read_laws::{
    read_metadata_is_under_its_ids, read_metadata_is_whole, read_sequence_numbers_are_in_order, reads,
};
use crate::schema::SchemaRef;
use crate::snapshot::SnapshotRef;
use crate::sort::SortOrderRef;
use crate::statistics::{PartitionStatisticsFile, StatisticsFile};
use crate::string_map::{entries_count, entry_in_map, has_name, StringMap};
use crate::time::{timestamp_ms_to_utc, UtcTime};
use uuid::Uuid;
use vstd::prelude::*;

verus! {

/// The numbers that metadata tells of itself are those that it holds.
pub proof fn numbers_are_told(m: TableMetadata, version: FormatVersion, id: Uuid, long: i64, short: i32)
    ensures
        call_ensures(TableMetadata::format_version, (&m,), version) ==> version == m.format_version,
        call_ensures(TableMetadata::uuid, (&m,), id) ==> id == m.table_uuid,
        call_ensures(TableMetadata::last_sequence_number, (&m,), long) ==> long == m.last_sequence_number,
        call_ensures(TableMetadata::last_updated_ms, (&m,), long) ==> long == m.last_updated_ms,
        call_ensures(TableMetadata::default_sort_order_id, (&m,), long) ==> long == m.default_sort_order_id,
        call_ensures(TableMetadata::last_column_id, (&m,), short) ==> short == m.last_column_id,
        call_ensures(TableMetadata::last_partition_id, (&m,), short) ==> short == m.last_partition_id,
        call_ensures(TableMetadata::current_schema_id, (&m,), short) ==> short == m.current_schema_id,
        call_ensures(TableMetadata::default_partition_spec_id, (&m,), short) ==> short == m.default_spec.spec_id,
{
}

/// The texts and lists that metadata tells of itself are those that it holds.
pub proof fn contents_are_told(
    m: TableMetadata,
    location: &str,
    snapshot: Option<i64>,
    history: &[SnapshotLog],
    files: &[MetadataLog],
)
    ensures
        call_ensures(TableMetadata::location, (&m,), location) ==> location@ == m.location@,
        call_ensures(TableMetadata::current_snapshot_id, (&m,), snapshot) ==> snapshot == m.current_snapshot_id,
        call_ensures(TableMetadata::history, (&m,), history) ==> history@ == m.snapshot_log@,
        call_ensures(TableMetadata::metadata_log, (&m,), files) ==> files@ == m.metadata_log@,
{
}

/// What is looked up by an id is what the metadata holds under that id, and is not there exactly
/// when nothing is held under it.
pub proof fn lookups_find_what_is_held(
    m: TableMetadata,
    short: i32,
    long: i64,
    schema: Option<&SchemaRef>,
    spec: Option<&PartitionSpecRef>,
    snapshot: Option<&SnapshotRef>,
    order: Option<&SortOrderRef>,
)
    ensures
        call_ensures(TableMetadata::schema_by_id, (&m, short), schema) ==> {
            &&& schema is Some <==> m.schemas@.contains_key(short)
            &&& schema matches Some(s) ==> *s == m.schemas@[short]
        },
        call_ensures(TableMetadata::partition_spec_by_id, (&m, short), spec) ==> {
            &&& spec is Some <==> m.partition_specs@.contains_key(short)
            &&& spec matches Some(s) ==> *s == m.partition_specs@[short]
        },
        call_ensures(TableMetadata::snapshot_by_id, (&m, long), snapshot) ==> {
            &&& snapshot is Some <==> m.snapshots@.contains_key(long)
            &&& snapshot matches Some(s) ==> *s == m.snapshots@[long]
        },
        call_ensures(TableMetadata::sort_order_by_id, (&m, long), order) ==> {
            &&& order is Some <==> m.sort_orders@.contains_key(long)
            &&& order matches Some(s) ==> *s == m.sort_orders@[long]
        },
{
}

/// Statistics are found by the id of their snapshot, and are not there exactly when none are held
/// for it.
pub proof fn statistics_are_found(
    m: TableMetadata,
    id: i64,
    file: Option<&StatisticsFile>,
    partition_file: Option<&PartitionStatisticsFile>,
)
    ensures
        call_ensures(TableMetadata::statistics_for_snapshot, (&m, id), file) ==> {
            &&& file is Some <==> m.statistics@.contains_key(id)
            &&& file matches Some(f) ==> *f == m.statistics@[id]
        },
        call_ensures(TableMetadata::partition_statistics_for_snapshot, (&m, id), partition_file) ==> {
            &&& partition_file is Some <==> m.partition_statistics@.contains_key(id)
            &&& partition_file matches Some(f) ==> *f == m.partition_statistics@[id]
        },
{
}

/// An encryption key is found by its id, and is not there exactly when none is held under it.
pub proof fn encryption_keys_are_found(m: TableMetadata, id: &str, key: Option<&String>)
    requires
        call_ensures(TableMetadata::encryption_key, (&m, id), key),
    ensures
        key is Some <==> m.encryption_keys@.contains_key(id@),
        key matches Some(k) ==> *k == m.encryption_keys@[id@],
{
}

/// The properties and the partition type that metadata tells of itself are those that it holds, and
/// so is every encryption key, each with its id and each once.
pub proof fn keys_and_properties_are_told(
    m: TableMetadata,
    properties: &StringMap<String>,
    partition_type: &StructType,
    keys: &Vec<(String, String)>,
)
    ensures
        call_ensures(TableMetadata::properties, (&m,), properties) ==> properties@ == m.properties@,
        call_ensures(TableMetadata::default_partition_type, (&m,), partition_type) ==> *partition_type
            == m.default_partition_type,
        call_ensures(TableMetadata::encryption_keys_iter, (&m,), keys) ==> {
            &&& forall|i: int|
                0 <= i < keys@.len() ==> m.encryption_keys@.contains_key((#[trigger] keys@[i]).0@)
                    && m.encryption_keys@[keys@[i].0@] == keys@[i].1
            &&& forall|id: Seq<char>| #[trigger]
                m.encryption_keys@.contains_key(id) ==> exists|i: int|
                    0 <= i < keys@.len() && (#[trigger] keys@[i]).0@ == id
            &&& keys@.len() == m.encryption_keys@.dom().len()
        },
{
    if call_ensures(TableMetadata::encryption_keys_iter, (&m,), keys) {
        entries_count(keys@);
        assert forall|i: int| 0 <= i < keys@.len() implies m.encryption_keys@.contains_key((#[trigger] keys@[i]).0@)
            && m.encryption_keys@[keys@[i].0@] == keys@[i].1 by {
            entry_in_map(keys@, i);
        }
        assert forall|id: Seq<char>| #[trigger] m.encryption_keys@.contains_key(id) implies exists|i: int|
            0 <= i < keys@.len() && (#[trigger] keys@[i]).0@ == id by {
            assert(has_name(keys@, id));
        }
    }
}

/// Metadata that was read has a current schema, which is the one found under the current schema id
/// and which bears that id; and a default sort order, which is the one found under its id.
pub proof fn current_ones_bear_their_ids(
    value: TableMetadataEnum,
    m: TableMetadata,
    schema: &SchemaRef,
    order: &SortOrderRef,
    spec: &PartitionSpecRef,
)
    requires
        reads(value, Ok(m)),
        call_ensures(TableMetadata::current_schema, (&m,), schema),
        call_ensures(TableMetadata::default_sort_order, (&m,), order),
        call_ensures(TableMetadata::default_partition_spec, (&m,), spec),
    ensures
        schema.schema_id == m.current_schema_id,
        m.schemas@.contains_key(m.current_schema_id),
        *schema == m.schemas@[m.current_schema_id],
        m.sort_orders@.contains_key(m.default_sort_order_id),
        *order == m.sort_orders@[m.default_sort_order_id],
        order.order_id == m.default_sort_order_id,
        *spec == m.default_spec,
        m.partition_specs@.contains_key(spec.spec_id),
        m.partition_specs@[spec.spec_id].fields@ == spec.fields@,
{
    read_metadata_is_whole(value, m);
    read_metadata_is_under_its_ids(value, m);
}

/// The current snapshot of metadata that was read is the one with the current snapshot id, and is
/// the one that the main branch points to; without a current snapshot id there is neither.
pub proof fn main_is_the_current_snapshot(
    value: TableMetadataEnum,
    m: TableMetadata,
    current: Option<&SnapshotRef>,
    of_main: Option<&SnapshotRef>,
)
    requires
        reads(value, Ok(m)),
        call_ensures(TableMetadata::current_snapshot, (&m,), current),
        call_ensures(TableMetadata::snapshot_for_ref, (&m, "main"), of_main),
    ensures
        current is Some <==> m.current_snapshot_id is Some,
        current matches Some(s) ==> Some(s.snapshot_id) == m.current_snapshot_id,
        of_main == current,
{
    read_metadata_is_whole(value, m);
    read_metadata_is_under_its_ids(value, m);
}

/// A reference of metadata that was read leads to the snapshot with the id that it gives, and a
/// name that is no reference leads nowhere.
pub proof fn references_lead_to_their_snapshots(
    value: TableMetadataEnum,
    m: TableMetadata,
    name: &str,
    r: Option<&SnapshotRef>,
)
    requires
        reads(value, Ok(m)),
        call_ensures(TableMetadata::snapshot_for_ref, (&m, name), r),
    ensures
        r is Some <==> m.refs@.contains_key(name@),
        r matches Some(s) ==> s.snapshot_id == m.refs@[name@].snapshot_id,
{
    read_metadata_is_whole(value, m);
    read_metadata_is_under_its_ids(value, m);
}

/// The next sequence number is zero in version 1, and one more than the last one in version 2.
pub proof fn sequence_numbers_go_up_by_one(m: TableMetadata, r: i64)
    requires
        call_ensures(TableMetadata::next_sequence_number, (&m,), r),
    ensures
        m.format_version == FormatVersion::V1 ==> r == 0,
        m.format_version == FormatVersion::V2 ==> r - m.last_sequence_number == 1,
{
}

/// The next sequence number of version 2 metadata that was read is one that no snapshot has.
pub proof fn next_sequence_number_is_new(value: TableMetadataEnum, m: TableMetadata, r: i64, id: i64)
    requires
        reads(value, Ok(m)),
        m.format_version == FormatVersion::V2,
        call_ensures(TableMetadata::next_sequence_number, (&m,), r),
        m.snapshots@.contains_key(id),
    ensures
        m.snapshots@[id].sequence_number < r,
{
    read_sequence_numbers_are_in_order(value, m);
}

/// A point in time lies as many milliseconds after the beginning of 1970 as its timestamp says, and
/// less than a second after its whole second. Only timestamps within some two hundred and sixty
/// thousand years of it have one.
pub proof fn times_are_exact(timestamp_ms: i64, r: Result<UtcTime, Error>)
    requires
        call_ensures(timestamp_ms_to_utc, (timestamp_ms,), r),
    ensures
        r matches Ok(t) ==> {
            &&& t.seconds * 1000000000 + t.nanoseconds == timestamp_ms * 1000000
            &&& 0 <= t.nanoseconds < 1000000000
        },
        r is Ok <==> -8334601228800000 <= timestamp_ms <= 8210266876799999,
        r matches Err(e) ==> e.kind == ErrorKind::DataInvalid && e.message@ == "Invalid timestamp"@,
{
}

/// The times of log entries and of the last update are those of their timestamps.
pub proof fn logged_times_are_exact(m: TableMetadata, entry: SnapshotLog, ms: i64, r: Result<UtcTime, Error>)
    ensures
        call_ensures(SnapshotLog::timestamp_ms, (&entry,), ms) ==> ms == entry.timestamp_ms,
        call_ensures(SnapshotLog::timestamp, (entry,), r) ==> {
            &&& r is Ok <==> -8334601228800000 <= entry.timestamp_ms <= 8210266876799999
            &&& r matches Ok(t) ==> t.seconds * 1000000000 + t.nanoseconds == entry.timestamp_ms * 1000000
        },
        call_ensures(TableMetadata::last_updated_timestamp, (&m,), r) ==> {
            &&& r is Ok <==> -8334601228800000 <= m.last_updated_ms <= 8210266876799999
            &&& r matches Ok(t) ==> t.seconds * 1000000000 + t.nanoseconds == m.last_updated_ms * 1000000
        },
{
}

/// A change starts from the metadata as it is. It logs the file of that metadata, with the time of
/// its last update, exactly when the file is known.
pub proof fn changes_start_from_what_is(
    m: TableMetadata,
    file: Option<String>,
    b: TableMetadataBuilder,
    start: &TableMetadata,
    entry: Option<&MetadataLog>,
)
    requires
        call_ensures(TableMetadata::into_builder, (m, file), b) || call_ensures(
            TableMetadataBuilder::new_from_metadata,
            (m, file),
            b,
        ),
        call_ensures(TableMetadataBuilder::metadata, (&b,), start),
        call_ensures(TableMetadataBuilder::previous_history_entry, (&b,), entry),
    ensures
        start@ == m@,
        entry is Some <==> file is Some,
        entry matches Some(e) ==> e.timestamp_ms == m.last_updated_ms && file == Some(e.metadata_file),
{
}

} // verus!
