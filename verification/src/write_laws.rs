//! What writing metadata gives, told on the metadata and on the file themselves.

use crate::documents::{TableMetadataEnum, TableMetadataV1, TableMetadataV2};
use crate::error::{Error, ErrorKind};
use crate::format_version::FormatVersion;
use crate::laws::read_write_read;
use crate::listing::{keys_in_order, tells};
use crate::metadata::{seen, TableMetadata};
use crate::partition::{PartitionSpec, PartitionSpecRef, PartitionSpecView};
use crate::read_laws::{
    read_metadata_is_whole, reads, same_schema, same_summary, single_partition_spec_v1_is_read,
    single_schema_v1_is_read, single_values_are_read,
};
use crate::schema::{SchemaRef, SchemaV1, SchemaV2, SchemaView};
use crate::snapshot::{SnapshotRef, SnapshotV1, SnapshotV2, SnapshotView};
use crate::sort::{SortOrder, SortOrderRef, SortOrderView};
use crate::statistics::{PartitionStatisticsFile, StatisticsFile};
use crate::writing::{
    tells_partition_statistics, tells_schemas_v1, tells_schemas_v2, tells_snapshots_v1, tells_snapshots_v2,
    tells_sort_orders, tells_specs, tells_statistics,
};
use vstd::prelude::*;

verus! {

/// Some way of writing this metadata had this outcome.
pub open spec fn writes(m: TableMetadata, r: Result<TableMetadataEnum, Error>) -> bool {
    ||| call_ensures(TableMetadataEnum::try_from, (m,), r)
    ||| call_ensures(TableMetadata::serialize, (&m,), r)
}

/// Some way of writing this metadata gave this version 2 form.
pub open spec fn writes_v2(m: TableMetadata, w: TableMetadataV2) -> bool {
    ||| writes(m, Ok(TableMetadataEnum::V2(w)))
    ||| call_ensures(TableMetadataV2::from, (m,), w)
}

/// Some way of writing this metadata gave this version 1 form.
pub open spec fn writes_v1(m: TableMetadata, w: TableMetadataV1) -> bool {
    ||| writes(m, Ok(TableMetadataEnum::V1(w)))
    ||| call_ensures(TableMetadataV1::try_from, (m,), Ok(w))
}

/// Metadata is written in the form of its version. Only metadata of version 1 whose current schema
/// is missing cannot be written.
pub proof fn written_in_its_version(m: TableMetadata, r: Result<TableMetadataEnum, Error>)
    requires
        writes(m, r),
    ensures
        r is Err <==> m.format_version == FormatVersion::V1 && !m.schemas@.contains_key(m.current_schema_id),
        r matches Ok(w) ==> (w is V2 <==> m.format_version == FormatVersion::V2),
        r matches Err(e) ==> e.kind == ErrorKind::Unexpected && e.message@
            == "current_schema_id not found in schemas"@,
{
    assert(m@.schemas.contains_key(m.current_schema_id) == m.schemas@.contains_key(m.current_schema_id));
}

/// The version 1 form is there exactly when the current schema is.
pub proof fn v1_form_needs_its_schema(m: TableMetadata, r: Result<TableMetadataV1, Error>)
    requires
        call_ensures(TableMetadataV1::try_from, (m,), r),
    ensures
        r is Ok <==> m.schemas@.contains_key(m.current_schema_id),
        r matches Err(e) ==> e.kind == ErrorKind::Unexpected && e.message@
            == "current_schema_id not found in schemas"@,
{
    assert(m@.schemas.contains_key(m.current_schema_id) == m.schemas@.contains_key(m.current_schema_id));
}

/// What the version 2 form gives as single values, as lists in order and as maps is that of the
/// metadata. Properties, snapshots and logs are left out where there are none.
pub proof fn single_values_are_written_v2(m: TableMetadata, w: TableMetadataV2)
    requires
        writes_v2(m, w),
    ensures
        w.table_uuid == m.table_uuid,
        w.location@ == m.location@,
        w.last_sequence_number == m.last_sequence_number,
        w.last_updated_ms == m.last_updated_ms,
        w.last_column_id == m.last_column_id,
        w.current_schema_id == m.current_schema_id,
        w.default_spec_id == m.default_spec.spec_id,
        w.last_partition_id == m.last_partition_id,
        w.current_snapshot_id == m.current_snapshot_id,
        w.default_sort_order_id == m.default_sort_order_id,
        w.properties is None <==> m.properties@ == Map::<Seq<char>, String>::empty(),
        w.properties matches Some(p) ==> p@ == m.properties@,
        w.snapshot_log is None <==> m.snapshot_log@.len() == 0,
        w.snapshot_log matches Some(l) ==> l@ == m.snapshot_log@,
        w.metadata_log is None <==> m.metadata_log@.len() == 0,
        w.metadata_log matches Some(l) ==> l@ == m.metadata_log@,
        w.refs matches Some(refs) && refs@ == m.refs@,
{
}

/// What the version 1 form gives as single values, as lists in order and as maps is that of the
/// metadata. Properties, snapshots and logs are left out where there are none.
pub proof fn single_values_are_written_v1(m: TableMetadata, w: TableMetadataV1)
    requires
        writes_v1(m, w),
    ensures
        w.table_uuid == Some(m.table_uuid),
        w.location@ == m.location@,
        w.last_updated_ms == m.last_updated_ms,
        w.last_column_id == m.last_column_id,
        w.current_schema_id == Some(m.current_schema_id),
        w.default_spec_id == Some(m.default_spec.spec_id),
        w.partition_spec matches Some(fields) && fields@ == m.default_spec.fields@,
        w.last_partition_id == Some(m.last_partition_id),
        w.current_snapshot_id == m.current_snapshot_id,
        w.default_sort_order_id == Some(m.default_sort_order_id),
        w.properties is None <==> m.properties@ == Map::<Seq<char>, String>::empty(),
        w.properties matches Some(p) ==> p@ == m.properties@,
        w.snapshot_log is None <==> m.snapshot_log@.len() == 0,
        w.snapshot_log matches Some(l) ==> l@ == m.snapshot_log@,
        w.metadata_log is None <==> m.metadata_log@.len() == 0,
        w.metadata_log matches Some(l) ==> l@ == m.metadata_log@,
{
}

/// A value stands in a list in the form that it is written in.
pub open spec fn stands<A, V>(list: Seq<A>, value: V, written: spec_fn(A, V) -> bool) -> bool {
    exists|i: int| 0 <= i < list.len() && written(#[trigger] list[i], value)
}

/// An entry of a list is the written form of a value of a map.
pub open spec fn stems<K, V, A>(entry: A, m: Map<K, V>, written: spec_fn(A, V) -> bool) -> bool {
    exists|k: K| #[trigger] m.contains_key(k) && written(entry, m[k])
}

/// Every value of a map stands in a list, every entry of the list is a value of the map, and there
/// are as many entries as keys.
pub open spec fn all_written<K, V, A>(list: Seq<A>, m: Map<K, V>, written: spec_fn(A, V) -> bool) -> bool {
    &&& list.len() == m.dom().len()
    &&& forall|k: K| #[trigger] m.contains_key(k) ==> stands(list, m[k], written)
    &&& forall|i: int| 0 <= i < list.len() ==> stems(#[trigger] list[i], m, written)
}

proof fn told<K, V, W, A>(
    list: Seq<A>,
    views: Map<K, W>,
    gives: spec_fn(A, W) -> bool,
    m: Map<K, V>,
    written: spec_fn(A, V) -> bool,
)
    requires
        tells(list, views, gives),
        views.dom() == m.dom(),
        forall|k: K, a: A| #[trigger]
            m.contains_key(k) && #[trigger] gives(a, views[k]) ==> written(a, m[k]),
    ensures
        all_written(list, m, written),
{
    let keys: Seq<K> = choose|keys: Seq<K>| #[trigger]
        keys_in_order(keys, views) && list.len() == keys.len() && forall|i: int|
            0 <= i < keys.len() ==> gives(#[trigger] list[i], views[keys[i]]);
    keys.unique_seq_to_set();
    assert(keys.to_set() == m.dom());
    assert forall|k: K| #[trigger] m.contains_key(k) implies stands(list, m[k], written) by {
        assert(keys.to_set().contains(k));
        let i: int = choose|i: int| 0 <= i < keys.len() && keys[i] == k;
        assert(gives(list[i], views[keys[i]]));
        assert(written(list[i], m[k]));
    }
    assert forall|i: int| 0 <= i < list.len() implies stems(#[trigger] list[i], m, written) by {
        assert(keys.to_set().contains(keys[i]));
        assert(m.contains_key(keys[i]));
        assert(gives(list[i], views[keys[i]]));
        assert(written(list[i], m[keys[i]]));
    }
}

proof fn told_v2(m: TableMetadata, w: TableMetadataV2)
    requires
        writes_v2(m, w),
    ensures
        tells_schemas_v2(w.schemas@, seen(m.schemas@)),
        tells_specs(w.partition_specs@, seen(m.partition_specs@)),
        tells_sort_orders(w.sort_orders@, seen(m.sort_orders@)),
        tells_snapshots_v2(w.snapshots, seen(m.snapshots@)),
        tells_statistics(w.statistics@, m.statistics@),
        tells_partition_statistics(w.partition_statistics@, m.partition_statistics@),
{
}

proof fn told_v1(m: TableMetadata, w: TableMetadataV1)
    requires
        writes_v1(m, w),
    ensures
        m.schemas@.contains_key(m.current_schema_id),
        w.schema matches Some(d) && d.gives(m.schemas@[m.current_schema_id]@),
        w.schemas matches Some(list) && tells_schemas_v1(list@, seen(m.schemas@)),
        w.partition_specs matches Some(list) && tells_specs(list@, seen(m.partition_specs@)),
        w.sort_orders matches Some(list) && tells_sort_orders(list@, seen(m.sort_orders@)),
        tells_snapshots_v1(w.snapshots, seen(m.snapshots@)),
        tells_statistics(w.statistics@, m.statistics@),
        tells_partition_statistics(w.partition_statistics@, m.partition_statistics@),
{
    assert(seen(m.schemas@).contains_key(m.current_schema_id) == m.schemas@.contains_key(m.current_schema_id));
    if !m.schemas@.contains_key(m.current_schema_id) {
        assert(!m@.schemas.contains_key(m.current_schema_id));
    }
}

/// A schema in full, as a version 2 file has it.
pub open spec fn schema_in_full_v2() -> spec_fn(SchemaV2, SchemaRef) -> bool {
    |d: SchemaV2, s: SchemaRef| {
        &&& d.schema_id == s.schema_id
        &&& d.fields.fields@ == s.fields.fields@
        &&& d.identifier_field_ids matches Some(ids) ==> ids@.to_set() == s.identifier_field_ids@
        &&& d.identifier_field_ids is None ==> s.identifier_field_ids@ == Set::<i32>::empty()
    }
}

/// A schema in full and with its id, as a version 1 file has it.
pub open spec fn schema_in_full_v1() -> spec_fn(SchemaV1, SchemaRef) -> bool {
    |d: SchemaV1, s: SchemaRef| d.schema_id is Some && same_schema(*s, d)
}

/// The version 2 form lists every schema of the metadata once, in full, and no other.
pub proof fn schemas_are_written_v2(m: TableMetadata, w: TableMetadataV2)
    requires
        writes_v2(m, w),
    ensures
        all_written(w.schemas@, m.schemas@, schema_in_full_v2()),
{
    told_v2(m, w);
    assert(Seq::<i32>::empty().to_set() =~= Set::<i32>::empty());
    assert(seen(m.schemas@).dom() =~= m.schemas@.dom());
    let gives = |d: SchemaV2, s: SchemaView| d.gives(s);
    told(w.schemas@, seen(m.schemas@), gives, m.schemas@, schema_in_full_v2());
}

/// The version 1 form lists every schema of the metadata once, in full and with its id, and no
/// other; and its single schema is the current one.
pub proof fn schemas_are_written_v1(m: TableMetadata, w: TableMetadataV1)
    requires
        writes_v1(m, w),
    ensures
        m.schemas@.contains_key(m.current_schema_id),
        w.schema matches Some(d) && d.schema_id is Some && same_schema(*m.schemas@[m.current_schema_id], d),
        w.schemas matches Some(list) && all_written(list@, m.schemas@, schema_in_full_v1()),
{
    told_v1(m, w);
    assert(Seq::<i32>::empty().to_set() =~= Set::<i32>::empty());
    assert(seen(m.schemas@).dom() =~= m.schemas@.dom());
    let gives = |d: SchemaV1, s: SchemaView| d.gives(s);
    told(w.schemas->Some_0@, seen(m.schemas@), gives, m.schemas@, schema_in_full_v1());
}

/// The single schema of a written version 1 form, read without the list of schemas, is the current
/// schema of the metadata, and is then the only one and the current one.
pub proof fn single_schema_is_the_current_one(
    m: TableMetadata,
    w: TableMetadataV1,
    schemas: Option<Vec<SchemaV1>>,
    current_schema_id: Option<i32>,
    t: TableMetadata,
)
    requires
        writes_v1(m, w),
        schemas is None || current_schema_id is None,
        reads(TableMetadataEnum::V1(TableMetadataV1 { schemas, current_schema_id, ..w }), Ok(t)),
    ensures
        ({
            let current = m.schemas@[m.current_schema_id];
            &&& t.current_schema_id == current.schema_id
            &&& t.schemas@.dom() == set![current.schema_id]
            &&& t.schemas@[current.schema_id].fields.fields@ == current.fields.fields@
            &&& t.schemas@[current.schema_id].identifier_field_ids@ == current.identifier_field_ids@
            &&& t.schemas@[current.schema_id].schema_id == current.schema_id
        }),
{
    schemas_are_written_v1(m, w);
    let form: TableMetadataV1 = TableMetadataV1 { schemas, current_schema_id, ..w };
    single_schema_v1_is_read(form, t);
}

/// The fields of the single partition spec of a written version 1 form, read without the list of
/// specs, are those of the default partition spec of the metadata, all of them and in their order.
pub proof fn single_spec_is_the_default_one(
    m: TableMetadata,
    w: TableMetadataV1,
    default_spec_id: Option<i32>,
    t: TableMetadata,
)
    requires
        writes_v1(m, w),
        reads(TableMetadataEnum::V1(TableMetadataV1 { partition_specs: None, default_spec_id, ..w }), Ok(t)),
    ensures
        t.default_spec.fields@ == m.default_spec.fields@,
{
    single_partition_spec_v1_is_read(TableMetadataV1 { partition_specs: None, default_spec_id, ..w }, t);
}

/// A partition spec with its id and its fields.
pub open spec fn spec_in_full() -> spec_fn(PartitionSpec, PartitionSpecRef) -> bool {
    |d: PartitionSpec, s: PartitionSpecRef| d.spec_id == s.spec_id && d.fields@ == s.fields@
}

/// A sort order with its id and its keys.
pub open spec fn order_in_full() -> spec_fn(SortOrder, SortOrderRef) -> bool {
    |d: SortOrder, s: SortOrderRef| d.order_id == s.order_id && d.fields@ == s.fields@
}

/// A snapshot in full, as a version 2 file has it.
pub open spec fn snapshot_in_full_v2() -> spec_fn(SnapshotV2, SnapshotRef) -> bool {
    |d: SnapshotV2, s: SnapshotRef| {
        &&& d.snapshot_id == s.snapshot_id
        &&& d.parent_snapshot_id == s.parent_snapshot_id
        &&& d.sequence_number == s.sequence_number
        &&& d.timestamp_ms == s.timestamp_ms
        &&& d.manifest_list@ == s.manifest_list@
        &&& same_summary(d.summary, s.summary)
        &&& d.schema_id == s.schema_id
    }
}

/// A snapshot in full but for its sequence number, as a version 1 file has it.
pub open spec fn snapshot_in_full_v1() -> spec_fn(SnapshotV1, SnapshotRef) -> bool {
    |d: SnapshotV1, s: SnapshotRef| {
        &&& d.snapshot_id == s.snapshot_id
        &&& d.parent_snapshot_id == s.parent_snapshot_id
        &&& d.timestamp_ms == s.timestamp_ms
        &&& d.manifest_list matches Some(l) && l@ == s.manifest_list@
        &&& d.manifests is None
        &&& d.summary matches Some(m) && same_summary(m, s.summary)
        &&& d.schema_id == s.schema_id
    }
}

/// Both forms list every partition spec of the metadata once, with its id and its fields, and no
/// other.
pub proof fn partition_specs_are_written(m: TableMetadata, v1: TableMetadataV1, v2: TableMetadataV2)
    ensures
        writes_v1(m, v1) ==> (v1.partition_specs matches Some(list) && all_written(
            list@,
            m.partition_specs@,
            spec_in_full(),
        )),
        writes_v2(m, v2) ==> all_written(v2.partition_specs@, m.partition_specs@, spec_in_full()),
{
    assert(seen(m.partition_specs@).dom() =~= m.partition_specs@.dom());
    let gives = |s: PartitionSpec, v: PartitionSpecView| s@ == v;
    if writes_v1(m, v1) {
        told_v1(m, v1);
        told(
            v1.partition_specs->Some_0@,
            seen(m.partition_specs@),
            gives,
            m.partition_specs@,
            spec_in_full(),
        );
    }
    if writes_v2(m, v2) {
        told_v2(m, v2);
        told(v2.partition_specs@, seen(m.partition_specs@), gives, m.partition_specs@, spec_in_full());
    }
}

/// Both forms list every sort order of the metadata once, with its id and its keys, and no other.
pub proof fn sort_orders_are_written(m: TableMetadata, v1: TableMetadataV1, v2: TableMetadataV2)
    ensures
        writes_v1(m, v1) ==> (v1.sort_orders matches Some(list) && all_written(
            list@,
            m.sort_orders@,
            order_in_full(),
        )),
        writes_v2(m, v2) ==> all_written(v2.sort_orders@, m.sort_orders@, order_in_full()),
{
    assert(seen(m.sort_orders@).dom() =~= m.sort_orders@.dom());
    let gives = |s: SortOrder, v: SortOrderView| s@ == v;
    if writes_v1(m, v1) {
        told_v1(m, v1);
        told(v1.sort_orders->Some_0@, seen(m.sort_orders@), gives, m.sort_orders@, order_in_full());
    }
    if writes_v2(m, v2) {
        told_v2(m, v2);
        told(v2.sort_orders@, seen(m.sort_orders@), gives, m.sort_orders@, order_in_full());
    }
}

/// The version 2 form lists every snapshot of the metadata once, in full, and no other; and leaves
/// the list out where there are none.
pub proof fn snapshots_are_written_v2(m: TableMetadata, w: TableMetadataV2)
    requires
        writes_v2(m, w),
    ensures
        w.snapshots is None <==> m.snapshots@.dom() == Set::<i64>::empty(),
        w.snapshots matches Some(list) ==> all_written(list@, m.snapshots@, snapshot_in_full_v2()),
{
    told_v2(m, w);
    assert(seen(m.snapshots@).dom() =~= m.snapshots@.dom());
    if w.snapshots is None {
        assert(seen(m.snapshots@).dom() =~= Set::<i64>::empty());
    } else {
        if m.snapshots@.dom() == Set::<i64>::empty() {
            assert(seen(m.snapshots@) =~= Map::<i64, SnapshotView>::empty());
        }
        let gives = |d: SnapshotV2, s: SnapshotView| d.snapshot() == s;
        told(w.snapshots->Some_0@, seen(m.snapshots@), gives, m.snapshots@, snapshot_in_full_v2());
    }
}

/// The version 1 form lists every snapshot of the metadata once, in full but for its sequence
/// number, and no other; and leaves the list out where there are none.
pub proof fn snapshots_are_written_v1(m: TableMetadata, w: TableMetadataV1)
    requires
        writes_v1(m, w),
    ensures
        w.snapshots is None <==> m.snapshots@.dom() == Set::<i64>::empty(),
        w.snapshots matches Some(list) ==> all_written(list@, m.snapshots@, snapshot_in_full_v1()),
{
    told_v1(m, w);
    assert(seen(m.snapshots@).dom() =~= m.snapshots@.dom());
    if w.snapshots is None {
        assert(seen(m.snapshots@).dom() =~= Set::<i64>::empty());
    } else {
        if m.snapshots@.dom() == Set::<i64>::empty() {
            assert(seen(m.snapshots@) =~= Map::<i64, SnapshotView>::empty());
        }
        let gives = |d: SnapshotV1, s: SnapshotView| d.gives(s);
        told(w.snapshots->Some_0@, seen(m.snapshots@), gives, m.snapshots@, snapshot_in_full_v1());
    }
}

/// Both forms list every statistics file of the metadata once, as it is, and no other.
pub proof fn statistics_are_written(m: TableMetadata, v1: TableMetadataV1, v2: TableMetadataV2)
    ensures
        writes_v1(m, v1) ==> all_written(v1.statistics@, m.statistics@, |a: StatisticsFile, b: StatisticsFile| a == b),
        writes_v2(m, v2) ==> all_written(v2.statistics@, m.statistics@, |a: StatisticsFile, b: StatisticsFile| a == b),
{
    let same = |a: StatisticsFile, b: StatisticsFile| a == b;
    if writes_v1(m, v1) {
        told_v1(m, v1);
        told(v1.statistics@, m.statistics@, same, m.statistics@, same);
    }
    if writes_v2(m, v2) {
        told_v2(m, v2);
        told(v2.statistics@, m.statistics@, same, m.statistics@, same);
    }
}

/// Both forms list every partition statistics file of the metadata once, as it is, and no other.
pub proof fn partition_statistics_are_written(m: TableMetadata, v1: TableMetadataV1, v2: TableMetadataV2)
    ensures
        writes_v1(m, v1) ==> all_written(
            v1.partition_statistics@,
            m.partition_statistics@,
            |a: PartitionStatisticsFile, b: PartitionStatisticsFile| a == b,
        ),
        writes_v2(m, v2) ==> all_written(
            v2.partition_statistics@,
            m.partition_statistics@,
            |a: PartitionStatisticsFile, b: PartitionStatisticsFile| a == b,
        ),
{
    let same = |a: PartitionStatisticsFile, b: PartitionStatisticsFile| a == b;
    if writes_v1(m, v1) {
        told_v1(m, v1);
        told(v1.partition_statistics@, m.partition_statistics@, same, m.partition_statistics@, same);
    }
    if writes_v2(m, v2) {
        told_v2(m, v2);
        told(v2.partition_statistics@, m.partition_statistics@, same, m.partition_statistics@, same);
    }
}

/// Metadata that was read from a file can be written, and reading what was written gives the same
/// metadata again.
pub proof fn read_written_and_read_again(
    first: TableMetadataEnum,
    t: TableMetadata,
    written: Result<TableMetadataEnum, Error>,
    r: Result<TableMetadata, Error>,
)
    requires
        reads(first, Ok(t)),
        writes(t, written),
        written matches Ok(second) ==> reads(second, r),
    ensures
        written is Ok,
        r matches Ok(u) && u@ == t@,
        written matches Ok(second) ==> (second is V2 <==> first is V2),
{
    read_metadata_is_whole(first, t);
    single_values_are_read(first, t);
    written_in_its_version(t, written);
    read_write_read(first, t, written->Ok_0, r);
}

} // verus!
