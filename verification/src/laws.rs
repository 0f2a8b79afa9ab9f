//! What holds of table metadata as a whole.

use crate::documents::{TableMetadataEnum, TableMetadataV1, TableMetadataV2};
use crate::error::{Error, ErrorView};
use crate::format_version::FormatVersion;
use crate::listing::{
    collected, collected_all, first_wins, first_wins_means, keys_in_order, last_wins, last_wins_means,
    list_read_back, tells,
};
use crate::metadata::{TableMetadata, TableMetadataView, EMPTY_SNAPSHOT_ID, MAIN_BRANCH};
use crate::normalize::{
    comparable, normalizable, normalized, with_default_sort_order, with_default_spec, with_main_branch,
    with_trimmed_location, without_empty_snapshot,
};
use crate::partition::{partition_type_of, PartitionField, PartitionSpec, PartitionSpecView};
use crate::reading::{
    assembled, assembled_v1, assembled_v2, list_read, main_only, partition_statistics_pairs, read_outcome,
    schema_items_v1, schema_items_v2, snapshot_id_read, snapshot_items_v1, snapshot_pairs, sort_order_pairs,
    spec_pairs, statistics_pairs,
};
use crate::schema::{
    schema_read_back, schema_valid, schemas_made_are_valid, listed_ids, SchemaV1, SchemaV2, SchemaView,
};
use crate::snapshot::{SnapshotV1, SnapshotV2, SnapshotView};
use crate::sort::{SortOrder, SortOrderView};
use crate::statistics::{PartitionStatisticsFile, StatisticsFile};
use crate::text::{trailing_slashes_gone_for_good, trailing_slashes_only, without_trailing_slashes};
use crate::writing::{
    tells_metadata, tells_partition_statistics, tells_schemas_v1, tells_schemas_v2, tells_snapshots_v1,
    tells_snapshots_v2, tells_sort_orders, tells_specs, tells_statistics,
};
use vstd::prelude::*;

verus! {

/// Everything stands under its own id.
pub open spec fn under_own_ids(m: TableMetadataView) -> bool {
    &&& forall|k: i32| #[trigger] m.schemas.contains_key(k) ==> m.schemas[k].schema_id == k
    &&& forall|k: i32| #[trigger] m.partition_specs.contains_key(k) ==> m.partition_specs[k].spec_id == k
    &&& forall|k: i64| #[trigger] m.snapshots.contains_key(k) ==> m.snapshots[k].snapshot_id == k
    &&& forall|k: i64| #[trigger] m.sort_orders.contains_key(k) ==> m.sort_orders[k].order_id == k
    &&& forall|k: i64| #[trigger] m.statistics.contains_key(k) ==> m.statistics[k].snapshot_id == k
    &&& forall|k: i64| #[trigger]
        m.partition_statistics.contains_key(k) ==> m.partition_statistics[k].snapshot_id == k
}

/// The default partition spec is the listed one of its id, and the partition type is its type for
/// the current schema.
pub open spec fn default_spec_fits(m: TableMetadataView) -> bool {
    &&& m.partition_specs.contains_key(m.default_spec.spec_id)
    &&& m.partition_specs[m.default_spec.spec_id] == m.default_spec
    &&& partition_type_of(m.default_spec, m.schemas[m.current_schema_id].fields) == Ok::<
        Seq<crate::datatypes::NestedFieldRef>,
        ErrorView,
    >(m.default_partition_type)
}

/// What metadata of version 1 cannot hold is not there: references other than the main branch, and
/// sequence numbers of snapshots.
pub open spec fn fits_version(m: TableMetadataView) -> bool {
    m.format_version == FormatVersion::V1 ==> {
        &&& m.refs == main_only(m.current_snapshot_id)
        &&& forall|k: i64| #[trigger] m.snapshots.contains_key(k) ==> m.snapshots[k].sequence_number == 0
    }
}

/// Metadata that keeps the rules.
pub open spec fn valid(m: TableMetadataView) -> bool {
    &&& normalizable(m)
    &&& normalized(m) == m
    &&& under_own_ids(m)
    &&& forall|k: i32| #[trigger] m.schemas.contains_key(k) ==> schema_valid(m.schemas[k])
    &&& default_spec_fits(m)
    &&& fits_version(m)
}

/// The metadata without encryption keys, which no file tells.
pub open spec fn without_keys(m: TableMetadataView) -> TableMetadataView {
    TableMetadataView { encryption_keys: Map::empty(), ..m }
}

/// Metadata that was brought to keep the rules keeps them, and bringing it to keep them again
/// changes nothing.
pub proof fn normalized_for_good(m: TableMetadataView)
    requires
        normalizable(m),
    ensures
        normalizable(normalized(m)),
        normalized(normalized(m)) == normalized(m),
{
    trailing_slashes_gone_for_good(m.location);
    let n: TableMetadataView = normalized(m);
    assert(without_empty_snapshot(n) == n);
    assert(with_main_branch(n) == n);
    assert(with_trimmed_location(n) == n);
    assert(with_default_spec(n) == n);
    assert(with_default_sort_order(n) == n);
}

/// In metadata that was brought to keep the rules, everything that is pointed to exists: the current
/// schema, the current snapshot, the snapshots of all references, the default partition spec and
/// the default sort order.
pub proof fn normalized_is_whole(m: TableMetadataView)
    requires
        normalizable(m),
    ensures
        ({
            let n = normalized(m);
            &&& n.schemas.contains_key(n.current_schema_id)
            &&& n.current_snapshot_id matches Some(id) ==> n.snapshots.contains_key(id)
            &&& forall|name: Seq<char>| #[trigger]
                n.refs.contains_key(name) ==> n.snapshots.contains_key(n.refs[name].snapshot_id)
            &&& n.partition_specs.contains_key(n.default_spec.spec_id)
            &&& n.sort_orders.contains_key(n.default_sort_order_id)
        }),
{
}

/// In metadata that was brought to keep the rules, the main branch is there exactly when there is a
/// current snapshot, and points to it. The id that stands for no snapshot does not occur as the
/// current one.
pub proof fn main_branch_follows_current_snapshot(m: TableMetadataView)
    requires
        normalizable(m),
    ensures
        ({
            let n = normalized(m);
            &&& n.refs.contains_key(MAIN_BRANCH@) <==> n.current_snapshot_id is Some
            &&& n.current_snapshot_id matches Some(id) ==> n.refs[MAIN_BRANCH@].snapshot_id == id
            &&& n.current_snapshot_id != Some(EMPTY_SNAPSHOT_ID)
        }),
{
}

/// Bringing metadata to keep the rules leaves alone all that no rule is about: it touches the
/// current snapshot id, the main branch, the end of the location, the default partition spec and
/// the default sort order, and takes nothing away that was listed.
pub proof fn normalizing_changes_little(m: TableMetadataView)
    requires
        normalizable(m),
    ensures
        ({
            let n = normalized(m);
            &&& n == (TableMetadataView {
                current_snapshot_id: n.current_snapshot_id,
                refs: n.refs,
                location: n.location,
                partition_specs: n.partition_specs,
                sort_orders: n.sort_orders,
                ..m
            })
            &&& n.current_snapshot_id == snapshot_id_read(m.current_snapshot_id)
            &&& m.refs.submap_of(n.refs)
            &&& forall|name: Seq<char>| #[trigger]
                n.refs.contains_key(name) ==> name == MAIN_BRANCH@ || m.refs.contains_key(name)
            &&& n.location == without_trailing_slashes(m.location)
            &&& n.location.len() > 0 ==> n.location.last() != '/'
            &&& m.partition_specs.submap_of(n.partition_specs)
            &&& m.sort_orders.submap_of(n.sort_orders)
        }),
{
    trailing_slashes_only(m.location);
}

/// What can be had of a list comes from the list.
proof fn collected_means<K, V>(items: Seq<Result<(K, V), ErrorView>>)
    ensures
        collected(items) matches Ok(m) ==> forall|k: K| #[trigger]
            m.contains_key(k) ==> exists|i: int|
                0 <= i < items.len() && #[trigger] items[i] == Ok::<(K, V), ErrorView>((k, m[k])),
    decreases items.len(),
{
    if items.len() > 0 {
        let rest: Seq<Result<(K, V), ErrorView>> = items.drop_last();
        collected_means(rest);
        if let Ok(m) = collected(items) {
            let before: Map<K, V> = collected(rest)->Ok_0;
            let last: (K, V) = items.last()->Ok_0;
            assert forall|k: K| #[trigger] m.contains_key(k) implies exists|i: int|
                0 <= i < items.len() && #[trigger] items[i] == Ok::<(K, V), ErrorView>((k, m[k])) by {
                if k == last.0 {
                    assert(items[items.len() - 1] == Ok::<(K, V), ErrorView>((k, m[k])));
                } else {
                    assert(before.contains_key(k));
                    let i: int = choose|i: int|
                        0 <= i < rest.len() && #[trigger] rest[i] == Ok::<(K, V), ErrorView>((k, before[k]));
                    assert(items[i] == Ok::<(K, V), ErrorView>((k, m[k])));
                }
            }
        }
    }
}

/// Schemas that were read stand under their ids and keep the rules.
proof fn schemas_read_are_valid(v2: Seq<SchemaV2>, v1: Seq<SchemaV1>)
    ensures
        collected(schema_items_v2(v2)) matches Ok(m) ==> forall|k: i32| #[trigger]
            m.contains_key(k) ==> m[k].schema_id == k && schema_valid(m[k]),
        collected(schema_items_v1(v1)) matches Ok(m) ==> forall|k: i32| #[trigger]
            m.contains_key(k) ==> m[k].schema_id == k && schema_valid(m[k]),
{
    let items2: Seq<Result<(i32, SchemaView), ErrorView>> = schema_items_v2(v2);
    collected_means(items2);
    if let Ok(m) = collected(items2) {
        assert forall|k: i32| #[trigger] m.contains_key(k) implies m[k].schema_id == k && schema_valid(m[k]) by {
            let i: int = choose|i: int|
                0 <= i < items2.len() && #[trigger] items2[i] == Ok::<(i32, SchemaView), ErrorView>((k, m[k]));
            let d: SchemaV2 = v2[i];
            schemas_made_are_valid(d.schema_id, d.fields@, listed_ids(d.identifier_field_ids));
        }
    }
    let items1: Seq<Result<(i32, SchemaView), ErrorView>> = schema_items_v1(v1);
    collected_means(items1);
    if let Ok(m) = collected(items1) {
        assert forall|k: i32| #[trigger] m.contains_key(k) implies m[k].schema_id == k && schema_valid(m[k]) by {
            let i: int = choose|i: int|
                0 <= i < items1.len() && #[trigger] items1[i] == Ok::<(i32, SchemaView), ErrorView>((k, m[k]));
            let d: SchemaV1 = v1[i];
            schemas_made_are_valid(d.id(), d.fields@, listed_ids(d.identifier_field_ids));
        }
    }
}

/// Whatever reading a version 2 file gives keeps the rules, and has no encryption keys.
pub proof fn read_v2_is_valid(value: TableMetadataV2)
    ensures
        assembled_v2(value) matches Ok(m) ==> normalizable(m) ==> valid(normalized(m)) && without_keys(
            normalized(m),
        ) == normalized(m),
{
    if let Ok(m) = assembled_v2(value) {
        if normalizable(m) {
            normalized_for_good(m);
            schemas_read_are_valid(value.schemas@, Seq::empty());
            last_wins_means(spec_pairs(value.partition_specs@));
            last_wins_means(snapshot_pairs(list_read(value.snapshots)));
            last_wins_means(sort_order_pairs(value.sort_orders@));
            first_wins_means(statistics_pairs(value.statistics@));
            first_wins_means(partition_statistics_pairs(value.partition_statistics@));
            let n: TableMetadataView = normalized(m);
            assert(under_own_ids(n));
            assert(default_spec_fits(n));
        }
    }
}

/// Whatever reading a version 1 file gives keeps the rules, and has no encryption keys.
pub proof fn read_v1_is_valid(value: TableMetadataV1)
    ensures
        assembled_v1(value) matches Ok(m) ==> normalizable(m) ==> valid(normalized(m)) && without_keys(
            normalized(m),
        ) == normalized(m),
{
    if let Ok(m) = assembled_v1(value) {
        if normalizable(m) {
            normalized_for_good(m);
            schemas_read_are_valid(Seq::empty(), list_read(value.schemas));
            if let Some(d) = value.schema {
                schemas_made_are_valid(d.id(), d.fields@, listed_ids(d.identifier_field_ids));
            }
            last_wins_means(spec_pairs(list_read(value.partition_specs)));
            collected_means(snapshot_items_v1(list_read(value.snapshots)));
            last_wins_means(sort_order_pairs(list_read(value.sort_orders)));
            first_wins_means(statistics_pairs(value.statistics@));
            first_wins_means(partition_statistics_pairs(value.partition_statistics@));
            let n: TableMetadataView = normalized(m);
            assert(under_own_ids(n));
            assert(default_spec_fits(n));
            assert(fits_version(n));
        }
    }
}

/// Partition specs are read back from a list that tells them.
proof fn specs_read_back(list: Seq<PartitionSpec>, specs: Map<i32, PartitionSpecView>)
    requires
        tells_specs(list, specs),
        forall|k: i32| #[trigger] specs.contains_key(k) ==> specs[k].spec_id == k,
    ensures
        last_wins(spec_pairs(list)) == specs,
{
    let gives = |s: PartitionSpec, v: PartitionSpecView| s@ == v;
    let keys: Seq<i32> = choose|keys: Seq<i32>| #[trigger]
        keys_in_order(keys, specs) && list.len() == keys.len() && forall|i: int|
            0 <= i < keys.len() ==> gives(#[trigger] list[i], specs[keys[i]]);
    assert forall|i: int| 0 <= i < keys.len() implies #[trigger] spec_pairs(list)[i] == (keys[i], specs[keys[i]]) by {
        assert(gives(list[i], specs[keys[i]]));
        assert(keys.to_set().contains(keys[i]));
    }
    list_read_back(spec_pairs(list), keys, specs);
}

/// Sort orders are read back from a list that tells them.
proof fn sort_orders_read_back(list: Seq<SortOrder>, orders: Map<i64, SortOrderView>)
    requires
        tells_sort_orders(list, orders),
        forall|k: i64| #[trigger] orders.contains_key(k) ==> orders[k].order_id == k,
    ensures
        last_wins(sort_order_pairs(list)) == orders,
{
    let gives = |s: SortOrder, v: SortOrderView| s@ == v;
    let keys: Seq<i64> = choose|keys: Seq<i64>| #[trigger]
        keys_in_order(keys, orders) && list.len() == keys.len() && forall|i: int|
            0 <= i < keys.len() ==> gives(#[trigger] list[i], orders[keys[i]]);
    assert forall|i: int| 0 <= i < keys.len() implies #[trigger] sort_order_pairs(list)[i] == (
        keys[i],
        orders[keys[i]],
    ) by {
        assert(gives(list[i], orders[keys[i]]));
        assert(keys.to_set().contains(keys[i]));
    }
    list_read_back(sort_order_pairs(list), keys, orders);
}

/// Statistics files are read back from lists that tell them.
proof fn statistics_read_back(
    list: Seq<StatisticsFile>,
    files: Map<i64, StatisticsFile>,
    partition_list: Seq<PartitionStatisticsFile>,
    partition_files: Map<i64, PartitionStatisticsFile>,
)
    requires
        tells_statistics(list, files),
        forall|k: i64| #[trigger] files.contains_key(k) ==> files[k].snapshot_id == k,
        tells_partition_statistics(partition_list, partition_files),
        forall|k: i64| #[trigger] partition_files.contains_key(k) ==> partition_files[k].snapshot_id == k,
    ensures
        first_wins(statistics_pairs(list)) == files,
        first_wins(partition_statistics_pairs(partition_list)) == partition_files,
{
    let same = |a: StatisticsFile, b: StatisticsFile| a == b;
    let keys: Seq<i64> = choose|keys: Seq<i64>| #[trigger]
        keys_in_order(keys, files) && list.len() == keys.len() && forall|i: int|
            0 <= i < keys.len() ==> same(#[trigger] list[i], files[keys[i]]);
    assert forall|i: int| 0 <= i < keys.len() implies #[trigger] statistics_pairs(list)[i] == (
        keys[i],
        files[keys[i]],
    ) by {
        assert(same(list[i], files[keys[i]]));
        assert(keys.to_set().contains(keys[i]));
    }
    list_read_back(statistics_pairs(list), keys, files);
    let same_partition = |a: PartitionStatisticsFile, b: PartitionStatisticsFile| a == b;
    let ids: Seq<i64> = choose|ids: Seq<i64>| #[trigger]
        keys_in_order(ids, partition_files) && partition_list.len() == ids.len() && forall|i: int|
            0 <= i < ids.len() ==> same_partition(#[trigger] partition_list[i], partition_files[ids[i]]);
    assert forall|i: int| 0 <= i < ids.len() implies #[trigger] partition_statistics_pairs(partition_list)[i] == (
        ids[i],
        partition_files[ids[i]],
    ) by {
        assert(same_partition(partition_list[i], partition_files[ids[i]]));
        assert(ids.to_set().contains(ids[i]));
    }
    list_read_back(partition_statistics_pairs(partition_list), ids, partition_files);
}

/// Schemas are read back from a list that tells them to a version 2 file.
proof fn schemas_v2_read_back(list: Seq<SchemaV2>, schemas: Map<i32, SchemaView>)
    requires
        tells_schemas_v2(list, schemas),
        forall|k: i32| #[trigger] schemas.contains_key(k) ==> schemas[k].schema_id == k && schema_valid(schemas[k]),
    ensures
        collected(schema_items_v2(list)) == Ok::<Map<i32, SchemaView>, ErrorView>(schemas),
{
    let gives = |d: SchemaV2, s: SchemaView| d.gives(s);
    let keys: Seq<i32> = choose|keys: Seq<i32>| #[trigger]
        keys_in_order(keys, schemas) && list.len() == keys.len() && forall|i: int|
            0 <= i < keys.len() ==> gives(#[trigger] list[i], schemas[keys[i]]);
    let pairs: Seq<(i32, SchemaView)> = Seq::new(keys.len(), |i: int| (keys[i], schemas[keys[i]]));
    assert forall|i: int| 0 <= i < list.len() implies #[trigger] schema_items_v2(list)[i] == Ok::<
        (i32, SchemaView),
        ErrorView,
    >(pairs[i]) by {
        assert(gives(list[i], schemas[keys[i]]));
        assert(keys.to_set().contains(keys[i]));
        schema_read_back(arbitrary(), list[i], schemas[keys[i]]);
    }
    collected_all(schema_items_v2(list), pairs);
    list_read_back(pairs, keys, schemas);
}

/// Schemas are read back from a list that tells them to a version 1 file.
proof fn schemas_v1_read_back(list: Seq<SchemaV1>, schemas: Map<i32, SchemaView>)
    requires
        tells_schemas_v1(list, schemas),
        forall|k: i32| #[trigger] schemas.contains_key(k) ==> schemas[k].schema_id == k && schema_valid(schemas[k]),
    ensures
        collected(schema_items_v1(list)) == Ok::<Map<i32, SchemaView>, ErrorView>(schemas),
{
    let gives = |d: SchemaV1, s: SchemaView| d.gives(s);
    let keys: Seq<i32> = choose|keys: Seq<i32>| #[trigger]
        keys_in_order(keys, schemas) && list.len() == keys.len() && forall|i: int|
            0 <= i < keys.len() ==> gives(#[trigger] list[i], schemas[keys[i]]);
    let pairs: Seq<(i32, SchemaView)> = Seq::new(keys.len(), |i: int| (keys[i], schemas[keys[i]]));
    assert forall|i: int| 0 <= i < list.len() implies #[trigger] schema_items_v1(list)[i] == Ok::<
        (i32, SchemaView),
        ErrorView,
    >(pairs[i]) by {
        assert(gives(list[i], schemas[keys[i]]));
        assert(keys.to_set().contains(keys[i]));
        schema_read_back(list[i], arbitrary(), schemas[keys[i]]);
    }
    collected_all(schema_items_v1(list), pairs);
    list_read_back(pairs, keys, schemas);
}

/// Snapshots are read back from a list that tells them to a version 2 file.
proof fn snapshots_v2_read_back(written: Option<Vec<SnapshotV2>>, snapshots: Map<i64, SnapshotView>)
    requires
        tells_snapshots_v2(written, snapshots),
        forall|k: i64| #[trigger] snapshots.contains_key(k) ==> snapshots[k].snapshot_id == k,
    ensures
        last_wins(snapshot_pairs(list_read(written))) == snapshots,
{
    let list: Seq<SnapshotV2> = list_read(written);
    if snapshots != Map::<i64, SnapshotView>::empty() {
        let gives = |d: SnapshotV2, s: SnapshotView| d.snapshot() == s;
        let keys: Seq<i64> = choose|keys: Seq<i64>| #[trigger]
            keys_in_order(keys, snapshots) && list.len() == keys.len() && forall|i: int|
                0 <= i < keys.len() ==> gives(#[trigger] list[i], snapshots[keys[i]]);
        assert forall|i: int| 0 <= i < keys.len() implies #[trigger] snapshot_pairs(list)[i] == (
            keys[i],
            snapshots[keys[i]],
        ) by {
            assert(gives(list[i], snapshots[keys[i]]));
            assert(keys.to_set().contains(keys[i]));
        }
        list_read_back(snapshot_pairs(list), keys, snapshots);
    }
}

/// Snapshots without sequence numbers are read back from a list that tells them to a version 1
/// file.
proof fn snapshots_v1_read_back(written: Option<Vec<SnapshotV1>>, snapshots: Map<i64, SnapshotView>)
    requires
        tells_snapshots_v1(written, snapshots),
        forall|k: i64| #[trigger]
            snapshots.contains_key(k) ==> snapshots[k].snapshot_id == k && snapshots[k].sequence_number == 0,
    ensures
        collected(snapshot_items_v1(list_read(written))) == Ok::<Map<i64, SnapshotView>, ErrorView>(snapshots),
{
    let list: Seq<SnapshotV1> = list_read(written);
    if snapshots != Map::<i64, SnapshotView>::empty() {
        let gives = |d: SnapshotV1, s: SnapshotView| d.gives(s);
        let keys: Seq<i64> = choose|keys: Seq<i64>| #[trigger]
            keys_in_order(keys, snapshots) && list.len() == keys.len() && forall|i: int|
                0 <= i < keys.len() ==> gives(#[trigger] list[i], snapshots[keys[i]]);
        let pairs: Seq<(i64, SnapshotView)> = Seq::new(keys.len(), |i: int| (keys[i], snapshots[keys[i]]));
        assert forall|i: int| 0 <= i < list.len() implies #[trigger] snapshot_items_v1(list)[i] == Ok::<
            (i64, SnapshotView),
            ErrorView,
        >(pairs[i]) by {
            assert(gives(list[i], snapshots[keys[i]]));
            assert(keys.to_set().contains(keys[i]));
        }
        collected_all(snapshot_items_v1(list), pairs);
        list_read_back(pairs, keys, snapshots);
    }
}

/// A file that tells valid metadata says that metadata, all but its encryption keys.
pub proof fn written_says_what_it_tells(v: TableMetadataEnum, m: TableMetadataView)
    requires
        valid(m),
        tells_metadata(v, m),
    ensures
        assembled(v) == Ok::<TableMetadataView, ErrorView>(without_keys(m)),
        comparable(without_keys(m)) == comparable(m),
{
    normalized_is_whole(m);
    main_branch_follows_current_snapshot(m);
    match v {
        TableMetadataEnum::V2(w) => {
            schemas_v2_read_back(w.schemas@, m.schemas);
            specs_read_back(w.partition_specs@, m.partition_specs);
            snapshots_v2_read_back(w.snapshots, m.snapshots);
            sort_orders_read_back(w.sort_orders@, m.sort_orders);
            statistics_read_back(
                w.statistics@,
                m.statistics,
                w.partition_statistics@,
                m.partition_statistics,
            );
            assert(list_read(w.snapshot_log) =~= m.snapshot_log);
            assert(list_read(w.metadata_log) =~= m.metadata_log);
        },
        TableMetadataEnum::V1(w) => {
            schemas_v1_read_back(list_read(w.schemas), m.schemas);
            specs_read_back(list_read(w.partition_specs), m.partition_specs);
            snapshots_v1_read_back(w.snapshots, m.snapshots);
            sort_orders_read_back(list_read(w.sort_orders), m.sort_orders);
            statistics_read_back(
                w.statistics@,
                m.statistics,
                w.partition_statistics@,
                m.partition_statistics,
            );
            assert(list_read(w.snapshot_log) =~= m.snapshot_log);
            assert(list_read(w.metadata_log) =~= m.metadata_log);
        },
    }
}

/// Valid metadata that was written is read back as it was, all but its encryption keys: reading
/// succeeds, whatever the order in which the file lists things.
pub proof fn written_is_read_back(v: TableMetadataEnum, m: TableMetadataView, r: Result<TableMetadata, Error>)
    requires
        valid(m),
        tells_metadata(v, m),
        read_outcome(assembled(v), r),
    ensures
        r matches Ok(t) && t@ == without_keys(m),
{
    written_says_what_it_tells(v, m);
    let n: TableMetadataView = without_keys(m);
    assert(normalizable(n));
    assert(normalized(n) == n) by {
        assert(normalized(m) == m);
    }
}

/// Metadata that was read has its current schema, so that it can be written; and when it is read
/// again from what was written, it comes back as it was.
pub proof fn read_write_read(
    first: TableMetadataEnum,
    t: TableMetadata,
    second: TableMetadataEnum,
    r: Result<TableMetadata, Error>,
)
    requires
        read_outcome(assembled(first), Ok(t)),
        tells_metadata(second, t@),
        read_outcome(assembled(second), r),
    ensures
        valid(t@),
        t@.schemas.contains_key(t@.current_schema_id),
        assembled(second) is Ok,
        comparable(assembled(first)->Ok_0) ==> comparable(assembled(second)->Ok_0),
        r matches Ok(u) && u@ == t@,
{
    match first {
        TableMetadataEnum::V2(w) => {
            read_v2_is_valid(w);
        },
        TableMetadataEnum::V1(w) => {
            read_v1_is_valid(w);
        },
    }
    normalized_is_whole(t@);
    written_says_what_it_tells(second, t@);
    written_is_read_back(second, t@, r);
}

/// A version 1 file that gives schemas and the id of the current one says the same whatever single
/// schema it gives besides.
pub proof fn schemas_come_before_schema(value: TableMetadataV1, schema: Option<SchemaV1>)
    requires
        value.schemas is Some,
        value.current_schema_id is Some,
    ensures
        assembled_v1(TableMetadataV1 { schema, ..value }) == assembled_v1(value),
{
}

/// A version 1 file that gives partition specs says the same whatever fields of a single spec it
/// gives besides.
pub proof fn partition_specs_come_before_partition_spec(
    value: TableMetadataV1,
    partition_spec: Option<Vec<PartitionField>>,
)
    requires
        value.partition_specs is Some,
    ensures
        assembled_v1(TableMetadataV1 { partition_spec, ..value }) == assembled_v1(value),
{
}

} // verus!
