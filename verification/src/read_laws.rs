//! What reading a metadata file gives, told on the file and on the metadata themselves.

use crate::datatypes::ColumnView;
use crate::documents::{TableMetadataEnum, TableMetadataV1, TableMetadataV2};
use crate::error::{Error, ErrorView};
use crate::format_version::FormatVersion;
use crate::laws::{
    main_branch_follows_current_snapshot, normalized_is_whole, normalizing_changes_little, read_v1_is_valid,
    read_v2_is_valid, valid,
};
use crate::listing::{collected, first_wins, first_wins_means, last_wins, last_wins_means};
use crate::metadata::{TableMetadata, TableMetadataView};
use crate::normalize::{chronological, follows, metadata_times, normalized, snapshot_times};
use crate::part_laws::{value_field, values_typed};
use crate::partition::PartitionSpec;
use crate::reading::{
    assembled, list_read, partition_statistics_pairs, read_outcome, schema_items_v1, schema_items_v2,
    snapshot_items_v1, snapshot_pairs, sort_order_pairs, spec_pairs, statistics_pairs,
};
use crate::rule_laws::unlimited_branch;
use crate::schema::{schema_columns, Schema, SchemaV1, SchemaV2, SchemaView};
use crate::snapshot::{Operation, SnapshotV1, SnapshotV2, SnapshotView, Summary};
use crate::sort::{SortOrder, SortOrderView};
use crate::statistics::{PartitionStatisticsFile, StatisticsFile};
use crate::text::trailing_slashes_only;
use vstd::prelude::*;

verus! {

/// Some way of reading this form had this outcome.
pub open spec fn reads(value: TableMetadataEnum, r: Result<TableMetadata, Error>) -> bool {
    ||| call_ensures(TableMetadata::try_from, (value,), r)
    ||| call_ensures(TableMetadata::try_read, (value,), Some(r))
    ||| (value matches TableMetadataEnum::V2(v) && call_ensures(TableMetadata::try_from_v2, (v,), r))
    ||| (value matches TableMetadataEnum::V1(v) && call_ensures(TableMetadata::try_from_v1, (v,), r))
}

/// Metadata that was read is what the file says, brought to keep the rules.
proof fn read_was_normalized(value: TableMetadataEnum, t: TableMetadata) -> (m: TableMetadataView)
    requires
        reads(value, Ok(t)),
    ensures
        assembled(value) == Ok::<TableMetadataView, ErrorView>(m),
        crate::normalize::normalizable(m),
        t@ == normalized(m),
        valid(t@),
{
    let m: TableMetadataView = assembled(value)->Ok_0;
    assert(read_outcome(assembled(value), Ok(t)));
    match value {
        TableMetadataEnum::V2(v) => read_v2_is_valid(v),
        TableMetadataEnum::V1(v) => read_v1_is_valid(v),
    }
    m
}

/// Everything that metadata points to is there in metadata that was read: the current schema, the
/// current snapshot, the snapshot of every reference, the default partition spec and the default
/// sort order. The main branch is there exactly when there is a current snapshot, and is to it.
pub proof fn read_metadata_is_whole(value: TableMetadataEnum, t: TableMetadata)
    requires
        reads(value, Ok(t)),
    ensures
        t.schemas@.contains_key(t.current_schema_id),
        t.current_snapshot_id matches Some(id) ==> id != -1 && t.snapshots@.contains_key(id),
        forall|name: Seq<char>|
            t.refs@.contains_key(name) ==> t.snapshots@.contains_key((#[trigger] t.refs@[name]).snapshot_id),
        t.refs@.contains_key("main"@) <==> t.current_snapshot_id is Some,
        t.current_snapshot_id matches Some(id) ==> t.refs@["main"@].snapshot_id == id,
        t.partition_specs@.contains_key(t.default_spec.spec_id),
        t.partition_specs@[t.default_spec.spec_id].spec_id == t.default_spec.spec_id,
        t.partition_specs@[t.default_spec.spec_id].fields@ == t.default_spec.fields@,
        t.sort_orders@.contains_key(t.default_sort_order_id),
{
    let m: TableMetadataView = read_was_normalized(value, t);
    normalized_is_whole(m);
    main_branch_follows_current_snapshot(m);
    assert forall|name: Seq<char>| t.refs@.contains_key(name) implies t.snapshots@.contains_key(
        (#[trigger] t.refs@[name]).snapshot_id,
    ) by {
        assert(t@.refs.contains_key(name));
    }
    assert(t@.partition_specs.contains_key(t.default_spec.spec_id));
    assert(t.partition_specs@[t.default_spec.spec_id]@ == t@.partition_specs[t.default_spec.spec_id]);
    assert(t@.sort_orders.contains_key(t.default_sort_order_id));
}

/// In metadata that was read, everything stands under its own id.
pub proof fn read_metadata_is_under_its_ids(value: TableMetadataEnum, t: TableMetadata)
    requires
        reads(value, Ok(t)),
    ensures
        forall|k: i32| t.schemas@.contains_key(k) ==> (#[trigger] t.schemas@[k]).schema_id == k,
        forall|k: i32| t.partition_specs@.contains_key(k) ==> (#[trigger] t.partition_specs@[k]).spec_id == k,
        forall|k: i64| t.snapshots@.contains_key(k) ==> (#[trigger] t.snapshots@[k]).snapshot_id == k,
        forall|k: i64| t.sort_orders@.contains_key(k) ==> (#[trigger] t.sort_orders@[k]).order_id == k,
        forall|k: i64| t.statistics@.contains_key(k) ==> (#[trigger] t.statistics@[k]).snapshot_id == k,
        forall|k: i64|
            t.partition_statistics@.contains_key(k) ==> (#[trigger] t.partition_statistics@[k]).snapshot_id == k,
{
    read_was_normalized(value, t);
    assert forall|k: i32| t.schemas@.contains_key(k) implies (#[trigger] t.schemas@[k]).schema_id == k by {
        assert(t@.schemas.contains_key(k));
    }
    assert forall|k: i32| t.partition_specs@.contains_key(k) implies (#[trigger] t.partition_specs@[k]).spec_id
        == k by {
        assert(t@.partition_specs.contains_key(k));
    }
    assert forall|k: i64| t.snapshots@.contains_key(k) implies (#[trigger] t.snapshots@[k]).snapshot_id == k by {
        assert(t@.snapshots.contains_key(k));
    }
    assert forall|k: i64| t.sort_orders@.contains_key(k) implies (#[trigger] t.sort_orders@[k]).order_id == k by {
        assert(t@.sort_orders.contains_key(k));
    }
    assert forall|k: i64| t.statistics@.contains_key(k) implies (#[trigger] t.statistics@[k]).snapshot_id == k by {
        assert(t@.statistics.contains_key(k));
    }
    assert forall|k: i64| t.partition_statistics@.contains_key(k) implies (
    #[trigger] t.partition_statistics@[k]).snapshot_id == k by {
        assert(t@.partition_statistics.contains_key(k));
    }
}

/// In metadata that was read, no log entry is more than a minute before the entry it follows, and
/// the last update is not more than a minute before the last entry of either log.
pub proof fn read_logs_run_with_time(value: TableMetadataEnum, t: TableMetadata)
    requires
        reads(value, Ok(t)),
    ensures
        forall|i: int, j: int|
            0 <= i && j == i + 1 && j < t.snapshot_log@.len() ==> (#[trigger] t.snapshot_log@[j]).timestamp_ms >= (
            #[trigger] t.snapshot_log@[i]).timestamp_ms - 60000,
        t.snapshot_log@.len() > 0 ==> t.last_updated_ms - t.snapshot_log@.last().timestamp_ms >= -60000,
        forall|i: int, j: int|
            0 <= i && j == i + 1 && j < t.metadata_log@.len() ==> (#[trigger] t.metadata_log@[j]).timestamp_ms >= (
            #[trigger] t.metadata_log@[i]).timestamp_ms - 60000,
        t.metadata_log@.len() > 0 ==> t.last_updated_ms - t.metadata_log@.last().timestamp_ms >= -60000,
{
    read_was_normalized(value, t);
    let s: Seq<i64> = snapshot_times(t@);
    let f: Seq<i64> = metadata_times(t@);
    assert(chronological(s) && chronological(f));
    assert forall|i: int, j: int| 0 <= i && j == i + 1 && j < t.snapshot_log@.len() implies (
    #[trigger] t.snapshot_log@[j]).timestamp_ms >= (#[trigger] t.snapshot_log@[i]).timestamp_ms - 60000 by {
        assert(follows(s[i], s[i + 1]));
    }
    assert forall|i: int, j: int| 0 <= i && j == i + 1 && j < t.metadata_log@.len() implies (
    #[trigger] t.metadata_log@[j]).timestamp_ms >= (#[trigger] t.metadata_log@[i]).timestamp_ms - 60000 by {
        assert(follows(f[i], f[i + 1]));
    }
}

/// In metadata that was read, the last sequence number is zero in version 1, and at least that of
/// every snapshot in version 2.
pub proof fn read_sequence_numbers_are_in_order(value: TableMetadataEnum, t: TableMetadata)
    requires
        reads(value, Ok(t)),
    ensures
        value is V1 ==> t.last_sequence_number == 0,
        value is V2 ==> forall|k: i64|
            t.snapshots@.contains_key(k) ==> (#[trigger] t.snapshots@[k]).sequence_number <= t.last_sequence_number,
        value is V1 ==> forall|k: i64|
            t.snapshots@.contains_key(k) ==> (#[trigger] t.snapshots@[k]).sequence_number == 0,
{
    read_was_normalized(value, t);
    if value is V2 {
        assert forall|k: i64| t.snapshots@.contains_key(k) implies (#[trigger] t.snapshots@[k]).sequence_number
            <= t.last_sequence_number by {
            assert(t@.snapshots.contains_key(k));
        }
    } else {
        assert forall|k: i64| t.snapshots@.contains_key(k) implies (#[trigger] t.snapshots@[k]).sequence_number
            == 0 by {
            assert(t@.snapshots.contains_key(k));
        }
    }
}

/// A location is read as it is, up to the slashes at its end, which go.
pub proof fn read_location_is_kept(value: TableMetadataEnum, t: TableMetadata)
    requires
        reads(value, Ok(t)),
    ensures
        ({
            let given = match value {
                TableMetadataEnum::V2(v) => v.location@,
                TableMetadataEnum::V1(v) => v.location@,
            };
            let n = t.location@.len();
            &&& n <= given.len()
            &&& t.location@ == given.take(n as int)
            &&& forall|i: int| n <= i < given.len() ==> given[i] == '/'
            &&& n > 0 ==> t.location@[n - 1] != '/'
        }),
{
    let m: TableMetadataView = read_was_normalized(value, t);
    trailing_slashes_only(m.location);
}

/// What a file gives as single values is read as it is. The snapshot id -1 stands for none.
pub proof fn single_values_are_read(value: TableMetadataEnum, t: TableMetadata)
    requires
        reads(value, Ok(t)),
    ensures
        t.encryption_keys@ == Map::<Seq<char>, String>::empty(),
        match value {
            TableMetadataEnum::V2(v) => {
                &&& t.format_version == FormatVersion::V2
                &&& t.table_uuid == v.table_uuid
                &&& t.last_sequence_number == v.last_sequence_number
                &&& t.last_updated_ms == v.last_updated_ms
                &&& t.last_column_id == v.last_column_id
                &&& t.current_schema_id == v.current_schema_id
                &&& t.default_spec.spec_id == v.default_spec_id
                &&& t.last_partition_id == v.last_partition_id
                &&& t.default_sort_order_id == v.default_sort_order_id
                &&& v.current_snapshot_id == Some(-1i64) ==> t.current_snapshot_id is None
                &&& v.current_snapshot_id != Some(-1i64) ==> t.current_snapshot_id == v.current_snapshot_id
                &&& v.properties matches Some(p) ==> t.properties@ == p@
                &&& v.properties is None ==> t.properties@ == Map::<Seq<char>, String>::empty()
                &&& v.snapshot_log matches Some(l) ==> t.snapshot_log@ == l@
                &&& v.snapshot_log is None ==> t.snapshot_log@.len() == 0
                &&& v.metadata_log matches Some(l) ==> t.metadata_log@ == l@
                &&& v.metadata_log is None ==> t.metadata_log@.len() == 0
            },
            TableMetadataEnum::V1(v) => {
                &&& t.format_version == FormatVersion::V1
                &&& v.table_uuid matches Some(u) ==> t.table_uuid == u
                &&& v.table_uuid is None ==> t.table_uuid == crate::identity::uuid_from_u128(0)
                &&& t.last_sequence_number == 0
                &&& t.last_updated_ms == v.last_updated_ms
                &&& t.last_column_id == v.last_column_id
                &&& v.default_spec_id matches Some(id) ==> t.default_spec.spec_id == id
                &&& v.last_partition_id matches Some(id) ==> t.last_partition_id == id
                &&& v.default_sort_order_id matches Some(id) ==> t.default_sort_order_id == id
                &&& v.default_sort_order_id is None ==> t.default_sort_order_id == 0
                &&& v.current_snapshot_id == Some(-1i64) ==> t.current_snapshot_id is None
                &&& v.current_snapshot_id != Some(-1i64) ==> t.current_snapshot_id == v.current_snapshot_id
                &&& v.properties matches Some(p) ==> t.properties@ == p@
                &&& v.properties is None ==> t.properties@ == Map::<Seq<char>, String>::empty()
                &&& v.snapshot_log matches Some(l) ==> t.snapshot_log@ == l@
                &&& v.snapshot_log is None ==> t.snapshot_log@.len() == 0
                &&& v.metadata_log matches Some(l) ==> t.metadata_log@ == l@
                &&& v.metadata_log is None ==> t.metadata_log@.len() == 0
            },
        },
{
    let m: TableMetadataView = read_was_normalized(value, t);
    normalizing_changes_little(m);
    match value {
        TableMetadataEnum::V2(v) => {
            last_wins_means(spec_pairs(v.partition_specs@));
        },
        TableMetadataEnum::V1(v) => {
            last_wins_means(spec_pairs(list_read(v.partition_specs)));
        },
    }
}

/// The references of a version 2 file are kept as they are. A main branch to the current snapshot
/// is added where there is a current snapshot and no main branch; no other reference is added. A
/// version 1 file has no other reference than that one.
pub proof fn references_are_read(value: TableMetadataEnum, t: TableMetadata)
    requires
        reads(value, Ok(t)),
    ensures
        ({
            let given = match value {
                TableMetadataEnum::V2(v) => match v.refs {
                    Some(refs) => refs@,
                    None => Map::empty(),
                },
                TableMetadataEnum::V1(_) => Map::empty(),
            };
            &&& forall|name: Seq<char>| #[trigger]
                given.contains_key(name) ==> t.refs@.contains_key(name) && t.refs@[name] == given[name]
            &&& forall|name: Seq<char>| #[trigger]
                t.refs@.contains_key(name) ==> given.contains_key(name) || name == "main"@
            &&& t.current_snapshot_id matches Some(id) ==> !given.contains_key("main"@) ==> unlimited_branch(
                t.refs@["main"@],
                id,
            )
        }),
{
    let m: TableMetadataView = read_was_normalized(value, t);
    main_branch_follows_current_snapshot(m);
    normalizing_changes_little(m);
}

/// The map of a list of keys and values, told by places in the list: of several values with one
/// key the last one counts.
pub proof fn last_counts<K, V>(pairs: Seq<(K, V)>)
    ensures
        forall|k: K| #[trigger]
            last_wins(pairs).contains_key(k) <==> exists|i: int| 0 <= i < pairs.len() && (#[trigger] pairs[i]).0 == k,
        forall|i: int|
            0 <= i < pairs.len() && (forall|j: int| i < j < pairs.len() ==> (#[trigger] pairs[j]).0 != pairs[i].0)
                ==> last_wins(pairs)[(#[trigger] pairs[i]).0] == pairs[i].1,
{
    last_wins_means(pairs);
    assert forall|i: int|
        0 <= i < pairs.len() && (forall|j: int|
            i < j < pairs.len() ==> (#[trigger] pairs[j]).0 != pairs[i].0) implies last_wins(pairs)[(
    #[trigger] pairs[i]).0] == pairs[i].1 by {
        let k: K = pairs[i].0;
        assert(last_wins(pairs).contains_key(k));
        let p: int = choose|p: int|
            0 <= p < pairs.len() && (#[trigger] pairs[p]).0 == k && last_wins(pairs)[k] == pairs[p].1 && forall|
                j: int,
            |
                p < j < pairs.len() ==> (#[trigger] pairs[j]).0 != k;
        if p < i {
            assert(pairs[i].0 != k);
        } else if i < p {
            assert(pairs[p].0 != pairs[i].0);
        }
    }
}

/// The map of a list of keys and values, told by places in the list: of several values with one
/// key the first one counts.
pub proof fn first_counts<K, V>(pairs: Seq<(K, V)>)
    ensures
        forall|k: K| #[trigger]
            first_wins(pairs).contains_key(k) <==> exists|i: int| 0 <= i < pairs.len() && (#[trigger] pairs[i]).0 == k,
        forall|i: int|
            0 <= i < pairs.len() && (forall|j: int| 0 <= j < i ==> (#[trigger] pairs[j]).0 != pairs[i].0)
                ==> first_wins(pairs)[(#[trigger] pairs[i]).0] == pairs[i].1,
{
    first_wins_means(pairs);
    assert forall|i: int|
        0 <= i < pairs.len() && (forall|j: int|
            0 <= j < i ==> (#[trigger] pairs[j]).0 != pairs[i].0) implies first_wins(pairs)[(
    #[trigger] pairs[i]).0] == pairs[i].1 by {
        let k: K = pairs[i].0;
        assert(first_wins(pairs).contains_key(k));
        let p: int = choose|p: int|
            0 <= p < pairs.len() && (#[trigger] pairs[p]).0 == k && first_wins(pairs)[k] == pairs[p].1 && forall|
                j: int,
            |
                0 <= j < p ==> (#[trigger] pairs[j]).0 != k;
        if i < p {
            assert(pairs[i].0 != k);
        } else if p < i {
            assert(pairs[p].0 != pairs[i].0);
        }
    }
}

/// A list of which everything can be had gives the map of what is had; one of which something
/// cannot be had gives the first reason.
pub proof fn all_or_first_reason<K, V>(items: Seq<Result<(K, V), ErrorView>>)
    ensures
        match collected(items) {
            Ok(m) => {
                &&& forall|i: int| 0 <= i < items.len() ==> (#[trigger] items[i]) is Ok
                &&& m == last_wins(Seq::new(items.len(), |i: int| items[i]->Ok_0))
            },
            Err(e) => exists|i: int|
                0 <= i < items.len() && #[trigger] items[i] == Err::<(K, V), ErrorView>(e) && forall|j: int|
                    0 <= j < i ==> (#[trigger] items[j]) is Ok,
        },
    decreases items.len(),
{
    let had: Seq<(K, V)> = Seq::new(items.len(), |i: int| items[i]->Ok_0);
    if items.len() > 0 {
        let rest: Seq<Result<(K, V), ErrorView>> = items.drop_last();
        all_or_first_reason(rest);
        match collected(rest) {
            Ok(m) => {
                assert(had.drop_last() =~= Seq::new(rest.len(), |i: int| rest[i]->Ok_0));
                assert forall|i: int| 0 <= i < rest.len() implies (#[trigger] items[i]) is Ok by {
                    assert(rest[i] is Ok);
                }
                match items.last() {
                    Ok(p) => {},
                    Err(e) => {
                        assert(items[items.len() - 1] == Err::<(K, V), ErrorView>(e));
                    },
                }
            },
            Err(e) => {
                let i: int = choose|i: int|
                    0 <= i < rest.len() && #[trigger] rest[i] == Err::<(K, V), ErrorView>(e) && forall|j: int|
                        0 <= j < i ==> (#[trigger] rest[j]) is Ok;
                assert(items[i] == Err::<(K, V), ErrorView>(e));
                assert forall|j: int| 0 <= j < i implies (#[trigger] items[j]) is Ok by {
                    assert(rest[j] is Ok);
                }
            },
        }
    }
}

/// A summary is the same as another.
pub open spec fn same_summary(a: Summary, b: Summary) -> bool {
    a.operation == b.operation && a.additional_properties@ == b.additional_properties@
}

/// The snapshots of a version 2 file are read, each with all that the file says of it, under its
/// id. Of several with one id the last one counts.
pub proof fn snapshots_v2_are_read(v: TableMetadataV2, t: TableMetadata)
    requires
        reads(TableMetadataEnum::V2(v), Ok(t)),
    ensures
        v.snapshots is None ==> t.snapshots@.dom() == Set::<i64>::empty(),
        v.snapshots matches Some(list) ==> {
            &&& forall|id: i64| #[trigger]
                t.snapshots@.contains_key(id) <==> exists|i: int|
                    0 <= i < list@.len() && (#[trigger] list@[i]).snapshot_id == id
            &&& forall|i: int|
                0 <= i < list@.len() && (forall|j: int|
                    i < j < list@.len() ==> (#[trigger] list@[j]).snapshot_id != list@[i].snapshot_id) ==> {
                    let d = #[trigger] list@[i];
                    let s = t.snapshots@[d.snapshot_id];
                    &&& s.snapshot_id == d.snapshot_id
                    &&& s.parent_snapshot_id == d.parent_snapshot_id
                    &&& s.sequence_number == d.sequence_number
                    &&& s.timestamp_ms == d.timestamp_ms
                    &&& s.manifest_list@ == d.manifest_list@
                    &&& same_summary(s.summary, d.summary)
                    &&& s.schema_id == d.schema_id
                }
        },
{
    read_was_normalized(TableMetadataEnum::V2(v), t);
    let list: Seq<SnapshotV2> = list_read(v.snapshots);
    let pairs: Seq<(i64, SnapshotView)> = snapshot_pairs(list);
    last_counts(pairs);
    assert(t@.snapshots == last_wins(pairs));
    assert forall|id: i64| #[trigger] t.snapshots@.contains_key(id) <==> exists|i: int|
        0 <= i < list.len() && (#[trigger] list[i]).snapshot_id == id by {
        assert(t.snapshots@.contains_key(id) == t@.snapshots.contains_key(id));
        if t.snapshots@.contains_key(id) {
            let i: int = choose|i: int| 0 <= i < pairs.len() && (#[trigger] pairs[i]).0 == id;
            assert(list[i].snapshot_id == id);
        }
        if exists|i: int| 0 <= i < list.len() && (#[trigger] list[i]).snapshot_id == id {
            let i: int = choose|i: int| 0 <= i < list.len() && (#[trigger] list[i]).snapshot_id == id;
            assert(pairs[i].0 == id);
        }
    }
    assert forall|i: int|
        0 <= i < list.len() && (forall|j: int|
            i < j < list.len() ==> (#[trigger] list[j]).snapshot_id != list[i].snapshot_id) implies t.snapshots@[(
    #[trigger] list[i]).snapshot_id]@ == list[i].snapshot() by {
        assert forall|j: int| i < j < pairs.len() implies (#[trigger] pairs[j]).0 != pairs[i].0 by {
            assert(list[j].snapshot_id != list[i].snapshot_id);
        }
        assert(t.snapshots@.contains_key(list[i].snapshot_id));
        assert(t@.snapshots[pairs[i].0] == pairs[i].1);
    }
    if v.snapshots is None {
        assert(t.snapshots@.dom() =~= Set::<i64>::empty());
    }
}

/// The snapshots of a version 1 file are read, each with all that the file says of it, under its
/// id. Of several with one id the last one counts. Each has a manifest list and no manifests of its
/// own. One without a summary is taken to have appended.
pub proof fn snapshots_v1_are_read(v: TableMetadataV1, t: TableMetadata)
    requires
        reads(TableMetadataEnum::V1(v), Ok(t)),
    ensures
        v.snapshots is None ==> t.snapshots@.dom() == Set::<i64>::empty(),
        v.snapshots matches Some(list) ==> {
            &&& forall|id: i64| #[trigger]
                t.snapshots@.contains_key(id) <==> exists|i: int|
                    0 <= i < list@.len() && (#[trigger] list@[i]).snapshot_id == id
            &&& forall|i: int|
                0 <= i < list@.len() ==> (#[trigger] list@[i]).manifest_list is Some && list@[i].manifests is None
            &&& forall|i: int|
                0 <= i < list@.len() && (forall|j: int|
                    i < j < list@.len() ==> (#[trigger] list@[j]).snapshot_id != list@[i].snapshot_id) ==> {
                    let d = #[trigger] list@[i];
                    let s = t.snapshots@[d.snapshot_id];
                    &&& s.snapshot_id == d.snapshot_id
                    &&& s.parent_snapshot_id == d.parent_snapshot_id
                    &&& s.sequence_number == 0
                    &&& s.timestamp_ms == d.timestamp_ms
                    &&& d.manifest_list matches Some(l) && s.manifest_list@ == l@
                    &&& d.summary matches Some(m) ==> same_summary(s.summary, m)
                    &&& d.summary is None ==> s.summary.operation == Operation::Append
                        && s.summary.additional_properties@ == Map::<Seq<char>, String>::empty()
                    &&& s.schema_id == d.schema_id
                }
        },
{
    read_was_normalized(TableMetadataEnum::V1(v), t);
    let list: Seq<SnapshotV1> = list_read(v.snapshots);
    let items: Seq<Result<(i64, SnapshotView), ErrorView>> = snapshot_items_v1(list);
    all_or_first_reason(items);
    let pairs: Seq<(i64, SnapshotView)> = Seq::new(items.len(), |i: int| items[i]->Ok_0);
    last_counts(pairs);
    assert(t@.snapshots == last_wins(pairs));
    assert forall|i: int| 0 <= i < list.len() implies (#[trigger] list[i]).snapshot() is Ok && pairs[i] == (
        list[i].snapshot_id,
        list[i].snapshot()->Ok_0,
    ) by {
        assert(items[i] is Ok);
    }
    assert forall|id: i64| #[trigger] t.snapshots@.contains_key(id) <==> exists|i: int|
        0 <= i < list.len() && (#[trigger] list[i]).snapshot_id == id by {
        assert(t.snapshots@.contains_key(id) == t@.snapshots.contains_key(id));
        if t.snapshots@.contains_key(id) {
            let i: int = choose|i: int| 0 <= i < pairs.len() && (#[trigger] pairs[i]).0 == id;
            assert(list[i].snapshot_id == id);
        }
        if exists|i: int| 0 <= i < list.len() && (#[trigger] list[i]).snapshot_id == id {
            let i: int = choose|i: int| 0 <= i < list.len() && (#[trigger] list[i]).snapshot_id == id;
            assert(pairs[i].0 == id);
        }
    }
    assert forall|i: int|
        0 <= i < list.len() && (forall|j: int|
            i < j < list.len() ==> (#[trigger] list[j]).snapshot_id != list[i].snapshot_id) implies t.snapshots@[(
    #[trigger] list[i]).snapshot_id]@ == list[i].snapshot()->Ok_0 by {
        assert forall|j: int| i < j < pairs.len() implies (#[trigger] pairs[j]).0 != pairs[i].0 by {
            assert(list[j].snapshot_id != list[i].snapshot_id);
        }
        assert(t.snapshots@.contains_key(list[i].snapshot_id));
        assert(t@.snapshots[pairs[i].0] == pairs[i].1);
    }
    if v.snapshots is None {
        assert(t.snapshots@.dom() =~= Set::<i64>::empty());
    }
}

/// The schemas of a version 2 file are read, each with its fields and its identifier fields, under
/// its id. Of several with one id the last one counts.
pub proof fn schemas_v2_are_read(v: TableMetadataV2, t: TableMetadata)
    requires
        reads(TableMetadataEnum::V2(v), Ok(t)),
    ensures
        forall|id: i32| #[trigger]
            t.schemas@.contains_key(id) <==> exists|i: int|
                0 <= i < v.schemas@.len() && (#[trigger] v.schemas@[i]).schema_id == id,
        forall|i: int|
            0 <= i < v.schemas@.len() && (forall|j: int|
                i < j < v.schemas@.len() ==> (#[trigger] v.schemas@[j]).schema_id != v.schemas@[i].schema_id) ==> {
                let d = #[trigger] v.schemas@[i];
                let s = t.schemas@[d.schema_id];
                &&& s.schema_id == d.schema_id
                &&& s.fields.fields@ == d.fields.fields@
                &&& d.identifier_field_ids matches Some(ids) ==> s.identifier_field_ids@ == ids@.to_set()
                &&& d.identifier_field_ids is None ==> s.identifier_field_ids@ == Set::<i32>::empty()
            },
{
    read_was_normalized(TableMetadataEnum::V2(v), t);
    let list: Seq<SchemaV2> = v.schemas@;
    let items: Seq<Result<(i32, SchemaView), ErrorView>> = schema_items_v2(list);
    all_or_first_reason(items);
    let pairs: Seq<(i32, SchemaView)> = Seq::new(items.len(), |i: int| items[i]->Ok_0);
    last_counts(pairs);
    assert(t@.schemas == last_wins(pairs));
    assert forall|i: int| 0 <= i < list.len() implies (#[trigger] list[i]).schema() is Ok && pairs[i] == (
        list[i].schema_id,
        list[i].schema()->Ok_0,
    ) by {
        assert(items[i] is Ok);
    }
    assert forall|id: i32| #[trigger] t.schemas@.contains_key(id) <==> exists|i: int|
        0 <= i < list.len() && (#[trigger] list[i]).schema_id == id by {
        assert(t.schemas@.contains_key(id) == t@.schemas.contains_key(id));
        if t.schemas@.contains_key(id) {
            let i: int = choose|i: int| 0 <= i < pairs.len() && (#[trigger] pairs[i]).0 == id;
            assert(list[i].schema_id == id);
        }
        if exists|i: int| 0 <= i < list.len() && (#[trigger] list[i]).schema_id == id {
            let i: int = choose|i: int| 0 <= i < list.len() && (#[trigger] list[i]).schema_id == id;
            assert(pairs[i].0 == id);
        }
    }
    assert(Seq::<i32>::empty().to_set() =~= Set::<i32>::empty());
    assert forall|i: int|
        0 <= i < list.len() && (forall|j: int|
            i < j < list.len() ==> (#[trigger] list[j]).schema_id != list[i].schema_id) implies t.schemas@[(
    #[trigger] list[i]).schema_id]@ == list[i].schema()->Ok_0 by {
        assert forall|j: int| i < j < pairs.len() implies (#[trigger] pairs[j]).0 != pairs[i].0 by {
            assert(list[j].schema_id != list[i].schema_id);
        }
        assert(t.schemas@.contains_key(list[i].schema_id));
        assert(t@.schemas[pairs[i].0] == pairs[i].1);
    }
}

/// The id of a schema of a version 1 file, which is zero where the file gives none.
pub open spec fn given_id(d: SchemaV1) -> i32 {
    match d.schema_id {
        Some(id) => id,
        None => 0,
    }
}

/// A schema is what a version 1 file says of it.
pub open spec fn same_schema(s: Schema, d: SchemaV1) -> bool {
    &&& s.schema_id == given_id(d)
    &&& s.fields.fields@ == d.fields.fields@
    &&& d.identifier_field_ids matches Some(ids) ==> s.identifier_field_ids@ == ids@.to_set()
    &&& d.identifier_field_ids is None ==> s.identifier_field_ids@ == Set::<i32>::empty()
}

/// The schemas of a version 1 file that also gives the id of the current one are read, each with
/// its fields and its identifier fields, under its id, and the current one is the one with that id.
/// Of several with one id the last one counts.
pub proof fn schemas_v1_are_read(v: TableMetadataV1, t: TableMetadata)
    requires
        reads(TableMetadataEnum::V1(v), Ok(t)),
        v.schemas is Some,
        v.current_schema_id is Some,
    ensures
        ({
            let list = v.schemas.unwrap()@;
            &&& v.current_schema_id == Some(t.current_schema_id)
            &&& forall|id: i32| #[trigger]
                t.schemas@.contains_key(id) <==> exists|i: int|
                    0 <= i < list.len() && given_id(#[trigger] list[i]) == id
            &&& forall|i: int|
                0 <= i < list.len() && (forall|j: int|
                    i < j < list.len() ==> given_id(#[trigger] list[j]) != given_id(list[i])) ==> same_schema(
                    *t.schemas@[given_id(list[i])],
                    #[trigger] list[i],
                )
        }),
{
    read_was_normalized(TableMetadataEnum::V1(v), t);
    let list: Seq<SchemaV1> = v.schemas.unwrap()@;
    let items: Seq<Result<(i32, SchemaView), ErrorView>> = schema_items_v1(list);
    all_or_first_reason(items);
    let pairs: Seq<(i32, SchemaView)> = Seq::new(items.len(), |i: int| items[i]->Ok_0);
    last_counts(pairs);
    assert(t@.schemas == last_wins(pairs));
    assert forall|i: int| 0 <= i < list.len() implies (#[trigger] list[i]).schema() is Ok && pairs[i] == (
        given_id(list[i]),
        list[i].schema()->Ok_0,
    ) by {
        assert(items[i] is Ok);
    }
    assert forall|id: i32| #[trigger] t.schemas@.contains_key(id) <==> exists|i: int|
        0 <= i < list.len() && given_id(#[trigger] list[i]) == id by {
        assert(t.schemas@.contains_key(id) == t@.schemas.contains_key(id));
        if t.schemas@.contains_key(id) {
            let i: int = choose|i: int| 0 <= i < pairs.len() && (#[trigger] pairs[i]).0 == id;
            assert(given_id(list[i]) == id);
        }
        if exists|i: int| 0 <= i < list.len() && given_id(#[trigger] list[i]) == id {
            let i: int = choose|i: int| 0 <= i < list.len() && given_id(#[trigger] list[i]) == id;
            assert(pairs[i].0 == id);
        }
    }
    assert(Seq::<i32>::empty().to_set() =~= Set::<i32>::empty());
    assert forall|i: int|
        0 <= i < list.len() && (forall|j: int|
            i < j < list.len() ==> given_id(#[trigger] list[j]) != given_id(list[i])) implies same_schema(
        *t.schemas@[given_id(list[i])],
        #[trigger] list[i],
    ) by {
        assert forall|j: int| i < j < pairs.len() implies (#[trigger] pairs[j]).0 != pairs[i].0 by {
            assert(given_id(list[j]) != given_id(list[i]));
        }
        assert(t.schemas@.contains_key(given_id(list[i])));
        assert(t@.schemas[pairs[i].0] == pairs[i].1);
        assert(t.schemas@[given_id(list[i])]@ == list[i].schema()->Ok_0);
    }
}

/// A version 1 file that lacks the list of schemas or the id of the current one is read with its
/// single schema, which is then the only one and the current one.
pub proof fn single_schema_v1_is_read(v: TableMetadataV1, t: TableMetadata)
    requires
        reads(TableMetadataEnum::V1(v), Ok(t)),
        v.schemas is None || v.current_schema_id is None,
    ensures
        v.schema matches Some(d) && {
            &&& t.current_schema_id == given_id(d)
            &&& t.schemas@.dom() == set![given_id(d)]
            &&& same_schema(*t.schemas@[given_id(d)], d)
        },
{
    read_was_normalized(TableMetadataEnum::V1(v), t);
    let d: SchemaV1 = v.schema->Some_0;
    assert(d.schema() is Ok);
    assert(t@.schemas.dom() =~= set![given_id(d)]);
    assert(t.schemas@.dom() =~= t@.schemas.dom());
    assert(t@.schemas.contains_key(given_id(d)));
    assert(t.schemas@[given_id(d)]@ == d.schema()->Ok_0);
    assert(Seq::<i32>::empty().to_set() =~= Set::<i32>::empty());
}

/// The partition specs of a list are read, each with its fields, under its id. Of several with one
/// id the last one counts. No other is added but the one without fields, where the file gives its
/// id as the default one and does not list it.
pub proof fn partition_specs_are_read(value: TableMetadataEnum, list: Seq<PartitionSpec>, t: TableMetadata)
    requires
        reads(value, Ok(t)),
        match value {
            TableMetadataEnum::V2(v) => v.partition_specs@ == list,
            TableMetadataEnum::V1(v) => v.partition_specs matches Some(l) && l@ == list,
        },
    ensures
        forall|i: int| 0 <= i < list.len() ==> t.partition_specs@.contains_key((#[trigger] list[i]).spec_id),
        forall|i: int|
            0 <= i < list.len() && (forall|j: int|
                i < j < list.len() ==> (#[trigger] list[j]).spec_id != list[i].spec_id) ==> {
                let d = #[trigger] list[i];
                let s = t.partition_specs@[d.spec_id];
                s.spec_id == d.spec_id && s.fields@ == d.fields@
            },
        forall|id: i32| #[trigger]
            t.partition_specs@.contains_key(id) ==> {
                ||| exists|i: int| 0 <= i < list.len() && (#[trigger] list[i]).spec_id == id
                ||| id == 0 && value is V2 && t.default_spec.spec_id == 0 && t.partition_specs@[id].fields@.len() == 0
            },
        forall|i: int|
            0 <= i < list.len() && (#[trigger] list[i]).spec_id == t.default_spec.spec_id && (forall|j: int|
                i < j < list.len() ==> (#[trigger] list[j]).spec_id != list[i].spec_id) ==> t.default_spec.fields@
                == list[i].fields@,
        (forall|i: int| 0 <= i < list.len() ==> (#[trigger] list[i]).spec_id != t.default_spec.spec_id)
            ==> t.default_spec.spec_id == 0 && t.default_spec.fields@.len() == 0 && value is V2,
{
    let m: TableMetadataView = read_was_normalized(value, t);
    let pairs: Seq<(i32, crate::partition::PartitionSpecView)> = spec_pairs(list);
    last_counts(pairs);
    assert(m.partition_specs == last_wins(pairs));
    let d: i32 = t.default_spec.spec_id;
    last_wins_means(pairs);
    assert(m.partition_specs.contains_key(d) ==> m.default_spec == m.partition_specs[d]);
    assert forall|i: int| 0 <= i < list.len() implies t.partition_specs@.contains_key(
        (#[trigger] list[i]).spec_id,
    ) by {
        assert(pairs[i].0 == list[i].spec_id);
        assert(m.partition_specs.contains_key(list[i].spec_id));
        assert(t@.partition_specs.contains_key(list[i].spec_id));
    }
    assert forall|i: int|
        0 <= i < list.len() && (forall|j: int|
            i < j < list.len() ==> (#[trigger] list[j]).spec_id != list[i].spec_id) implies t.partition_specs@[(
    #[trigger] list[i]).spec_id]@ == list[i]@ && m.partition_specs[list[i].spec_id] == list[i]@ by {
        assert forall|j: int| i < j < pairs.len() implies (#[trigger] pairs[j]).0 != pairs[i].0 by {
            assert(list[j].spec_id != list[i].spec_id);
        }
        assert(pairs[i].0 == list[i].spec_id);
        assert(m.partition_specs.contains_key(list[i].spec_id));
        assert(t@.partition_specs[pairs[i].0] == pairs[i].1);
        assert(t.partition_specs@.contains_key(list[i].spec_id));
    }
    assert forall|id: i32| #[trigger] t.partition_specs@.contains_key(id) implies {
        ||| exists|i: int| 0 <= i < list.len() && (#[trigger] list[i]).spec_id == id
        ||| id == 0 && value is V2 && t.default_spec.spec_id == 0 && t.partition_specs@[id].fields@.len() == 0
    } by {
        assert(t@.partition_specs.contains_key(id));
        assert(t.partition_specs@[id]@ == t@.partition_specs[id]);
        if m.partition_specs.contains_key(id) {
            let i: int = choose|i: int| 0 <= i < pairs.len() && (#[trigger] pairs[i]).0 == id;
            assert(list[i].spec_id == id);
        }
    }
    assert forall|i: int|
        0 <= i < list.len() && (#[trigger] list[i]).spec_id == t.default_spec.spec_id && (forall|j: int|
            i < j < list.len() ==> (#[trigger] list[j]).spec_id != list[i].spec_id) implies t.default_spec.fields@
        == list[i].fields@ by {
        assert(m.partition_specs[list[i].spec_id] == list[i]@);
        assert(pairs[i].0 == d);
    }
    if forall|i: int| 0 <= i < list.len() ==> (#[trigger] list[i]).spec_id != t.default_spec.spec_id {
        assert(!m.partition_specs.contains_key(d)) by {
            if m.partition_specs.contains_key(d) {
                let i: int = choose|i: int| 0 <= i < pairs.len() && (#[trigger] pairs[i]).0 == d;
                assert(list[i].spec_id == d);
            }
        }
    }
}

/// A version 1 file that lists no partition specs is read with one spec, which has the id zero and
/// is the default one: its fields are those that the file gives for a single spec, all of them and
/// in their order, and none where the file gives none.
pub proof fn single_partition_spec_v1_is_read(v: TableMetadataV1, t: TableMetadata)
    requires
        reads(TableMetadataEnum::V1(v), Ok(t)),
        v.partition_specs is None,
    ensures
        t.default_spec.spec_id == 0,
        v.partition_spec matches Some(fields) ==> t.default_spec.fields@ == fields@,
        v.partition_spec is None ==> t.default_spec.fields@.len() == 0,
        t.partition_specs@.dom() == set![0i32],
        t.partition_specs@[0].fields@ == t.default_spec.fields@,
        v.last_partition_id is None ==> t.last_partition_id == 0,
{
    let m: TableMetadataView = read_was_normalized(TableMetadataEnum::V1(v), t);
    read_metadata_is_whole(TableMetadataEnum::V1(v), t);
    assert(m.partition_specs.dom() =~= set![0i32]);
    greatest_is_greatest(m.partition_specs.dom());
    assert(t@.partition_specs.dom() =~= set![0i32]);
    assert(t.partition_specs@.dom() =~= t@.partition_specs.dom());
}

/// The greatest of a finite set of ids is one of them, and none is greater.
proof fn greatest_is_greatest(ids: Set<i32>)
    requires
        ids.finite(),
    ensures
        ids == Set::<i32>::empty() ==> crate::reading::greatest(ids) == 0,
        ids != Set::<i32>::empty() ==> {
            &&& ids.contains(crate::reading::greatest(ids))
            &&& forall|k: i32| #[trigger] ids.contains(k) ==> k <= crate::reading::greatest(ids)
        },
{
    if ids != Set::<i32>::empty() {
        let top: i32 = some_greatest(ids);
        assert(ids.contains(top) && forall|j: i32| #[trigger] ids.contains(j) ==> j <= top);
    }
}

proof fn some_greatest(ids: Set<i32>) -> (top: i32)
    requires
        ids.finite(),
        ids != Set::<i32>::empty(),
    ensures
        ids.contains(top),
        forall|k: i32| #[trigger] ids.contains(k) ==> k <= top,
    decreases ids.len(),
{
    let one: i32 = ids.choose();
    assert(ids.contains(one)) by {
        if forall|k: i32| !ids.contains(k) {
            assert(ids =~= Set::<i32>::empty());
        }
    }
    let rest: Set<i32> = ids.remove(one);
    if rest == Set::<i32>::empty() {
        assert forall|k: i32| #[trigger] ids.contains(k) implies k <= one by {
            if k != one {
                assert(rest.contains(k));
            }
        }
        one
    } else {
        let best: i32 = some_greatest(rest);
        let top: i32 = if best < one {
            one
        } else {
            best
        };
        assert forall|k: i32| #[trigger] ids.contains(k) implies k <= top by {
            if k != one {
                assert(rest.contains(k));
            }
        }
        top
    }
}

/// A version 1 file that lists partition specs and gives no default one has the one with the
/// greatest id as its default; and where it gives no last partition id, that is the greatest id too.
pub proof fn greatest_spec_v1_is_the_default(v: TableMetadataV1, t: TableMetadata)
    requires
        reads(TableMetadataEnum::V1(v), Ok(t)),
        v.partition_specs is Some,
    ensures
        ({
            let list = v.partition_specs.unwrap()@;
            &&& v.default_spec_id is None ==> {
                &&& exists|i: int| 0 <= i < list.len() && (#[trigger] list[i]).spec_id == t.default_spec.spec_id
                &&& forall|i: int| 0 <= i < list.len() ==> (#[trigger] list[i]).spec_id <= t.default_spec.spec_id
            }
            &&& v.last_partition_id is None ==> {
                &&& exists|i: int| 0 <= i < list.len() && (#[trigger] list[i]).spec_id == t.last_partition_id
                &&& forall|i: int| 0 <= i < list.len() ==> (#[trigger] list[i]).spec_id <= t.last_partition_id
            }
        }),
{
    let m: TableMetadataView = read_was_normalized(TableMetadataEnum::V1(v), t);
    let list: Seq<PartitionSpec> = v.partition_specs.unwrap()@;
    let pairs: Seq<(i32, crate::partition::PartitionSpecView)> = spec_pairs(list);
    last_counts(pairs);
    last_wins_means(pairs);
    last_wins_finite(pairs);
    let ids: Set<i32> = m.partition_specs.dom();
    greatest_is_greatest(ids);
    assert(ids.contains(m.default_spec.spec_id));
    let top: i32 = crate::reading::greatest(ids);
    assert(m.partition_specs.contains_key(top));
    let p: int = choose|i: int| 0 <= i < pairs.len() && (#[trigger] pairs[i]).0 == top;
    assert(list[p].spec_id == top);
    assert forall|i: int| 0 <= i < list.len() implies (#[trigger] list[i]).spec_id <= top by {
        assert(pairs[i].0 == list[i].spec_id);
        assert(ids.contains(list[i].spec_id));
    }
}

/// The map of a list has finitely many keys.
proof fn last_wins_finite<K, V>(pairs: Seq<(K, V)>)
    ensures
        last_wins(pairs).dom().finite(),
    decreases pairs.len(),
{
    if pairs.len() > 0 {
        last_wins_finite(pairs.drop_last());
    }
}

/// The sort orders of a file are read, each with its keys, under its id. Of several with one id
/// the last one counts. No other is added but the one of rows that are not sorted, without keys,
/// where it is the default one and is not listed.
pub proof fn sort_orders_are_read(value: TableMetadataEnum, list: Seq<SortOrder>, t: TableMetadata)
    requires
        reads(value, Ok(t)),
        match value {
            TableMetadataEnum::V2(v) => list == v.sort_orders@,
            TableMetadataEnum::V1(v) => match v.sort_orders {
                Some(l) => list == l@,
                None => list.len() == 0,
            },
        },
    ensures
        forall|i: int| 0 <= i < list.len() ==> t.sort_orders@.contains_key((#[trigger] list[i]).order_id),
        forall|i: int|
            0 <= i < list.len() && (forall|j: int|
                i < j < list.len() ==> (#[trigger] list[j]).order_id != list[i].order_id) ==> {
                let d = #[trigger] list[i];
                let s = t.sort_orders@[d.order_id];
                s.order_id == d.order_id && s.fields@ == d.fields@
            },
        forall|id: i64| #[trigger]
            t.sort_orders@.contains_key(id) ==> {
                ||| exists|i: int| 0 <= i < list.len() && (#[trigger] list[i]).order_id == id
                ||| id == 0 && t.default_sort_order_id == 0 && t.sort_orders@[id].fields@.len() == 0
            },
{
    let m: TableMetadataView = read_was_normalized(value, t);
    assert(list.len() == 0 ==> list =~= Seq::empty());
    let pairs: Seq<(i64, SortOrderView)> = sort_order_pairs(list);
    last_counts(pairs);
    assert(m.sort_orders == last_wins(pairs));
    assert forall|i: int| 0 <= i < list.len() implies t.sort_orders@.contains_key(
        (#[trigger] list[i]).order_id,
    ) by {
        assert(pairs[i].0 == list[i].order_id);
        assert(m.sort_orders.contains_key(list[i].order_id));
        assert(t@.sort_orders.contains_key(list[i].order_id));
    }
    assert forall|i: int|
        0 <= i < list.len() && (forall|j: int|
            i < j < list.len() ==> (#[trigger] list[j]).order_id != list[i].order_id) implies t.sort_orders@[(
    #[trigger] list[i]).order_id]@ == list[i]@ by {
        assert forall|j: int| i < j < pairs.len() implies (#[trigger] pairs[j]).0 != pairs[i].0 by {
            assert(list[j].order_id != list[i].order_id);
        }
        assert(pairs[i].0 == list[i].order_id);
        assert(m.sort_orders.contains_key(list[i].order_id));
        assert(t@.sort_orders[pairs[i].0] == pairs[i].1);
        assert(t.sort_orders@.contains_key(list[i].order_id));
    }
    assert forall|id: i64| #[trigger] t.sort_orders@.contains_key(id) implies {
        ||| exists|i: int| 0 <= i < list.len() && (#[trigger] list[i]).order_id == id
        ||| id == 0 && t.default_sort_order_id == 0 && t.sort_orders@[id].fields@.len() == 0
    } by {
        assert(t@.sort_orders.contains_key(id));
        assert(t.sort_orders@[id]@ == t@.sort_orders[id]);
        if m.sort_orders.contains_key(id) {
            let i: int = choose|i: int| 0 <= i < pairs.len() && (#[trigger] pairs[i]).0 == id;
            assert(list[i].order_id == id);
        }
    }
}

/// The statistics files of a file are read, each under the id of its snapshot. Of several for one
/// snapshot the first one counts.
pub proof fn statistics_are_read(value: TableMetadataEnum, list: Seq<StatisticsFile>, t: TableMetadata)
    requires
        reads(value, Ok(t)),
        match value {
            TableMetadataEnum::V2(v) => list == v.statistics@,
            TableMetadataEnum::V1(v) => list == v.statistics@,
        },
    ensures
        forall|id: i64| #[trigger]
            t.statistics@.contains_key(id) <==> exists|i: int|
                0 <= i < list.len() && (#[trigger] list[i]).snapshot_id == id,
        forall|i: int|
            0 <= i < list.len() && (forall|j: int|
                0 <= j < i ==> (#[trigger] list[j]).snapshot_id != list[i].snapshot_id) ==> t.statistics@[(
            #[trigger] list[i]).snapshot_id] == list[i],
{
    read_was_normalized(value, t);
    statistics_count(list);
    assert(t.statistics@ == first_wins(statistics_pairs(list)));
}

/// The partition statistics files of a file are read, each under the id of its snapshot. Of several
/// for one snapshot the first one counts.
pub proof fn partition_statistics_are_read(
    value: TableMetadataEnum,
    list: Seq<PartitionStatisticsFile>,
    t: TableMetadata,
)
    requires
        reads(value, Ok(t)),
        match value {
            TableMetadataEnum::V2(v) => list == v.partition_statistics@,
            TableMetadataEnum::V1(v) => list == v.partition_statistics@,
        },
    ensures
        forall|id: i64| #[trigger]
            t.partition_statistics@.contains_key(id) <==> exists|i: int|
                0 <= i < list.len() && (#[trigger] list[i]).snapshot_id == id,
        forall|i: int|
            0 <= i < list.len() && (forall|j: int|
                0 <= j < i ==> (#[trigger] list[j]).snapshot_id != list[i].snapshot_id) ==> t.partition_statistics@[(
            #[trigger] list[i]).snapshot_id] == list[i],
{
    read_was_normalized(value, t);
    partition_statistics_count(list);
    assert(t.partition_statistics@ == first_wins(partition_statistics_pairs(list)));
}

proof fn statistics_count(list: Seq<StatisticsFile>)
    ensures
        ({
            let m = first_wins(statistics_pairs(list));
            &&& forall|id: i64| #[trigger]
                m.contains_key(id) <==> exists|i: int| 0 <= i < list.len() && (#[trigger] list[i]).snapshot_id == id
            &&& forall|i: int|
                0 <= i < list.len() && (forall|j: int|
                    0 <= j < i ==> (#[trigger] list[j]).snapshot_id != list[i].snapshot_id) ==> m[(
                #[trigger] list[i]).snapshot_id] == list[i]
        }),
{
    let pairs: Seq<(i64, StatisticsFile)> = statistics_pairs(list);
    first_counts(pairs);
    let m: Map<i64, StatisticsFile> = first_wins(pairs);
    assert forall|id: i64| #[trigger] m.contains_key(id) <==> exists|i: int|
        0 <= i < list.len() && (#[trigger] list[i]).snapshot_id == id by {
        if m.contains_key(id) {
            let i: int = choose|i: int| 0 <= i < pairs.len() && (#[trigger] pairs[i]).0 == id;
            assert(list[i].snapshot_id == id);
        }
        if exists|i: int| 0 <= i < list.len() && (#[trigger] list[i]).snapshot_id == id {
            let i: int = choose|i: int| 0 <= i < list.len() && (#[trigger] list[i]).snapshot_id == id;
            assert(pairs[i].0 == id);
        }
    }
    assert forall|i: int|
        0 <= i < list.len() && (forall|j: int|
            0 <= j < i ==> (#[trigger] list[j]).snapshot_id != list[i].snapshot_id) implies m[(
    #[trigger] list[i]).snapshot_id] == list[i] by {
        assert(pairs[i] == (list[i].snapshot_id, list[i]));
        assert forall|j: int| 0 <= j < i implies (#[trigger] pairs[j]).0 != pairs[i].0 by {
            assert(list[j].snapshot_id != list[i].snapshot_id);
        }
    }
}

proof fn partition_statistics_count(list: Seq<PartitionStatisticsFile>)
    ensures
        ({
            let m = first_wins(partition_statistics_pairs(list));
            &&& forall|id: i64| #[trigger]
                m.contains_key(id) <==> exists|i: int| 0 <= i < list.len() && (#[trigger] list[i]).snapshot_id == id
            &&& forall|i: int|
                0 <= i < list.len() && (forall|j: int|
                    0 <= j < i ==> (#[trigger] list[j]).snapshot_id != list[i].snapshot_id) ==> m[(
                #[trigger] list[i]).snapshot_id] == list[i]
        }),
{
    let pairs: Seq<(i64, PartitionStatisticsFile)> = partition_statistics_pairs(list);
    first_counts(pairs);
    let m: Map<i64, PartitionStatisticsFile> = first_wins(pairs);
    assert forall|id: i64| #[trigger] m.contains_key(id) <==> exists|i: int|
        0 <= i < list.len() && (#[trigger] list[i]).snapshot_id == id by {
        if m.contains_key(id) {
            let i: int = choose|i: int| 0 <= i < pairs.len() && (#[trigger] pairs[i]).0 == id;
            assert(list[i].snapshot_id == id);
        }
        if exists|i: int| 0 <= i < list.len() && (#[trigger] list[i]).snapshot_id == id {
            let i: int = choose|i: int| 0 <= i < list.len() && (#[trigger] list[i]).snapshot_id == id;
            assert(pairs[i].0 == id);
        }
    }
    assert forall|i: int|
        0 <= i < list.len() && (forall|j: int|
            0 <= j < i ==> (#[trigger] list[j]).snapshot_id != list[i].snapshot_id) implies m[(
    #[trigger] list[i]).snapshot_id] == list[i] by {
        assert(pairs[i] == (list[i].snapshot_id, list[i]));
        assert forall|j: int| 0 <= j < i implies (#[trigger] pairs[j]).0 != pairs[i].0 by {
            assert(list[j].snapshot_id != list[i].snapshot_id);
        }
    }
}

/// Of several statistics files for one snapshot the first one is kept.
pub proof fn first_statistics_are_kept(
    list: Vec<StatisticsFile>,
    r: std::collections::HashMap<i64, StatisticsFile>,
)
    requires
        call_ensures(crate::reading::index_statistics, (list,), r),
    ensures
        forall|id: i64| #[trigger]
            r@.contains_key(id) <==> exists|i: int|
                0 <= i < list@.len() && (#[trigger] list@[i]).snapshot_id == id,
        forall|i: int|
            0 <= i < list@.len() && (forall|j: int|
                0 <= j < i ==> (#[trigger] list@[j]).snapshot_id != list@[i].snapshot_id) ==> r@[(
            #[trigger] list@[i]).snapshot_id] == list@[i],
{
    statistics_count(list@);
}

/// Of several partition statistics files for one snapshot the first one is kept.
pub proof fn first_partition_statistics_are_kept(
    list: Vec<PartitionStatisticsFile>,
    r: std::collections::HashMap<i64, PartitionStatisticsFile>,
)
    requires
        call_ensures(crate::reading::index_partition_statistics, (list,), r),
    ensures
        forall|id: i64| #[trigger]
            r@.contains_key(id) <==> exists|i: int|
                0 <= i < list@.len() && (#[trigger] list@[i]).snapshot_id == id,
        forall|i: int|
            0 <= i < list@.len() && (forall|j: int|
                0 <= j < i ==> (#[trigger] list@[j]).snapshot_id != list@[i].snapshot_id) ==> r@[(
            #[trigger] list@[i]).snapshot_id] == list@[i],
{
    partition_statistics_count(list@);
}

/// The partition type of metadata that was read has one field for each field of the default
/// partition spec, in their order: optional, with the id and the name of the partition field, and of
/// the type that its transform makes of its column in the current schema.
pub proof fn partition_type_is_of_the_default_spec(value: TableMetadataEnum, t: TableMetadata)
    requires
        reads(value, Ok(t)),
    ensures
        ({
            let list = schema_columns(t.schemas@[t.current_schema_id].fields.fields@);
            let fields = t.default_spec.fields@;
            &&& t.default_partition_type.fields@.len() == fields.len()
            &&& forall|n: int|
                0 <= n < fields.len() ==> value_field(
                    list,
                    #[trigger] fields[n],
                    t.default_partition_type.fields@[n],
                )
        }),
{
    let m: TableMetadataView = read_was_normalized(value, t);
    normalized_is_whole(m);
    assert(t@.schemas.contains_key(t.current_schema_id));
    let list: Seq<ColumnView> = schema_columns(t@.schemas[t.current_schema_id].fields);
    values_typed(list, t.default_spec.fields@);
}

} // verus!
