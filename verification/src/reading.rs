//! Reading table metadata from the forms that it has in metadata files.

use crate::documents::{TableMetadataEnum, TableMetadataV1, TableMetadataV2};
use crate::error::{data_invalid, Error, ErrorView};
use crate::format_version::FormatVersion;
use crate::identity::{default_uuid, uuid_from_u128};
use crate::listing::{collected, collected_prefix, first_wins, last_wins};
use crate::metadata::{seen, TableMetadata, TableMetadataView, EMPTY_SNAPSHOT_ID, MAIN_BRANCH};
use crate::normalize::{comparable, no_schema, normalizable, normalize_error, normalized, seen_insert};
use crate::partition::{
    partition_type_of, spec_of, unpartitioned, PartitionSpec, PartitionSpecRef, PartitionSpecView,
    DEFAULT_PARTITION_SPEC_ID,
};
use crate::schema::{Schema, SchemaRef, SchemaV1, SchemaV2, SchemaView};
use crate::shared::share;
use crate::snapshot::{plain_branch, Snapshot, SnapshotRef, SnapshotReference, SnapshotV1, SnapshotV2, SnapshotView};
use crate::sort::{SortOrder, SortOrderRef, SortOrderView};
use crate::statistics::{PartitionStatisticsFile, StatisticsFile};
use crate::string_map::StringMap;
use crate::text::{around_number, decimal};
use std::collections::HashMap;
use std::sync::Arc;
use uuid::Uuid;
use vstd::prelude::*;

verus! {

broadcast use vstd::std_specs::hash::group_hash_axioms;

/// The snapshot id of a file, which may stand for no snapshot.
pub open spec fn snapshot_id_read(id: Option<i64>) -> Option<i64> {
    if id == Some(EMPTY_SNAPSHOT_ID) {
        None
    } else {
        id
    }
}

/// The texts of a file, which may be missing.
pub open spec fn texts_read(texts: Option<StringMap<String>>) -> Map<Seq<char>, String> {
    match texts {
        Some(t) => t@,
        None => Map::empty(),
    }
}

/// A list of a file, which may be missing.
pub open spec fn list_read<T>(list: Option<Vec<T>>) -> Seq<T> {
    match list {
        Some(l) => l@,
        None => Seq::empty(),
    }
}

/// The references of a table of which only the current snapshot is known.
pub open spec fn main_only(current_snapshot_id: Option<i64>) -> Map<Seq<char>, SnapshotReference> {
    match current_snapshot_id {
        Some(id) => Map::<Seq<char>, SnapshotReference>::empty().insert(MAIN_BRANCH@, plain_branch(id)),
        None => Map::empty(),
    }
}

/// Schemas of a version 2 file, each with its id, or why a schema cannot be had.
pub open spec fn schema_items_v2(list: Seq<SchemaV2>) -> Seq<Result<(i32, SchemaView), ErrorView>> {
    list.map_values(
        |d: SchemaV2|
            match d.schema() {
                Ok(s) => Ok((d.schema_id, s)),
                Err(e) => Err(e),
            },
    )
}

/// Schemas of a version 1 file, each with its id, or why a schema cannot be had.
pub open spec fn schema_items_v1(list: Seq<SchemaV1>) -> Seq<Result<(i32, SchemaView), ErrorView>> {
    list.map_values(
        |d: SchemaV1|
            match d.schema() {
                Ok(s) => Ok((s.schema_id, s)),
                Err(e) => Err(e),
            },
    )
}

/// Snapshots of a version 1 file, each with its id, or why a snapshot cannot be had.
pub open spec fn snapshot_items_v1(list: Seq<SnapshotV1>) -> Seq<Result<(i64, SnapshotView), ErrorView>> {
    list.map_values(
        |d: SnapshotV1|
            match d.snapshot() {
                Ok(s) => Ok((d.snapshot_id, s)),
                Err(e) => Err(e),
            },
    )
}

/// Snapshots of a version 2 file, each with its id.
pub open spec fn snapshot_pairs(list: Seq<SnapshotV2>) -> Seq<(i64, SnapshotView)> {
    list.map_values(|d: SnapshotV2| (d.snapshot_id, d.snapshot()))
}

/// Partition specs, each with its id.
pub open spec fn spec_pairs(list: Seq<PartitionSpec>) -> Seq<(i32, PartitionSpecView)> {
    list.map_values(|s: PartitionSpec| (s.spec_id, s@))
}

/// Sort orders, each with its id.
pub open spec fn sort_order_pairs(list: Seq<SortOrder>) -> Seq<(i64, SortOrderView)> {
    list.map_values(|s: SortOrder| (s.order_id, s@))
}

/// Statistics files, each with the id of its snapshot.
pub open spec fn statistics_pairs(list: Seq<StatisticsFile>) -> Seq<(i64, StatisticsFile)> {
    list.map_values(|s: StatisticsFile| (s.snapshot_id, s))
}

/// Partition statistics files, each with the id of its snapshot.
pub open spec fn partition_statistics_pairs(list: Seq<PartitionStatisticsFile>) -> Seq<
    (i64, PartitionStatisticsFile),
> {
    list.map_values(|s: PartitionStatisticsFile| (s.snapshot_id, s))
}

/// The error about a default partition spec id that no spec has.
pub open spec fn no_default_spec(id: i32) -> ErrorView {
    data_invalid("Default partition spec "@ + decimal(id as int) + " not found"@)
}

/// The default partition spec of a version 2 file. The one of a table without partitions need not
/// be listed.
pub open spec fn default_spec_v2(value: TableMetadataV2) -> Result<PartitionSpecView, ErrorView> {
    let specs = last_wins(spec_pairs(value.partition_specs@));
    if specs.contains_key(value.default_spec_id) {
        Ok(specs[value.default_spec_id])
    } else if value.default_spec_id == DEFAULT_PARTITION_SPEC_ID {
        Ok(unpartitioned())
    } else {
        Err(no_default_spec(value.default_spec_id))
    }
}

/// What a version 2 file says, before it is brought to keep the rules, or why it says nothing.
pub open spec fn assembled_v2(value: TableMetadataV2) -> Result<TableMetadataView, ErrorView> {
    match collected(schema_items_v2(value.schemas@)) {
        Err(e) => Err(e),
        Ok(schemas) => if !schemas.contains_key(value.current_schema_id) {
            Err(no_schema(value.current_schema_id))
        } else {
            match default_spec_v2(value) {
                Err(e) => Err(e),
                Ok(default_spec) => match partition_type_of(
                    default_spec,
                    schemas[value.current_schema_id].fields,
                ) {
                    Err(e) => Err(e),
                    Ok(default_partition_type) => Ok(
                        TableMetadataView {
                            format_version: FormatVersion::V2,
                            table_uuid: value.table_uuid,
                            location: value.location@,
                            last_sequence_number: value.last_sequence_number,
                            last_updated_ms: value.last_updated_ms,
                            last_column_id: value.last_column_id,
                            schemas,
                            current_schema_id: value.current_schema_id,
                            partition_specs: last_wins(spec_pairs(value.partition_specs@)),
                            default_spec,
                            default_partition_type,
                            last_partition_id: value.last_partition_id,
                            properties: texts_read(value.properties),
                            current_snapshot_id: snapshot_id_read(value.current_snapshot_id),
                            snapshots: last_wins(snapshot_pairs(list_read(value.snapshots))),
                            snapshot_log: list_read(value.snapshot_log),
                            metadata_log: list_read(value.metadata_log),
                            sort_orders: last_wins(sort_order_pairs(value.sort_orders@)),
                            default_sort_order_id: value.default_sort_order_id,
                            refs: match value.refs {
                                Some(refs) => refs@,
                                None => main_only(snapshot_id_read(value.current_snapshot_id)),
                            },
                            statistics: first_wins(statistics_pairs(value.statistics@)),
                            partition_statistics: first_wins(
                                partition_statistics_pairs(value.partition_statistics@),
                            ),
                            encryption_keys: Map::empty(),
                        },
                    ),
                },
            }
        },
    }
}

/// The greatest of some ids, or zero where there are none.
pub open spec fn greatest(ids: Set<i32>) -> i32 {
    if ids == Set::<i32>::empty() {
        0
    } else {
        choose|k: i32| #[trigger] ids.contains(k) && forall|j: i32| #[trigger] ids.contains(j) ==> j <= k
    }
}

/// The schemas of a version 1 file and the id of the current one. A list of schemas counts only
/// together with the id of the current one; without them the single schema does.
pub open spec fn schemas_v1(value: TableMetadataV1) -> Result<(Map<i32, SchemaView>, i32), ErrorView> {
    if value.schemas is Some && value.current_schema_id is Some {
        let id = value.current_schema_id.unwrap();
        match collected(schema_items_v1(value.schemas.unwrap()@)) {
            Err(e) => Err(e),
            Ok(schemas) => if schemas.contains_key(id) {
                Ok((schemas, id))
            } else {
                Err(no_schema(id))
            },
        }
    } else {
        match value.schema {
            Some(d) => match d.schema() {
                Err(e) => Err(e),
                Ok(s) => Ok((Map::<i32, SchemaView>::empty().insert(s.schema_id, s), s.schema_id)),
            },
            None => Err(data_invalid("No valid schema configuration found in table metadata"@)),
        }
    }
}

/// The partition specs of a version 1 file: those that it lists, or else the one whose fields it
/// gives, or else the one without fields.
pub open spec fn specs_v1(value: TableMetadataV1, current_schema: SchemaView) -> Result<
    Map<i32, PartitionSpecView>,
    ErrorView,
> {
    match value.partition_specs {
        Some(list) => Ok(last_wins(spec_pairs(list@))),
        None => {
            let fields = list_read(value.partition_spec);
            match spec_of(DEFAULT_PARTITION_SPEC_ID, fields, current_schema.fields) {
                Err(e) => Err(e),
                Ok(s) => Ok(
                    Map::<i32, PartitionSpecView>::empty().insert(DEFAULT_PARTITION_SPEC_ID, s),
                ),
            }
        },
    }
}

/// The default partition spec of a version 1 file, by its id where the file gives it, or else the
/// one with the greatest id.
pub open spec fn default_spec_v1(value: TableMetadataV1, specs: Map<i32, PartitionSpecView>) -> Result<
    PartitionSpecView,
    ErrorView,
> {
    let id = match value.default_spec_id {
        Some(id) => id,
        None => greatest(specs.dom()),
    };
    if specs.contains_key(id) {
        Ok(specs[id])
    } else {
        Err(no_default_spec(id))
    }
}

/// What a version 1 file says, before it is brought to keep the rules, or why it says nothing.
pub open spec fn assembled_v1(value: TableMetadataV1) -> Result<TableMetadataView, ErrorView> {
    match schemas_v1(value) {
        Err(e) => Err(e),
        Ok((schemas, current_schema_id)) => match specs_v1(value, schemas[current_schema_id]) {
            Err(e) => Err(e),
            Ok(specs) => match default_spec_v1(value, specs) {
                Err(e) => Err(e),
                Ok(default_spec) => match partition_type_of(default_spec, schemas[current_schema_id].fields) {
                    Err(e) => Err(e),
                    Ok(default_partition_type) => match collected(
                        snapshot_items_v1(list_read(value.snapshots)),
                    ) {
                        Err(e) => Err(e),
                        Ok(snapshots) => Ok(
                            TableMetadataView {
                                format_version: FormatVersion::V1,
                                table_uuid: match value.table_uuid {
                                    Some(id) => id,
                                    None => uuid_from_u128(0),
                                },
                                location: value.location@,
                                last_sequence_number: 0,
                                last_updated_ms: value.last_updated_ms,
                                last_column_id: value.last_column_id,
                                schemas,
                                current_schema_id,
                                partition_specs: specs,
                                default_spec,
                                default_partition_type,
                                last_partition_id: match value.last_partition_id {
                                    Some(id) => id,
                                    None => greatest(specs.dom()),
                                },
                                properties: texts_read(value.properties),
                                current_snapshot_id: snapshot_id_read(value.current_snapshot_id),
                                snapshots,
                                snapshot_log: list_read(value.snapshot_log),
                                metadata_log: list_read(value.metadata_log),
                                sort_orders: last_wins(sort_order_pairs(list_read(value.sort_orders))),
                                default_sort_order_id: match value.default_sort_order_id {
                                    Some(id) => id,
                                    None => SortOrder::UNSORTED_ORDER_ID,
                                },
                                refs: main_only(snapshot_id_read(value.current_snapshot_id)),
                                statistics: first_wins(statistics_pairs(value.statistics@)),
                                partition_statistics: first_wins(
                                    partition_statistics_pairs(value.partition_statistics@),
                                ),
                                encryption_keys: Map::empty(),
                            },
                        ),
                    },
                },
            },
        },
    }
}

/// What a file of any version says, before it is brought to keep the rules, or why it says nothing.
pub open spec fn assembled(value: TableMetadataEnum) -> Result<TableMetadataView, ErrorView> {
    match value {
        TableMetadataEnum::V2(v) => assembled_v2(v),
        TableMetadataEnum::V1(v) => assembled_v1(v),
    }
}

/// The outcome of reading a file that says `said`: the metadata brought to keep the rules, or an
/// error.
pub open spec fn read_outcome(said: Result<TableMetadataView, ErrorView>, r: Result<TableMetadata, Error>) -> bool {
    match said {
        Err(e) => r matches Err(f) && f@ == e,
        Ok(m) => match r {
            Ok(t) => normalizable(m) && t@ == normalized(m),
            Err(e) => !normalizable(m) && normalize_error(m, e@),
        },
    }
}

/// The statistics files of a table by the ids of their snapshots. Of several files for one
/// snapshot the first one counts.
pub fn index_statistics(statistics: Vec<StatisticsFile>) -> (r: HashMap<i64, StatisticsFile>)
    ensures
        r@ == first_wins(statistics_pairs(statistics@)),
{
    let ghost pairs: Seq<(i64, StatisticsFile)> = statistics_pairs(statistics@);
    let mut left: Vec<StatisticsFile> = statistics;
    let mut index: HashMap<i64, StatisticsFile> = HashMap::new();
    proof {
        assert(pairs.skip(left@.len() as int) =~= Seq::empty());
    }
    while left.len() > 0
        invariant
            left@.len() <= statistics@.len(),
            left@ == statistics@.take(left@.len() as int),
            pairs == statistics_pairs(statistics@),
            index@ == first_wins(pairs.skip(left@.len() as int)),
        decreases left@.len(),
    {
        let ghost n: int = left@.len() as int;
        if let Some(file) = left.pop() {
            proof {
                assert(pairs.skip(n - 1).drop_first() =~= pairs.skip(n));
                assert(pairs.skip(n - 1).first() == (file.snapshot_id, file));
                assert(left@ =~= statistics@.take(n - 1));
            }
            index.insert(file.snapshot_id, file);
        }
    }
    proof {
        assert(pairs.skip(0) =~= pairs);
    }
    index
}

/// The partition statistics files of a table by the ids of their snapshots. Of several files for
/// one snapshot the first one counts.
pub fn index_partition_statistics(statistics: Vec<PartitionStatisticsFile>) -> (r: HashMap<
    i64,
    PartitionStatisticsFile,
>)
    ensures
        r@ == first_wins(partition_statistics_pairs(statistics@)),
{
    let ghost pairs: Seq<(i64, PartitionStatisticsFile)> = partition_statistics_pairs(statistics@);
    let mut left: Vec<PartitionStatisticsFile> = statistics;
    let mut index: HashMap<i64, PartitionStatisticsFile> = HashMap::new();
    proof {
        assert(pairs.skip(left@.len() as int) =~= Seq::empty());
    }
    while left.len() > 0
        invariant
            left@.len() <= statistics@.len(),
            left@ == statistics@.take(left@.len() as int),
            pairs == partition_statistics_pairs(statistics@),
            index@ == first_wins(pairs.skip(left@.len() as int)),
        decreases left@.len(),
    {
        let ghost n: int = left@.len() as int;
        if let Some(file) = left.pop() {
            proof {
                assert(pairs.skip(n - 1).drop_first() =~= pairs.skip(n));
                assert(pairs.skip(n - 1).first() == (file.snapshot_id, file));
                assert(left@ =~= statistics@.take(n - 1));
            }
            index.insert(file.snapshot_id, file);
        }
    }
    proof {
        assert(pairs.skip(0) =~= pairs);
    }
    index
}

/// The schemas of a version 2 file by their ids.
fn index_schemas_v2(list: Vec<SchemaV2>) -> (r: Result<HashMap<i32, SchemaRef>, Error>)
    ensures
        match r {
            Ok(m) => collected(schema_items_v2(list@)) == Ok::<Map<i32, SchemaView>, ErrorView>(seen(m@)),
            Err(e) => collected(schema_items_v2(list@)) == Err::<Map<i32, SchemaView>, ErrorView>(e@),
        },
{
    let ghost items: Seq<Result<(i32, SchemaView), ErrorView>> = schema_items_v2(list@);
    let ghost all: Seq<SchemaV2> = list@;
    let mut index: HashMap<i32, SchemaRef> = HashMap::new();
    proof {
        assert(seen(index@) =~= Map::<i32, SchemaView>::empty());
    }
    for document in it: list
        invariant
            it.seq() == all,
            items == schema_items_v2(all),
            collected(items.take(it.index())) == Ok::<Map<i32, SchemaView>, ErrorView>(seen(index@)),
    {
        let ghost n: int = it.index();
        proof {
            assert(items.take(n + 1).drop_last() =~= items.take(n));
            assert(document == all[n]);
        }
        let id: i32 = document.schema_id;
        match Schema::try_from_v2(document) {
            Ok(value) => {
                let shared: SchemaRef = Arc::new(value);
                let ghost before: Map<i32, SchemaRef> = index@;
                index.insert(id, shared);
                proof {
                    seen_insert(before, id, shared);
                }
            },
            Err(e) => {
                proof {
                    collected_prefix(items, n + 1);
                }
                return Err(e);
            },
        }
    }
    proof {
        assert(items.take(all.len() as int) =~= items);
    }
    Ok(index)
}

/// The schemas of a version 1 file by their ids.
fn index_schemas_v1(list: Vec<SchemaV1>) -> (r: Result<HashMap<i32, SchemaRef>, Error>)
    ensures
        match r {
            Ok(m) => collected(schema_items_v1(list@)) == Ok::<Map<i32, SchemaView>, ErrorView>(seen(m@)),
            Err(e) => collected(schema_items_v1(list@)) == Err::<Map<i32, SchemaView>, ErrorView>(e@),
        },
{
    let ghost items: Seq<Result<(i32, SchemaView), ErrorView>> = schema_items_v1(list@);
    let ghost all: Seq<SchemaV1> = list@;
    let mut index: HashMap<i32, SchemaRef> = HashMap::new();
    proof {
        assert(seen(index@) =~= Map::<i32, SchemaView>::empty());
    }
    for document in it: list
        invariant
            it.seq() == all,
            items == schema_items_v1(all),
            collected(items.take(it.index())) == Ok::<Map<i32, SchemaView>, ErrorView>(seen(index@)),
    {
        let ghost n: int = it.index();
        proof {
            assert(items.take(n + 1).drop_last() =~= items.take(n));
            assert(document == all[n]);
        }
        match Schema::try_from_v1(document) {
            Ok(value) => {
                let shared: SchemaRef = Arc::new(value);
                let ghost before: Map<i32, SchemaRef> = index@;
                let id: i32 = shared.schema_id();
                index.insert(id, shared);
                proof {
                    seen_insert(before, id, shared);
                }
            },
            Err(e) => {
                proof {
                    collected_prefix(items, n + 1);
                }
                return Err(e);
            },
        }
    }
    proof {
        assert(items.take(all.len() as int) =~= items);
    }
    Ok(index)
}

/// The snapshots of a version 1 file by their ids.
fn index_snapshots_v1(list: Vec<SnapshotV1>) -> (r: Result<HashMap<i64, SnapshotRef>, Error>)
    ensures
        match r {
            Ok(m) => collected(snapshot_items_v1(list@)) == Ok::<Map<i64, SnapshotView>, ErrorView>(seen(m@)),
            Err(e) => collected(snapshot_items_v1(list@)) == Err::<Map<i64, SnapshotView>, ErrorView>(e@),
        },
{
    let ghost items: Seq<Result<(i64, SnapshotView), ErrorView>> = snapshot_items_v1(list@);
    let ghost all: Seq<SnapshotV1> = list@;
    let mut index: HashMap<i64, SnapshotRef> = HashMap::new();
    proof {
        assert(seen(index@) =~= Map::<i64, SnapshotView>::empty());
    }
    for document in it: list
        invariant
            it.seq() == all,
            items == snapshot_items_v1(all),
            collected(items.take(it.index())) == Ok::<Map<i64, SnapshotView>, ErrorView>(seen(index@)),
    {
        let ghost n: int = it.index();
        proof {
            assert(items.take(n + 1).drop_last() =~= items.take(n));
            assert(document == all[n]);
        }
        let id: i64 = document.snapshot_id;
        match Snapshot::try_from_v1(document) {
            Ok(value) => {
                let shared: SnapshotRef = Arc::new(value);
                let ghost before: Map<i64, SnapshotRef> = index@;
                index.insert(id, shared);
                proof {
                    seen_insert(before, id, shared);
                }
            },
            Err(e) => {
                proof {
                    collected_prefix(items, n + 1);
                }
                return Err(e);
            },
        }
    }
    proof {
        assert(items.take(all.len() as int) =~= items);
    }
    Ok(index)
}

/// The snapshots of a version 2 file by their ids.
fn index_snapshots_v2(list: Vec<SnapshotV2>) -> (r: HashMap<i64, SnapshotRef>)
    ensures
        seen(r@) == last_wins(snapshot_pairs(list@)),
{
    let ghost pairs: Seq<(i64, SnapshotView)> = snapshot_pairs(list@);
    let ghost all: Seq<SnapshotV2> = list@;
    let mut index: HashMap<i64, SnapshotRef> = HashMap::new();
    proof {
        assert(seen(index@) =~= Map::<i64, SnapshotView>::empty());
    }
    for item in it: list
        invariant
            it.seq() == all,
            pairs == snapshot_pairs(all),
            seen(index@) == last_wins(pairs.take(it.index())),
    {
        let ghost n: int = it.index();
        let ghost before: Map<i64, SnapshotRef> = index@;
        proof {
            assert(pairs.take(n + 1).drop_last() =~= pairs.take(n));
            assert(item == all[n]);
        }
        let id: i64 = item.snapshot_id;
        let shared: SnapshotRef = Arc::new(Snapshot::from_v2(item));
        index.insert(id, shared);
        proof {
            seen_insert(before, id, shared);
        }
    }
    proof {
        assert(pairs.take(all.len() as int) =~= pairs);
    }
    index
}

/// Partition specs by their ids.
fn index_specs(list: Vec<PartitionSpec>) -> (r: HashMap<i32, PartitionSpecRef>)
    ensures
        seen(r@) == last_wins(spec_pairs(list@)),
{
    let ghost pairs: Seq<(i32, PartitionSpecView)> = spec_pairs(list@);
    let ghost all: Seq<PartitionSpec> = list@;
    let mut index: HashMap<i32, PartitionSpecRef> = HashMap::new();
    proof {
        assert(seen(index@) =~= Map::<i32, PartitionSpecView>::empty());
    }
    for item in it: list
        invariant
            it.seq() == all,
            pairs == spec_pairs(all),
            seen(index@) == last_wins(pairs.take(it.index())),
    {
        let ghost n: int = it.index();
        let ghost before: Map<i32, PartitionSpecRef> = index@;
        proof {
            assert(pairs.take(n + 1).drop_last() =~= pairs.take(n));
            assert(item == all[n]);
        }
        let id: i32 = item.spec_id();
        let shared: PartitionSpecRef = Arc::new(item);
        index.insert(id, shared);
        proof {
            seen_insert(before, id, shared);
        }
    }
    proof {
        assert(pairs.take(all.len() as int) =~= pairs);
    }
    index
}

/// Sort orders by their ids.
fn index_sort_orders(list: Vec<SortOrder>) -> (r: HashMap<i64, SortOrderRef>)
    ensures
        seen(r@) == last_wins(sort_order_pairs(list@)),
{
    let ghost pairs: Seq<(i64, SortOrderView)> = sort_order_pairs(list@);
    let ghost all: Seq<SortOrder> = list@;
    let mut index: HashMap<i64, SortOrderRef> = HashMap::new();
    proof {
        assert(seen(index@) =~= Map::<i64, SortOrderView>::empty());
    }
    for item in it: list
        invariant
            it.seq() == all,
            pairs == sort_order_pairs(all),
            seen(index@) == last_wins(pairs.take(it.index())),
    {
        let ghost n: int = it.index();
        let ghost before: Map<i64, SortOrderRef> = index@;
        proof {
            assert(pairs.take(n + 1).drop_last() =~= pairs.take(n));
            assert(item == all[n]);
        }
        let id: i64 = item.order_id;
        let shared: SortOrderRef = Arc::new(item);
        index.insert(id, shared);
        proof {
            seen_insert(before, id, shared);
        }
    }
    proof {
        assert(pairs.take(all.len() as int) =~= pairs);
    }
    index
}

fn list_or_none<T>(list: Option<Vec<T>>) -> (r: Vec<T>)
    ensures
        r@ == list_read(list),
{
    match list {
        Some(l) => l,
        None => Vec::new(),
    }
}

fn texts_or_none(texts: Option<StringMap<String>>) -> (r: StringMap<String>)
    ensures
        r@ == texts_read(texts),
{
    match texts {
        Some(t) => t,
        None => StringMap::new(),
    }
}

fn refs_of_current(current_snapshot_id: Option<i64>) -> (r: StringMap<SnapshotReference>)
    ensures
        r@ == main_only(current_snapshot_id),
{
    let mut refs: StringMap<SnapshotReference> = StringMap::new();
    if let Some(snapshot_id) = current_snapshot_id {
        refs.insert(MAIN_BRANCH.to_owned(), SnapshotReference::branch(snapshot_id));
    }
    refs
}

fn read_snapshot_id(id: Option<i64>) -> (r: Option<i64>)
    ensures
        r == snapshot_id_read(id),
{
    match id {
        Some(snapshot_id) => if snapshot_id == EMPTY_SNAPSHOT_ID {
            None
        } else {
            Some(snapshot_id)
        },
        None => None,
    }
}

impl TableMetadata {
    /// Puts together what a version 2 file says.
    fn assemble_v2(value: TableMetadataV2) -> (r: Result<TableMetadata, Error>)
        ensures
            match r {
                Ok(t) => assembled_v2(value) == Ok::<TableMetadataView, ErrorView>(t@),
                Err(e) => assembled_v2(value) == Err::<TableMetadataView, ErrorView>(e@),
            },
    {
        let current_snapshot_id: Option<i64> = read_snapshot_id(value.current_snapshot_id);
        let schemas: HashMap<i32, SchemaRef> = index_schemas_v2(value.schemas)?;
        let current_schema: SchemaRef = match schemas.get(&value.current_schema_id) {
            Some(schema) => share(schema),
            None => {
                return Err(
                    Error::data_invalid(
                        around_number(
                            "No schema exists with the current schema id ",
                            value.current_schema_id as i64,
                            ".",
                        ),
                    ),
                );
            },
        };
        let partition_specs: HashMap<i32, PartitionSpecRef> = index_specs(value.partition_specs);
        let default_spec_id: i32 = value.default_spec_id;
        let default_spec: PartitionSpecRef = match partition_specs.get(&default_spec_id) {
            Some(spec) => share(spec),
            None => if default_spec_id == DEFAULT_PARTITION_SPEC_ID {
                Arc::new(PartitionSpec::unpartition_spec())
            } else {
                return Err(
                    Error::data_invalid(
                        around_number("Default partition spec ", default_spec_id as i64, " not found"),
                    ),
                );
            },
        };
        let default_partition_type = default_spec.partition_type(&current_schema)?;
        let refs: StringMap<SnapshotReference> = match value.refs {
            Some(refs) => refs,
            None => refs_of_current(current_snapshot_id),
        };
        let metadata = TableMetadata {
            format_version: FormatVersion::V2,
            table_uuid: value.table_uuid,
            location: value.location,
            last_sequence_number: value.last_sequence_number,
            last_updated_ms: value.last_updated_ms,
            last_column_id: value.last_column_id,
            schemas,
            current_schema_id: value.current_schema_id,
            partition_specs,
            default_spec,
            default_partition_type,
            last_partition_id: value.last_partition_id,
            properties: texts_or_none(value.properties),
            current_snapshot_id,
            snapshots: index_snapshots_v2(list_or_none(value.snapshots)),
            snapshot_log: list_or_none(value.snapshot_log),
            metadata_log: list_or_none(value.metadata_log),
            sort_orders: index_sort_orders(value.sort_orders),
            default_sort_order_id: value.default_sort_order_id,
            refs,
            statistics: index_statistics(value.statistics),
            partition_statistics: index_partition_statistics(value.partition_statistics),
            encryption_keys: StringMap::new(),
        };
        proof {
            assert(assembled_v2(value) == Ok::<TableMetadataView, ErrorView>(metadata@));
        }
        Ok(metadata)
    }

    /// Reads metadata from its form in version 2 files.
    pub fn try_from_v2(value: TableMetadataV2) -> (r: Result<TableMetadata, Error>)
        requires
            assembled_v2(value) matches Ok(m) ==> comparable(m),
        ensures
            read_outcome(assembled_v2(value), r),
    {
        let mut metadata = TableMetadata::assemble_v2(value)?;
        metadata.try_normalize()?;
        Ok(metadata)
    }
}

/// The greatest id of a partition spec.
fn greatest_id(specs: &HashMap<i32, PartitionSpecRef>) -> (r: i32)
    ensures
        r == greatest(seen(specs@).dom()),
{
    let mut found: Option<i32> = None;
    let ghost ids: Set<i32> = seen(specs@).dom();
    proof {
        assert(ids =~= specs@.dom());
    }
    for id in it: specs.keys()
        invariant
            it.seq().unref().to_set() == ids,
            match found {
                Some(k) => ids.contains(k) && forall|j: int| 0 <= j < it.index() ==> *(#[trigger] it.seq()[j]) <= k,
                None => it.index() == 0,
            },
    {
        proof {
            assert(it.seq().unref()[it.index()] == *id);
            assert(it.seq().unref().to_set().contains(*id));
        }
        found = match found {
            Some(k) => if k < *id {
                Some(*id)
            } else {
                Some(k)
            },
            None => Some(*id),
        };
    }
    match found {
        Some(k) => {
            proof {
                assert forall|j: i32| #[trigger] ids.contains(j) implies j <= k by {}
                let c: i32 = greatest(ids);
                assert(ids.contains(k));
                assert(ids.contains(c) && k <= c && c <= k);
            }
            k
        },
        None => {
            proof {
                assert(ids =~= Set::<i32>::empty());
            }
            0
        },
    }
}

impl TableMetadata {
    /// Puts together what a version 1 file says.
    fn assemble_v1(value: TableMetadataV1) -> (r: Result<TableMetadata, Error>)
        ensures
            match r {
                Ok(t) => assembled_v1(value) == Ok::<TableMetadataView, ErrorView>(t@),
                Err(e) => assembled_v1(value) == Err::<TableMetadataView, ErrorView>(e@),
            },
    {
        let current_snapshot_id: Option<i64> = read_snapshot_id(value.current_snapshot_id);
        let schemas: HashMap<i32, SchemaRef>;
        let current_schema_id: i32;
        match (value.schemas, value.current_schema_id) {
            (Some(list), Some(id)) => {
                // Option 1: Use 'schemas' + 'current_schema_id'
                schemas = index_schemas_v1(list)?;
                current_schema_id = id;
            },
            _ => match value.schema {
                Some(document) => {
                    // Option 2: Fall back to `schema`
                    let schema: SchemaRef = Arc::new(Schema::try_from_v1(document)?);
                    let mut single: HashMap<i32, SchemaRef> = HashMap::new();
                    let id: i32 = schema.schema_id();
                    let ghost before: Map<i32, SchemaRef> = single@;
                    single.insert(id, schema);
                    proof {
                        assert(seen(before) =~= Map::<i32, SchemaView>::empty());
                        seen_insert(before, id, schema);
                    }
                    schemas = single;
                    current_schema_id = id;
                },
                None => {
                    // Option 3: No valid schema configuration found
                    return Err(
                        Error::data_invalid(
                            "No valid schema configuration found in table metadata".to_owned(),
                        ),
                    );
                },
            },
        }
        let current_schema: SchemaRef = match schemas.get(&current_schema_id) {
            Some(schema) => share(schema),
            None => {
                return Err(
                    Error::data_invalid(
                        around_number(
                            "No schema exists with the current schema id ",
                            current_schema_id as i64,
                            ".",
                        ),
                    ),
                );
            },
        };
        proof {
            assert(schemas_v1(value) == Ok::<(Map<i32, SchemaView>, i32), ErrorView>(
                (seen(schemas@), current_schema_id),
            ));
        }
        // Prioritize 'partition_specs' over 'partition_spec'
        let partition_specs: HashMap<i32, PartitionSpecRef> = match value.partition_specs {
            Some(list) => index_specs(list),
            None => {
                let spec: PartitionSpecRef = Arc::new(
                    PartitionSpec::bind(
                        DEFAULT_PARTITION_SPEC_ID,
                        list_or_none(value.partition_spec),
                        &current_schema,
                    )?,
                );
                let mut single: HashMap<i32, PartitionSpecRef> = HashMap::new();
                let ghost before: Map<i32, PartitionSpecRef> = single@;
                single.insert(DEFAULT_PARTITION_SPEC_ID, spec);
                proof {
                    assert(seen(before) =~= Map::<i32, PartitionSpecView>::empty());
                    seen_insert(before, DEFAULT_PARTITION_SPEC_ID, spec);
                }
                single
            },
        };
        // Get the default_spec_id, prioritizing the explicit value if provided
        let default_spec_id: i32 = match value.default_spec_id {
            Some(id) => id,
            None => greatest_id(&partition_specs),
        };
        let default_spec: PartitionSpecRef = match partition_specs.get(&default_spec_id) {
            Some(spec) => share(spec),
            None => {
                return Err(
                    Error::data_invalid(
                        around_number("Default partition spec ", default_spec_id as i64, " not found"),
                    ),
                );
            },
        };
        let default_partition_type = default_spec.partition_type(&current_schema)?;
        let snapshots: HashMap<i64, SnapshotRef> = index_snapshots_v1(list_or_none(value.snapshots))?;
        let last_partition_id: i32 = match value.last_partition_id {
            Some(id) => id,
            None => greatest_id(&partition_specs),
        };
        let table_uuid: Uuid = match value.table_uuid {
            Some(id) => id,
            None => default_uuid(),
        };
        let default_sort_order_id: i64 = match value.default_sort_order_id {
            Some(id) => id,
            None => SortOrder::UNSORTED_ORDER_ID,
        };
        let metadata = TableMetadata {
            format_version: FormatVersion::V1,
            table_uuid,
            location: value.location,
            last_sequence_number: 0,
            last_updated_ms: value.last_updated_ms,
            last_column_id: value.last_column_id,
            schemas,
            current_schema_id,
            partition_specs,
            default_spec,
            default_partition_type,
            last_partition_id,
            properties: texts_or_none(value.properties),
            current_snapshot_id,
            snapshots,
            snapshot_log: list_or_none(value.snapshot_log),
            metadata_log: list_or_none(value.metadata_log),
            sort_orders: index_sort_orders(list_or_none(value.sort_orders)),
            default_sort_order_id,
            refs: refs_of_current(current_snapshot_id),
            statistics: index_statistics(value.statistics),
            partition_statistics: index_partition_statistics(value.partition_statistics),
            encryption_keys: StringMap::new(),
        };
        proof {
            assert(assembled_v1(value) == Ok::<TableMetadataView, ErrorView>(metadata@));
        }
        Ok(metadata)
    }

    /// Reads metadata from its form in version 1 files.
    pub fn try_from_v1(value: TableMetadataV1) -> (r: Result<TableMetadata, Error>)
        requires
            assembled_v1(value) matches Ok(m) ==> comparable(m),
        ensures
            read_outcome(assembled_v1(value), r),
    {
        let mut metadata = TableMetadata::assemble_v1(value)?;
        metadata.try_normalize()?;
        Ok(metadata)
    }

    /// Reads metadata from its form in files of any version.
    pub fn try_from(value: TableMetadataEnum) -> (r: Result<TableMetadata, Error>)
        requires
            assembled(value) matches Ok(m) ==> comparable(m),
        ensures
            read_outcome(assembled(value), r),
    {
        match value {
            TableMetadataEnum::V2(value) => TableMetadata::try_from_v2(value),
            TableMetadataEnum::V1(value) => TableMetadata::try_from_v1(value),
        }
    }

    /// Reads metadata from its form in files of any version. There is no outcome where timestamps
    /// that must be compared are further apart than a number of 64 bits can say.
    pub fn try_read(value: TableMetadataEnum) -> (r: Option<Result<TableMetadata, Error>>)
        ensures
            match r {
                Some(outcome) => {
                    &&& assembled(value) matches Ok(m) ==> comparable(m)
                    &&& read_outcome(assembled(value), outcome)
                },
                None => assembled(value) matches Ok(m) && !comparable(m),
            },
    {
        let assembled = match value {
            TableMetadataEnum::V2(value) => TableMetadata::assemble_v2(value),
            TableMetadataEnum::V1(value) => TableMetadata::assemble_v1(value),
        };
        match assembled {
            Err(e) => Some(Err(e)),
            Ok(metadata) => {
                if !metadata.is_comparable() {
                    return None;
                }
                let mut metadata = metadata;
                match metadata.try_normalize() {
                    Err(e) => Some(Err(e)),
                    Ok(_) => Some(Ok(metadata)),
                }
            },
        }
    }
}

} // verus!
