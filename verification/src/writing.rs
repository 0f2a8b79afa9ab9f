//! Writing table metadata in the forms that it has in metadata files.

use crate::documents::{TableMetadataEnum, TableMetadataV1, TableMetadataV2, VersionNumber};
use crate::error::{unexpected, Error, ErrorKind, ErrorView};
use crate::format_version::FormatVersion;
use crate::listing::{keys_in_order, list_keys, take_values, tells};
use crate::metadata::{seen, TableMetadata, TableMetadataView};
use crate::partition::{copy_fields, PartitionSpec, PartitionSpecRef, PartitionSpecView};
use crate::schema::{SchemaRef, SchemaV1, SchemaV2, SchemaView};
use crate::snapshot::{SnapshotRef, SnapshotV1, SnapshotV2, SnapshotView};
use crate::sort::{SortOrder, SortOrderRef, SortOrderView};
use crate::statistics::{PartitionStatisticsFile, StatisticsFile};
use crate::string_map::StringMap;
use std::collections::HashMap;
use vstd::prelude::*;

verus! {

broadcast use vstd::std_specs::hash::group_hash_axioms;

/// Texts as a file gives them, which leaves them out where there are none.
pub open spec fn texts_written(written: Option<StringMap<String>>, texts: Map<Seq<char>, String>) -> bool {
    if texts == Map::<Seq<char>, String>::empty() {
        written is None
    } else {
        written matches Some(t) && t@ == texts
    }
}

/// A list as a file gives it, which leaves it out where it is empty.
pub open spec fn list_written<T>(written: Option<Vec<T>>, list: Seq<T>) -> bool {
    if list.len() == 0 {
        written is None
    } else {
        written matches Some(l) && l@ == list
    }
}

/// A list tells partition specs.
pub open spec fn tells_specs(list: Seq<PartitionSpec>, specs: Map<i32, PartitionSpecView>) -> bool {
    tells(list, specs, |s: PartitionSpec, v: PartitionSpecView| s@ == v)
}

/// A list tells sort orders.
pub open spec fn tells_sort_orders(list: Seq<SortOrder>, orders: Map<i64, SortOrderView>) -> bool {
    tells(list, orders, |s: SortOrder, v: SortOrderView| s@ == v)
}

/// A list tells schemas to a version 2 file.
pub open spec fn tells_schemas_v2(list: Seq<SchemaV2>, schemas: Map<i32, SchemaView>) -> bool {
    tells(list, schemas, |d: SchemaV2, s: SchemaView| d.gives(s))
}

/// A list tells schemas to a version 1 file.
pub open spec fn tells_schemas_v1(list: Seq<SchemaV1>, schemas: Map<i32, SchemaView>) -> bool {
    tells(list, schemas, |d: SchemaV1, s: SchemaView| d.gives(s))
}

/// A list tells snapshots to a version 2 file, which leaves it out where there are none.
pub open spec fn tells_snapshots_v2(written: Option<Vec<SnapshotV2>>, snapshots: Map<i64, SnapshotView>) -> bool {
    if snapshots == Map::<i64, SnapshotView>::empty() {
        written is None
    } else {
        written matches Some(list) && tells(
            list@,
            snapshots,
            |d: SnapshotV2, s: SnapshotView| d.snapshot() == s,
        )
    }
}

/// A list tells snapshots to a version 1 file, which leaves it out where there are none.
pub open spec fn tells_snapshots_v1(written: Option<Vec<SnapshotV1>>, snapshots: Map<i64, SnapshotView>) -> bool {
    if snapshots == Map::<i64, SnapshotView>::empty() {
        written is None
    } else {
        written matches Some(list) && tells(list@, snapshots, |d: SnapshotV1, s: SnapshotView| d.gives(s))
    }
}

/// A list tells statistics files.
pub open spec fn tells_statistics(list: Seq<StatisticsFile>, files: Map<i64, StatisticsFile>) -> bool {
    tells(list, files, |a: StatisticsFile, b: StatisticsFile| a == b)
}

/// A list tells partition statistics files.
pub open spec fn tells_partition_statistics(
    list: Seq<PartitionStatisticsFile>,
    files: Map<i64, PartitionStatisticsFile>,
) -> bool {
    tells(list, files, |a: PartitionStatisticsFile, b: PartitionStatisticsFile| a == b)
}

/// A version 2 file tells this metadata, all but its encryption keys.
pub open spec fn tells_v2(v: TableMetadataV2, m: TableMetadataView) -> bool {
    &&& v.table_uuid == m.table_uuid
    &&& v.location@ == m.location
    &&& v.last_sequence_number == m.last_sequence_number
    &&& v.last_updated_ms == m.last_updated_ms
    &&& v.last_column_id == m.last_column_id
    &&& tells_schemas_v2(v.schemas@, m.schemas)
    &&& v.current_schema_id == m.current_schema_id
    &&& tells_specs(v.partition_specs@, m.partition_specs)
    &&& v.default_spec_id == m.default_spec.spec_id
    &&& v.last_partition_id == m.last_partition_id
    &&& texts_written(v.properties, m.properties)
    &&& v.current_snapshot_id == m.current_snapshot_id
    &&& tells_snapshots_v2(v.snapshots, m.snapshots)
    &&& list_written(v.snapshot_log, m.snapshot_log)
    &&& list_written(v.metadata_log, m.metadata_log)
    &&& tells_sort_orders(v.sort_orders@, m.sort_orders)
    &&& v.default_sort_order_id == m.default_sort_order_id
    &&& v.refs matches Some(refs) && refs@ == m.refs
    &&& tells_statistics(v.statistics@, m.statistics)
    &&& tells_partition_statistics(v.partition_statistics@, m.partition_statistics)
}

/// A version 1 file tells this metadata, all but its references, its last sequence number, the
/// sequence numbers of its snapshots and its encryption keys.
pub open spec fn tells_v1(v: TableMetadataV1, m: TableMetadataView) -> bool {
    &&& v.table_uuid == Some(m.table_uuid)
    &&& v.location@ == m.location
    &&& v.last_updated_ms == m.last_updated_ms
    &&& v.last_column_id == m.last_column_id
    &&& v.schema matches Some(d) && d.gives(m.schemas[m.current_schema_id])
    &&& v.schemas matches Some(list) && tells_schemas_v1(list@, m.schemas)
    &&& v.current_schema_id == Some(m.current_schema_id)
    &&& v.partition_spec matches Some(fields) && fields@ == m.default_spec.fields
    &&& v.partition_specs matches Some(list) && tells_specs(list@, m.partition_specs)
    &&& v.default_spec_id == Some(m.default_spec.spec_id)
    &&& v.last_partition_id == Some(m.last_partition_id)
    &&& texts_written(v.properties, m.properties)
    &&& v.current_snapshot_id == m.current_snapshot_id
    &&& tells_snapshots_v1(v.snapshots, m.snapshots)
    &&& list_written(v.snapshot_log, m.snapshot_log)
    &&& list_written(v.metadata_log, m.metadata_log)
    &&& v.sort_orders matches Some(list) && tells_sort_orders(list@, m.sort_orders)
    &&& v.default_sort_order_id == Some(m.default_sort_order_id)
    &&& tells_statistics(v.statistics@, m.statistics)
    &&& tells_partition_statistics(v.partition_statistics@, m.partition_statistics)
}

/// The error about a current schema that is missing when metadata is written.
pub open spec fn no_schema_to_write() -> ErrorView {
    unexpected("current_schema_id not found in schemas"@)
}

/// The schemas of a table as a version 2 file gives them.
fn list_schemas_v2(m: &HashMap<i32, SchemaRef>) -> (r: Vec<SchemaV2>)
    ensures
        tells_schemas_v2(r@, seen(m@)),
{
    let keys: Vec<i32> = list_keys(m);
    let mut list: Vec<SchemaV2> = Vec::new();
    let mut i: usize = 0;
    proof {
        assert(m@.dom() =~= seen(m@).dom());
    }
    while i < keys.len()
        invariant
            i <= keys@.len(),
            keys_in_order(keys@, m@),
            list@.len() == i,
            forall|j: int| 0 <= j < i ==> (#[trigger] list@[j]).gives((m@[keys@[j]])@),
        decreases keys@.len() - i,
    {
        proof {
            assert(keys@.to_set().contains(keys@[i as int]));
        }
        if let Some(value) = m.get(&keys[i]) {
            list.push(value.to_v2());
        }
        i = i + 1;
    }
    proof {
        assert(keys_in_order(keys@, seen(m@)));
        assert forall|j: int| 0 <= j < keys@.len() implies (#[trigger] list@[j]).gives(seen(m@)[keys@[j]]) by {
            assert(keys@.to_set().contains(keys@[j]));
        }
    }
    list
}

/// The schemas of a table as a version 1 file gives them.
fn list_schemas_v1(m: &HashMap<i32, SchemaRef>) -> (r: Vec<SchemaV1>)
    ensures
        tells_schemas_v1(r@, seen(m@)),
{
    let keys: Vec<i32> = list_keys(m);
    let mut list: Vec<SchemaV1> = Vec::new();
    let mut i: usize = 0;
    proof {
        assert(m@.dom() =~= seen(m@).dom());
    }
    while i < keys.len()
        invariant
            i <= keys@.len(),
            keys_in_order(keys@, m@),
            list@.len() == i,
            forall|j: int| 0 <= j < i ==> (#[trigger] list@[j]).gives((m@[keys@[j]])@),
        decreases keys@.len() - i,
    {
        proof {
            assert(keys@.to_set().contains(keys@[i as int]));
        }
        if let Some(value) = m.get(&keys[i]) {
            list.push(value.to_v1());
        }
        i = i + 1;
    }
    proof {
        assert(keys_in_order(keys@, seen(m@)));
        assert forall|j: int| 0 <= j < keys@.len() implies (#[trigger] list@[j]).gives(seen(m@)[keys@[j]]) by {
            assert(keys@.to_set().contains(keys@[j]));
        }
    }
    list
}

/// The partition specs of a table.
fn list_specs(m: &HashMap<i32, PartitionSpecRef>) -> (r: Vec<PartitionSpec>)
    ensures
        tells_specs(r@, seen(m@)),
{
    let keys: Vec<i32> = list_keys(m);
    let mut list: Vec<PartitionSpec> = Vec::new();
    let mut i: usize = 0;
    proof {
        assert(m@.dom() =~= seen(m@).dom());
    }
    while i < keys.len()
        invariant
            i <= keys@.len(),
            keys_in_order(keys@, m@),
            list@.len() == i,
            forall|j: int| 0 <= j < i ==> (#[trigger] list@[j])@ == (m@[keys@[j]])@,
        decreases keys@.len() - i,
    {
        proof {
            assert(keys@.to_set().contains(keys@[i as int]));
        }
        if let Some(value) = m.get(&keys[i]) {
            list.push((**value).clone());
        }
        i = i + 1;
    }
    proof {
        assert(keys_in_order(keys@, seen(m@)));
        assert forall|j: int| 0 <= j < keys@.len() implies (#[trigger] list@[j])@ == seen(m@)[keys@[j]] by {
            assert(keys@.to_set().contains(keys@[j]));
        }
    }
    list
}

/// The sort orders of a table.
fn list_sort_orders(m: &HashMap<i64, SortOrderRef>) -> (r: Vec<SortOrder>)
    ensures
        tells_sort_orders(r@, seen(m@)),
{
    let keys: Vec<i64> = list_keys(m);
    let mut list: Vec<SortOrder> = Vec::new();
    let mut i: usize = 0;
    proof {
        assert(m@.dom() =~= seen(m@).dom());
    }
    while i < keys.len()
        invariant
            i <= keys@.len(),
            keys_in_order(keys@, m@),
            list@.len() == i,
            forall|j: int| 0 <= j < i ==> (#[trigger] list@[j])@ == (m@[keys@[j]])@,
        decreases keys@.len() - i,
    {
        proof {
            assert(keys@.to_set().contains(keys@[i as int]));
        }
        if let Some(value) = m.get(&keys[i]) {
            list.push((**value).clone());
        }
        i = i + 1;
    }
    proof {
        assert(keys_in_order(keys@, seen(m@)));
        assert forall|j: int| 0 <= j < keys@.len() implies (#[trigger] list@[j])@ == seen(m@)[keys@[j]] by {
            assert(keys@.to_set().contains(keys@[j]));
        }
    }
    list
}

/// The snapshots of a table as a version 2 file gives them.
fn list_snapshots_v2(m: &HashMap<i64, SnapshotRef>) -> (r: Vec<SnapshotV2>)
    ensures
        tells(r@, seen(m@), |d: SnapshotV2, s: SnapshotView| d.snapshot() == s),
{
    let keys: Vec<i64> = list_keys(m);
    let mut list: Vec<SnapshotV2> = Vec::new();
    let mut i: usize = 0;
    proof {
        assert(m@.dom() =~= seen(m@).dom());
    }
    while i < keys.len()
        invariant
            i <= keys@.len(),
            keys_in_order(keys@, m@),
            list@.len() == i,
            forall|j: int| 0 <= j < i ==> (#[trigger] list@[j]).snapshot() == (m@[keys@[j]])@,
        decreases keys@.len() - i,
    {
        proof {
            assert(keys@.to_set().contains(keys@[i as int]));
        }
        if let Some(value) = m.get(&keys[i]) {
            list.push(value.to_v2());
        }
        i = i + 1;
    }
    proof {
        assert(keys_in_order(keys@, seen(m@)));
        assert forall|j: int| 0 <= j < keys@.len() implies (#[trigger] list@[j]).snapshot() == seen(m@)[keys@[j]] by {
            assert(keys@.to_set().contains(keys@[j]));
        }
    }
    list
}

/// The snapshots of a table as a version 1 file gives them.
fn list_snapshots_v1(m: &HashMap<i64, SnapshotRef>) -> (r: Vec<SnapshotV1>)
    ensures
        tells(r@, seen(m@), |d: SnapshotV1, s: SnapshotView| d.gives(s)),
{
    let keys: Vec<i64> = list_keys(m);
    let mut list: Vec<SnapshotV1> = Vec::new();
    let mut i: usize = 0;
    proof {
        assert(m@.dom() =~= seen(m@).dom());
    }
    while i < keys.len()
        invariant
            i <= keys@.len(),
            keys_in_order(keys@, m@),
            list@.len() == i,
            forall|j: int| 0 <= j < i ==> (#[trigger] list@[j]).gives((m@[keys@[j]])@),
        decreases keys@.len() - i,
    {
        proof {
            assert(keys@.to_set().contains(keys@[i as int]));
        }
        if let Some(value) = m.get(&keys[i]) {
            list.push(value.to_v1());
        }
        i = i + 1;
    }
    proof {
        assert(keys_in_order(keys@, seen(m@)));
        assert forall|j: int| 0 <= j < keys@.len() implies (#[trigger] list@[j]).gives(seen(m@)[keys@[j]]) by {
            assert(keys@.to_set().contains(keys@[j]));
        }
    }
    list
}

fn write_snapshots_v2(m: &HashMap<i64, SnapshotRef>) -> (r: Option<Vec<SnapshotV2>>)
    ensures
        tells_snapshots_v2(r, seen(m@)),
{
    if m.is_empty() {
        proof {
            assert(seen(m@) =~= Map::<i64, SnapshotView>::empty());
        }
        None
    } else {
        proof {
            assert(m@.dom() =~= seen(m@).dom());
            assert(seen(m@) != Map::<i64, SnapshotView>::empty());
        }
        Some(list_snapshots_v2(m))
    }
}

fn write_snapshots_v1(m: &HashMap<i64, SnapshotRef>) -> (r: Option<Vec<SnapshotV1>>)
    ensures
        tells_snapshots_v1(r, seen(m@)),
{
    if m.is_empty() {
        proof {
            assert(seen(m@) =~= Map::<i64, SnapshotView>::empty());
        }
        None
    } else {
        proof {
            assert(m@.dom() =~= seen(m@).dom());
            assert(seen(m@) != Map::<i64, SnapshotView>::empty());
        }
        Some(list_snapshots_v1(m))
    }
}

fn write_texts(texts: StringMap<String>) -> (r: Option<StringMap<String>>)
    ensures
        texts_written(r, texts@),
{
    if texts.is_empty() {
        None
    } else {
        Some(texts)
    }
}

fn write_list<T>(list: Vec<T>) -> (r: Option<Vec<T>>)
    ensures
        list_written(r, list@),
{
    if list.len() == 0 {
        None
    } else {
        Some(list)
    }
}

impl TableMetadataV2 {
    /// The form of metadata in version 2 files.
    pub fn from(v: TableMetadata) -> (r: TableMetadataV2)
        ensures
            tells_v2(r, v@),
    {
        let default_spec_id: i32 = v.default_spec.spec_id();
        TableMetadataV2 {
            format_version: VersionNumber::<2>,
            table_uuid: v.table_uuid,
            location: v.location,
            last_sequence_number: v.last_sequence_number,
            last_updated_ms: v.last_updated_ms,
            last_column_id: v.last_column_id,
            schemas: list_schemas_v2(&v.schemas),
            current_schema_id: v.current_schema_id,
            partition_specs: list_specs(&v.partition_specs),
            default_spec_id,
            last_partition_id: v.last_partition_id,
            properties: write_texts(v.properties),
            current_snapshot_id: v.current_snapshot_id,
            snapshots: write_snapshots_v2(&v.snapshots),
            snapshot_log: write_list(v.snapshot_log),
            metadata_log: write_list(v.metadata_log),
            sort_orders: list_sort_orders(&v.sort_orders),
            default_sort_order_id: v.default_sort_order_id,
            refs: Some(v.refs),
            statistics: take_values(v.statistics),
            partition_statistics: take_values(v.partition_statistics),
        }
    }
}

impl TableMetadataV1 {
    /// The form of metadata in version 1 files.
    pub fn try_from(v: TableMetadata) -> (r: Result<TableMetadataV1, Error>)
        ensures
            match r {
                Ok(w) => v@.schemas.contains_key(v@.current_schema_id) && tells_v1(w, v@),
                Err(e) => !v@.schemas.contains_key(v@.current_schema_id) && e@ == no_schema_to_write(),
            },
    {
        let schema: SchemaV1 = match v.schemas.get(&v.current_schema_id) {
            Some(schema) => schema.to_v1(),
            None => {
                return Err(
                    Error::new(
                        ErrorKind::Unexpected,
                        "current_schema_id not found in schemas".to_owned(),
                    ),
                );
            },
        };
        let default_spec_id: i32 = v.default_spec.spec_id();
        Ok(
            TableMetadataV1 {
                format_version: VersionNumber::<1>,
                table_uuid: Some(v.table_uuid),
                location: v.location,
                last_updated_ms: v.last_updated_ms,
                last_column_id: v.last_column_id,
                schema: Some(schema),
                schemas: Some(list_schemas_v1(&v.schemas)),
                current_schema_id: Some(v.current_schema_id),
                partition_spec: Some(copy_fields(v.default_spec.fields())),
                partition_specs: Some(list_specs(&v.partition_specs)),
                default_spec_id: Some(default_spec_id),
                last_partition_id: Some(v.last_partition_id),
                properties: write_texts(v.properties),
                current_snapshot_id: v.current_snapshot_id,
                snapshots: write_snapshots_v1(&v.snapshots),
                snapshot_log: write_list(v.snapshot_log),
                metadata_log: write_list(v.metadata_log),
                sort_orders: Some(list_sort_orders(&v.sort_orders)),
                default_sort_order_id: Some(v.default_sort_order_id),
                statistics: take_values(v.statistics),
                partition_statistics: take_values(v.partition_statistics),
            },
        )
    }
}

/// A file of the version of this metadata tells it.
pub open spec fn tells_metadata(v: TableMetadataEnum, m: TableMetadataView) -> bool {
    match v {
        TableMetadataEnum::V2(w) => m.format_version == FormatVersion::V2 && tells_v2(w, m),
        TableMetadataEnum::V1(w) => m.format_version == FormatVersion::V1 && tells_v1(w, m),
    }
}

impl TableMetadataEnum {
    /// The form of metadata in files of its version.
    pub fn try_from(value: TableMetadata) -> (r: Result<TableMetadataEnum, Error>)
        ensures
            match r {
                Ok(w) => tells_metadata(w, value@),
                Err(e) => {
                    &&& value@.format_version == FormatVersion::V1
                    &&& !value@.schemas.contains_key(value@.current_schema_id)
                    &&& e@ == no_schema_to_write()
                },
            },
            value@.format_version == FormatVersion::V1 && !value@.schemas.contains_key(value@.current_schema_id)
                ==> r is Err,
    {
        match value.format_version {
            FormatVersion::V2 => Ok(TableMetadataEnum::V2(TableMetadataV2::from(value))),
            FormatVersion::V1 => Ok(TableMetadataEnum::V1(TableMetadataV1::try_from(value)?)),
        }
    }
}

impl TableMetadata {
    /// The form of the metadata in files of its version. The metadata itself stays as it is.
    pub fn serialize(&self) -> (r: Result<TableMetadataEnum, Error>)
        ensures
            match r {
                Ok(w) => tells_metadata(w, self@),
                Err(e) => {
                    &&& self@.format_version == FormatVersion::V1
                    &&& !self@.schemas.contains_key(self@.current_schema_id)
                    &&& e@ == no_schema_to_write()
                },
            },
            self@.format_version == FormatVersion::V1 && !self@.schemas.contains_key(self@.current_schema_id)
                ==> r is Err,
    {
        TableMetadataEnum::try_from(self.clone())
    }
}

} // verus!
