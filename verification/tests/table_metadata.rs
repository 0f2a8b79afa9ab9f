//! Metadata files read and written, through their JSON form.

use iceberg::datatypes::{ListType, MapType, NestedField, NestedFieldRef, PrimitiveType, StructType, Type};
use iceberg::documents::{TableMetadataEnum, TableMetadataV1, TableMetadataV2, VersionNumber};
use iceberg::format_version::FormatVersion;
use iceberg::logs::{MetadataLog, SnapshotLog};
use iceberg::metadata::TableMetadata;
use iceberg::partition::{PartitionField, PartitionSpec};
use iceberg::schema::{Schema, SchemaV1, SchemaV2};
use iceberg::snapshot::{
    Operation, Snapshot, SnapshotReference, SnapshotRetention, SnapshotV1, SnapshotV2, Summary,
};
use iceberg::sort::{NullOrder, SortDirection, SortField, SortOrder};
use iceberg::statistics::{BlobMetadata, PartitionStatisticsFile, StatisticsFile};
use iceberg::string_map::StringMap;
use iceberg::transform::Transform;
use serde_json::Value;
use std::collections::HashMap;
use std::sync::Arc;
use uuid::Uuid;

// Decoding

fn find<'a>(v: &'a Value, key: &str) -> Option<&'a Value> {
    match v.get(key) {
        None | Some(Value::Null) => None,
        Some(x) => Some(x),
    }
}

fn need<T>(v: &Value, key: &str, read: impl Fn(&Value) -> Result<T, String>) -> Result<T, String> {
    match find(v, key) {
        Some(x) => read(x),
        None => Err(format!("missing field `{}`", key)),
    }
}

fn may<T>(v: &Value, key: &str, read: impl Fn(&Value) -> Result<T, String>) -> Result<Option<T>, String> {
    match find(v, key) {
        Some(x) => Ok(Some(read(x)?)),
        None => Ok(None),
    }
}

fn list<T>(v: &Value, read: impl Fn(&Value) -> Result<T, String>) -> Result<Vec<T>, String> {
    let mut out = Vec::new();
    for x in v.as_array().ok_or("a list was expected")? {
        out.push(read(x)?);
    }
    Ok(out)
}

fn long(v: &Value) -> Result<i64, String> {
    v.as_i64().ok_or("a number was expected".to_string())
}

fn short(v: &Value) -> Result<i32, String> {
    i32::try_from(long(v)?).map_err(|e| e.to_string())
}

fn flag(v: &Value) -> Result<bool, String> {
    v.as_bool().ok_or("a flag was expected".to_string())
}

fn text(v: &Value) -> Result<String, String> {
    Ok(v.as_str().ok_or("a text was expected")?.to_string())
}

fn id(v: &Value) -> Result<Uuid, String> {
    Uuid::parse_str(&text(v)?).map_err(|e| e.to_string())
}

fn texts(v: &Value) -> Result<StringMap<String>, String> {
    let mut out = StringMap::new();
    for (k, x) in v.as_object().ok_or("an object was expected")? {
        out.insert(k.clone(), text(x)?);
    }
    Ok(out)
}

fn version<const V: u8>(v: &Value) -> Result<VersionNumber<V>, String> {
    VersionNumber::<V>::deserialize(u8::try_from(long(v)?).map_err(|e| e.to_string())?)
}

fn kind_of_value(v: &Value) -> Result<Type, String> {
    if v.is_string() {
        let name = text(v)?;
        return Ok(Type::Primitive(PrimitiveType::from_name(&name).ok_or(name)?));
    }
    match need(v, "type", text)?.as_str() {
        "struct" => Ok(Type::Struct(fields(v)?)),
        "list" => Ok(Type::List(ListType { element_field: part(v, "element", None)? })),
        "map" => Ok(
            Type::MapOf(MapType { key_field: part(v, "key", Some(true))?, value_field: part(v, "value", None)? }),
        ),
        other => Err(other.to_string()),
    }
}

fn part(v: &Value, name: &str, required: Option<bool>) -> Result<NestedFieldRef, String> {
    let required = match required {
        Some(r) => r,
        None => need(v, &format!("{}-required", name), flag)?,
    };
    Ok(
        Arc::new(
            NestedField {
                id: need(v, &format!("{}-id", name), short)?,
                name: name.to_string(),
                required,
                field_type: Arc::new(need(v, name, kind_of_value)?),
                doc: None,
            },
        ),
    )
}

fn nested_field(v: &Value) -> Result<NestedFieldRef, String> {
    Ok(
        Arc::new(
            NestedField {
                id: need(v, "id", short)?,
                name: need(v, "name", text)?,
                required: need(v, "required", flag)?,
                field_type: Arc::new(need(v, "type", kind_of_value)?),
                doc: may(v, "doc", text)?,
            },
        ),
    )
}

fn fields(v: &Value) -> Result<StructType, String> {
    Ok(StructType::new(need(v, "fields", |x| list(x, nested_field))?))
}

fn schema_v1(v: &Value) -> Result<SchemaV1, String> {
    Ok(
        SchemaV1 {
            schema_id: may(v, "schema-id", short)?,
            identifier_field_ids: may(v, "identifier-field-ids", |x| list(x, short))?,
            fields: fields(v)?,
        },
    )
}

fn schema_v2(v: &Value) -> Result<SchemaV2, String> {
    Ok(
        SchemaV2 {
            schema_id: need(v, "schema-id", short)?,
            identifier_field_ids: may(v, "identifier-field-ids", |x| list(x, short))?,
            fields: fields(v)?,
        },
    )
}

fn transform(v: &Value) -> Result<Transform, String> {
    let name = text(v)?;
    Transform::from_name(&name).ok_or(name)
}

fn partition_field(v: &Value) -> Result<PartitionField, String> {
    Ok(
        PartitionField {
            source_id: need(v, "source-id", short)?,
            field_id: need(v, "field-id", short)?,
            name: need(v, "name", text)?,
            transform: need(v, "transform", transform)?,
        },
    )
}

fn partition_spec(v: &Value) -> Result<PartitionSpec, String> {
    Ok(
        PartitionSpec {
            spec_id: need(v, "spec-id", short)?,
            fields: need(v, "fields", |x| list(x, partition_field))?,
        },
    )
}

fn sort_field(v: &Value) -> Result<SortField, String> {
    Ok(
        SortField {
            source_id: need(v, "source-id", short)?,
            transform: need(v, "transform", transform)?,
            direction: match need(v, "direction", text)?.as_str() {
                "asc" => SortDirection::Ascending,
                "desc" => SortDirection::Descending,
                other => return Err(other.to_string()),
            },
            null_order: match need(v, "null-order", text)?.as_str() {
                "nulls-first" => NullOrder::First,
                "nulls-last" => NullOrder::Last,
                other => return Err(other.to_string()),
            },
        },
    )
}

fn sort_order(v: &Value) -> Result<SortOrder, String> {
    Ok(
        SortOrder {
            order_id: need(v, "order-id", long)?,
            fields: need(v, "fields", |x| list(x, sort_field))?,
        },
    )
}

fn summary(v: &Value) -> Result<Summary, String> {
    let operation = match need(v, "operation", text)?.as_str() {
        "append" => Operation::Append,
        "replace" => Operation::Replace,
        "overwrite" => Operation::Overwrite,
        "delete" => Operation::Delete,
        other => return Err(other.to_string()),
    };
    let mut additional_properties = StringMap::new();
    for (k, x) in v.as_object().ok_or("an object was expected")? {
        if k != "operation" {
            additional_properties.insert(k.clone(), text(x)?);
        }
    }
    Ok(Summary { operation, additional_properties })
}

fn snapshot_v1(v: &Value) -> Result<SnapshotV1, String> {
    Ok(
        SnapshotV1 {
            snapshot_id: need(v, "snapshot-id", long)?,
            parent_snapshot_id: may(v, "parent-snapshot-id", long)?,
            timestamp_ms: need(v, "timestamp-ms", long)?,
            manifest_list: may(v, "manifest-list", text)?,
            manifests: may(v, "manifests", |x| list(x, text))?,
            summary: may(v, "summary", summary)?,
            schema_id: may(v, "schema-id", short)?,
        },
    )
}

fn snapshot_v2(v: &Value) -> Result<SnapshotV2, String> {
    Ok(
        SnapshotV2 {
            snapshot_id: need(v, "snapshot-id", long)?,
            parent_snapshot_id: may(v, "parent-snapshot-id", long)?,
            sequence_number: need(v, "sequence-number", long)?,
            timestamp_ms: need(v, "timestamp-ms", long)?,
            manifest_list: need(v, "manifest-list", text)?,
            summary: need(v, "summary", summary)?,
            schema_id: may(v, "schema-id", short)?,
        },
    )
}

fn snapshot_log(v: &Value) -> Result<SnapshotLog, String> {
    Ok(SnapshotLog { snapshot_id: need(v, "snapshot-id", long)?, timestamp_ms: need(v, "timestamp-ms", long)? })
}

fn metadata_log(v: &Value) -> Result<MetadataLog, String> {
    Ok(MetadataLog { metadata_file: need(v, "metadata-file", text)?, timestamp_ms: need(v, "timestamp-ms", long)? })
}

fn reference(v: &Value) -> Result<SnapshotReference, String> {
    let max_ref_age_ms = may(v, "max-ref-age-ms", long)?;
    let retention = match need(v, "type", text)?.as_str() {
        "branch" => SnapshotRetention::Branch {
            min_snapshots_to_keep: may(v, "min-snapshots-to-keep", short)?,
            max_snapshot_age_ms: may(v, "max-snapshot-age-ms", long)?,
            max_ref_age_ms,
        },
        "tag" => SnapshotRetention::Tag { max_ref_age_ms },
        other => return Err(other.to_string()),
    };
    Ok(SnapshotReference { snapshot_id: need(v, "snapshot-id", long)?, retention })
}

fn references(v: &Value) -> Result<StringMap<SnapshotReference>, String> {
    let mut out = StringMap::new();
    for (k, x) in v.as_object().ok_or("an object was expected")? {
        out.insert(k.clone(), reference(x)?);
    }
    Ok(out)
}

fn blob(v: &Value) -> Result<BlobMetadata, String> {
    Ok(
        BlobMetadata {
            blob_type: need(v, "type", text)?,
            snapshot_id: need(v, "snapshot-id", long)?,
            sequence_number: need(v, "sequence-number", long)?,
            fields: need(v, "fields", |x| list(x, short))?,
            properties: may(v, "properties", texts)?.unwrap_or(StringMap::new()),
        },
    )
}

fn statistics(v: &Value) -> Result<StatisticsFile, String> {
    Ok(
        StatisticsFile {
            snapshot_id: need(v, "snapshot-id", long)?,
            statistics_path: need(v, "statistics-path", text)?,
            file_size_in_bytes: need(v, "file-size-in-bytes", long)?,
            file_footer_size_in_bytes: need(v, "file-footer-size-in-bytes", long)?,
            key_metadata: may(v, "key-metadata", text)?,
            blob_metadata: need(v, "blob-metadata", |x| list(x, blob))?,
        },
    )
}

fn partition_statistics(v: &Value) -> Result<PartitionStatisticsFile, String> {
    Ok(
        PartitionStatisticsFile {
            snapshot_id: need(v, "snapshot-id", long)?,
            statistics_path: need(v, "statistics-path", text)?,
            file_size_in_bytes: need(v, "file-size-in-bytes", long)?,
        },
    )
}

fn metadata_v2(v: &Value) -> Result<TableMetadataV2, String> {
    Ok(
        TableMetadataV2 {
            format_version: need(v, "format-version", version::<2>)?,
            table_uuid: need(v, "table-uuid", id)?,
            location: need(v, "location", text)?,
            last_sequence_number: need(v, "last-sequence-number", long)?,
            last_updated_ms: need(v, "last-updated-ms", long)?,
            last_column_id: need(v, "last-column-id", short)?,
            schemas: need(v, "schemas", |x| list(x, schema_v2))?,
            current_schema_id: need(v, "current-schema-id", short)?,
            partition_specs: need(v, "partition-specs", |x| list(x, partition_spec))?,
            default_spec_id: need(v, "default-spec-id", short)?,
            last_partition_id: need(v, "last-partition-id", short)?,
            properties: may(v, "properties", texts)?,
            current_snapshot_id: may(v, "current-snapshot-id", long)?,
            snapshots: may(v, "snapshots", |x| list(x, snapshot_v2))?,
            snapshot_log: may(v, "snapshot-log", |x| list(x, snapshot_log))?,
            metadata_log: may(v, "metadata-log", |x| list(x, metadata_log))?,
            sort_orders: need(v, "sort-orders", |x| list(x, sort_order))?,
            default_sort_order_id: need(v, "default-sort-order-id", long)?,
            refs: may(v, "refs", references)?,
            statistics: may(v, "statistics", |x| list(x, statistics))?.unwrap_or_default(),
            partition_statistics: may(v, "partition-statistics", |x| list(x, partition_statistics))?.unwrap_or_default(),
        },
    )
}

fn metadata_v1(v: &Value) -> Result<TableMetadataV1, String> {
    Ok(
        TableMetadataV1 {
            format_version: need(v, "format-version", version::<1>)?,
            table_uuid: may(v, "table-uuid", id)?,
            location: need(v, "location", text)?,
            last_updated_ms: need(v, "last-updated-ms", long)?,
            last_column_id: need(v, "last-column-id", short)?,
            schema: may(v, "schema", schema_v1)?,
            schemas: may(v, "schemas", |x| list(x, schema_v1))?,
            current_schema_id: may(v, "current-schema-id", short)?,
            partition_spec: may(v, "partition-spec", |x| list(x, partition_field))?,
            partition_specs: may(v, "partition-specs", |x| list(x, partition_spec))?,
            default_spec_id: may(v, "default-spec-id", short)?,
            last_partition_id: may(v, "last-partition-id", short)?,
            properties: may(v, "properties", texts)?,
            current_snapshot_id: may(v, "current-snapshot-id", long)?,
            snapshots: may(v, "snapshots", |x| list(x, snapshot_v1))?,
            snapshot_log: may(v, "snapshot-log", |x| list(x, snapshot_log))?,
            metadata_log: may(v, "metadata-log", |x| list(x, metadata_log))?,
            sort_orders: may(v, "sort-orders", |x| list(x, sort_order))?,
            default_sort_order_id: may(v, "default-sort-order-id", long)?,
            statistics: may(v, "statistics", |x| list(x, statistics))?.unwrap_or_default(),
            partition_statistics: may(v, "partition-statistics", |x| list(x, partition_statistics))?.unwrap_or_default(),
        },
    )
}

fn read(v: &Value) -> Result<TableMetadata, String> {
    let form = match metadata_v2(v) {
        Ok(m) => TableMetadataEnum::V2(m),
        Err(_) => match metadata_v1(v) {
            Ok(m) => TableMetadataEnum::V1(m),
            Err(_) => {
                return Err("data did not match any variant of untagged enum TableMetadataEnum".to_string());
            },
        },
    };
    TableMetadata::try_from(form).map_err(|e| e.to_string())
}

fn from_str(json: &str) -> Result<TableMetadata, String> {
    read(&serde_json::from_str::<Value>(json).map_err(|e| e.to_string())?)
}

// Encoding

fn object(entries: Vec<(&str, Option<Value>)>) -> Value {
    let mut out = serde_json::Map::new();
    for (k, v) in entries {
        if let Some(v) = v {
            out.insert(k.to_string(), v);
        }
    }
    Value::Object(out)
}

fn all<T>(items: &Vec<T>, write: impl Fn(&T) -> Value) -> Value {
    Value::Array(items.iter().map(write).collect())
}

fn some_list<T>(items: &Option<Vec<T>>, write: impl Fn(&T) -> Value) -> Option<Value> {
    items.as_ref().map(|l| all(l, write))
}

fn full_list<T>(items: &Vec<T>, write: impl Fn(&T) -> Value) -> Option<Value> {
    if items.is_empty() {
        None
    } else {
        Some(all(items, write))
    }
}

fn write_texts(m: &StringMap<String>) -> Value {
    let mut out = serde_json::Map::new();
    for (k, v) in m.entries() {
        out.insert(k.clone(), Value::from(v.as_str()));
    }
    Value::Object(out)
}

fn write_type(t: &Type) -> Value {
    match t {
        Type::Primitive(p) => Value::from(p.name()),
        Type::Struct(s) => object(
            vec![("type", Some(Value::from("struct"))), ("fields", Some(all(s.fields(), write_field)))],
        ),
        Type::List(l) => object(
            vec![
                ("type", Some(Value::from("list"))),
                ("element-id", Some(Value::from(l.element_field.id))),
                ("element-required", Some(Value::from(l.element_field.required))),
                ("element", Some(write_type(&l.element_field.field_type))),
            ],
        ),
        Type::MapOf(m) => object(
            vec![
                ("type", Some(Value::from("map"))),
                ("key-id", Some(Value::from(m.key_field.id))),
                ("key", Some(write_type(&m.key_field.field_type))),
                ("value-id", Some(Value::from(m.value_field.id))),
                ("value-required", Some(Value::from(m.value_field.required))),
                ("value", Some(write_type(&m.value_field.field_type))),
            ],
        ),
    }
}

fn write_field(f: &NestedFieldRef) -> Value {
    object(
        vec![
            ("id", Some(Value::from(f.id))),
            ("name", Some(Value::from(f.name.as_str()))),
            ("required", Some(Value::from(f.required))),
            ("type", Some(write_type(&f.field_type))),
            ("doc", f.doc.as_ref().map(|d| Value::from(d.as_str()))),
        ],
    )
}

fn write_schema(schema_id: Option<i32>, ids: &Option<Vec<i32>>, fields: &StructType) -> Value {
    object(
        vec![
            ("type", Some(Value::from("struct"))),
            ("schema-id", schema_id.map(Value::from)),
            ("identifier-field-ids", some_list(ids, |i| Value::from(*i))),
            ("fields", Some(all(fields.fields(), write_field))),
        ],
    )
}

fn write_schema_v1(s: &SchemaV1) -> Value {
    write_schema(s.schema_id, &s.identifier_field_ids, &s.fields)
}

fn write_schema_v2(s: &SchemaV2) -> Value {
    write_schema(Some(s.schema_id), &s.identifier_field_ids, &s.fields)
}

fn write_partition_field(f: &PartitionField) -> Value {
    object(
        vec![
            ("source-id", Some(Value::from(f.source_id))),
            ("field-id", Some(Value::from(f.field_id))),
            ("name", Some(Value::from(f.name.as_str()))),
            ("transform", Some(Value::from(f.transform.name()))),
        ],
    )
}

fn write_partition_spec(s: &PartitionSpec) -> Value {
    object(
        vec![
            ("spec-id", Some(Value::from(s.spec_id()))),
            ("fields", Some(all(s.fields(), write_partition_field))),
        ],
    )
}

fn write_sort_order(s: &SortOrder) -> Value {
    object(
        vec![
            ("order-id", Some(Value::from(s.order_id))),
            (
                "fields",
                Some(
                    all(
                        &s.fields,
                        |f| {
                            object(
                                vec![
                                    ("source-id", Some(Value::from(f.source_id))),
                                    ("transform", Some(Value::from(f.transform.name()))),
                                    (
                                        "direction",
                                        Some(
                                            Value::from(
                                                match f.direction {
                                                    SortDirection::Ascending => "asc",
                                                    SortDirection::Descending => "desc",
                                                },
                                            ),
                                        ),
                                    ),
                                    (
                                        "null-order",
                                        Some(
                                            Value::from(
                                                match f.null_order {
                                                    NullOrder::First => "nulls-first",
                                                    NullOrder::Last => "nulls-last",
                                                },
                                            ),
                                        ),
                                    ),
                                ],
                            )
                        },
                    ),
                ),
            ),
        ],
    )
}

fn write_summary(s: &Summary) -> Value {
    let operation = match s.operation {
        Operation::Append => "append",
        Operation::Replace => "replace",
        Operation::Overwrite => "overwrite",
        Operation::Delete => "delete",
    };
    let mut out = serde_json::Map::new();
    out.insert("operation".to_string(), Value::from(operation));
    for (k, v) in s.additional_properties.entries() {
        out.insert(k.clone(), Value::from(v.as_str()));
    }
    Value::Object(out)
}

fn write_snapshot_v1(s: &SnapshotV1) -> Value {
    object(
        vec![
            ("snapshot-id", Some(Value::from(s.snapshot_id))),
            ("parent-snapshot-id", s.parent_snapshot_id.map(Value::from)),
            ("timestamp-ms", Some(Value::from(s.timestamp_ms))),
            ("manifest-list", s.manifest_list.as_ref().map(|m| Value::from(m.as_str()))),
            ("manifests", some_list(&s.manifests, |m| Value::from(m.as_str()))),
            ("summary", s.summary.as_ref().map(write_summary)),
            ("schema-id", s.schema_id.map(Value::from)),
        ],
    )
}

fn write_snapshot_v2(s: &SnapshotV2) -> Value {
    object(
        vec![
            ("snapshot-id", Some(Value::from(s.snapshot_id))),
            ("parent-snapshot-id", s.parent_snapshot_id.map(Value::from)),
            ("sequence-number", Some(Value::from(s.sequence_number))),
            ("timestamp-ms", Some(Value::from(s.timestamp_ms))),
            ("manifest-list", Some(Value::from(s.manifest_list.as_str()))),
            ("summary", Some(write_summary(&s.summary))),
            ("schema-id", s.schema_id.map(Value::from)),
        ],
    )
}

fn write_snapshot_log(l: &SnapshotLog) -> Value {
    object(
        vec![
            ("snapshot-id", Some(Value::from(l.snapshot_id))),
            ("timestamp-ms", Some(Value::from(l.timestamp_ms))),
        ],
    )
}

fn write_metadata_log(l: &MetadataLog) -> Value {
    object(
        vec![
            ("metadata-file", Some(Value::from(l.metadata_file.as_str()))),
            ("timestamp-ms", Some(Value::from(l.timestamp_ms))),
        ],
    )
}

fn write_references(m: &StringMap<SnapshotReference>) -> Value {
    let mut out = serde_json::Map::new();
    for (k, r) in m.entries() {
        let v = match r.retention {
            SnapshotRetention::Branch { min_snapshots_to_keep, max_snapshot_age_ms, max_ref_age_ms } => object(
                vec![
                    ("snapshot-id", Some(Value::from(r.snapshot_id))),
                    ("type", Some(Value::from("branch"))),
                    ("min-snapshots-to-keep", min_snapshots_to_keep.map(Value::from)),
                    ("max-snapshot-age-ms", max_snapshot_age_ms.map(Value::from)),
                    ("max-ref-age-ms", max_ref_age_ms.map(Value::from)),
                ],
            ),
            SnapshotRetention::Tag { max_ref_age_ms } => object(
                vec![
                    ("snapshot-id", Some(Value::from(r.snapshot_id))),
                    ("type", Some(Value::from("tag"))),
                    ("max-ref-age-ms", max_ref_age_ms.map(Value::from)),
                ],
            ),
        };
        out.insert(k.clone(), v);
    }
    Value::Object(out)
}

fn write_statistics(s: &StatisticsFile) -> Value {
    object(
        vec![
            ("snapshot-id", Some(Value::from(s.snapshot_id))),
            ("statistics-path", Some(Value::from(s.statistics_path.as_str()))),
            ("file-size-in-bytes", Some(Value::from(s.file_size_in_bytes))),
            ("file-footer-size-in-bytes", Some(Value::from(s.file_footer_size_in_bytes))),
            ("key-metadata", s.key_metadata.as_ref().map(|k| Value::from(k.as_str()))),
            (
                "blob-metadata",
                Some(
                    all(
                        &s.blob_metadata,
                        |b| {
                            object(
                                vec![
                                    ("type", Some(Value::from(b.blob_type.as_str()))),
                                    ("snapshot-id", Some(Value::from(b.snapshot_id))),
                                    ("sequence-number", Some(Value::from(b.sequence_number))),
                                    ("fields", Some(all(&b.fields, |i| Value::from(*i)))),
                                    ("properties", Some(write_texts(&b.properties))),
                                ],
                            )
                        },
                    ),
                ),
            ),
        ],
    )
}

fn write_partition_statistics(s: &PartitionStatisticsFile) -> Value {
    object(
        vec![
            ("snapshot-id", Some(Value::from(s.snapshot_id))),
            ("statistics-path", Some(Value::from(s.statistics_path.as_str()))),
            ("file-size-in-bytes", Some(Value::from(s.file_size_in_bytes))),
        ],
    )
}

fn write(m: &TableMetadata) -> Value {
    match m.serialize().unwrap() {
        TableMetadataEnum::V2(m) => object(
            vec![
                ("format-version", Some(Value::from(m.format_version.serialize()))),
                ("table-uuid", Some(Value::from(m.table_uuid.to_string()))),
                ("location", Some(Value::from(m.location.as_str()))),
                ("last-sequence-number", Some(Value::from(m.last_sequence_number))),
                ("last-updated-ms", Some(Value::from(m.last_updated_ms))),
                ("last-column-id", Some(Value::from(m.last_column_id))),
                ("schemas", Some(all(&m.schemas, write_schema_v2))),
                ("current-schema-id", Some(Value::from(m.current_schema_id))),
                ("partition-specs", Some(all(&m.partition_specs, write_partition_spec))),
                ("default-spec-id", Some(Value::from(m.default_spec_id))),
                ("last-partition-id", Some(Value::from(m.last_partition_id))),
                ("properties", m.properties.as_ref().map(write_texts)),
                ("current-snapshot-id", m.current_snapshot_id.map(Value::from)),
                ("snapshots", some_list(&m.snapshots, write_snapshot_v2)),
                ("snapshot-log", some_list(&m.snapshot_log, write_snapshot_log)),
                ("metadata-log", some_list(&m.metadata_log, write_metadata_log)),
                ("sort-orders", Some(all(&m.sort_orders, write_sort_order))),
                ("default-sort-order-id", Some(Value::from(m.default_sort_order_id))),
                ("refs", m.refs.as_ref().map(write_references)),
                ("statistics", full_list(&m.statistics, write_statistics)),
                ("partition-statistics", full_list(&m.partition_statistics, write_partition_statistics)),
            ],
        ),
        TableMetadataEnum::V1(m) => object(
            vec![
                ("format-version", Some(Value::from(m.format_version.serialize()))),
                ("table-uuid", m.table_uuid.map(|u| Value::from(u.to_string()))),
                ("location", Some(Value::from(m.location.as_str()))),
                ("last-updated-ms", Some(Value::from(m.last_updated_ms))),
                ("last-column-id", Some(Value::from(m.last_column_id))),
                ("schema", m.schema.as_ref().map(write_schema_v1)),
                ("schemas", some_list(&m.schemas, write_schema_v1)),
                ("current-schema-id", m.current_schema_id.map(Value::from)),
                ("partition-spec", some_list(&m.partition_spec, write_partition_field)),
                ("partition-specs", some_list(&m.partition_specs, write_partition_spec)),
                ("default-spec-id", m.default_spec_id.map(Value::from)),
                ("last-partition-id", m.last_partition_id.map(Value::from)),
                ("properties", m.properties.as_ref().map(write_texts)),
                ("current-snapshot-id", m.current_snapshot_id.map(Value::from)),
                ("snapshots", some_list(&m.snapshots, write_snapshot_v1)),
                ("snapshot-log", some_list(&m.snapshot_log, write_snapshot_log)),
                ("metadata-log", some_list(&m.metadata_log, write_metadata_log)),
                ("sort-orders", some_list(&m.sort_orders, write_sort_order)),
                ("default-sort-order-id", m.default_sort_order_id.map(Value::from)),
                ("statistics", full_list(&m.statistics, write_statistics)),
                ("partition-statistics", full_list(&m.partition_statistics, write_partition_statistics)),
            ],
        ),
    }
}

// Expected values

fn check_table_metadata_serde(json: &str, expected_type: TableMetadata) {
    let desered_type = from_str(json).unwrap();
    assert_eq!(desered_type, expected_type);

    let sered_json = write(&expected_type).to_string();
    let parsed_json_value = from_str(&sered_json).unwrap();

    assert_eq!(parsed_json_value, desered_type);
}

fn required(id: i32, name: &str, t: PrimitiveType) -> NestedFieldRef {
    Arc::new(NestedField::required(id, name.to_string(), Type::Primitive(t)))
}

fn optional(id: i32, name: &str, t: PrimitiveType) -> NestedFieldRef {
    Arc::new(NestedField::optional(id, name.to_string(), Type::Primitive(t)))
}

fn schema(schema_id: i32, fields: Vec<NestedFieldRef>, ids: Vec<i32>) -> Schema {
    Schema::new(schema_id, StructType::new(fields), &ids).unwrap()
}

fn bound(schema: &Schema, fields: Vec<(&str, Transform, i32, i32)>) -> PartitionSpec {
    let mut list = Vec::new();
    for (name, transform, source_id, field_id) in fields {
        list.push(PartitionField { source_id, field_id, name: name.to_string(), transform });
    }
    PartitionSpec::bind(0, list, schema).unwrap()
}

fn map_of(entries: Vec<(&str, &str)>) -> StringMap<String> {
    let mut out = StringMap::new();
    for (k, v) in entries {
        out.insert(k.to_string(), v.to_string());
    }
    out
}

fn main_branch(snapshot_id: i64) -> StringMap<SnapshotReference> {
    let mut out = StringMap::new();
    out.insert(
        "main".to_string(),
        SnapshotReference {
            snapshot_id,
            retention: SnapshotRetention::Branch {
                min_snapshots_to_keep: None,
                max_snapshot_age_ms: None,
                max_ref_age_ms: None,
            },
        },
    );
    out
}

fn uuid(text: &str) -> Uuid {
    Uuid::parse_str(text).unwrap()
}

fn three_longs() -> Vec<NestedFieldRef> {
    vec![
        required(1, "x", PrimitiveType::Long),
        Arc::new(
            NestedField::required(2, "y".to_string(), Type::Primitive(PrimitiveType::Long)).with_doc(
                "comment".to_string(),
            ),
        ),
        required(3, "z", PrimitiveType::Long),
    ]
}

fn two_keys() -> SortOrder {
    SortOrder {
        order_id: 3,
        fields: vec![
            SortField {
                source_id: 2,
                transform: Transform::Identity,
                direction: SortDirection::Ascending,
                null_order: NullOrder::First,
            },
            SortField {
                source_id: 3,
                transform: Transform::Bucket(4),
                direction: SortDirection::Descending,
                null_order: NullOrder::Last,
            },
        ],
    }
}

fn append(properties: Vec<(&str, &str)>) -> Summary {
    Summary { operation: Operation::Append, additional_properties: map_of(properties) }
}

#[test]
fn test_table_data_v2() {
    let data = r#"
            {
                "format-version" : 2,
                "table-uuid": "fb072c92-a02b-11e9-ae9c-1bb7bc9eca94",
                "location": "s3://b/wh/data.db/table",
                "last-sequence-number" : 1,
                "last-updated-ms": 1515100955770,
                "last-column-id": 1,
                "schemas": [
                    {
                        "schema-id" : 1,
                        "type" : "struct",
                        "fields" :[
                            {
                                "id": 1,
                                "name": "struct_name",
                                "required": true,
                                "type": "fixed[1]"
                            },
                            {
                                "id": 4,
                                "name": "ts",
                                "required": true,
                                "type": "timestamp"
                            }
                        ]
                    }
                ],
                "current-schema-id" : 1,
                "partition-specs": [
                    {
                        "spec-id": 0,
                        "fields": [
                            {
                                "source-id": 4,
                                "field-id": 1000,
                                "name": "ts_day",
                                "transform": "day"
                            }
                        ]
                    }
                ],
                "default-spec-id": 0,
                "last-partition-id": 1000,
                "properties": {
                    "commit.retry.num-retries": "1"
                },
                "metadata-log": [
                    {
                        "metadata-file": "s3://bucket/.../v1.json",
                        "timestamp-ms": 1515100
                    }
                ],
                "refs": {},
                "sort-orders": [
                    {
                    "order-id": 0,
                    "fields": []
                    }
                ],
                "default-sort-order-id": 0
            }
        "#;

    let schema = schema(
        1,
        vec![
            required(1, "struct_name", PrimitiveType::Fixed(1)),
            required(4, "ts", PrimitiveType::Timestamp),
        ],
        vec![],
    );
    let partition_spec = bound(&schema, vec![("ts_day", Transform::Day, 4, 1000)]);
    let default_partition_type = partition_spec.partition_type(&schema).unwrap();
    let expected = TableMetadata {
        format_version: FormatVersion::V2,
        table_uuid: uuid("fb072c92-a02b-11e9-ae9c-1bb7bc9eca94"),
        location: "s3://b/wh/data.db/table".to_string(),
        last_updated_ms: 1515100955770,
        last_column_id: 1,
        schemas: HashMap::from_iter(vec![(1, Arc::new(schema))]),
        current_schema_id: 1,
        partition_specs: HashMap::from_iter(vec![(0, partition_spec.clone().into())]),
        default_partition_type,
        default_spec: partition_spec.into(),
        last_partition_id: 1000,
        default_sort_order_id: 0,
        sort_orders: HashMap::from_iter(vec![(0, SortOrder::unsorted_order().into())]),
        snapshots: HashMap::default(),
        current_snapshot_id: None,
        last_sequence_number: 1,
        properties: map_of(vec![("commit.retry.num-retries", "1")]),
        snapshot_log: Vec::new(),
        metadata_log: vec![
            MetadataLog { metadata_file: "s3://bucket/.../v1.json".to_string(), timestamp_ms: 1515100 },
        ],
        refs: StringMap::new(),
        statistics: HashMap::new(),
        partition_statistics: HashMap::new(),
        encryption_keys: StringMap::new(),
    };

    let expected_json_value = write(&expected);
    check_table_metadata_serde(data, expected);

    let json_value = serde_json::from_str::<Value>(data).unwrap();
    assert_eq!(json_value, expected_json_value);
}

#[test]
fn test_table_data_v1() {
    let data = r#"
        {
            "format-version" : 1,
            "table-uuid" : "df838b92-0b32-465d-a44e-d39936e538b7",
            "location" : "/home/iceberg/warehouse/nyc/taxis",
            "last-updated-ms" : 1662532818843,
            "last-column-id" : 5,
            "schema" : {
              "type" : "struct",
              "schema-id" : 0,
              "fields" : [ {
                "id" : 1,
                "name" : "vendor_id",
                "required" : false,
                "type" : "long"
              }, {
                "id" : 2,
                "name" : "trip_id",
                "required" : false,
                "type" : "long"
              }, {
                "id" : 3,
                "name" : "trip_distance",
                "required" : false,
                "type" : "float"
              }, {
                "id" : 4,
                "name" : "fare_amount",
                "required" : false,
                "type" : "double"
              }, {
                "id" : 5,
                "name" : "store_and_fwd_flag",
                "required" : false,
                "type" : "string"
              } ]
            },
            "partition-spec" : [ {
              "name" : "vendor_id",
              "transform" : "identity",
              "source-id" : 1,
              "field-id" : 1000
            } ],
            "last-partition-id" : 1000,
            "default-sort-order-id" : 0,
            "sort-orders" : [ {
              "order-id" : 0,
              "fields" : [ ]
            } ],
            "properties" : {
              "owner" : "root"
            },
            "current-snapshot-id" : 638933773299822130,
            "refs" : {
              "main" : {
                "snapshot-id" : 638933773299822130,
                "type" : "branch"
              }
            },
            "snapshots" : [ {
              "snapshot-id" : 638933773299822130,
              "timestamp-ms" : 1662532818843,
              "sequence-number" : 0,
              "summary" : {
                "operation" : "append",
                "spark.app.id" : "local-1662532784305",
                "added-data-files" : "4",
                "added-records" : "4",
                "added-files-size" : "6001"
              },
              "manifest-list" : "/home/iceberg/warehouse/nyc/taxis/metadata/snap-638933773299822130-1-7e6760f0-4f6c-4b23-b907-0a5a174e3863.avro",
              "schema-id" : 0
            } ],
            "snapshot-log" : [ {
              "timestamp-ms" : 1662532818843,
              "snapshot-id" : 638933773299822130
            } ],
            "metadata-log" : [ {
              "timestamp-ms" : 1662532805245,
              "metadata-file" : "/home/iceberg/warehouse/nyc/taxis/metadata/00000-8a62c37d-4573-4021-952a-c0baef7d21d0.metadata.json"
            } ]
          }
        "#;

    let schema = schema(
        0,
        vec![
            optional(1, "vendor_id", PrimitiveType::Long),
            optional(2, "trip_id", PrimitiveType::Long),
            optional(3, "trip_distance", PrimitiveType::Float),
            optional(4, "fare_amount", PrimitiveType::Double),
            optional(5, "store_and_fwd_flag", PrimitiveType::String),
        ],
        vec![],
    );
    let partition_spec = bound(&schema, vec![("vendor_id", Transform::Identity, 1, 1000)]);
    let sort_order = SortOrder { order_id: 0, fields: vec![] };
    let snapshot = Snapshot {
        snapshot_id: 638933773299822130,
        parent_snapshot_id: None,
        timestamp_ms: 1662532818843,
        sequence_number: 0,
        schema_id: Some(0),
        manifest_list: "/home/iceberg/warehouse/nyc/taxis/metadata/snap-638933773299822130-1-7e6760f0-4f6c-4b23-b907-0a5a174e3863.avro".to_string(),
        summary: append(
            vec![
                ("spark.app.id", "local-1662532784305"),
                ("added-data-files", "4"),
                ("added-records", "4"),
                ("added-files-size", "6001"),
            ],
        ),
    };

    let default_partition_type = partition_spec.partition_type(&schema).unwrap();
    let expected = TableMetadata {
        format_version: FormatVersion::V1,
        table_uuid: uuid("df838b92-0b32-465d-a44e-d39936e538b7"),
        location: "/home/iceberg/warehouse/nyc/taxis".to_string(),
        last_updated_ms: 1662532818843,
        last_column_id: 5,
        schemas: HashMap::from_iter(vec![(0, Arc::new(schema))]),
        current_schema_id: 0,
        partition_specs: HashMap::from_iter(vec![(0, partition_spec.clone().into())]),
        default_partition_type,
        default_spec: Arc::new(partition_spec),
        last_partition_id: 1000,
        default_sort_order_id: 0,
        sort_orders: HashMap::from_iter(vec![(0, sort_order.into())]),
        snapshots: HashMap::from_iter(vec![(638933773299822130, Arc::new(snapshot))]),
        current_snapshot_id: Some(638933773299822130),
        last_sequence_number: 0,
        properties: map_of(vec![("owner", "root")]),
        snapshot_log: vec![SnapshotLog { snapshot_id: 638933773299822130, timestamp_ms: 1662532818843 }],
        metadata_log: vec![
            MetadataLog {
                metadata_file: "/home/iceberg/warehouse/nyc/taxis/metadata/00000-8a62c37d-4573-4021-952a-c0baef7d21d0.metadata.json".to_string(),
                timestamp_ms: 1662532805245,
            },
        ],
        refs: main_branch(638933773299822130),
        statistics: HashMap::new(),
        partition_statistics: HashMap::new(),
        encryption_keys: StringMap::new(),
    };

    check_table_metadata_serde(data, expected);
}

#[test]
fn test_table_data_v2_no_snapshots() {
    let data = r#"
        {
            "format-version" : 2,
            "table-uuid": "fb072c92-a02b-11e9-ae9c-1bb7bc9eca94",
            "location": "s3://b/wh/data.db/table",
            "last-sequence-number" : 1,
            "last-updated-ms": 1515100955770,
            "last-column-id": 1,
            "schemas": [
                {
                    "schema-id" : 1,
                    "type" : "struct",
                    "fields" :[
                        {
                            "id": 1,
                            "name": "struct_name",
                            "required": true,
                            "type": "fixed[1]"
                        }
                    ]
                }
            ],
            "current-schema-id" : 1,
            "partition-specs": [
                {
                    "spec-id": 0,
                    "fields": []
                }
            ],
            "refs": {},
            "default-spec-id": 0,
            "last-partition-id": 1000,
            "metadata-log": [
                {
                    "metadata-file": "s3://bucket/.../v1.json",
                    "timestamp-ms": 1515100
                }
            ],
            "sort-orders": [
                {
                "order-id": 0,
                "fields": []
                }
            ],
            "default-sort-order-id": 0
        }
        "#;

    let schema = schema(1, vec![required(1, "struct_name", PrimitiveType::Fixed(1))], vec![]);
    let partition_spec = bound(&schema, vec![]);
    let default_partition_type = partition_spec.partition_type(&schema).unwrap();
    let expected = TableMetadata {
        format_version: FormatVersion::V2,
        table_uuid: uuid("fb072c92-a02b-11e9-ae9c-1bb7bc9eca94"),
        location: "s3://b/wh/data.db/table".to_string(),
        last_updated_ms: 1515100955770,
        last_column_id: 1,
        schemas: HashMap::from_iter(vec![(1, Arc::new(schema))]),
        current_schema_id: 1,
        partition_specs: HashMap::from_iter(vec![(0, partition_spec.clone().into())]),
        default_partition_type,
        default_spec: partition_spec.into(),
        last_partition_id: 1000,
        default_sort_order_id: 0,
        sort_orders: HashMap::from_iter(vec![(0, SortOrder::unsorted_order().into())]),
        snapshots: HashMap::default(),
        current_snapshot_id: None,
        last_sequence_number: 1,
        properties: StringMap::new(),
        snapshot_log: Vec::new(),
        metadata_log: vec![
            MetadataLog { metadata_file: "s3://bucket/.../v1.json".to_string(), timestamp_ms: 1515100 },
        ],
        refs: StringMap::new(),
        statistics: HashMap::new(),
        partition_statistics: HashMap::new(),
        encryption_keys: StringMap::new(),
    };

    let expected_json_value = write(&expected);
    check_table_metadata_serde(data, expected);

    let json_value = serde_json::from_str::<Value>(data).unwrap();
    assert_eq!(json_value, expected_json_value);
}

#[test]
fn test_current_snapshot_id_must_match_main_branch() {
    let data = r#"
        {
            "format-version" : 2,
            "table-uuid": "fb072c92-a02b-11e9-ae9c-1bb7bc9eca94",
            "location": "s3://b/wh/data.db/table",
            "last-sequence-number" : 1,
            "last-updated-ms": 1515100955770,
            "last-column-id": 1,
            "schemas": [
                {
                    "schema-id" : 1,
                    "type" : "struct",
                    "fields" :[
                        {
                            "id": 1,
                            "name": "struct_name",
                            "required": true,
                            "type": "fixed[1]"
                        },
                        {
                            "id": 4,
                            "name": "ts",
                            "required": true,
                            "type": "timestamp"
                        }
                    ]
                }
            ],
            "current-schema-id" : 1,
            "partition-specs": [
                {
                    "spec-id": 0,
                    "fields": [
                        {
                            "source-id": 4,
                            "field-id": 1000,
                            "name": "ts_day",
                            "transform": "day"
                        }
                    ]
                }
            ],
            "default-spec-id": 0,
            "last-partition-id": 1000,
            "properties": {
                "commit.retry.num-retries": "1"
            },
            "metadata-log": [
                {
                    "metadata-file": "s3://bucket/.../v1.json",
                    "timestamp-ms": 1515100
                }
            ],
            "sort-orders": [
                {
                "order-id": 0,
                "fields": []
                }
            ],
            "default-sort-order-id": 0,
            "current-snapshot-id" : 1,
            "refs" : {
              "main" : {
                "snapshot-id" : 2,
                "type" : "branch"
              }
            },
            "snapshots" : [ {
              "snapshot-id" : 1,
              "timestamp-ms" : 1662532818843,
              "sequence-number" : 0,
              "summary" : {
                "operation" : "append",
                "spark.app.id" : "local-1662532784305",
                "added-data-files" : "4",
                "added-records" : "4",
                "added-files-size" : "6001"
              },
              "manifest-list" : "/home/iceberg/warehouse/nyc/taxis/metadata/snap-638933773299822130-1-7e6760f0-4f6c-4b23-b907-0a5a174e3863.avro",
              "schema-id" : 0
            },
            {
              "snapshot-id" : 2,
              "timestamp-ms" : 1662532818844,
              "sequence-number" : 0,
              "summary" : {
                "operation" : "append",
                "spark.app.id" : "local-1662532784305",
                "added-data-files" : "4",
                "added-records" : "4",
                "added-files-size" : "6001"
              },
              "manifest-list" : "/home/iceberg/warehouse/nyc/taxis/metadata/snap-638933773299822130-1-7e6760f0-4f6c-4b23-b907-0a5a174e3863.avro",
              "schema-id" : 0
            } ]
        }
    "#;

    let err = from_str(data).unwrap_err();
    assert!(err.contains("Current snapshot id does not match main branch"));
}

#[test]
fn test_main_without_current() {
    let data = r#"
        {
            "format-version" : 2,
            "table-uuid": "fb072c92-a02b-11e9-ae9c-1bb7bc9eca94",
            "location": "s3://b/wh/data.db/table",
            "last-sequence-number" : 1,
            "last-updated-ms": 1515100955770,
            "last-column-id": 1,
            "schemas": [
                {
                    "schema-id" : 1,
                    "type" : "struct",
                    "fields" :[
                        {
                            "id": 1,
                            "name": "struct_name",
                            "required": true,
                            "type": "fixed[1]"
                        },
                        {
                            "id": 4,
                            "name": "ts",
                            "required": true,
                            "type": "timestamp"
                        }
                    ]
                }
            ],
            "current-schema-id" : 1,
            "partition-specs": [
                {
                    "spec-id": 0,
                    "fields": [
                        {
                            "source-id": 4,
                            "field-id": 1000,
                            "name": "ts_day",
                            "transform": "day"
                        }
                    ]
                }
            ],
            "default-spec-id": 0,
            "last-partition-id": 1000,
            "properties": {
                "commit.retry.num-retries": "1"
            },
            "metadata-log": [
                {
                    "metadata-file": "s3://bucket/.../v1.json",
                    "timestamp-ms": 1515100
                }
            ],
            "sort-orders": [
                {
                "order-id": 0,
                "fields": []
                }
            ],
            "default-sort-order-id": 0,
            "refs" : {
              "main" : {
                "snapshot-id" : 1,
                "type" : "branch"
              }
            },
            "snapshots" : [ {
              "snapshot-id" : 1,
              "timestamp-ms" : 1662532818843,
              "sequence-number" : 0,
              "summary" : {
                "operation" : "append",
                "spark.app.id" : "local-1662532784305",
                "added-data-files" : "4",
                "added-records" : "4",
                "added-files-size" : "6001"
              },
              "manifest-list" : "/home/iceberg/warehouse/nyc/taxis/metadata/snap-638933773299822130-1-7e6760f0-4f6c-4b23-b907-0a5a174e3863.avro",
              "schema-id" : 0
            } ]
        }
    "#;

    let err = from_str(data).unwrap_err();
    assert!(err.contains("Current snapshot is not set, but main branch exists"));
}

#[test]
fn test_branch_snapshot_missing() {
    let data = r#"
        {
            "format-version" : 2,
            "table-uuid": "fb072c92-a02b-11e9-ae9c-1bb7bc9eca94",
            "location": "s3://b/wh/data.db/table",
            "last-sequence-number" : 1,
            "last-updated-ms": 1515100955770,
            "last-column-id": 1,
            "schemas": [
                {
                    "schema-id" : 1,
                    "type" : "struct",
                    "fields" :[
                        {
                            "id": 1,
                            "name": "struct_name",
                            "required": true,
                            "type": "fixed[1]"
                        },
                        {
                            "id": 4,
                            "name": "ts",
                            "required": true,
                            "type": "timestamp"
                        }
                    ]
                }
            ],
            "current-schema-id" : 1,
            "partition-specs": [
                {
                    "spec-id": 0,
                    "fields": [
                        {
                            "source-id": 4,
                            "field-id": 1000,
                            "name": "ts_day",
                            "transform": "day"
                        }
                    ]
                }
            ],
            "default-spec-id": 0,
            "last-partition-id": 1000,
            "properties": {
                "commit.retry.num-retries": "1"
            },
            "metadata-log": [
                {
                    "metadata-file": "s3://bucket/.../v1.json",
                    "timestamp-ms": 1515100
                }
            ],
            "sort-orders": [
                {
                "order-id": 0,
                "fields": []
                }
            ],
            "default-sort-order-id": 0,
            "refs" : {
              "main" : {
                "snapshot-id" : 1,
                "type" : "branch"
              },
              "foo" : {
                "snapshot-id" : 2,
                "type" : "branch"
              }
            },
            "snapshots" : [ {
              "snapshot-id" : 1,
              "timestamp-ms" : 1662532818843,
              "sequence-number" : 0,
              "summary" : {
                "operation" : "append",
                "spark.app.id" : "local-1662532784305",
                "added-data-files" : "4",
                "added-records" : "4",
                "added-files-size" : "6001"
              },
              "manifest-list" : "/home/iceberg/warehouse/nyc/taxis/metadata/snap-638933773299822130-1-7e6760f0-4f6c-4b23-b907-0a5a174e3863.avro",
              "schema-id" : 0
            } ]
        }
    "#;

    let err = from_str(data).unwrap_err();
    assert!(err.contains("Snapshot for reference foo does not exist in the existing snapshots list"));
}

#[test]
fn test_v2_wrong_max_snapshot_sequence_number() {
    let data = r#"
        {
            "format-version": 2,
            "table-uuid": "9c12d441-03fe-4693-9a96-a0705ddf69c1",
            "location": "s3://bucket/test/location",
            "last-sequence-number": 1,
            "last-updated-ms": 1602638573590,
            "last-column-id": 3,
            "current-schema-id": 0,
            "schemas": [
                {
                    "type": "struct",
                    "schema-id": 0,
                    "fields": [
                        {
                            "id": 1,
                            "name": "x",
                            "required": true,
                            "type": "long"
                        }
                    ]
                }
            ],
            "default-spec-id": 0,
            "partition-specs": [
                {
                    "spec-id": 0,
                    "fields": []
                }
            ],
            "last-partition-id": 1000,
            "default-sort-order-id": 0,
            "sort-orders": [
                {
                    "order-id": 0,
                    "fields": []
                }
            ],
            "properties": {},
            "current-snapshot-id": 3055729675574597004,
            "snapshots": [
                {
                    "snapshot-id": 3055729675574597004,
                    "timestamp-ms": 1555100955770,
                    "sequence-number": 4,
                    "summary": {
                        "operation": "append"
                    },
                    "manifest-list": "s3://a/b/2.avro",
                    "schema-id": 0
                }
            ],
            "statistics": [],
            "snapshot-log": [],
            "metadata-log": []
        }
    "#;

    let err = from_str(data).unwrap_err();
    assert!(
        err.contains(
            "Invalid snapshot with id 3055729675574597004 and sequence number 4 greater than last sequence number 1",
        )
    );

    // Change max sequence number to 4 - should work
    let data = data.replace(r#""last-sequence-number": 1,"#, r#""last-sequence-number": 4,"#);
    let metadata = from_str(data.as_str()).unwrap();
    assert_eq!(metadata.last_sequence_number, 4);

    // Change max sequence number to 5 - should work
    let data = data.replace(r#""last-sequence-number": 4,"#, r#""last-sequence-number": 5,"#);
    let metadata = from_str(data.as_str()).unwrap();
    assert_eq!(metadata.last_sequence_number, 5);
}

#[test]
fn test_statistic_files() {
    let data = r#"
        {
            "format-version": 2,
            "table-uuid": "9c12d441-03fe-4693-9a96-a0705ddf69c1",
            "location": "s3://bucket/test/location",
            "last-sequence-number": 34,
            "last-updated-ms": 1602638573590,
            "last-column-id": 3,
            "current-schema-id": 0,
            "schemas": [
                {
                    "type": "struct",
                    "schema-id": 0,
                    "fields": [
                        {
                            "id": 1,
                            "name": "x",
                            "required": true,
                            "type": "long"
                        }
                    ]
                }
            ],
            "default-spec-id": 0,
            "partition-specs": [
                {
                    "spec-id": 0,
                    "fields": []
                }
            ],
            "last-partition-id": 1000,
            "default-sort-order-id": 0,
            "sort-orders": [
                {
                    "order-id": 0,
                    "fields": []
                }
            ],
            "properties": {},
            "current-snapshot-id": 3055729675574597004,
            "snapshots": [
                {
                    "snapshot-id": 3055729675574597004,
                    "timestamp-ms": 1555100955770,
                    "sequence-number": 1,
                    "summary": {
                        "operation": "append"
                    },
                    "manifest-list": "s3://a/b/2.avro",
                    "schema-id": 0
                }
            ],
            "statistics": [
                {
                    "snapshot-id": 3055729675574597004,
                    "statistics-path": "s3://a/b/stats.puffin",
                    "file-size-in-bytes": 413,
                    "file-footer-size-in-bytes": 42,
                    "blob-metadata": [
                        {
                            "type": "ndv",
                            "snapshot-id": 3055729675574597004,
                            "sequence-number": 1,
                            "fields": [
                                1
                            ]
                        }
                    ]
                }
            ],
            "snapshot-log": [],
            "metadata-log": []
        }
    "#;

    let schema = schema(0, vec![required(1, "x", PrimitiveType::Long)], vec![]);
    let partition_spec = bound(&schema, vec![]);
    let snapshot = Snapshot {
        snapshot_id: 3055729675574597004,
        parent_snapshot_id: None,
        timestamp_ms: 1555100955770,
        sequence_number: 1,
        manifest_list: "s3://a/b/2.avro".to_string(),
        schema_id: Some(0),
        summary: append(vec![]),
    };

    let default_partition_type = partition_spec.partition_type(&schema).unwrap();
    let expected = TableMetadata {
        format_version: FormatVersion::V2,
        table_uuid: uuid("9c12d441-03fe-4693-9a96-a0705ddf69c1"),
        location: "s3://bucket/test/location".to_string(),
        last_updated_ms: 1602638573590,
        last_column_id: 3,
        schemas: HashMap::from_iter(vec![(0, Arc::new(schema))]),
        current_schema_id: 0,
        partition_specs: HashMap::from_iter(vec![(0, partition_spec.clone().into())]),
        default_partition_type,
        default_spec: Arc::new(partition_spec),
        last_partition_id: 1000,
        default_sort_order_id: 0,
        sort_orders: HashMap::from_iter(vec![(0, SortOrder::unsorted_order().into())]),
        snapshots: HashMap::from_iter(vec![(3055729675574597004, Arc::new(snapshot))]),
        current_snapshot_id: Some(3055729675574597004),
        last_sequence_number: 34,
        properties: StringMap::new(),
        snapshot_log: Vec::new(),
        metadata_log: Vec::new(),
        statistics: HashMap::from_iter(
            vec![
                (
                    3055729675574597004,
                    StatisticsFile {
                        snapshot_id: 3055729675574597004,
                        statistics_path: "s3://a/b/stats.puffin".to_string(),
                        file_size_in_bytes: 413,
                        file_footer_size_in_bytes: 42,
                        key_metadata: None,
                        blob_metadata: vec![
                            BlobMetadata {
                                snapshot_id: 3055729675574597004,
                                sequence_number: 1,
                                fields: vec![1],
                                blob_type: "ndv".to_string(),
                                properties: StringMap::new(),
                            },
                        ],
                    },
                ),
            ],
        ),
        partition_statistics: HashMap::new(),
        refs: main_branch(3055729675574597004),
        encryption_keys: StringMap::new(),
    };

    check_table_metadata_serde(data, expected);
}

#[test]
fn test_partition_statistics_file() {
    let data = r#"
        {
            "format-version": 2,
            "table-uuid": "9c12d441-03fe-4693-9a96-a0705ddf69c1",
            "location": "s3://bucket/test/location",
            "last-sequence-number": 34,
            "last-updated-ms": 1602638573590,
            "last-column-id": 3,
            "current-schema-id": 0,
            "schemas": [
                {
                    "type": "struct",
                    "schema-id": 0,
                    "fields": [
                        {
                            "id": 1,
                            "name": "x",
                            "required": true,
                            "type": "long"
                        }
                    ]
                }
            ],
            "default-spec-id": 0,
            "partition-specs": [
                {
                    "spec-id": 0,
                    "fields": []
                }
            ],
            "last-partition-id": 1000,
            "default-sort-order-id": 0,
            "sort-orders": [
                {
                    "order-id": 0,
                    "fields": []
                }
            ],
            "properties": {},
            "current-snapshot-id": 3055729675574597004,
            "snapshots": [
                {
                    "snapshot-id": 3055729675574597004,
                    "timestamp-ms": 1555100955770,
                    "sequence-number": 1,
                    "summary": {
                        "operation": "append"
                    },
                    "manifest-list": "s3://a/b/2.avro",
                    "schema-id": 0
                }
            ],
            "partition-statistics": [
                {
                    "snapshot-id": 3055729675574597004,
                    "statistics-path": "s3://a/b/partition-stats.parquet",
                    "file-size-in-bytes": 43
                }
            ],
            "snapshot-log": [],
            "metadata-log": []
        }
        "#;

    let schema = schema(0, vec![required(1, "x", PrimitiveType::Long)], vec![]);
    let partition_spec = bound(&schema, vec![]);
    let snapshot = Snapshot {
        snapshot_id: 3055729675574597004,
        parent_snapshot_id: None,
        timestamp_ms: 1555100955770,
        sequence_number: 1,
        manifest_list: "s3://a/b/2.avro".to_string(),
        schema_id: Some(0),
        summary: append(vec![]),
    };

    let default_partition_type = partition_spec.partition_type(&schema).unwrap();
    let expected = TableMetadata {
        format_version: FormatVersion::V2,
        table_uuid: uuid("9c12d441-03fe-4693-9a96-a0705ddf69c1"),
        location: "s3://bucket/test/location".to_string(),
        last_updated_ms: 1602638573590,
        last_column_id: 3,
        schemas: HashMap::from_iter(vec![(0, Arc::new(schema))]),
        current_schema_id: 0,
        partition_specs: HashMap::from_iter(vec![(0, partition_spec.clone().into())]),
        default_partition_type,
        default_spec: Arc::new(partition_spec),
        last_partition_id: 1000,
        default_sort_order_id: 0,
        sort_orders: HashMap::from_iter(vec![(0, SortOrder::unsorted_order().into())]),
        snapshots: HashMap::from_iter(vec![(3055729675574597004, Arc::new(snapshot))]),
        current_snapshot_id: Some(3055729675574597004),
        last_sequence_number: 34,
        properties: StringMap::new(),
        snapshot_log: Vec::new(),
        metadata_log: Vec::new(),
        statistics: HashMap::new(),
        partition_statistics: HashMap::from_iter(
            vec![
                (
                    3055729675574597004,
                    PartitionStatisticsFile {
                        snapshot_id: 3055729675574597004,
                        statistics_path: "s3://a/b/partition-stats.parquet".to_string(),
                        file_size_in_bytes: 43,
                    },
                ),
            ],
        ),
        refs: main_branch(3055729675574597004),
        encryption_keys: StringMap::new(),
    };

    check_table_metadata_serde(data, expected);
}

// The file is turned down by the decoder of this file, before the library reads it; of the library
// it meets only the check of the version number.
#[test]
fn test_invalid_table_uuid() {
    let data = r#"
            {
                "format-version" : 2,
                "table-uuid": "xxxx"
            }
        "#;
    assert!(from_str(data).is_err());
}

// The file is turned down by the decoder of this file, before the library reads it; of the library
// it meets only the check of the version number.
#[test]
fn test_deserialize_table_data_v2_invalid_format_version() {
    let data = r#"
            {
                "format-version" : 1
            }
        "#;
    assert!(from_str(data).is_err());
}

/// A table of version 2 with two schemas, two snapshots and a sort order of two keys.
const V2_VALID: &str = r#"
{
    "format-version": 2,
    "table-uuid": "9c12d441-03fe-4693-9a96-a0705ddf69c1",
    "location": "s3://bucket/test/location",
    "last-sequence-number": 34,
    "last-updated-ms": 1602638573590,
    "last-column-id": 3,
    "current-schema-id": 1,
    "schemas": [
        {
            "type": "struct",
            "schema-id": 0,
            "fields": [ { "id": 1, "name": "x", "required": true, "type": "long" } ]
        },
        {
            "type": "struct",
            "schema-id": 1,
            "identifier-field-ids": [ 1, 2 ],
            "fields": [
                { "id": 1, "name": "x", "required": true, "type": "long" },
                { "id": 2, "name": "y", "required": true, "type": "long", "doc": "comment" },
                { "id": 3, "name": "z", "required": true, "type": "long" }
            ]
        }
    ],
    "default-spec-id": 0,
    "partition-specs": [
        {
            "spec-id": 0,
            "fields": [ { "name": "x", "transform": "identity", "source-id": 1, "field-id": 1000 } ]
        }
    ],
    "last-partition-id": 1000,
    "default-sort-order-id": 3,
    "sort-orders": [
        {
            "order-id": 3,
            "fields": [
                { "transform": "identity", "source-id": 2, "direction": "asc", "null-order": "nulls-first" },
                { "transform": "bucket[4]", "source-id": 3, "direction": "desc", "null-order": "nulls-last" }
            ]
        }
    ],
    "properties": {},
    "current-snapshot-id": 3055729675574597004,
    "snapshots": [
        {
            "snapshot-id": 3051729675574597004,
            "timestamp-ms": 1515100955770,
            "sequence-number": 0,
            "summary": { "operation": "append" },
            "manifest-list": "s3://a/b/1.avro"
        },
        {
            "snapshot-id": 3055729675574597004,
            "parent-snapshot-id": 3051729675574597004,
            "timestamp-ms": 1555100955770,
            "sequence-number": 1,
            "summary": { "operation": "append" },
            "manifest-list": "s3://a/b/2.avro",
            "schema-id": 1
        }
    ],
    "snapshot-log": [
        { "snapshot-id": 3051729675574597004, "timestamp-ms": 1515100955770 },
        { "snapshot-id": 3055729675574597004, "timestamp-ms": 1555100955770 }
    ],
    "metadata-log": []
}
"#;

/// A table of version 1 with one schema, in the oldest form.
const V1_VALID: &str = r#"
{
    "format-version": 1,
    "table-uuid": "d20125c8-7284-442c-9aea-15fee620737c",
    "location": "s3://bucket/test/location",
    "last-updated-ms": 1602638573874,
    "last-column-id": 3,
    "schema": {
        "type": "struct",
        "fields": [
            { "id": 1, "name": "x", "required": true, "type": "long" },
            { "id": 2, "name": "y", "required": true, "type": "long", "doc": "comment" },
            { "id": 3, "name": "z", "required": true, "type": "long" }
        ]
    },
    "partition-spec": [ { "name": "x", "transform": "identity", "source-id": 1, "field-id": 1000 } ],
    "properties": {},
    "current-snapshot-id": -1,
    "snapshots": []
}
"#;

/// The JSON object with other members in place of its own. A null takes a member away.
fn changed(json: &str, members: Vec<(&str, Value)>) -> String {
    let mut v = serde_json::from_str::<Value>(json).unwrap();
    let object = v.as_object_mut().unwrap();
    for (k, x) in members {
        if x.is_null() {
            object.remove(k);
        } else {
            object.insert(k.to_string(), x);
        }
    }
    v.to_string()
}

fn json(text: &str) -> Value {
    serde_json::from_str(text).unwrap()
}

#[test]
fn test_table_metadata_v2_file_valid() {
    let schema1 = schema(0, vec![required(1, "x", PrimitiveType::Long)], vec![]);
    let schema2 = schema(1, three_longs(), vec![1, 2]);
    let partition_spec = bound(&schema2, vec![("x", Transform::Identity, 1, 1000)]);
    let snapshot1 = Snapshot {
        snapshot_id: 3051729675574597004,
        parent_snapshot_id: None,
        timestamp_ms: 1515100955770,
        sequence_number: 0,
        schema_id: None,
        manifest_list: "s3://a/b/1.avro".to_string(),
        summary: append(vec![]),
    };
    let snapshot2 = Snapshot {
        snapshot_id: 3055729675574597004,
        parent_snapshot_id: Some(3051729675574597004),
        timestamp_ms: 1555100955770,
        sequence_number: 1,
        schema_id: Some(1),
        manifest_list: "s3://a/b/2.avro".to_string(),
        summary: append(vec![]),
    };

    let default_partition_type = partition_spec.partition_type(&schema2).unwrap();
    let expected = TableMetadata {
        format_version: FormatVersion::V2,
        table_uuid: uuid("9c12d441-03fe-4693-9a96-a0705ddf69c1"),
        location: "s3://bucket/test/location".to_string(),
        last_updated_ms: 1602638573590,
        last_column_id: 3,
        schemas: HashMap::from_iter(vec![(0, Arc::new(schema1)), (1, Arc::new(schema2))]),
        current_schema_id: 1,
        partition_specs: HashMap::from_iter(vec![(0, partition_spec.clone().into())]),
        default_spec: Arc::new(partition_spec),
        default_partition_type,
        last_partition_id: 1000,
        default_sort_order_id: 3,
        sort_orders: HashMap::from_iter(vec![(3, two_keys().into())]),
        snapshots: HashMap::from_iter(
            vec![(3051729675574597004, Arc::new(snapshot1)), (3055729675574597004, Arc::new(snapshot2))],
        ),
        current_snapshot_id: Some(3055729675574597004),
        last_sequence_number: 34,
        properties: StringMap::new(),
        snapshot_log: vec![
            SnapshotLog { snapshot_id: 3051729675574597004, timestamp_ms: 1515100955770 },
            SnapshotLog { snapshot_id: 3055729675574597004, timestamp_ms: 1555100955770 },
        ],
        metadata_log: Vec::new(),
        refs: main_branch(3055729675574597004),
        statistics: HashMap::new(),
        partition_statistics: HashMap::new(),
        encryption_keys: StringMap::new(),
    };

    check_table_metadata_serde(V2_VALID, expected);
}

#[test]
fn test_table_metadata_v2_file_valid_minimal() {
    let data = changed(
        V2_VALID,
        vec![
            ("current-schema-id", Value::from(0)),
            (
                "schemas",
                json(
                    r#"[ {
                        "type": "struct",
                        "schema-id": 0,
                        "fields": [
                            { "id": 1, "name": "x", "required": true, "type": "long" },
                            { "id": 2, "name": "y", "required": true, "type": "long", "doc": "comment" },
                            { "id": 3, "name": "z", "required": true, "type": "long" }
                        ]
                    } ]"#,
                ),
            ),
            ("properties", Value::Null),
            ("current-snapshot-id", Value::Null),
            ("snapshots", Value::Null),
            ("snapshot-log", Value::Null),
            ("metadata-log", Value::Null),
        ],
    );
    let schema = schema(0, three_longs(), vec![]);
    let partition_spec = bound(&schema, vec![("x", Transform::Identity, 1, 1000)]);
    let default_partition_type = partition_spec.partition_type(&schema).unwrap();
    let expected = TableMetadata {
        format_version: FormatVersion::V2,
        table_uuid: uuid("9c12d441-03fe-4693-9a96-a0705ddf69c1"),
        location: "s3://bucket/test/location".to_string(),
        last_updated_ms: 1602638573590,
        last_column_id: 3,
        schemas: HashMap::from_iter(vec![(0, Arc::new(schema))]),
        current_schema_id: 0,
        partition_specs: HashMap::from_iter(vec![(0, partition_spec.clone().into())]),
        default_partition_type,
        default_spec: Arc::new(partition_spec),
        last_partition_id: 1000,
        default_sort_order_id: 3,
        sort_orders: HashMap::from_iter(vec![(3, two_keys().into())]),
        snapshots: HashMap::default(),
        current_snapshot_id: None,
        last_sequence_number: 34,
        properties: StringMap::new(),
        snapshot_log: vec![],
        metadata_log: Vec::new(),
        refs: StringMap::new(),
        statistics: HashMap::new(),
        partition_statistics: HashMap::new(),
        encryption_keys: StringMap::new(),
    };

    check_table_metadata_serde(&data, expected);
}

#[test]
fn test_table_metadata_v1_file_valid() {
    let schema = schema(0, three_longs(), vec![]);
    let partition_spec = bound(&schema, vec![("x", Transform::Identity, 1, 1000)]);
    let default_partition_type = partition_spec.partition_type(&schema).unwrap();
    let expected = TableMetadata {
        format_version: FormatVersion::V1,
        table_uuid: uuid("d20125c8-7284-442c-9aea-15fee620737c"),
        location: "s3://bucket/test/location".to_string(),
        last_updated_ms: 1602638573874,
        last_column_id: 3,
        schemas: HashMap::from_iter(vec![(0, Arc::new(schema))]),
        current_schema_id: 0,
        partition_specs: HashMap::from_iter(vec![(0, partition_spec.clone().into())]),
        default_spec: Arc::new(partition_spec),
        default_partition_type,
        last_partition_id: 0,
        default_sort_order_id: 0,
        // Sort order is added during deserialization for V2 compatibility
        sort_orders: HashMap::from_iter(vec![(0, SortOrder::unsorted_order().into())]),
        snapshots: HashMap::new(),
        current_snapshot_id: None,
        last_sequence_number: 0,
        properties: StringMap::new(),
        snapshot_log: vec![],
        metadata_log: Vec::new(),
        refs: StringMap::new(),
        statistics: HashMap::new(),
        partition_statistics: HashMap::new(),
        encryption_keys: StringMap::new(),
    };

    check_table_metadata_serde(V1_VALID, expected);
}

#[test]
fn test_table_metadata_v1_compat() {
    let metadata = r#"
    {
        "format-version": 1,
        "table-uuid": "3276010d-7b1d-488c-98d8-9025fc4fde6b",
        "location": "s3://bucket/warehouse/iceberg/glue.db/table_name",
        "last-updated-ms": 1727773114005,
        "last-column-id": 2,
        "schema": {
            "type": "struct",
            "schema-id": 0,
            "fields": [
                { "id": 1, "name": "id", "required": false, "type": "int" },
                { "id": 2, "name": "name", "required": false, "type": "string" }
            ]
        },
        "current-schema-id": 0,
        "schemas": [
            {
                "type": "struct",
                "schema-id": 0,
                "fields": [
                    { "id": 1, "name": "id", "required": false, "type": "int" },
                    { "id": 2, "name": "name", "required": false, "type": "string" }
                ]
            }
        ],
        "partition-spec": [],
        "default-spec-id": 0,
        "partition-specs": [ { "spec-id": 0, "fields": [] } ],
        "last-partition-id": 999,
        "default-sort-order-id": 0,
        "sort-orders": [ { "order-id": 0, "fields": [] } ],
        "properties": { "owner": "root" },
        "current-snapshot-id": -1,
        "refs": {},
        "snapshots": [],
        "snapshot-log": [],
        "metadata-log": []
    }
    "#;

    let desered_type = from_str(metadata).unwrap();

    // Verify some key fields match
    assert_eq!(desered_type.format_version(), FormatVersion::V1);
    assert_eq!(desered_type.uuid(), uuid("3276010d-7b1d-488c-98d8-9025fc4fde6b"));
    assert_eq!(desered_type.location(), "s3://bucket/warehouse/iceberg/glue.db/table_name");
    assert_eq!(desered_type.last_updated_ms(), 1727773114005);
    assert_eq!(desered_type.current_schema_id(), 0);
}

#[test]
fn test_table_metadata_v1_schemas_without_current_id() {
    let data = changed(
        V1_VALID,
        vec![
            (
                "schemas",
                json(
                    r#"[ {
                        "type": "struct",
                        "schema-id": 7,
                        "fields": [ { "id": 1, "name": "x", "required": true, "type": "long" } ]
                    } ]"#,
                ),
            ),
        ],
    );
    let desered_type = from_str(&data).unwrap();

    // Verify it used the 'schema' field
    assert_eq!(desered_type.format_version(), FormatVersion::V1);
    assert_eq!(desered_type.uuid(), uuid("d20125c8-7284-442c-9aea-15fee620737c"));

    // Get the schema and verify it has the expected fields
    let schema = desered_type.current_schema();
    assert_eq!(schema.as_struct().fields().len(), 3);
    assert_eq!(schema.as_struct().fields()[0].name, "x");
    assert_eq!(schema.as_struct().fields()[1].name, "y");
    assert_eq!(schema.as_struct().fields()[2].name, "z");
}

#[test]
fn test_table_metadata_v1_no_valid_schema() {
    let data = changed(V1_VALID, vec![("schema", Value::Null)]);
    let desered = from_str(&data);

    assert!(desered.is_err());
    let error_message = desered.unwrap_err();
    assert!(
        error_message.contains("No valid schema configuration found"),
        "Expected error about no valid schema configuration, got: {}",
        error_message
    );
}

#[test]
fn test_table_metadata_v1_partition_specs_without_default_id() {
    let data = changed(
        V1_VALID,
        vec![
            ("partition-spec", Value::Null),
            (
                "partition-specs",
                json(
                    r#"[
                        {
                            "spec-id": 1,
                            "fields": [ { "name": "x", "transform": "identity", "source-id": 1, "field-id": 1000 } ]
                        },
                        {
                            "spec-id": 2,
                            "fields": [ { "name": "y", "transform": "identity", "source-id": 2, "field-id": 1001 } ]
                        }
                    ]"#,
                ),
            ),
        ],
    );
    let desered_type = from_str(&data).unwrap();

    // Verify basic metadata
    assert_eq!(desered_type.format_version(), FormatVersion::V1);
    assert_eq!(desered_type.uuid(), uuid("d20125c8-7284-442c-9aea-15fee620737c"));

    // Verify partition specs
    assert_eq!(desered_type.default_partition_spec_id(), 2); // Should pick the largest spec ID (2)
    assert_eq!(desered_type.partition_specs.len(), 2);

    // Verify the default spec has the expected fields
    let default_spec = &desered_type.default_spec;
    assert_eq!(default_spec.spec_id(), 2);
    assert_eq!(default_spec.fields().len(), 1);
    assert_eq!(default_spec.fields()[0].name, "y");
    assert_eq!(default_spec.fields()[0].transform, Transform::Identity);
    assert_eq!(default_spec.fields()[0].source_id, 2);
}

#[test]
fn test_table_metadata_v2_schema_not_found() {
    let data = changed(V2_VALID, vec![("current-schema-id", Value::from(2))]);
    assert_eq!(
        from_str(&data).unwrap_err(),
        "DataInvalid => No schema exists with the current schema id 2."
    )
}

// The file is turned down by the decoder of this file, before the library reads it; of the library
// it meets only the check of the version number.
#[test]
fn test_table_metadata_v2_missing_sort_order() {
    let data = changed(V2_VALID, vec![("sort-orders", Value::Null)]);
    assert_eq!(
        from_str(&data).unwrap_err(),
        "data did not match any variant of untagged enum TableMetadataEnum"
    )
}

// The file is turned down by the decoder of this file, before the library reads it; of the library
// it meets only the check of the version number.
#[test]
fn test_table_metadata_v2_missing_partition_specs() {
    let data = changed(V2_VALID, vec![("partition-specs", Value::Null)]);
    assert_eq!(
        from_str(&data).unwrap_err(),
        "data did not match any variant of untagged enum TableMetadataEnum"
    )
}

// The file is turned down by the decoder of this file, before the library reads it; of the library
// it meets only the check of the version number.
#[test]
fn test_table_metadata_v2_missing_last_partition_id() {
    let data = changed(V2_VALID, vec![("last-partition-id", Value::Null)]);
    assert_eq!(
        from_str(&data).unwrap_err(),
        "data did not match any variant of untagged enum TableMetadataEnum"
    )
}

// The file is turned down by the decoder of this file, before the library reads it; of the library
// it meets only the check of the version number.
#[test]
fn test_table_metadata_v2_missing_schemas() {
    let data = changed(V2_VALID, vec![("schemas", Value::Null)]);
    assert_eq!(
        from_str(&data).unwrap_err(),
        "data did not match any variant of untagged enum TableMetadataEnum"
    )
}

// The file is turned down by the decoder of this file, before the library reads it; of the library
// it meets only the check of the version number.
#[test]
fn test_table_metadata_v2_unsupported_version() {
    let data = changed(V2_VALID, vec![("format-version", Value::from(3))]);
    assert_eq!(
        from_str(&data).unwrap_err(),
        "data did not match any variant of untagged enum TableMetadataEnum"
    )
}

#[test]
fn test_order_of_format_version() {
    assert!(FormatVersion::V1 < FormatVersion::V2);
    assert_eq!(FormatVersion::V1, FormatVersion::V1);
    assert_eq!(FormatVersion::V2, FormatVersion::V2);
}

#[test]
fn test_default_partition_spec() {
    let default_spec_id = 1234;
    let mut table_meta_data = from_str(V2_VALID).unwrap();
    let partition_spec = PartitionSpec::unpartition_spec();
    table_meta_data.default_spec = partition_spec.clone().into();
    table_meta_data.partition_specs.insert(default_spec_id, Arc::new(partition_spec));

    assert_eq!(
        (*table_meta_data.default_partition_spec().clone()).clone(),
        (*table_meta_data.partition_spec_by_id(default_spec_id).unwrap().clone()).clone()
    );
}

#[test]
fn test_default_sort_order() {
    let default_sort_order_id = 1234;
    let mut table_meta_data = from_str(V2_VALID).unwrap();
    table_meta_data.default_sort_order_id = default_sort_order_id;
    table_meta_data.sort_orders.insert(default_sort_order_id, Arc::new(SortOrder::default()));

    assert_eq!(
        table_meta_data.default_sort_order(),
        table_meta_data.sort_orders.get(&default_sort_order_id).unwrap()
    )
}

#[test]
fn nested_types_are_read_and_written() {
    let data = changed(
        V2_VALID,
        vec![
            (
                "schemas",
                json(
                    r#"[ {
                        "type": "struct",
                        "schema-id": 1,
                        "fields": [
                            { "id": 1, "name": "x", "required": true, "type": "decimal(9, 2)" },
                            { "id": 2, "name": "y", "required": false, "type": {
                                "type": "list", "element-id": 5, "element-required": true, "element": "uuid"
                            } },
                            { "id": 3, "name": "z", "required": true, "type": {
                                "type": "map", "key-id": 6, "key": "string", "value-id": 7,
                                "value-required": false, "value": {
                                    "type": "struct",
                                    "fields": [ { "id": 8, "name": "w", "required": true, "type": "timestamptz_ns" } ]
                                }
                            } }
                        ]
                    } ]"#,
                ),
            ),
        ],
    );
    let metadata = from_str(&data).unwrap();
    let columns = metadata.current_schema().columns();
    let names: Vec<&str> = columns.iter().map(|c| c.name.as_str()).collect();
    assert_eq!(names, vec!["x", "y", "y.element", "z", "z.key", "z.value", "z.value.w"]);
    assert_eq!(
        *columns[0].field.field_type,
        Type::Primitive(PrimitiveType::Decimal { precision: 9, scale: 2 })
    );
    assert_eq!(read(&write(&metadata)).unwrap(), metadata);
}

#[test]
fn a_written_table_is_read_back() {
    for data in vec![V1_VALID, V2_VALID] {
        let metadata = from_str(data).unwrap();
        assert_eq!(read(&write(&metadata)).unwrap(), metadata);
    }
}
