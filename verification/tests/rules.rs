//! The rules of table metadata, on plain values.

use chrono::{DateTime, Utc};
use iceberg::builder::TableMetadataBuilder;
use iceberg::datatypes::{ListType, NestedField, NestedFieldRef, PrimitiveType, StructType, Type};
use iceberg::documents::{TableMetadataEnum, TableMetadataV1, TableMetadataV2, VersionNumber};
use iceberg::error::{Error, ErrorKind};
use iceberg::format_version::FormatVersion;
use iceberg::logs::{MetadataLog, SnapshotLog};
use iceberg::metadata::{TableMetadata, INITIAL_SEQUENCE_NUMBER, MAIN_BRANCH, ONE_MINUTE_MS};
use iceberg::partition::{PartitionField, PartitionSpec};
use iceberg::properties::{
    PROPERTY_COMMIT_MAX_RETRY_WAIT_MS_DEFAULT, PROPERTY_COMMIT_MIN_RETRY_WAIT_MS_DEFAULT,
    PROPERTY_COMMIT_NUM_RETRIES_DEFAULT, PROPERTY_COMMIT_TOTAL_RETRY_TIME_MS_DEFAULT, RESERVED_PROPERTIES,
};
use iceberg::reading::{index_partition_statistics, index_statistics};
use iceberg::schema::{Schema, SchemaV1, SchemaV2};
use iceberg::snapshot::{Operation, Snapshot, SnapshotReference, SnapshotRetention, SnapshotV1, SnapshotV2, Summary};
use iceberg::sort::SortOrder;
use iceberg::statistics::{PartitionStatisticsFile, StatisticsFile};
use iceberg::string_map::StringMap;
use iceberg::text::{push_decimal, trim_trailing_slashes};
use iceberg::time::{timestamp_ms_to_utc, UtcTime, FIRST_MILLISECOND, LAST_MILLISECOND};
use iceberg::transform::Transform;
use std::collections::HashMap;
use std::sync::Arc;
use uuid::Uuid;

fn required(id: i32, name: &str, t: PrimitiveType) -> NestedFieldRef {
    Arc::new(NestedField::required(id, name.to_string(), Type::Primitive(t)))
}

fn optional(id: i32, name: &str, t: PrimitiveType) -> NestedFieldRef {
    Arc::new(NestedField::optional(id, name.to_string(), Type::Primitive(t)))
}

fn columns() -> StructType {
    StructType::new(vec![required(1, "x", PrimitiveType::Long), required(2, "ts", PrimitiveType::Timestamp)])
}

fn schema_v2(schema_id: i32) -> SchemaV2 {
    SchemaV2 { schema_id, identifier_field_ids: None, fields: columns() }
}

fn schema_v1(schema_id: Option<i32>) -> SchemaV1 {
    SchemaV1 { schema_id, identifier_field_ids: None, fields: columns() }
}

fn summary() -> Summary {
    Summary { operation: Operation::Delete, additional_properties: StringMap::new() }
}

fn snapshot_v2(snapshot_id: i64, sequence_number: i64) -> SnapshotV2 {
    SnapshotV2 {
        snapshot_id,
        parent_snapshot_id: None,
        sequence_number,
        timestamp_ms: 1000,
        manifest_list: "list.avro".to_string(),
        summary: summary(),
        schema_id: None,
    }
}

fn snapshot_v1(snapshot_id: i64) -> SnapshotV1 {
    SnapshotV1 {
        snapshot_id,
        parent_snapshot_id: None,
        timestamp_ms: 1000,
        manifest_list: Some("list.avro".to_string()),
        manifests: None,
        summary: None,
        schema_id: None,
    }
}

fn form_v2() -> TableMetadataV2 {
    TableMetadataV2 {
        format_version: VersionNumber::<2>,
        table_uuid: Uuid::from_u128(7),
        location: "s3://table".to_string(),
        last_sequence_number: 9,
        last_updated_ms: 1000000,
        last_column_id: 2,
        schemas: vec![schema_v2(0)],
        current_schema_id: 0,
        partition_specs: vec![],
        default_spec_id: 0,
        last_partition_id: 999,
        properties: None,
        current_snapshot_id: None,
        snapshots: None,
        snapshot_log: None,
        metadata_log: None,
        sort_orders: vec![],
        default_sort_order_id: 0,
        refs: None,
        statistics: vec![],
        partition_statistics: vec![],
    }
}

fn form_v1() -> TableMetadataV1 {
    TableMetadataV1 {
        format_version: VersionNumber::<1>,
        table_uuid: None,
        location: "s3://table".to_string(),
        last_updated_ms: 1000000,
        last_column_id: 2,
        schema: Some(schema_v1(None)),
        schemas: None,
        current_schema_id: None,
        partition_spec: None,
        partition_specs: None,
        default_spec_id: None,
        last_partition_id: None,
        properties: None,
        current_snapshot_id: None,
        snapshots: None,
        snapshot_log: None,
        metadata_log: None,
        sort_orders: None,
        default_sort_order_id: None,
        statistics: vec![],
        partition_statistics: vec![],
    }
}

fn read_v2(form: TableMetadataV2) -> TableMetadata {
    TableMetadata::try_from_v2(form).unwrap()
}

fn read_v1(form: TableMetadataV1) -> TableMetadata {
    TableMetadata::try_from_v1(form).unwrap()
}

fn error_v2(form: TableMetadataV2) -> String {
    TableMetadata::try_from_v2(form).unwrap_err().to_string()
}

fn error_v1(form: TableMetadataV1) -> String {
    TableMetadata::try_from_v1(form).unwrap_err().to_string()
}

fn field(source_id: i32, field_id: i32, name: &str, transform: Transform) -> PartitionField {
    PartitionField { source_id, field_id, name: name.to_string(), transform }
}

fn log(times: Vec<i64>) -> Option<Vec<SnapshotLog>> {
    Some(times.into_iter().map(|timestamp_ms| SnapshotLog { snapshot_id: 1, timestamp_ms }).collect())
}

fn files(times: Vec<i64>) -> Option<Vec<MetadataLog>> {
    Some(
        times.into_iter().map(
            |timestamp_ms| MetadataLog { metadata_file: "m.json".to_string(), timestamp_ms },
        ).collect(),
    )
}

fn statistics(snapshot_id: i64, path: &str) -> StatisticsFile {
    StatisticsFile {
        snapshot_id,
        statistics_path: path.to_string(),
        file_size_in_bytes: 1,
        file_footer_size_in_bytes: 1,
        key_metadata: None,
        blob_metadata: vec![],
    }
}

fn refs(entries: Vec<(&str, i64)>) -> StringMap<SnapshotReference> {
    let mut out = StringMap::new();
    for (name, snapshot_id) in entries {
        out.insert(name.to_string(), SnapshotReference::branch(snapshot_id));
    }
    out
}

// What is pointed to

#[test]
fn current_schema_must_exist() {
    let form = TableMetadataV2 { current_schema_id: -3, ..form_v2() };
    assert_eq!(error_v2(form), "DataInvalid => No schema exists with the current schema id -3.");
    let form = TableMetadataV1 { schemas: Some(vec![schema_v1(Some(1))]), current_schema_id: Some(2), ..form_v1() };
    assert_eq!(error_v1(form), "DataInvalid => No schema exists with the current schema id 2.");
    let mut m = read_v2(form_v2());
    m.current_schema_id = 5;
    assert_eq!(
        m.validate_current_schema().unwrap_err().to_string(),
        "DataInvalid => No schema exists with the current schema id 5."
    );
    assert_eq!(
        m.try_normalize().unwrap_err().to_string(),
        "DataInvalid => No schema exists with the current schema id 5."
    );
}

#[test]
fn current_snapshot_must_exist() {
    let form = TableMetadataV2 { current_snapshot_id: Some(4), ..form_v2() };
    assert_eq!(
        error_v2(form),
        "DataInvalid => Snapshot for current snapshot id 4 does not exist in the existing snapshots list"
    );
}

#[test]
fn minus_one_is_no_snapshot() {
    let m = read_v2(TableMetadataV2 { current_snapshot_id: Some(-1), ..form_v2() });
    assert_eq!(m.current_snapshot_id(), None);
    assert!(m.refs.is_empty());
    let mut m = read_v1(form_v1());
    m.current_snapshot_id = Some(-1);
    m.try_normalize().unwrap();
    assert_eq!(m.current_snapshot_id(), None);
    assert_eq!(m.current_snapshot(), None);
}

#[test]
fn the_main_branch_is_added() {
    let form = TableMetadataV2 {
        current_snapshot_id: Some(4),
        snapshots: Some(vec![snapshot_v2(4, 1), snapshot_v2(5, 2)]),
        refs: Some(refs(vec![("other", 5)])),
        ..form_v2()
    };
    let m = read_v2(form);
    assert_eq!(m.refs, refs(vec![("other", 5), (MAIN_BRANCH, 4)]));
    assert_eq!(m.snapshot_for_ref("main").unwrap().snapshot_id(), 4);
    assert_eq!(m.snapshot_for_ref("other").unwrap().snapshot_id(), 5);
    assert_eq!(m.snapshot_for_ref("none"), None);
    assert_eq!(m.current_snapshot().unwrap().sequence_number(), 1);
}

#[test]
fn a_main_branch_is_kept_as_it_is() {
    let kept = SnapshotReference {
        snapshot_id: 4,
        retention: SnapshotRetention::Branch {
            min_snapshots_to_keep: Some(2),
            max_snapshot_age_ms: Some(10),
            max_ref_age_ms: None,
        },
    };
    let mut names = StringMap::new();
    names.insert("main".to_string(), kept);
    let form = TableMetadataV2 {
        current_snapshot_id: Some(4),
        snapshots: Some(vec![snapshot_v2(4, 1)]),
        refs: Some(names),
        ..form_v2()
    };
    assert_eq!(read_v2(form).refs.get("main"), Some(&kept));
}

#[test]
fn the_main_branch_must_be_current() {
    let form = TableMetadataV2 {
        current_snapshot_id: Some(4),
        snapshots: Some(vec![snapshot_v2(4, 1), snapshot_v2(-5, 1)]),
        refs: Some(refs(vec![("main", -5)])),
        ..form_v2()
    };
    assert_eq!(error_v2(form), "DataInvalid => Current snapshot id does not match main branch (4 != -5)");
    let form = TableMetadataV2 {
        snapshots: Some(vec![snapshot_v2(4, 1)]),
        refs: Some(refs(vec![("main", 4)])),
        ..form_v2()
    };
    assert_eq!(error_v2(form), "DataInvalid => Current snapshot is not set, but main branch exists");
}

#[test]
fn every_reference_must_exist() {
    let form = TableMetadataV2 { refs: Some(refs(vec![("old", 8)])), ..form_v2() };
    assert_eq!(
        error_v2(form),
        "DataInvalid => Snapshot for reference old does not exist in the existing snapshots list"
    );
}

#[test]
fn the_default_spec_must_exist() {
    let form = TableMetadataV2 { default_spec_id: 6, ..form_v2() };
    assert_eq!(error_v2(form), "DataInvalid => Default partition spec 6 not found");
    let form = TableMetadataV1 { default_spec_id: Some(6), ..form_v1() };
    assert_eq!(error_v1(form), "DataInvalid => Default partition spec 6 not found");
    let form = TableMetadataV1 { partition_specs: Some(vec![]), ..form_v1() };
    assert_eq!(error_v1(form), "DataInvalid => Default partition spec 0 not found");
}

#[test]
fn the_default_spec_is_added() {
    let m = read_v2(form_v2());
    assert_eq!(m.partition_specs_iter().len(), 1);
    assert_eq!(**m.partition_spec_by_id(0).unwrap(), PartitionSpec::unpartition_spec());
    assert_eq!(m.default_partition_spec(), m.partition_spec_by_id(0).unwrap());
    assert_eq!(m.partition_spec_by_id(1), None);
    assert_eq!(m.default_partition_type().fields().len(), 0);
}

#[test]
fn the_default_sort_order_must_exist() {
    let form = TableMetadataV2 { default_sort_order_id: 8, ..form_v2() };
    assert_eq!(error_v2(form), "DataInvalid => No sort order exists with the default sort order id 8.");
    let m = read_v2(form_v2());
    assert_eq!(**m.default_sort_order(), SortOrder::unsorted_order());
    assert_eq!(m.sort_orders_iter().len(), 1);
    assert_eq!(m.sort_order_by_id(0), Some(m.default_sort_order()));
    assert_eq!(m.sort_order_by_id(8), None);
    assert_eq!(m.default_sort_order_id(), 0);
}

// Time

#[test]
fn logs_may_run_against_time_by_a_minute() {
    let fine = TableMetadataV2 {
        snapshot_log: log(vec![500000, 500000 - ONE_MINUTE_MS]),
        metadata_log: files(vec![500000, 500000 - ONE_MINUTE_MS]),
        ..form_v2()
    };
    assert_eq!(read_v2(fine).history().len(), 2);
    let form = TableMetadataV2 { snapshot_log: log(vec![500000, 439999]), ..form_v2() };
    assert_eq!(error_v2(form), "DataInvalid => Expected sorted snapshot log entries");
    let form = TableMetadataV2 { metadata_log: files(vec![1, 500000, 439999, 5]), ..form_v2() };
    assert_eq!(error_v2(form), "DataInvalid => Expected sorted metadata log entries");
}

#[test]
fn updates_may_run_against_time_by_a_minute() {
    let fine = TableMetadataV2 {
        snapshot_log: log(vec![1060000]),
        metadata_log: files(vec![1060000]),
        ..form_v2()
    };
    assert_eq!(read_v2(fine).metadata_log()[0].timestamp_ms, 1060000);
    let form = TableMetadataV2 { snapshot_log: log(vec![1060001]), ..form_v2() };
    assert_eq!(
        error_v2(form),
        "DataInvalid => Invalid update timestamp 1000000: before last snapshot log entry at 1060001"
    );
    let form = TableMetadataV2 { metadata_log: files(vec![1060001]), ..form_v2() };
    assert_eq!(
        error_v2(form),
        "DataInvalid => Invalid update timestamp 1000000: before last metadata log entry at 1060001"
    );
}

#[test]
fn the_first_broken_rule_is_reported() {
    let form = TableMetadataV2 {
        snapshot_log: log(vec![500000, 1]),
        metadata_log: files(vec![500000, 1]),
        last_sequence_number: 0,
        snapshots: Some(vec![snapshot_v2(4, 1)]),
        default_sort_order_id: 8,
        ..form_v2()
    };
    assert_eq!(error_v2(form), "DataInvalid => Expected sorted snapshot log entries");
}

#[test]
fn milliseconds_are_split_into_seconds_and_nanoseconds() {
    for ms in vec![0, 1, -1, 999, -1000, -1001, 1662532818843, FIRST_MILLISECOND, LAST_MILLISECOND] {
        let date = DateTime::<Utc>::from_timestamp_millis(ms).unwrap();
        assert_eq!(
            timestamp_ms_to_utc(ms).unwrap(),
            UtcTime { seconds: date.timestamp(), nanoseconds: date.timestamp_subsec_nanos() }
        );
    }
    assert_eq!(timestamp_ms_to_utc(-1).unwrap(), UtcTime { seconds: -1, nanoseconds: 999000000 });
    assert_eq!(
        timestamp_ms_to_utc(1662532818843).unwrap(),
        UtcTime { seconds: 1662532818, nanoseconds: 843000000 }
    );
    let m = read_v2(form_v2());
    assert_eq!(m.last_updated_timestamp().unwrap(), UtcTime { seconds: 1000, nanoseconds: 0 });
    assert_eq!(m.last_updated_ms(), 1000000);
    let entry = SnapshotLog { snapshot_id: 1, timestamp_ms: 2500 };
    assert_eq!(entry.timestamp_ms(), 2500);
    assert_eq!(entry.timestamp().unwrap(), UtcTime { seconds: 2, nanoseconds: 500000000 });
}

#[test]
fn far_milliseconds_have_no_date() {
    for ms in vec![FIRST_MILLISECOND - 1, LAST_MILLISECOND + 1, i64::MIN, i64::MAX] {
        assert_eq!(DateTime::<Utc>::from_timestamp_millis(ms), None);
        assert_eq!(timestamp_ms_to_utc(ms).unwrap_err().to_string(), "DataInvalid => Invalid timestamp");
    }
    let entry = SnapshotLog { snapshot_id: 1, timestamp_ms: i64::MAX };
    assert_eq!(entry.timestamp().unwrap_err().kind(), ErrorKind::DataInvalid);
}

// Sequence numbers

#[test]
fn version_one_has_no_sequence_numbers() {
    let mut m = read_v1(form_v1());
    assert_eq!(m.next_sequence_number(), INITIAL_SEQUENCE_NUMBER);
    m.last_sequence_number = 3;
    assert_eq!(m.next_sequence_number(), 0);
    assert_eq!(
        m.validate_snapshot_sequence_number().unwrap_err().to_string(),
        "DataInvalid => Last sequence number must be 0 in v1. Found 3"
    );
}

#[test]
fn no_snapshot_is_ahead_of_the_last_sequence_number() {
    let form = TableMetadataV2 { snapshots: Some(vec![snapshot_v2(4, 9)]), ..form_v2() };
    let m = read_v2(form);
    assert_eq!(m.next_sequence_number(), 10);
    assert_eq!(m.last_sequence_number(), 9);
    let form = TableMetadataV2 { snapshots: Some(vec![snapshot_v2(4, 10)]), ..form_v2() };
    assert_eq!(
        error_v2(form),
        "DataInvalid => Invalid snapshot with id 4 and sequence number 10 greater than last sequence number 9"
    );
}

// Locations

#[test]
fn slashes_at_the_end_of_a_location_go() {
    let m = read_v2(TableMetadataV2 { location: "s3://b//t/x///".to_string(), ..form_v2() });
    assert_eq!(m.location(), "s3://b//t/x");
    assert_eq!(trim_trailing_slashes(&"///".to_string()), "");
    assert_eq!(trim_trailing_slashes(&"/é/".to_string()), "/é");
    assert_eq!(trim_trailing_slashes(&"".to_string()), "");
    assert_eq!(trim_trailing_slashes(&"a/b".to_string()), "a/b");
}

// Reading

#[test]
fn a_table_without_an_id_gets_the_nil_id() {
    assert_eq!(read_v1(form_v1()).uuid(), Uuid::nil());
    assert_eq!(read_v1(form_v1()).uuid(), Uuid::default());
    assert_eq!(read_v1(form_v1()).uuid(), Uuid::from_u128(0));
    assert_ne!(read_v1(form_v1()).uuid(), Uuid::from_u128(1));
    let form = TableMetadataV1 { table_uuid: Some(Uuid::from_u128(5)), ..form_v1() };
    assert_eq!(read_v1(form).uuid(), Uuid::from_u128(5));
}

#[test]
fn schemas_count_before_the_schema() {
    let form = TableMetadataV1 {
        schema: Some(schema_v1(Some(3))),
        schemas: Some(vec![schema_v1(Some(1)), schema_v1(Some(2))]),
        current_schema_id: Some(2),
        ..form_v1()
    };
    let m = read_v1(form);
    assert_eq!(m.schemas_iter().len(), 2);
    assert_eq!(m.current_schema_id(), 2);
    assert_eq!(m.current_schema().schema_id(), 2);
    assert_eq!(m.schema_by_id(3), None);
    let form = TableMetadataV1 { schema: Some(schema_v1(Some(3))), current_schema_id: Some(2), ..form_v1() };
    assert_eq!(read_v1(form).current_schema_id(), 3);
    let form = TableMetadataV1 { schema: None, current_schema_id: Some(2), ..form_v1() };
    assert_eq!(error_v1(form), "DataInvalid => No valid schema configuration found in table metadata");
}

#[test]
fn partition_specs_count_before_the_partition_spec() {
    let form = TableMetadataV1 {
        partition_spec: Some(vec![field(1, 1000, "x", Transform::Identity)]),
        partition_specs: Some(vec![PartitionSpec { spec_id: 4, fields: vec![] }]),
        ..form_v1()
    };
    let m = read_v1(form);
    assert_eq!(m.default_partition_spec_id(), 4);
    assert_eq!(m.last_partition_id(), 4);
    assert_eq!(m.partition_specs_iter().len(), 1);
    let form = TableMetadataV1 { partition_spec: Some(vec![field(1, 1000, "x", Transform::Identity)]), ..form_v1() };
    let m = read_v1(form);
    assert_eq!(m.default_partition_spec_id(), 0);
    assert_eq!(m.last_partition_id(), 0);
    assert_eq!(m.default_partition_spec().fields()[0].name, "x");
    let form = TableMetadataV1 { last_partition_id: Some(1000), ..form_v1() };
    assert_eq!(read_v1(form).last_partition_id(), 1000);
}

#[test]
fn the_last_of_several_specs_with_one_id_counts() {
    let form = TableMetadataV2 {
        partition_specs: vec![
            PartitionSpec { spec_id: 0, fields: vec![] },
            PartitionSpec { spec_id: 0, fields: vec![field(1, 1000, "x", Transform::Identity)] },
        ],
        ..form_v2()
    };
    let m = read_v2(form);
    assert_eq!(m.default_partition_spec().fields().len(), 1);
    assert_eq!(m.default_partition_type().fields()[0].id, 1000);
}

#[test]
fn the_first_of_several_statistics_counts() {
    let index = index_statistics(vec![statistics(1, "a"), statistics(2, "b"), statistics(1, "c")]);
    assert_eq!(index.len(), 2);
    assert_eq!(index[&1].statistics_path, "a");
    let file = |snapshot_id: i64, path: &str| PartitionStatisticsFile {
        snapshot_id,
        statistics_path: path.to_string(),
        file_size_in_bytes: 1,
    };
    let index = index_partition_statistics(vec![file(1, "a"), file(2, "b"), file(1, "c")]);
    assert_eq!(index.len(), 2);
    assert_eq!(index[&1].statistics_path, "a");
    let form = TableMetadataV2 {
        statistics: vec![statistics(1, "a"), statistics(1, "c")],
        partition_statistics: vec![file(2, "b"), file(2, "d")],
        ..form_v2()
    };
    let m = read_v2(form);
    assert_eq!(m.statistics_for_snapshot(1).unwrap().statistics_path, "a");
    assert_eq!(m.statistics_for_snapshot(2), None);
    assert_eq!(m.statistics_iter().len(), 1);
    assert_eq!(m.partition_statistics_for_snapshot(2).unwrap().statistics_path, "b");
    assert_eq!(m.partition_statistics_for_snapshot(1), None);
    assert_eq!(m.partition_statistics_iter().len(), 1);
}

#[test]
fn snapshots_of_version_one_need_a_manifest_list() {
    let form = TableMetadataV1 {
        snapshots: Some(vec![snapshot_v1(1), SnapshotV1 { manifest_list: None, ..snapshot_v1(2) }]),
        ..form_v1()
    };
    assert_eq!(error_v1(form), "DataInvalid => Unsupported v1 snapshot, only manifest list is supported");
    let form = TableMetadataV1 {
        snapshots: Some(vec![SnapshotV1 { manifests: Some(vec![]), ..snapshot_v1(2) }]),
        ..form_v1()
    };
    assert_eq!(
        error_v1(form),
        "DataInvalid => Invalid v1 snapshot, when manifest list provided, manifest files should be omitted"
    );
    let form = TableMetadataV1 {
        current_snapshot_id: Some(2),
        snapshots: Some(vec![snapshot_v1(2)]),
        ..form_v1()
    };
    let m = read_v1(form);
    assert_eq!(m.current_snapshot().unwrap().summary.operation, Operation::Append);
    assert_eq!(m.current_snapshot().unwrap().sequence_number(), 0);
    assert_eq!(m.snapshots().len(), 1);
    assert_eq!(m.refs, refs(vec![("main", 2)]));
}

// Writing

fn busy_v2() -> TableMetadata {
    let mut properties = StringMap::new();
    properties.insert("owner".to_string(), "root".to_string());
    read_v2(
        TableMetadataV2 {
            schemas: vec![
                SchemaV2 { schema_id: 1, identifier_field_ids: Some(vec![2, 1]), fields: columns() },
                schema_v2(0),
            ],
            partition_specs: vec![
                PartitionSpec { spec_id: 3, fields: vec![field(2, 1000, "day", Transform::Day)] },
                PartitionSpec { spec_id: 0, fields: vec![] },
            ],
            default_spec_id: 3,
            properties: Some(properties),
            current_snapshot_id: Some(4),
            snapshots: Some(vec![snapshot_v2(4, 1), snapshot_v2(5, 2)]),
            snapshot_log: log(vec![5, 6]),
            metadata_log: files(vec![5]),
            refs: Some(refs(vec![("main", 4), ("other", 5)])),
            statistics: vec![statistics(4, "a"), statistics(5, "b")],
            ..form_v2()
        },
    )
}

#[test]
fn metadata_of_version_two_is_read_back() {
    let m = busy_v2();
    let form = m.serialize().unwrap();
    assert!(matches!(form, TableMetadataEnum::V2(_)));
    assert_eq!(TableMetadata::try_from(form).unwrap(), m);
}

#[test]
fn metadata_of_version_one_is_read_back() {
    let m = read_v1(
        TableMetadataV1 {
            schemas: Some(vec![schema_v1(Some(1)), schema_v1(Some(2))]),
            current_schema_id: Some(2),
            partition_spec: Some(vec![field(1, 1000, "x", Transform::Identity)]),
            current_snapshot_id: Some(2),
            snapshots: Some(vec![snapshot_v1(2), snapshot_v1(1)]),
            snapshot_log: log(vec![5, 6]),
            ..form_v1()
        },
    );
    let form = m.serialize().unwrap();
    assert!(matches!(form, TableMetadataEnum::V1(_)));
    assert_eq!(TableMetadata::try_from(form).unwrap(), m);
}

#[test]
fn encryption_keys_are_not_written() {
    let mut m = busy_v2();
    let bare = m.clone();
    assert_eq!(m.encryption_key("k"), None);
    m.encryption_keys.insert("k".to_string(), "secret".to_string());
    assert_eq!(m.encryption_key("k"), Some(&"secret".to_string()));
    assert_eq!(m.encryption_keys_iter(), &vec![("k".to_string(), "secret".to_string())]);
    assert_ne!(m, bare);
    assert_eq!(TableMetadata::try_from(m.serialize().unwrap()).unwrap(), bare);
}

#[test]
fn empty_things_are_left_out() {
    match read_v2(form_v2()).serialize().unwrap() {
        TableMetadataEnum::V2(form) => {
            assert!(form.properties.is_none());
            assert!(form.snapshots.is_none());
            assert!(form.snapshot_log.is_none());
            assert!(form.metadata_log.is_none());
            assert!(form.refs.unwrap().is_empty());
            assert_eq!(form.default_spec_id, 0);
            assert_eq!(form.schemas[0].identifier_field_ids, None);
        },
        TableMetadataEnum::V1(_) => panic!("a version 2 form was expected"),
    }
}

#[test]
fn version_one_needs_its_schema_to_be_written() {
    let mut m = read_v1(form_v1());
    m.current_schema_id = 9;
    let error = m.serialize().unwrap_err();
    assert_eq!(error.kind(), ErrorKind::Unexpected);
    assert_eq!(error.to_string(), "Unexpected => current_schema_id not found in schemas");
}

#[test]
fn version_one_also_writes_the_oldest_form() {
    let form = TableMetadataV1 { partition_spec: Some(vec![field(1, 1000, "x", Transform::Identity)]), ..form_v1() };
    let form = TableMetadataV1::try_from(read_v1(form)).unwrap();
    assert_eq!(form.schema, Some(schema_v1(Some(0))));
    assert_eq!(form.partition_spec, Some(vec![field(1, 1000, "x", Transform::Identity)]));
    assert_eq!(form.table_uuid, Some(Uuid::nil()));
    assert_eq!(form.default_sort_order_id, Some(0));
}

#[test]
fn normalizing_twice_changes_nothing() {
    let mut m = busy_v2();
    m.location = "s3://table//".to_string();
    m.refs = StringMap::new();
    m.sort_orders = HashMap::new();
    let once = m.try_normalize().unwrap().clone();
    assert_eq!(once.location(), "s3://table");
    assert_eq!(once.refs, refs(vec![("main", 4)]));
    assert_eq!(once.sort_orders.len(), 1);
    let mut twice = once.clone();
    twice.try_normalize().unwrap();
    assert_eq!(twice, once);
}

// Schemas

fn schema_error(fields: Vec<NestedFieldRef>, ids: Vec<i32>) -> String {
    Schema::new(0, StructType::new(fields), &ids).unwrap_err().to_string()
}

#[test]
fn identifier_fields_must_tell_rows_apart() {
    let inner = StructType::new(vec![required(4, "in", PrimitiveType::Int)]);
    let fields = || vec![
        optional(1, "o", PrimitiveType::Int),
        required(2, "f", PrimitiveType::Double),
        Arc::new(NestedField::optional(3, "s".to_string(), Type::Struct(inner.clone()))),
        Arc::new(
            NestedField::required(
                5,
                "l".to_string(),
                Type::List(ListType { element_field: required(6, "element", PrimitiveType::Int) }),
            ),
        ),
    ];
    assert_eq!(
        schema_error(fields(), vec![9]),
        "DataInvalid => Cannot add identifier field 9: field does not exist"
    );
    assert_eq!(
        schema_error(fields(), vec![1]),
        "DataInvalid => Cannot add identifier field: o is an optional field"
    );
    assert_eq!(
        schema_error(fields(), vec![2]),
        "DataInvalid => Cannot add identifier field f: cannot be a float or double type"
    );
    assert_eq!(
        schema_error(fields(), vec![4]),
        "DataInvalid => Cannot add field in as an identifier field: must be nested in required structs only"
    );
    assert_eq!(
        schema_error(fields(), vec![5]),
        "DataInvalid => Cannot add field l as an identifier field: not a primitive type field"
    );
}

#[test]
fn names_of_fields_must_differ() {
    let twice = vec![required(1, "a", PrimitiveType::Int), required(2, "a", PrimitiveType::Int)];
    assert_eq!(schema_error(twice, vec![]), "DataInvalid => Invalid schema: multiple fields for name a");
}

#[test]
fn schemas_are_read_back() {
    let schema = Schema::new(7, columns(), &vec![1, 2, 1]).unwrap();
    assert_eq!(schema.identifier_field_ids.len(), 2);
    assert_eq!(Schema::try_from_v1(schema.to_v1()).unwrap(), schema);
    assert_eq!(Schema::try_from_v2(schema.to_v2()).unwrap(), schema);
    assert_eq!(Schema::try_from_v1(schema_v1(None)).unwrap().schema_id(), 0);
}

// Partition specs

fn bind_error(fields: Vec<PartitionField>) -> String {
    let schema = Schema::new(
        0,
        StructType::new(
            vec![
                required(1, "x", PrimitiveType::Long),
                required(2, "ts", PrimitiveType::Timestamp),
                Arc::new(NestedField::required(3, "s".to_string(), Type::Struct(StructType::new(vec![])))),
            ],
        ),
        &vec![],
    ).unwrap();
    PartitionSpec::bind(0, fields, &schema).unwrap_err().to_string()
}

#[test]
fn partition_fields_must_fit() {
    assert_eq!(
        bind_error(vec![field(1, 1000, "", Transform::Identity)]),
        "DataInvalid => Cannot use empty partition name"
    );
    assert_eq!(
        bind_error(vec![field(2, 1000, "a", Transform::Day), field(1, 1001, "a", Transform::Bucket(4))]),
        "DataInvalid => Cannot use partition name more than once: a"
    );
    assert_eq!(
        bind_error(vec![field(2, 1000, "a", Transform::Day), field(2, 1001, "b", Transform::Hour)]),
        "DataInvalid => Cannot add redundant partition with source id 2: its transform repeats another"
    );
    assert_eq!(
        bind_error(vec![field(1, 1000, "x", Transform::Bucket(4))]),
        "DataInvalid => Cannot create partition with name: 'x' that conflicts with schema field and is not an identity transform."
    );
    assert_eq!(
        bind_error(vec![field(2, 1000, "x", Transform::Identity)]),
        "DataInvalid => Cannot create identity partition sourced from different field in schema. Field name 'x' has id 1 in schema but partition source id is 2"
    );
    assert_eq!(
        bind_error(vec![field(9, 1000, "a", Transform::Identity)]),
        "DataInvalid => Cannot find partition source field with id 9 in schema"
    );
    assert_eq!(
        bind_error(vec![field(3, 1000, "a", Transform::Identity)]),
        "DataInvalid => Cannot partition by non-primitive source field: 's'."
    );
    assert_eq!(
        bind_error(vec![field(1, 1000, "a", Transform::Day)]),
        "DataInvalid => Invalid source type for the transform of partition field: 'a'."
    );
    assert_eq!(
        bind_error(vec![field(1, 1000, "a", Transform::Bucket(4)), field(2, 1000, "b", Transform::Day)]),
        "DataInvalid => Cannot use field id more than once in one PartitionSpec: 1000"
    );
}

#[test]
fn the_partition_type_follows_the_transforms() {
    let schema = Schema::new(0, columns(), &vec![]).unwrap();
    let spec = PartitionSpec {
        spec_id: 1,
        fields: vec![
            field(2, 1000, "day", Transform::Day),
            field(2, 1001, "hour", Transform::Hour),
            field(1, 1002, "bucket", Transform::Bucket(8)),
            field(1, 1003, "cut", Transform::Truncate(8)),
            field(1, 1004, "void", Transform::Void),
            field(1, 1005, "unknown", Transform::Unknown),
        ],
    };
    assert_eq!(
        spec.partition_type(&schema).unwrap(),
        StructType::new(
            vec![
                optional(1000, "day", PrimitiveType::Date),
                optional(1001, "hour", PrimitiveType::Int),
                optional(1002, "bucket", PrimitiveType::Int),
                optional(1003, "cut", PrimitiveType::Long),
                optional(1004, "void", PrimitiveType::Long),
                optional(1005, "unknown", PrimitiveType::String),
            ],
        )
    );
}

#[test]
fn the_partition_type_needs_its_columns() {
    let schema = Schema::new(0, columns(), &vec![]).unwrap();
    let spec = PartitionSpec { spec_id: 1, fields: vec![field(9, 1000, "a", Transform::Identity)] };
    assert_eq!(
        spec.partition_type(&schema).unwrap_err().to_string(),
        "Unexpected => No column with source column id 9 in schema"
    );
    let spec = PartitionSpec { spec_id: 1, fields: vec![field(1, 1000, "a", Transform::Year)] };
    assert_eq!(
        spec.partition_type(&schema).unwrap_err().to_string(),
        "DataInvalid => Invalid source type for the transform of partition field: 'a'."
    );
}

// Names

#[test]
fn types_are_named() {
    for (t, name) in vec![
        (PrimitiveType::Boolean, "boolean"),
        (PrimitiveType::Int, "int"),
        (PrimitiveType::Long, "long"),
        (PrimitiveType::Float, "float"),
        (PrimitiveType::Double, "double"),
        (PrimitiveType::Decimal { precision: 38, scale: 0 }, "decimal(38,0)"),
        (PrimitiveType::Date, "date"),
        (PrimitiveType::Time, "time"),
        (PrimitiveType::Timestamp, "timestamp"),
        (PrimitiveType::Timestamptz, "timestamptz"),
        (PrimitiveType::TimestampNs, "timestamp_ns"),
        (PrimitiveType::TimestamptzNs, "timestamptz_ns"),
        (PrimitiveType::String, "string"),
        (PrimitiveType::Uuid, "uuid"),
        (PrimitiveType::Fixed(u64::MAX), "fixed[18446744073709551615]"),
        (PrimitiveType::Binary, "binary"),
    ] {
        assert_eq!(t.name(), name);
        assert_eq!(PrimitiveType::from_name(name), Some(t));
    }
    assert_eq!(
        PrimitiveType::from_name("decimal(9, 2)"),
        Some(PrimitiveType::Decimal { precision: 9, scale: 2 })
    );
    for name in vec![
        "", "Int", "fixed", "fixed[]", "fixed[-1]", "fixed[18446744073709551616]", "fixed[1", "decimal(9)",
        "decimal(9,)", "decimal(4294967296,0)", "decimal(9,2,1)",
    ] {
        assert_eq!(PrimitiveType::from_name(name), None);
    }
}

#[test]
fn transforms_are_named() {
    for (t, name) in vec![
        (Transform::Identity, "identity"),
        (Transform::Bucket(16), "bucket[16]"),
        (Transform::Truncate(u32::MAX), "truncate[4294967295]"),
        (Transform::Year, "year"),
        (Transform::Month, "month"),
        (Transform::Day, "day"),
        (Transform::Hour, "hour"),
        (Transform::Void, "void"),
        (Transform::Unknown, "unknown"),
    ] {
        assert_eq!(t.name(), name);
        assert_eq!(Transform::from_name(name), Some(t));
    }
    for name in vec!["", "bucket", "bucket[]", "bucket[x]", "truncate[4294967296]", "days"] {
        assert_eq!(Transform::from_name(name), None);
    }
}

#[test]
fn versions_have_numbers_and_names() {
    assert_eq!(FormatVersion::V1.number(), 1);
    assert_eq!(FormatVersion::V2.number(), 2);
    assert_eq!(FormatVersion::from_number(1), Some(FormatVersion::V1));
    assert_eq!(FormatVersion::from_number(2), Some(FormatVersion::V2));
    assert_eq!(FormatVersion::from_number(3), None);
    assert_eq!(FormatVersion::V1.to_string(), "v1");
    assert_eq!(FormatVersion::V2.to_string(), "v2");
    assert_eq!(VersionNumber::<2>::deserialize(2).unwrap().serialize(), 2);
    assert_eq!(VersionNumber::<2>::deserialize(1).unwrap_err(), "Invalid Version");
    assert_eq!(FormatVersion::V1.cmp(&FormatVersion::V2), FormatVersion::V1.partial_cmp(&FormatVersion::V2).unwrap());
    assert_eq!(FormatVersion::V2.max(FormatVersion::V1), FormatVersion::V2);
}

#[test]
fn numbers_are_written_in_full() {
    for n in vec![0, 7, 10, -10, 1234567890, i64::MAX, i64::MIN] {
        let mut text = "n=".to_string();
        push_decimal(&mut text, n);
        assert_eq!(text, format!("n={}", n));
    }
}

// Maps

#[test]
fn maps_are_equal_whatever_the_order() {
    let a = refs(vec![("x", 1), ("y", 2)]);
    let b = refs(vec![("y", 2), ("x", 1)]);
    assert_eq!(a, b);
    assert_ne!(a, refs(vec![("x", 1)]));
    assert_ne!(a, refs(vec![("x", 1), ("y", 3)]));
    assert_ne!(a, refs(vec![("x", 1), ("z", 2)]));
    assert_eq!(refs(vec![("x", 1), ("x", 2)]), refs(vec![("x", 2)]));
    assert_eq!(a.len(), 2);
    assert!(a.contains_key("y"));
    assert!(!a.contains_key("z"));
}

// Builders and properties

#[test]
fn a_change_is_logged_where_the_file_is_known() {
    let m = busy_v2();
    let builder: TableMetadataBuilder = m.clone().into_builder(Some("v3.json".to_string()));
    assert_eq!(builder.metadata(), &m);
    assert_eq!(
        builder.previous_history_entry(),
        Some(&MetadataLog { metadata_file: "v3.json".to_string(), timestamp_ms: 1000000 })
    );
    assert_eq!(m.into_builder(None).previous_history_entry(), None);
}

#[test]
fn properties_have_their_names_and_defaults() {
    assert_eq!(
        RESERVED_PROPERTIES,
        [
            "format-version",
            "uuid",
            "snapshot-count",
            "current-snapshot-id",
            "current-snapshot-summary",
            "current-snapshot-timestamp-ms",
            "current-schema",
            "default-partition-spec",
            "default-sort-order",
        ]
    );
    assert_eq!(PROPERTY_COMMIT_NUM_RETRIES_DEFAULT, 4);
    assert_eq!(PROPERTY_COMMIT_MIN_RETRY_WAIT_MS_DEFAULT, 100);
    assert_eq!(PROPERTY_COMMIT_MAX_RETRY_WAIT_MS_DEFAULT, 60000);
    assert_eq!(PROPERTY_COMMIT_TOTAL_RETRY_TIME_MS_DEFAULT, 1800000);
}

#[test]
fn errors_are_told_in_one_line() {
    let error = Error::new(ErrorKind::Unexpected, "no".to_string());
    assert_eq!(error.kind(), ErrorKind::Unexpected);
    assert_eq!(error.to_string(), "Unexpected => no");
    assert_eq!(Error::data_invalid("bad".to_string()).to_string(), "DataInvalid => bad");
}

#[test]
fn snapshots_are_read_back() {
    let snapshot = Snapshot::from_v2(snapshot_v2(3, 0));
    assert_eq!(Snapshot::from_v2(snapshot.to_v2()), snapshot);
    assert_eq!(Snapshot::try_from_v1(snapshot.to_v1()).unwrap(), snapshot);
}

#[test]
fn accessors_show_what_was_read() {
    let m = busy_v2();
    assert_eq!(m.format_version(), FormatVersion::V2);
    assert_eq!(m.uuid(), Uuid::from_u128(7));
    assert_eq!(m.last_column_id(), 2);
    assert_eq!(m.last_partition_id(), 999);
    assert_eq!(m.properties().get("owner"), Some(&"root".to_string()));
    assert_eq!(m.snapshot_by_id(5).unwrap().snapshot_id(), 5);
    assert_eq!(m.snapshot_by_id(6), None);
    assert_eq!(m.history().len(), 2);
    assert_eq!(m.metadata_log().len(), 1);
    assert_eq!(m.default_partition_type().fields()[0].name, "day");
    assert_eq!(m.current_schema().as_struct().fields().len(), 2);
}

#[test]
fn timestamps_too_far_apart_give_no_outcome() {
    let far = || TableMetadataV2 { snapshot_log: log(vec![i64::MIN, i64::MAX]), ..form_v2() };
    assert!(TableMetadata::try_read(TableMetadataEnum::V2(far())).is_none());
    let far_files = TableMetadataV2 { metadata_log: files(vec![i64::MIN]), ..form_v2() };
    assert!(TableMetadata::try_read(TableMetadataEnum::V2(far_files)).is_none());
    let broken_before = TableMetadataV2 { current_snapshot_id: Some(4), ..far() };
    assert_eq!(
        TableMetadata::try_read(TableMetadataEnum::V2(broken_before)).unwrap().unwrap_err().to_string(),
        "DataInvalid => Snapshot for current snapshot id 4 does not exist in the existing snapshots list"
    );
    let unsorted_before = TableMetadataV2 { snapshot_log: log(vec![500000, 1, i64::MIN]), ..form_v2() };
    assert_eq!(
        TableMetadata::try_read(TableMetadataEnum::V2(unsorted_before)).unwrap().unwrap_err().to_string(),
        "DataInvalid => Expected sorted snapshot log entries"
    );
    assert_eq!(TableMetadata::try_read(TableMetadataEnum::V2(form_v2())).unwrap().unwrap(), read_v2(form_v2()));
    assert_eq!(TableMetadata::try_read(TableMetadataEnum::V1(form_v1())).unwrap().unwrap(), read_v1(form_v1()));
    let mut m = read_v2(form_v2());
    assert!(m.is_comparable());
    m.snapshot_log = log(vec![i64::MIN, i64::MAX]).unwrap();
    assert!(!m.is_comparable());
}
