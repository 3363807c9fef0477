use rustberg::avro::{AvroCodec, AvroValue};
use rustberg::codec::{from_text, to_text, Codec};
use rustberg::json::Json;
use rustberg::manifest_list::{FieldSummaryV2, FileType, ManifestListV1, ManifestListV2};
use rustberg::partition_spec::Transform;
use rustberg::schema::{IcebergType, ListType, MapType, PrimitiveType, StructField, StructType};
use rustberg::snapshot::{Operation, SnapshotV1, Summary};
use rustberg::sort_orders::{Direction, NullOrder, SortField, SortOrders};
use rustberg::table_metadata::{TableMetadata, TableMetadataV2, TableUuid};

const SMALL_V2: &str = r#"{
  "format-version": 2,
  "table-uuid": "1cbafffd-0066-4eb8-9e09-b69b2f8e0d2a",
  "location": "s3://b/t",
  "last-sequence-number": 1,
  "last-updated-ms": 1665194853904,
  "last-column-id": 1,
  "schemas": [ { "type": "struct", "schema-id": 0,
                 "fields": [ { "id": 1, "name": "a", "required": true, "type": "int" } ] } ],
  "current-schema-id": 0,
  "partition-specs": [ { "spec-id": 0, "fields": [] } ],
  "default-spec-id": 0,
  "last-partition-id": 999,
  "sort-orders": [ { "order-id": 1, "fields": [
      { "transform": "identity", "source-id": 1, "direction": "asc", "null-order": "nulls-first" } ] } ],
  "default-sort-order-id": 1,
  "refs": { "main": { "snapshot-id": 5, "type": "branch", "max-snapshot-age-ms": 7 },
            "v1": { "snapshot-id": 5, "type": "tag", "max-ref-age-ms": 9 } }
}"#;

const SMALL_V1: &str = r#"{
  "format-version": 1,
  "location": "s3://b/t",
  "last-updated-ms": 1665194853904,
  "last-column-id": 1,
  "schema": { "type": "struct",
              "fields": [ { "id": 1, "name": "a", "required": true, "type": "int" } ] },
  "partition-spec": [],
  "partition-specs": [],
  "default-sort-order-id": 0
}"#;

fn every_primitive() -> Vec<PrimitiveType> {
    vec![
        PrimitiveType::Boolean,
        PrimitiveType::Int,
        PrimitiveType::Long,
        PrimitiveType::Float,
        PrimitiveType::Double,
        PrimitiveType::Date,
        PrimitiveType::Time,
        PrimitiveType::Timestamp,
        PrimitiveType::Timestamptz,
        PrimitiveType::String,
        PrimitiveType::Uuid,
        PrimitiveType::Binary,
        PrimitiveType::Fixed(0),
        PrimitiveType::Fixed(1),
        PrimitiveType::Fixed(400),
        PrimitiveType::Fixed(u32::MAX),
        PrimitiveType::Decimal { precision: 1, scale: 0 },
        PrimitiveType::Decimal { precision: 1, scale: 20 },
        PrimitiveType::Decimal { precision: 38, scale: 2 },
        PrimitiveType::Decimal { precision: 38, scale: u32::MAX },
    ]
}

#[test]
fn every_primitive_type_is_read_back_from_its_name() {
    for p in every_primitive() {
        assert_eq!(PrimitiveType::parse(&p.to_text()), Ok(p));
        assert_eq!(PrimitiveType::deserialize(&p.serialize()), Ok(p));
        assert_eq!(from_text::<PrimitiveType>(&to_text(&p)), Ok(p));
    }
}

#[test]
fn every_transform_is_read_back_from_its_name() {
    let transforms = [
        Transform::Identity,
        Transform::Year,
        Transform::Month,
        Transform::Day,
        Transform::Hour,
        Transform::Bucket(0),
        Transform::Bucket(32),
        Transform::Bucket(u32::MAX),
        Transform::Truncate(42),
        Transform::Truncate(u32::MAX),
    ];
    for t in transforms {
        assert_eq!(Transform::parse(&t.to_text()), Ok(t));
        assert_eq!(Transform::deserialize(&t.serialize()), Ok(t));
        assert_eq!(from_text::<Transform>(&to_text(&t)), Ok(t));
    }
}

#[test]
fn names_are_written_in_their_canonical_form() {
    assert_eq!(PrimitiveType::Fixed(16).to_text(), "fixed[16]");
    assert_eq!(PrimitiveType::Decimal { precision: 30, scale: 20 }.to_text(), "decimal(30, 20)");
    assert_eq!(PrimitiveType::parse("decimal(30 ,\t20)").unwrap().to_text(), "decimal(30, 20)");
    assert_eq!(PrimitiveType::Timestamptz.to_text(), "timestamptz");
    assert_eq!(Transform::Bucket(42).to_text(), "bucket[42]");
    assert_eq!(Transform::Truncate(7).to_text(), "truncate[7]");
    assert_eq!(Transform::parse("bucket[007]").unwrap().to_text(), "bucket[7]");
    assert_eq!(to_text(&Transform::Bucket(42)), "\"bucket[42]\"");
    assert_eq!(Direction::DESC.to_text(), "desc");
    assert_eq!(NullOrder::NullsLast.to_text(), "nulls-last");
    assert_eq!(Operation::Overwrite.to_text(), "overwrite");
}

#[test]
fn a_nested_type_is_read_back_from_its_tree() {
    let t = IcebergType::Struct(StructType {
        fields: vec![StructField {
            id: 1,
            name: "m".to_string(),
            required: false,
            field_type: IcebergType::Mapping(MapType {
                key_id: 2,
                key: Box::new(IcebergType::Primitive(PrimitiveType::String)),
                value_id: 3,
                value_required: true,
                value: Box::new(IcebergType::List(ListType {
                    element_id: 4,
                    element_required: false,
                    element: Box::new(IcebergType::Primitive(PrimitiveType::Decimal {
                        precision: 9,
                        scale: 2,
                    })),
                })),
            }),
            doc: Some("a map".to_string()),
            initial_default: None,
            write_default: Some("{}".to_string()),
        }],
    });
    let tree = t.serialize();
    assert_eq!(IcebergType::deserialize(&tree).unwrap(), t);
    assert_eq!(
        tree.to_text(),
        concat_all(&[
            r#"{"fields":[{"doc":"a map","id":1,"name":"m","required":false,"type":{"key":"string","#,
            r#""key-id":2,"type":"map","value":{"element":"decimal(9, 2)","element-id":4,"#,
            r#""element-required":false,"type":"list"},"value-id":3,"value-required":true},"#,
            r#""write-default":"{}"}],"type":"struct"}"#,
        ])
    );
}

fn concat_all(parts: &[&str]) -> String {
    let mut out = String::new();
    for p in parts {
        out.push_str(p);
    }
    out
}

#[test]
fn a_document_decodes_again_to_what_it_decoded_to() {
    for text in [SMALL_V1, SMALL_V2] {
        let first: TableMetadata = from_text(text).unwrap();
        let tree = first.serialize();
        assert_eq!(TableMetadata::deserialize(&tree).unwrap(), first);
        let second = TableMetadata::from_json_text(&first.to_json_text()).unwrap();
        assert_eq!(second, first);
    }
}

#[test]
fn optional_keys_without_value_are_not_written() {
    let first = TableMetadata::from_json_text(SMALL_V1).unwrap();
    let text = first.to_json_text();
    assert!(!text.contains("null"));
    assert!(!text.contains("table-uuid"));
    assert!(!text.contains("snapshots"));
    assert!(text.contains("\"format-version\":1"));
}

#[test]
fn the_variant_decides_the_version_that_is_written() {
    let first = TableMetadata::from_json_text(SMALL_V2).unwrap();
    let inner: TableMetadataV2 = match first {
        TableMetadata::V2(mut m) => {
            m.format_version = 7;
            m
        }
        TableMetadata::V1(_) => panic!("version 1"),
    };
    assert!(to_text(&inner).contains("\"format-version\":7"));
    let text = TableMetadata::V2(inner).to_json_text();
    assert!(text.contains("\"format-version\":2"));
    assert!(!text.contains("\"format-version\":7"));
    match TableMetadata::from_json_text(&text).unwrap() {
        TableMetadata::V2(m) => assert_eq!(m.format_version, 2),
        TableMetadata::V1(_) => panic!("version 1"),
    }
}

#[test]
fn references_keep_their_names_and_kinds() {
    match TableMetadata::from_json_text(SMALL_V2).unwrap() {
        TableMetadata::V2(m) => {
            assert_eq!(m.table_uuid, TableUuid(0x1cbafffd00664eb89e09b69b2f8e0d2a));
            assert_eq!(m.refs.len(), 2);
            assert_eq!(m.refs[0].0, "main");
            assert_eq!(
                m.refs[0].1.ref_type,
                rustberg::snapshot::RefType::Branch {
                    min_snapshots_to_keep: None,
                    max_snapshot_age_ms: Some(7)
                }
            );
            assert_eq!(m.refs[1].1.ref_type, rustberg::snapshot::RefType::Tag);
            assert_eq!(m.refs[1].1.max_ref_age_ms, Some(9));
            assert_eq!(
                m.sort_orders,
                vec![SortOrders {
                    order_id: 1,
                    fields: vec![SortField {
                        transform: Transform::Identity,
                        source_id: 1,
                        direction: Direction::ASC,
                        null_order: NullOrder::NullsFirst,
                    }],
                }]
            );
        }
        TableMetadata::V1(_) => panic!("version 1"),
    }
}

#[test]
fn a_version_1_snapshot_is_never_written_with_both_manifest_keys() {
    let s = SnapshotV1 {
        snapshot_id: 1,
        parent_snapshot_id: None,
        timestamp_ms: 2,
        manifest_list: Some("l".to_string()),
        manifests: Some(vec!["m".to_string()]),
        summary: None,
        schema_id: None,
    };
    let tree = s.serialize();
    assert!(tree.get("manifest-list").is_some());
    assert!(tree.get("manifests").is_none());
    assert_eq!(
        tree.to_text(),
        r#"{"manifest-list":"l","parent-snapshot-id":null,"snapshot-id":1,"timestamp-ms":2}"#
    );
    let only_manifests = SnapshotV1 { manifest_list: None, ..s };
    let tree = only_manifests.serialize();
    assert!(tree.get("manifest-list").is_none());
    assert_eq!(SnapshotV1::deserialize(&tree).unwrap(), only_manifests);
}

#[test]
fn a_key_that_occurs_twice_among_named_values_is_refused() {
    let twice = Json::Object(vec![
        ("a".to_string(), Json::text("1")),
        ("operation".to_string(), Json::text("append")),
        ("a".to_string(), Json::text("2")),
    ]);
    let e = Summary::deserialize(&twice).unwrap_err();
    assert_eq!(e.fault, rustberg::error::Fault::DuplicateKey);
    assert_eq!(e.kind(), rustberg::error::ErrorKind::Shape);
    let text = r#"{"a": "1", "operation": "append", "a": "2"}"#;
    let s: Summary = from_text(text).unwrap();
    assert_eq!(s.rest, vec![("a".to_string(), "2".to_string())]);
}

#[test]
fn a_summary_keeps_its_other_keys_in_order() {
    let s: Summary =
        from_text(r#"{"b": "2", "operation": "delete", "a": "1", "c": "3"}"#).unwrap();
    assert_eq!(s.operation, Operation::Delete);
    assert_eq!(
        s.rest,
        vec![
            ("a".to_string(), "1".to_string()),
            ("b".to_string(), "2".to_string()),
            ("c".to_string(), "3".to_string())
        ]
    );
    assert_eq!(to_text(&s), r#"{"a":"1","b":"2","c":"3","operation":"delete"}"#);
    assert_eq!(Summary::deserialize(&s.serialize()).unwrap(), s);
    let by_hand = Json::Object(vec![
        ("z".to_string(), Json::text("26")),
        ("operation".to_string(), Json::text("append")),
        ("y".to_string(), Json::text("25")),
    ]);
    let s = Summary::deserialize(&by_hand).unwrap();
    assert_eq!(
        s.rest,
        vec![("z".to_string(), "26".to_string()), ("y".to_string(), "25".to_string())]
    );
}

fn record_of_version_1(counter: &str, count: AvroValue) -> AvroValue {
    AvroValue::Record(vec![
        ("manifest_path".to_string(), AvroValue::Text("p".to_string())),
        ("manifest_length".to_string(), AvroValue::Long(7827)),
        ("partition_spec_id".to_string(), AvroValue::Int(0)),
        ("added_snapshot_id".to_string(), AvroValue::Long(9164160847201777787)),
        (counter.to_string(), count),
        ("existing_rows_count".to_string(), AvroValue::Union(0, Box::new(AvroValue::Null))),
        ("partitions".to_string(), AvroValue::Union(0, Box::new(AvroValue::Null))),
    ])
}

#[test]
fn both_spellings_of_a_counter_decode_alike() {
    let count = || AvroValue::Union(1, Box::new(AvroValue::Int(2)));
    let first = ManifestListV2::deserialize(&record_of_version_1("added_files_count", count()));
    let second =
        ManifestListV2::deserialize(&record_of_version_1("added_data_files_count", count()));
    assert_eq!(first, second);
    assert_eq!(first.unwrap().added_files_count, 2);
    let first = ManifestListV1::deserialize(&record_of_version_1("deleted_files_count", count()));
    let second =
        ManifestListV1::deserialize(&record_of_version_1("deleted_data_files_count", count()));
    assert_eq!(first, second);
    assert_eq!(first.unwrap().deleted_files_count, Some(2));
    match second.unwrap().serialize() {
        AvroValue::Record(fields) => {
            assert!(fields.iter().any(|(name, _)| name == "deleted_files_count"));
            assert!(fields.iter().all(|(name, _)| !name.contains("_data_")));
        }
        other => panic!("no record: {:?}", other),
    }
}

#[test]
fn a_record_of_version_1_gets_the_defaults_of_version_2() {
    let record = record_of_version_1("existing_data_files_count", AvroValue::Int(5));
    let v2 = ManifestListV2::deserialize(&record).unwrap();
    assert_eq!(
        v2,
        ManifestListV2 {
            manifest_path: "p".to_string(),
            manifest_length: 7827,
            partition_spec_id: 0,
            content: FileType::Data,
            sequence_number: 0,
            min_sequence_number: 0,
            added_snapshot_id: 9164160847201777787,
            added_files_count: 0,
            existing_files_count: 5,
            deleted_files_count: 0,
            added_rows_count: 0,
            existing_rows_count: 0,
            deleted_rows_count: 0,
            partitions: None,
            key_metadata: None,
        }
    );
    let v1 = ManifestListV1::deserialize(&record).unwrap();
    assert_eq!(v1.existing_files_count, Some(5));
    assert_eq!(v1.added_files_count, None);
    assert_eq!(v1.into_v2(), v2);
}

#[test]
fn a_manifest_is_read_back_from_its_record() {
    let m = ManifestListV2 {
        manifest_path: "p".to_string(),
        manifest_length: i64::MAX,
        partition_spec_id: i32::MIN,
        content: FileType::Delete,
        sequence_number: 3,
        min_sequence_number: 2,
        added_snapshot_id: -1,
        added_files_count: 1,
        existing_files_count: 2,
        deleted_files_count: 3,
        added_rows_count: 4,
        existing_rows_count: 5,
        deleted_rows_count: 6,
        partitions: Some(vec![FieldSummaryV2 {
            contains_null: true,
            contains_nan: None,
            lower_bound: None,
            upper_bound: Some(vec![]),
        }]),
        key_metadata: Some(vec![1, 2, 3]),
    };
    let record = m.serialize();
    assert_eq!(ManifestListV2::deserialize(&record).unwrap(), m);
    let bytes = ManifestListV2::write_all(&vec![m.clone(), m.clone()]).unwrap();
    assert_eq!(ManifestListV2::read_all(&bytes).unwrap(), vec![m.clone(), m]);
    match record {
        AvroValue::Record(fields) => {
            assert_eq!(fields.len(), 15);
            assert_eq!(fields[3], ("content".to_string(), AvroValue::Int(1)));
            assert_eq!(
                fields[14],
                (
                    "key_metadata".to_string(),
                    AvroValue::Union(1, Box::new(AvroValue::Bytes(vec![1, 2, 3])))
                )
            );
        }
        other => panic!("no record: {:?}", other),
    }
}

fn holds_null_elsewhere(doc: &Json) -> bool {
    match doc {
        Json::Null => true,
        Json::Array(items) => items.iter().any(holds_null_elsewhere),
        Json::Object(entries) => entries.iter().any(|(key, value)| match value {
            Json::Null => key != "parent-snapshot-id",
            other => holds_null_elsewhere(other),
        }),
        _ => false,
    }
}

#[test]
fn no_key_is_written_with_null_but_the_parent_of_a_snapshot() {
    let text = SMALL_V2.replace(
        "\"default-sort-order-id\": 1,",
        r#""default-sort-order-id": 1,
           "properties": null,
           "current-snapshot-id": null,
           "snapshots": [ { "snapshot-id": 5, "parent-snapshot-id": null, "sequence-number": 1,
                            "timestamp-ms": 2, "summary": { "operation": "append" },
                            "manifest-list": "l", "schema-id": null } ],
           "statistics": null,"#,
    );
    let metadata = TableMetadata::from_json_text(&text).unwrap();
    let tree = metadata.serialize();
    assert!(!holds_null_elsewhere(&tree));
    let written = tree.to_text();
    assert_eq!(written.matches(":null").count(), 1);
    assert!(written.contains("\"parent-snapshot-id\":null"));
    assert!(holds_null_elsewhere(&Json::parse(&text).unwrap()));
}
