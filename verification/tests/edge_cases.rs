use rustberg::codec::{from_text, to_text, Codec};
use rustberg::error::{CodecError, ErrorKind, Fault};
use rustberg::json::Json;
use rustberg::partition_spec::{PartitionField, Transform};
use rustberg::schema::{
    IcebergSchemaV1, IcebergSchemaV2, IcebergType, PrimitiveType, StructField, StructType,
};
use rustberg::snapshot::{RefType, SnapshotRefV2, SnapshotV2};
use rustberg::table_metadata::{MetadataLog, SnapshotLog, Statistics, TableMetadata};
use rustberg::text::{chars_of, read_bracketed, same_text, starts_with, write_bracketed, Bracketed};

#[test]
fn numbers_in_names_are_read_to_the_last_one_that_fits() {
    assert_eq!(PrimitiveType::parse("fixed[0]"), Ok(PrimitiveType::Fixed(0)));
    assert_eq!(PrimitiveType::parse("fixed[4294967295]"), Ok(PrimitiveType::Fixed(u32::MAX)));
    assert_eq!(PrimitiveType::parse("fixed[0004294967295]"), Ok(PrimitiveType::Fixed(u32::MAX)));
    assert_eq!(Transform::parse("bucket[4294967295]"), Ok(Transform::Bucket(u32::MAX)));
    assert_eq!(Transform::parse("truncate[0]"), Ok(Transform::Truncate(0)));
    assert_eq!(
        PrimitiveType::parse("decimal(38,4294967295)"),
        Ok(PrimitiveType::Decimal { precision: 38, scale: u32::MAX })
    );
    assert_eq!(
        PrimitiveType::parse("decimal(038, 00)"),
        Ok(PrimitiveType::Decimal { precision: 38, scale: 0 })
    );
    assert_eq!(
        PrimitiveType::parse("decimal(1,0)"),
        Ok(PrimitiveType::Decimal { precision: 1, scale: 0 })
    );
    assert_eq!(
        PrimitiveType::parse("decimal(001, 0)"),
        Ok(PrimitiveType::Decimal { precision: 1, scale: 0 })
    );
    assert!(PrimitiveType::parse("decimal(0,0)").is_err());
    assert!(PrimitiveType::parse("decimal(39,0)").is_err());
}

#[test]
fn white_space_round_the_comma_of_a_decimal_is_taken() {
    let want = Ok(PrimitiveType::Decimal { precision: 10, scale: 2 });
    for text in [
        "decimal(10,2)",
        "decimal(10, 2)",
        "decimal(10 ,2)",
        "decimal(10 \t\n , \r 2)",
        "decimal(10\u{a0},\u{2003}2)",
        "decimal(10\u{3000},\u{85}2)",
    ] {
        assert_eq!(PrimitiveType::parse(text), want, "{:?}", text);
    }
    assert!(PrimitiveType::parse("decimal(1 0,2)").is_err());
    assert!(PrimitiveType::parse("decimal(10,2 )").is_err());
    assert!(PrimitiveType::parse("decimal(10\u{200b},2)").is_err());
}

#[test]
fn the_tools_for_strings_do_what_they_say() {
    assert_eq!(chars_of("aé\u{1F600}"), vec!['a', 'é', '\u{1F600}']);
    assert!(same_text("day", "day"));
    assert!(!same_text("day", "days"));
    assert!(starts_with("bucket[1]", "bucket"));
    assert!(starts_with("bucket", "bucket"));
    assert!(!starts_with("bucke", "bucket"));
    assert!(starts_with("x", ""));
    assert_eq!(write_bracketed("n", 0), "n[0]");
    assert_eq!(write_bracketed("n", 1234567890), "n[1234567890]");
    assert_eq!(write_bracketed("é", 10), "é[10]");
    assert!(matches!(read_bracketed("é[10]", "é"), Bracketed::Value(10)));
    assert!(matches!(read_bracketed("n[4294967296]", "n"), Bracketed::TooLarge));
    assert!(matches!(read_bracketed("n[١]", "n"), Bracketed::Mismatch));
    assert!(matches!(read_bracketed("m[1]", "n"), Bracketed::Mismatch));
}

#[test]
fn keys_that_are_not_known_are_passed_over() {
    let f: PartitionField = from_text(
        r#"{"source-id": 4, "field-id": 1000, "name": "ts_day", "transform": "day",
            "more": {"x": [1.5]}}"#,
    )
    .unwrap();
    assert_eq!(
        f,
        PartitionField {
            source_id: 4,
            field_id: 1000,
            name: "ts_day".to_string(),
            transform: Transform::Day
        }
    );
    assert_eq!(
        to_text(&f),
        r#"{"field-id":1000,"name":"ts_day","source-id":4,"transform":"day"}"#
    );
}

#[test]
fn an_optional_key_may_be_absent_or_null() {
    let with_null: StructField = from_text(
        r#"{"id": 1, "name": "a", "required": true, "type": "int", "doc": null,
            "initial-default": null}"#,
    )
    .unwrap();
    let without: StructField =
        from_text(r#"{"id": 1, "name": "a", "required": true, "type": "int"}"#).unwrap();
    assert_eq!(with_null, without);
    assert_eq!(without.doc, None);
    assert_eq!(to_text(&without), r#"{"id":1,"name":"a","required":true,"type":"int"}"#);
    let e: CodecError =
        from_text::<StructField>(r#"{"id": 1, "name": "a", "required": true, "type": "int", "doc": 3}"#)
            .unwrap_err();
    assert_eq!((e.fault, e.subject.as_str()), (Fault::NotAString, "doc"));
}

#[test]
fn a_type_is_dispatched_on_its_tag() {
    let t: IcebergType = from_text(
        r#"{"type": "list", "element-id": 3, "element-required": true, "element": "string",
            "fields": []}"#,
    )
    .unwrap();
    assert!(matches!(t, IcebergType::List(_)));
    let e = from_text::<IcebergType>(r#"{"type": "list", "fields": []}"#).unwrap_err();
    assert_eq!((e.fault, e.subject.as_str()), (Fault::MissingField, "element-id"));
    let e = from_text::<IcebergType>(r#"{"type": 3}"#).unwrap_err();
    assert_eq!(e.fault, Fault::NotAString);
    let s: StructType = from_text(r#"{"fields": []}"#).unwrap();
    assert_eq!(s, StructType { fields: vec![] });
    assert_eq!(to_text(&s), r#"{"fields":[],"type":"struct"}"#);
}

#[test]
fn a_schema_holds_its_struct_beside_its_id() {
    let v2: IcebergSchemaV2 =
        from_text(r#"{"schema-id": 7, "fields": [], "identifier-field-ids": []}"#).unwrap();
    assert_eq!(
        v2,
        IcebergSchemaV2 {
            schema_id: 7,
            identifier_field_ids: Some(vec![]),
            schema: StructType { fields: vec![] }
        }
    );
    assert_eq!(
        to_text(&v2),
        r#"{"fields":[],"identifier-field-ids":[],"schema-id":7,"type":"struct"}"#
    );
    let v1: IcebergSchemaV1 = from_text(r#"{"fields": []}"#).unwrap();
    assert_eq!(v1.schema_id, None);
    assert_eq!(to_text(&v1), r#"{"fields":[],"type":"struct"}"#);
    assert_eq!(
        from_text::<IcebergSchemaV2>(r#"{"fields": []}"#).unwrap_err().fault,
        Fault::MissingField
    );
    let e = from_text::<IcebergSchemaV2>(
        r#"{"schema-id": 7, "fields": [], "identifier-field-ids": [1, "2"]}"#,
    )
    .unwrap_err();
    assert_eq!(e.fault, Fault::NotAnInteger);
}

#[test]
fn the_parent_of_a_snapshot_is_written_as_null_where_there_is_none() {
    let s: SnapshotV2 = from_text(
        r#"{"snapshot-id": 1, "sequence-number": 2, "timestamp-ms": 3,
            "summary": {"operation": "replace"}, "manifest-list": "l"}"#,
    )
    .unwrap();
    assert_eq!(s.parent_snapshot_id, None);
    assert_eq!(s.schema_id, None);
    assert_eq!(
        to_text(&s),
        concat(
            r#"{"manifest-list":"l","parent-snapshot-id":null,"sequence-number":2,"#,
            r#""snapshot-id":1,"summary":{"operation":"replace"},"timestamp-ms":3}"#
        )
    );
    assert_eq!(from_text::<SnapshotV2>(&to_text(&s)).unwrap(), s);
}

fn concat(a: &str, b: &str) -> String {
    format!("{}{}", a, b)
}

#[test]
fn a_reference_is_a_branch_or_a_tag() {
    let tag: SnapshotRefV2 = from_text(
        r#"{"snapshot-id": 1, "type": "tag", "min-snapshots-to-keep": "not read"}"#,
    )
    .unwrap();
    assert_eq!(tag, SnapshotRefV2 { snapshot_id: 1, ref_type: RefType::Tag, max_ref_age_ms: None });
    assert_eq!(to_text(&tag), r#"{"snapshot-id":1,"type":"tag"}"#);
    let branch = SnapshotRefV2 {
        snapshot_id: 1,
        ref_type: RefType::Branch { min_snapshots_to_keep: Some(2), max_snapshot_age_ms: Some(3) },
        max_ref_age_ms: Some(4),
    };
    assert_eq!(
        to_text(&branch),
        concat(
            r#"{"max-ref-age-ms":4,"max-snapshot-age-ms":3,"min-snapshots-to-keep":2,"#,
            r#""snapshot-id":1,"type":"branch"}"#
        )
    );
    assert_eq!(SnapshotRefV2::deserialize(&branch.serialize()), Ok(branch));
    let e = from_text::<SnapshotRefV2>(r#"{"snapshot-id": 1}"#).unwrap_err();
    assert_eq!((e.fault, e.subject.as_str()), (Fault::MissingField, "type"));
}

#[test]
fn statistics_are_kept_as_a_mark() {
    assert_eq!(from_text::<Statistics>(r#"{"blobs": [1]}"#), Ok(Statistics {}));
    assert_eq!(from_text::<Statistics>("[]"), Ok(Statistics {}));
    assert_eq!(from_text::<Statistics>("3").unwrap_err().fault, Fault::NotAnObject);
    assert_eq!(to_text(&Statistics {}), "{}");
}

#[test]
fn the_logs_are_read_and_written() {
    let s: SnapshotLog = from_text(r#"{"timestamp-ms": 2, "snapshot-id": 1}"#).unwrap();
    assert_eq!(s, SnapshotLog { snapshot_id: 1, timestamp_ms: 2 });
    assert_eq!(to_text(&s), r#"{"snapshot-id":1,"timestamp-ms":2}"#);
    let m: MetadataLog = from_text(r#"{"timestamp-ms": 2, "metadata-file": "f"}"#).unwrap();
    assert_eq!(m, MetadataLog { metadata_file: "f".to_string(), timestamp_ms: 2 });
    assert_eq!(to_text(&m), r#"{"metadata-file":"f","timestamp-ms":2}"#);
}

#[test]
fn a_version_1_document_may_lack_what_version_2_needs() {
    let text = r#"{
      "format-version": 1,
      "location": "l",
      "last-updated-ms": 1,
      "last-column-id": 2,
      "schema": {"type": "struct", "fields": []},
      "schemas": [{"type": "struct", "schema-id": 1, "fields": []}],
      "partition-spec": [{"name": "n", "transform": "hour", "source-id": 1, "field-id": 2}],
      "partition-specs": [],
      "default-sort-order-id": 0,
      "refs": {"main": {"snapshot-id": 1, "type": "whatever"}},
      "statistics": {}
    }"#;
    match TableMetadata::from_json_text(text).unwrap() {
        TableMetadata::V1(m) => {
            assert_eq!(m.table_uuid, None);
            assert_eq!(m.schemas.as_ref().map(|s| s.len()), Some(1));
            assert_eq!(m.schema.schema_id, None);
            assert_eq!(m.partition_spec.len(), 1);
            assert_eq!(m.statistics, Some(Statistics {}));
            assert_eq!(m.sort_orders, None);
            let again = TableMetadata::V1(m).to_json_text();
            assert!(again.contains("\"schema\":{"));
            assert!(again.contains("\"schemas\":[{"));
            assert!(again.contains("\"statistics\":{}"));
            assert!(!again.contains("refs"));
        }
        TableMetadata::V2(_) => panic!("version 2"),
    }
    let as_version_2 = text.replace("\"format-version\": 1", "\"format-version\": 2");
    let e = TableMetadata::from_json_text(&as_version_2).unwrap_err();
    assert_eq!(e.version, Some(2));
    assert_eq!((e.fault, e.kind()), (Fault::MissingField, ErrorKind::Shape));
}

#[test]
fn a_tree_by_hand_decodes_like_a_text() {
    let tree = Json::Object(vec![
        ("source-id".to_string(), Json::short(4)),
        ("field-id".to_string(), Json::long(1000)),
        ("name".to_string(), Json::text("ts_day")),
        ("transform".to_string(), Json::text("bucket[16]")),
    ]);
    let f = PartitionField::deserialize(&tree).unwrap();
    assert_eq!(f.transform, Transform::Bucket(16));
    assert_eq!(f.serialize(), tree);
}

#[test]
fn a_bucket_is_written_as_it_was_read() {
    let t: Transform = from_text("\"bucket[42]\"").unwrap();
    assert_eq!(t, Transform::Bucket(42));
    assert_eq!(to_text(&t), "\"bucket[42]\"");
}

#[test]
fn a_decimal_is_written_as_it_was_read() {
    let p: PrimitiveType = from_text("\"decimal(30, 20)\"").unwrap();
    assert_eq!(p, PrimitiveType::Decimal { precision: 30, scale: 20 });
    assert_eq!(to_text(&p), "\"decimal(30, 20)\"");
}
