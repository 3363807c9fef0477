use rustberg::avro::{parse_schema, write_records, AvroCodec, AvroValue};
use rustberg::codec::{from_text, Codec};
use rustberg::error::{CodecError, ErrorKind, Fault};
use rustberg::manifest_list::{FieldSummaryV2, ManifestListV2};
use rustberg::partition_spec::{PartitionSpec, Transform};
use rustberg::schema::{IcebergType, PrimitiveType, StructField};
use rustberg::snapshot::{Operation, SnapshotRefV2, SnapshotV1};
use rustberg::sort_orders::{Direction, NullOrder};
use rustberg::table_metadata::{TableMetadata, TableUuid};

fn fault_of<T: Codec + std::fmt::Debug>(text: &str) -> CodecError {
    from_text::<T>(text).unwrap_err()
}

fn check<T: Codec + std::fmt::Debug>(text: &str, fault: Fault, kind: ErrorKind, subject: &str) {
    let e = fault_of::<T>(text);
    assert_eq!(e.fault, fault, "{}", text);
    assert_eq!(e.kind(), kind, "{}", text);
    assert_eq!(e.subject, subject, "{}", text);
    assert_eq!(e.version, None, "{}", text);
}

#[test]
fn a_text_that_is_no_document_is_malformed() {
    check::<Transform>("\"day", Fault::Syntax, ErrorKind::Malformed, "");
    check::<TableMetadata>("", Fault::Syntax, ErrorKind::Malformed, "");
}

#[test]
fn the_format_version_must_be_an_integer() {
    for text in [
        "{}",
        "[]",
        "2",
        r#"{"format-version": "2"}"#,
        r#"{"format-version": 2.0}"#,
        r#"{"format-version": null}"#,
        r#"{"format-version": 18446744073709551615}"#,
    ] {
        check::<TableMetadata>(text, Fault::MissingOrBadFormatVersion, ErrorKind::Version, "");
    }
}

#[test]
fn the_format_version_must_be_1_or_2() {
    check::<TableMetadata>(
        r#"{"format-version": 3}"#,
        Fault::UnsupportedVersion(3),
        ErrorKind::Version,
        "",
    );
    check::<TableMetadata>(
        r#"{"format-version": 0}"#,
        Fault::UnsupportedVersion(0),
        ErrorKind::Version,
        "",
    );
    check::<TableMetadata>(
        r#"{"format-version": -2}"#,
        Fault::UnsupportedVersion(-2),
        ErrorKind::Version,
        "",
    );
}

#[test]
fn an_error_in_a_document_carries_the_version_of_the_document() {
    let e = fault_of::<TableMetadata>(r#"{"format-version": 2}"#);
    assert_eq!(e.fault, Fault::MissingField);
    assert_eq!(e.subject, "table-uuid");
    assert_eq!(e.version, Some(2));
    assert_eq!(e.kind(), ErrorKind::Shape);
    assert_eq!(e.message(), "missing field: table-uuid");
    let e = fault_of::<TableMetadata>(r#"{"format-version": 1, "table-uuid": 3}"#);
    assert_eq!(e.fault, Fault::NotAString);
    assert_eq!(e.version, Some(1));
    let e = fault_of::<TableMetadata>(r#"{"format-version": 1, "table-uuid": "3"}"#);
    assert_eq!(e.fault, Fault::InvalidUuid);
    assert_eq!(e.subject, "3");
}

#[test]
fn shapes_are_held_to() {
    check::<PartitionSpec>("3", Fault::NotAnObject, ErrorKind::Shape, "");
    check::<PartitionSpec>("{}", Fault::MissingField, ErrorKind::Shape, "spec-id");
    check::<PartitionSpec>(r#"{"spec-id": 1}"#, Fault::MissingField, ErrorKind::Shape, "fields");
    check::<PartitionSpec>(
        r#"{"spec-id": "1", "fields": []}"#,
        Fault::NotAnInteger,
        ErrorKind::Shape,
        "spec-id",
    );
    check::<PartitionSpec>(
        r#"{"spec-id": null, "fields": []}"#,
        Fault::NotAnInteger,
        ErrorKind::Shape,
        "spec-id",
    );
    check::<PartitionSpec>(
        r#"{"spec-id": 1.5, "fields": []}"#,
        Fault::NotAnInteger,
        ErrorKind::Shape,
        "spec-id",
    );
    check::<PartitionSpec>(
        r#"{"spec-id": 1, "fields": {}}"#,
        Fault::NotAnArray,
        ErrorKind::Shape,
        "fields",
    );
    check::<PartitionSpec>(
        r#"{"spec-id": 1, "fields": [{"source-id": 1, "field-id": 2, "name": 3}]}"#,
        Fault::NotAString,
        ErrorKind::Shape,
        "name",
    );
    check::<Transform>("3", Fault::NotAString, ErrorKind::Shape, "");
    check::<IcebergType>("3", Fault::NotAType, ErrorKind::Shape, "");
    check::<IcebergType>("{}", Fault::MissingField, ErrorKind::Shape, "type");
    check::<StructField>(
        r#"{"id": 1, "name": "a", "required": "yes", "type": "int"}"#,
        Fault::NotABoolean,
        ErrorKind::Shape,
        "required",
    );
}

#[test]
fn a_version_1_snapshot_with_both_manifest_keys_is_refused() {
    check::<SnapshotV1>(
        r#"{"snapshot-id": 1, "timestamp-ms": 2, "manifest-list": "l", "manifests": ["m"]}"#,
        Fault::ManifestListAndManifests,
        ErrorKind::Shape,
        "",
    );
    check::<SnapshotV1>(
        r#"{"snapshot-id": 1, "timestamp-ms": 2, "manifest-list": "l", "manifests": []}"#,
        Fault::ManifestListAndManifests,
        ErrorKind::Shape,
        "",
    );
    assert!(from_text::<SnapshotV1>(
        r#"{"snapshot-id": 1, "timestamp-ms": 2, "manifest-list": "l", "manifests": null}"#
    )
    .is_ok());
    assert!(from_text::<SnapshotV1>(r#"{"snapshot-id": 1, "timestamp-ms": 2}"#).is_ok());
}

#[test]
fn values_are_held_to_their_domains() {
    check::<PartitionSpec>(
        r#"{"spec-id": 2147483648, "fields": []}"#,
        Fault::IntegerOutOfRange,
        ErrorKind::Domain,
        "spec-id",
    );
    check::<PartitionSpec>(
        r#"{"spec-id": -2147483649, "fields": []}"#,
        Fault::IntegerOutOfRange,
        ErrorKind::Domain,
        "spec-id",
    );
    assert!(from_text::<PartitionSpec>(r#"{"spec-id": -2147483648, "fields": []}"#).is_ok());
    check::<PrimitiveType>(
        "\"decimal(39,0)\"",
        Fault::DecimalPrecisionOutOfRange,
        ErrorKind::Domain,
        "decimal(39,0)",
    );
    check::<PrimitiveType>(
        "\"decimal(255, 1)\"",
        Fault::DecimalPrecisionOutOfRange,
        ErrorKind::Domain,
        "decimal(255, 1)",
    );
    check::<PrimitiveType>(
        "\"decimal(0, 0)\"",
        Fault::DecimalPrecisionOutOfRange,
        ErrorKind::Domain,
        "decimal(0, 0)",
    );
    check::<PrimitiveType>(
        "\"decimal(000,7)\"",
        Fault::DecimalPrecisionOutOfRange,
        ErrorKind::Domain,
        "decimal(000,7)",
    );
    check::<PrimitiveType>(
        "\"decimal(256, 1)\"",
        Fault::DecimalPrecision,
        ErrorKind::Domain,
        "decimal(256, 1)",
    );
    check::<PrimitiveType>(
        "\"decimal(1, 4294967296)\"",
        Fault::DecimalScale,
        ErrorKind::Domain,
        "decimal(1, 4294967296)",
    );
    check::<PrimitiveType>(
        "\"fixed[4294967296]\"",
        Fault::FixedLength,
        ErrorKind::Domain,
        "fixed[4294967296]",
    );
    check::<PrimitiveType>(
        "\"fixed[99999999999999999999999999999999]\"",
        Fault::FixedLength,
        ErrorKind::Domain,
        "fixed[99999999999999999999999999999999]",
    );
    check::<Transform>(
        "\"bucket[4294967296]\"",
        Fault::BucketNumber,
        ErrorKind::Domain,
        "bucket[4294967296]",
    );
    check::<Transform>(
        "\"truncate[4294967296]\"",
        Fault::TruncateNumber,
        ErrorKind::Domain,
        "truncate[4294967296]",
    );
    check::<PrimitiveType>("\"strin\"", Fault::UnknownPrimitiveType, ErrorKind::Domain, "strin");
    check::<PrimitiveType>("\"Int\"", Fault::UnknownPrimitiveType, ErrorKind::Domain, "Int");
    check::<PrimitiveType>("\"\"", Fault::UnknownPrimitiveType, ErrorKind::Domain, "");
    check::<IcebergType>(r#"{"type": "set"}"#, Fault::UnknownTypeTag, ErrorKind::Domain, "set");
    check::<Transform>("\"minute\"", Fault::UnknownTransform, ErrorKind::Domain, "minute");
    check::<Transform>("\"Day\"", Fault::UnknownTransform, ErrorKind::Domain, "Day");
    check::<Direction>("\"dsc\"", Fault::UnknownDirection, ErrorKind::Domain, "dsc");
    check::<NullOrder>("\"nulls\"", Fault::UnknownNullOrder, ErrorKind::Domain, "nulls");
    check::<Operation>("\"merge\"", Fault::UnknownOperation, ErrorKind::Domain, "merge");
    check::<SnapshotRefV2>(
        r#"{"snapshot-id": 1, "type": "leaf"}"#,
        Fault::UnknownRefType,
        ErrorKind::Domain,
        "leaf",
    );
}

#[test]
fn parametric_strings_are_held_to_their_grammar() {
    for text in ["fixed(1)", "fixed[a]", "fixed", "fixed[]", "fixed[1", "fixed[1]]", "fixed[ 1]",
        "fixed[-1]", "fixed[+1]", "fixed [1]", "fixedx", "fixed[1] "]
    {
        let e = PrimitiveType::parse(text).unwrap_err();
        assert_eq!(e.fault, Fault::FixedFormat, "{}", text);
        assert_eq!(e.kind(), ErrorKind::FormatString);
        assert_eq!(e.subject, text);
    }
    for text in ["decimal(1)", "decimal[40,2]", "decimal", "decimal(1,2", "decimal(,2)",
        "decimal(1,)", "decimal(1 2)", "decimal(1,,2)", "decimal( 1,2)", "decimal(1,2 )",
        "decimal(1,2))", "decimal(1.0,2)", "decimals(1,2)", "decimal(1, -2)"]
    {
        let e = PrimitiveType::parse(text).unwrap_err();
        assert_eq!(e.fault, Fault::DecimalFormat, "{}", text);
        assert_eq!(e.kind(), ErrorKind::FormatString);
        assert_eq!(e.subject, text);
    }
    for text in ["bucket(1)", "bucket[a1]", "bucket", "bucket[1a]", "buckets", "bucket[]"] {
        let e = Transform::parse(text).unwrap_err();
        assert_eq!(e.fault, Fault::BucketFormat, "{}", text);
        assert_eq!(e.kind(), ErrorKind::FormatString);
    }
    for text in ["truncate(1)", "truncate[a1]", "truncate", "truncate[1][2]"] {
        let e = Transform::parse(text).unwrap_err();
        assert_eq!(e.fault, Fault::TruncateFormat, "{}", text);
        assert_eq!(e.kind(), ErrorKind::FormatString);
    }
    assert_eq!(Transform::parse(" bucket[1]").unwrap_err().fault, Fault::UnknownTransform);
}

#[test]
fn a_uuid_must_be_one() {
    assert_eq!(
        TableUuid::parse("5ff386a7-6dfc-4519-9a24-99e10c212081"),
        Ok(TableUuid(0x5ff386a76dfc45199a2499e10c212081))
    );
    assert_eq!(
        TableUuid::parse("5FF386A76DFC45199A2499E10C212081"),
        Ok(TableUuid(0x5ff386a76dfc45199a2499e10c212081))
    );
    let e = TableUuid::parse("5ff386a7-6dfc-4519-9a24").unwrap_err();
    assert_eq!(e.fault, Fault::InvalidUuid);
    assert_eq!(e.kind(), ErrorKind::Domain);
    assert_eq!(e.subject, "5ff386a7-6dfc-4519-9a24");
    let id = TableUuid(0x5ff386a76dfc45199a2499e10c212081);
    assert_eq!(id.to_text(), "5ff386a7-6dfc-4519-9a24-99e10c212081");
    assert_eq!(id.serialize().to_text(), "\"5ff386a7-6dfc-4519-9a24-99e10c212081\"");
    assert_eq!(TableUuid(0).to_text(), "00000000-0000-0000-0000-000000000000");
}

fn manifest_fields() -> Vec<(String, AvroValue)> {
    vec![
        ("manifest_path".to_string(), AvroValue::Text("p".to_string())),
        ("manifest_length".to_string(), AvroValue::Long(1)),
        ("partition_spec_id".to_string(), AvroValue::Int(0)),
        ("added_snapshot_id".to_string(), AvroValue::Long(2)),
    ]
}

fn with(name: &str, value: AvroValue) -> AvroValue {
    let mut fields = manifest_fields();
    fields.push((name.to_string(), value));
    AvroValue::Record(fields)
}

fn manifest_fault(value: AvroValue) -> CodecError {
    ManifestListV2::deserialize(&value).unwrap_err()
}

#[test]
fn records_are_held_to_their_shape() {
    assert!(ManifestListV2::deserialize(&AvroValue::Record(manifest_fields())).is_ok());
    let e = manifest_fault(AvroValue::Int(1));
    assert_eq!((e.fault, e.kind()), (Fault::NotAnObject, ErrorKind::Shape));
    let e = manifest_fault(AvroValue::Record(vec![]));
    assert_eq!((e.fault, e.subject.as_str()), (Fault::MissingField, "manifest_path"));
    let e = manifest_fault(with("manifest_path", AvroValue::Int(1)));
    assert_eq!((e.fault, e.subject.as_str()), (Fault::NotAString, "manifest_path"));
    let e = manifest_fault(with("manifest_length", AvroValue::Null));
    assert_eq!((e.fault, e.subject.as_str()), (Fault::NotAnInteger, "manifest_length"));
    let e = manifest_fault(with("partition_spec_id", AvroValue::Long(1 << 40)));
    assert_eq!((e.fault, e.kind()), (Fault::IntegerOutOfRange, ErrorKind::Domain));
    let e = manifest_fault(with("content", AvroValue::Int(2)));
    assert_eq!((e.fault, e.kind()), (Fault::UnknownContent, ErrorKind::Domain));
    assert_eq!(e.subject, "content");
    let e = manifest_fault(with("content", AvroValue::Other));
    assert_eq!(e.fault, Fault::NotAnInteger);
    let e = manifest_fault(with("partitions", AvroValue::Int(2)));
    assert_eq!((e.fault, e.subject.as_str()), (Fault::NotAnArray, "partitions"));
    let e = manifest_fault(with("partitions", AvroValue::Array(vec![AvroValue::Int(1)])));
    assert_eq!(e.fault, Fault::NotAnObject);
    let e = manifest_fault(with("key_metadata", AvroValue::Text("k".to_string())));
    assert_eq!((e.fault, e.kind()), (Fault::NotBytes, ErrorKind::Shape));
    let e = FieldSummaryV2::deserialize(&AvroValue::Record(vec![(
        "contains_null".to_string(),
        AvroValue::Int(0),
    )]))
    .unwrap_err();
    assert_eq!((e.fault, e.subject.as_str()), (Fault::NotABoolean, "contains_null"));
    let nested = AvroValue::Union(1, Box::new(AvroValue::Union(1, Box::new(AvroValue::Int(1)))));
    assert_eq!(manifest_fault(with("added_files_count", nested)).fault, Fault::NotAnInteger);
}

#[test]
fn a_container_file_needs_a_schema_and_records_that_fit_it() {
    let e = parse_schema("{").unwrap_err();
    assert_eq!((e.fault, e.kind()), (Fault::InvalidSchema, ErrorKind::Malformed));
    let schema = ManifestListV2::avro_schema().unwrap();
    let e = write_records(&schema, &vec![AvroValue::Int(3)]).unwrap_err();
    assert_eq!((e.fault, e.kind()), (Fault::Unwritable, ErrorKind::Malformed));
    let e = write_records(&schema, &vec![with("content", AvroValue::Other)]).unwrap_err();
    assert_eq!(e.fault, Fault::Unwritable);
    assert!(write_records(&schema, &vec![]).is_ok());
}

#[test]
fn the_first_error_in_the_order_of_the_fields_is_reported() {
    check::<PartitionSpec>(
        r#"{"fields": 7, "spec-id": "x"}"#,
        Fault::NotAnInteger,
        ErrorKind::Shape,
        "spec-id",
    );
    check::<PartitionSpec>(
        r#"{"spec-id": 1, "fields": [
            {"source-id": 1, "field-id": 2, "name": "a", "transform": "bucket[x]"},
            {"source-id": "y"}]}"#,
        Fault::BucketFormat,
        ErrorKind::FormatString,
        "bucket[x]",
    );
}
