use rustberg::avro::{read_records, AvroCodec, AvroValue};
use rustberg::manifest_list::{FieldSummaryV2, FileType, ManifestListV1, ManifestListV2};

const V1_PATH: &str = "file:/Users/jsiva/sw/code/rust/rustberg/test_warehouse/db1.db/db1v1table1/metadata/a3f00225-0cde-48c0-baab-b11dd79d821b-m0.avro";
const V2_PATH: &str = "file:/Users/jsiva/sw/code/rust/rustberg/test_warehouse/db1.db/db1v2table1/metadata/3e48831e-8e8e-418e-92ed-1e01e655dae2-m0.avro";

fn summaries() -> Vec<FieldSummaryV2> {
    vec![
        FieldSummaryV2 {
            contains_null: false,
            contains_nan: Some(false),
            lower_bound: Some(vec![10, 0, 0, 0]),
            upper_bound: Some(vec![12, 0, 0, 0]),
        },
        FieldSummaryV2 {
            contains_null: false,
            contains_nan: Some(false),
            lower_bound: Some(vec![81, 75, 0, 0]),
            upper_bound: Some(vec![81, 75, 0, 0]),
        },
        FieldSummaryV2 {
            contains_null: false,
            contains_nan: Some(false),
            lower_bound: Some(vec![
                116, 104, 105, 115, 32, 105, 115, 32, 97, 32, 115, 116, 114, 105, 110, 103,
            ]),
            upper_bound: Some(vec![
                116, 104, 105, 115, 32, 105, 115, 32, 97, 110, 111, 116, 104, 101, 114, 32, 115,
                116, 114, 105, 110, 103,
            ]),
        },
    ]
}

fn v1_record() -> ManifestListV1 {
    ManifestListV1 {
        manifest_path: V1_PATH.to_string(),
        manifest_length: 7827,
        partition_spec_id: 0,
        added_snapshot_id: 9164160847201777787,
        added_files_count: Some(2),
        existing_files_count: Some(0),
        deleted_files_count: Some(0),
        added_rows_count: Some(2),
        existing_rows_count: Some(0),
        deleted_rows_count: Some(0),
        partitions: Some(summaries()),
        key_metadata: None,
    }
}

fn v2_record() -> ManifestListV2 {
    ManifestListV2 {
        manifest_path: V2_PATH.to_string(),
        manifest_length: 8557,
        partition_spec_id: 0,
        content: FileType::Data,
        sequence_number: 1,
        min_sequence_number: 1,
        added_snapshot_id: 1644494390386601185,
        added_files_count: 2,
        existing_files_count: 0,
        deleted_files_count: 0,
        added_rows_count: 2,
        existing_rows_count: 0,
        deleted_rows_count: 0,
        partitions: Some(summaries()),
        key_metadata: None,
    }
}

/// The three counters of a record under the spelling that some writers use.
fn respell(value: AvroValue) -> AvroValue {
    match value {
        AvroValue::Record(fields) => AvroValue::Record(
            fields
                .into_iter()
                .map(|(name, field)| (name.replace("_files_count", "_data_files_count"), field))
                .collect(),
        ),
        other => other,
    }
}

/// A container file as such a writer makes it: the schema and the records
/// spell the three counters the second way.
fn file_of_other_writer(schema: &str, record: AvroValue) -> Vec<u8> {
    let schema = schema.replace("_files_count", "_data_files_count");
    let schema = apache_avro::Schema::parse_str(&schema).unwrap();
    let mut writer = apache_avro::Writer::new(&schema, Vec::new()).unwrap();
    writer.append_value_ref(&respell(record).to_value().unwrap()).unwrap();
    writer.into_inner().unwrap()
}

fn manifest_v1() -> Vec<u8> {
    file_of_other_writer(ManifestListV1::raw_avro_schema(), v1_record().serialize())
}

fn manifest_v2() -> Vec<u8> {
    file_of_other_writer(ManifestListV2::raw_avro_schema(), v2_record().serialize())
}

#[test]
fn test_reading_v1_manifest_file_into_v2() {
    let v1_contents = manifest_v1();
    let records = ManifestListV2::read_all(v1_contents.as_slice()).unwrap();
    assert_eq!(records.len(), 1);
    for result in records {
        assert_eq!(
            ManifestListV2 {
                manifest_path: V1_PATH.to_string(),
                manifest_length: 7827,
                partition_spec_id: 0,
                content: FileType::Data,
                sequence_number: 0,
                min_sequence_number: 0,
                added_snapshot_id: 9164160847201777787,
                added_files_count: 2,
                existing_files_count: 0,
                deleted_files_count: 0,
                added_rows_count: 2,
                existing_rows_count: 0,
                deleted_rows_count: 0,
                partitions: Some(summaries()),
                key_metadata: None,
            },
            result
        )
    }
}

#[test]
fn test_reading_v2_manifest_file_into_v2() {
    let v2_contents = manifest_v2();
    let records = ManifestListV2::read_all(v2_contents.as_slice()).unwrap();
    assert_eq!(records.len(), 1);
    for result in records {
        assert_eq!(
            ManifestListV2 {
                manifest_path: V2_PATH.to_string(),
                manifest_length: 8557,
                partition_spec_id: 0,
                content: FileType::Data,
                sequence_number: 1,
                min_sequence_number: 1,
                added_snapshot_id: 1644494390386601185,
                added_files_count: 2,
                existing_files_count: 0,
                deleted_files_count: 0,
                added_rows_count: 2,
                existing_rows_count: 0,
                deleted_rows_count: 0,
                partitions: Some(summaries()),
                key_metadata: None,
            },
            result
        )
    }
}

#[test]
fn test_reading_v1_manifest_file_into_v1() {
    let v1_contents = manifest_v1();
    let records = ManifestListV1::read_all(v1_contents.as_slice()).unwrap();
    assert_eq!(records.len(), 1);
    for result in records {
        assert_eq!(
            ManifestListV1 {
                manifest_path: V1_PATH.to_string(),
                manifest_length: 7827,
                partition_spec_id: 0,
                added_snapshot_id: 9164160847201777787,
                added_files_count: Some(2),
                existing_files_count: Some(0),
                deleted_files_count: Some(0),
                added_rows_count: Some(2),
                existing_rows_count: Some(0),
                deleted_rows_count: Some(0),
                partitions: Some(summaries()),
                key_metadata: None,
            },
            result
        )
    }
}

#[test]
fn test_manifest_list_v2_roundtrip() {
    let v2_manifest_list = v2_record();

    let encoded = ManifestListV2::write_all(&vec![v2_manifest_list.clone()]).unwrap();
    let records = ManifestListV2::read_all(encoded.as_slice()).unwrap();
    assert_eq!(records.len(), 1);
    for result in records {
        assert_eq!(v2_manifest_list, result);
    }
}

#[test]
fn test_manifest_list_v1_roundtrip() {
    let v1_manifest_list = v1_record();

    let encoded = ManifestListV1::write_all(&vec![v1_manifest_list.clone()]).unwrap();
    let records = ManifestListV1::read_all(encoded.as_slice()).unwrap();
    assert_eq!(records.len(), 1);
    for result in records {
        assert_eq!(v1_manifest_list, result);
    }
}

#[test]
fn both_schemas_are_accepted_by_the_container_format() {
    assert!(ManifestListV1::avro_schema().is_ok());
    assert!(ManifestListV2::avro_schema().is_ok());
    assert!(ManifestListV2::raw_avro_schema().contains("\"field_id\": 517"));
    assert!(!ManifestListV1::raw_avro_schema().contains("\"field_id\": 517"));
}

#[test]
fn a_file_written_for_version_1_holds_unions_for_its_counters() {
    let encoded = ManifestListV1::write_all(&vec![v1_record()]).unwrap();
    let records = read_records(encoded.as_slice()).unwrap();
    assert_eq!(records.len(), 1);
    match &records[0] {
        AvroValue::Record(fields) => {
            let (name, value) = &fields[4];
            assert_eq!(name, "added_files_count");
            assert_eq!(value, &AvroValue::Union(1, Box::new(AvroValue::Int(2))));
            assert_eq!(fields.len(), 12);
        }
        other => panic!("no record: {:?}", other),
    }
}

#[test]
fn bytes_that_are_no_container_file_are_refused() {
    let e = ManifestListV2::read_all(b"no container").unwrap_err();
    assert_eq!(e.fault, rustberg::error::Fault::Container);
    assert_eq!(e.kind(), rustberg::error::ErrorKind::Malformed);
    let mut cut = ManifestListV2::write_all(&vec![v2_record()]).unwrap();
    cut.truncate(cut.len() - 20);
    assert!(ManifestListV2::read_all(cut.as_slice()).is_err());
}

#[test]
fn a_value_goes_to_the_outside_form_and_back() {
    let value = AvroValue::Record(vec![
        ("a".to_string(), AvroValue::Union(1, Box::new(AvroValue::Long(7)))),
        ("b".to_string(), AvroValue::Array(vec![AvroValue::Bytes(vec![1]), AvroValue::Null])),
        ("c".to_string(), AvroValue::Text("t".to_string())),
        ("d".to_string(), AvroValue::Boolean(true)),
        ("e".to_string(), AvroValue::Int(-1)),
    ]);
    let outside = value.to_value().unwrap();
    match &outside {
        apache_avro::types::Value::Record(fields) => {
            assert_eq!(fields.len(), 5);
            assert_eq!(
                fields[0],
                (
                    "a".to_string(),
                    apache_avro::types::Value::Union(
                        1,
                        Box::new(apache_avro::types::Value::Long(7))
                    )
                )
            );
            assert_eq!(fields[4].1, apache_avro::types::Value::Int(-1));
        }
        other => panic!("no record: {:?}", other),
    }
    assert_eq!(AvroValue::from_value(&outside), value);
}

#[test]
fn a_value_of_another_kind_is_kept_as_other_and_is_not_written() {
    let outside = apache_avro::types::Value::Array(vec![
        apache_avro::types::Value::Date(3),
        apache_avro::types::Value::Enum(0, "x".to_string()),
        apache_avro::types::Value::Fixed(1, vec![0]),
        apache_avro::types::Value::Long(3),
    ]);
    let value = AvroValue::from_value(&outside);
    assert_eq!(
        value,
        AvroValue::Array(vec![
            AvroValue::Other,
            AvroValue::Other,
            AvroValue::Other,
            AvroValue::Long(3)
        ])
    );
    assert!(value.to_value().is_none());
    assert!(AvroValue::Union(0, Box::new(AvroValue::Other)).to_value().is_none());
    assert!(AvroValue::Record(vec![("a".to_string(), AvroValue::Other)]).to_value().is_none());
}

#[test]
fn the_same_text_gives_the_same_schema() {
    let first = ManifestListV2::avro_schema().unwrap();
    let second = ManifestListV2::avro_schema().unwrap();
    assert_eq!(first, second);
    assert_eq!(
        first,
        rustberg::avro::parse_schema(ManifestListV2::raw_avro_schema()).unwrap()
    );
    assert_ne!(first, ManifestListV1::avro_schema().unwrap());
}

#[test]
fn what_is_found_in_a_written_file_does_not_depend_on_the_call() {
    let records = vec![v2_record().serialize(), v2_record().serialize()];
    let schema = ManifestListV2::avro_schema().unwrap();
    let first = rustberg::avro::write_records(&schema, &records).unwrap();
    let second = rustberg::avro::write_records(&schema, &records).unwrap();
    assert_eq!(first.len(), second.len());
    assert_eq!(read_records(&first).unwrap(), read_records(&second).unwrap());
    assert_eq!(read_records(&first).unwrap(), records);
    let under_version_1 = ManifestListV1::avro_schema().unwrap();
    assert!(rustberg::avro::write_records(&under_version_1, &records).is_err());
}
