use rustberg::codec::{from_text, Codec};
use rustberg::error::CodecError;
use rustberg::snapshot::{Operation, RefType, SnapshotRefV2, SnapshotV1, SnapshotV2, Summary};

fn from_str<T: Codec>(text: &str) -> Result<T, CodecError> {
    from_text::<T>(text)
}

#[test]
fn test_snapshot_v2() {
    let data = r#"
    {
      "snapshot-id": 3051729675574597004,
      "parent-snapshot-id": 651729675574597004,
      "sequence-number": 33,
      "timestamp-ms": 1515100955770,
      "summary": {
        "operation": "append"
      },
      "manifest-list": "s3://b/wh/.../s1.avro",
      "schema-id": 0
    }
    "#;

    let deser: SnapshotV2 = from_str(data).unwrap();
    assert_eq!(
        SnapshotV2 {
            snapshot_id: 3051729675574597004,
            parent_snapshot_id: Some(651729675574597004),
            sequence_number: 33,
            timestamp_ms: 1515100955770,
            summary: Summary {
                operation: Operation::Append,
                rest: Vec::new()
            },
            manifest_list: "s3://b/wh/.../s1.avro".to_string(),
            schema_id: Some(0),
        },
        deser
    );
}

#[test]
fn test_snapshot_v1() {
    let data = r#"
    {
      "snapshot-id": 3051729675574597004,
      "parent-snapshot-id": 651729675574597004,
      "timestamp-ms": 1515100955770,
      "manifest-list": "s3://b/wh/.../s1.avro"
    }
    "#;

    let deser: SnapshotV1 = from_str(data).unwrap();
    assert_eq!(
        SnapshotV1 {
            snapshot_id: 3051729675574597004,
            parent_snapshot_id: Some(651729675574597004),
            timestamp_ms: 1515100955770,
            summary: None,
            manifests: None,
            manifest_list: Some("s3://b/wh/.../s1.avro".to_string()),
            schema_id: None,
        },
        deser
    );
}

#[test]
fn test_snapshot_tag_ref_v2() {
    let data = r#"
    {
      "snapshot-id": 123456789000,
      "type": "tag",
      "max-ref-age-ms": 10000000
    }
    "#;

    let deser: SnapshotRefV2 = from_str(data).unwrap();
    assert_eq!(
        SnapshotRefV2 {
            snapshot_id: 123456789000,
            ref_type: RefType::Tag,
            max_ref_age_ms: Some(10000000)
        },
        deser
    );
}

#[test]
fn test_snapshot_tag_branch_v2() {
    let data = r#"
    {
      "snapshot-id": 123456789000,
      "type": "branch",
      "min-snapshots-to-keep": 2345
    }
    "#;

    let deser: SnapshotRefV2 = from_str(data).unwrap();
    assert_eq!(
        SnapshotRefV2 {
            snapshot_id: 123456789000,
            ref_type: RefType::Branch {
                min_snapshots_to_keep: Some(2345),
                max_snapshot_age_ms: None
            },
            max_ref_age_ms: None
        },
        deser
    );
}
