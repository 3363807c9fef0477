use rustberg::codec::{from_text, to_text, Codec};
use rustberg::error::CodecError;
use rustberg::partition_spec::{PartitionField, PartitionSpec, Transform};

fn from_str<T: Codec>(text: &str) -> Result<T, CodecError> {
    from_text::<T>(text)
}

fn to_string<T: Codec>(value: &T) -> Result<String, CodecError> {
    Ok(to_text::<T>(value))
}

#[test]
fn test_bucket_transform_deserialize_fails_on_incorrect_format() {
    let data = r#""bucket(1)""#;
    let transform: Result<Transform, _> = from_str(data);

    assert!(transform.is_err())
}

#[test]
fn test_bucket_transform_deserialize_fails_on_incorrect_bucket_number() {
    let data = r#""bucket[a1]""#;
    let transform: Result<Transform, _> = from_str(data);

    assert!(transform.is_err())
}

#[test]
fn test_bucket_transform_deserialize() {
    let data = r#""bucket[42]""#;
    let transform = from_str(data).unwrap();

    assert_eq!(Transform::Bucket(42), transform);
}

#[test]
fn test_truncate_transform_deserialize_fails_on_incorrect_format() {
    let data = r#""truncate(1)""#;
    let transform: Result<Transform, _> = from_str(data);

    assert!(transform.is_err())
}

#[test]
fn test_truncate_transform_deserialize_fails_on_incorrect_bucket_number() {
    let data = r#""truncate[a1]""#;
    let transform: Result<Transform, _> = from_str(data);

    assert!(transform.is_err())
}

#[test]
fn test_truncate_transform_deserialize() {
    let data = r#""truncate[42]""#;
    let transform = from_str(data).unwrap();

    assert_eq!(Transform::Truncate(42), transform);
}

#[test]
fn test_other_transform_enum_variants() {
    let variants = [
        r#""identity""#,
        r#""year""#,
        r#""month""#,
        r#""day""#,
        r#""hour""#,
    ];
    let transforms = variants.map(|variant| {
        from_str::<Transform>(variant)
            .expect(&format!("Failed for variant: {}", variant))
    });
    assert_eq!(
        [
            Transform::Identity,
            Transform::Year,
            Transform::Month,
            Transform::Day,
            Transform::Hour
        ],
        transforms
    )
}

#[test]
fn test_transform_serde_roundtrip() {
    let transforms = [
        Transform::Identity,
        Transform::Year,
        Transform::Month,
        Transform::Day,
        Transform::Hour,
        Transform::Bucket(32),
        Transform::Truncate(42),
    ];

    for transform in transforms {
        let ser = to_string(&transform)
            .expect(&format!("Serialization failed for {:?}", &transform));
        let rt_transform = from_str::<Transform>(&ser).expect(&format!(
            "Deserializion of serialized transform {:?}, {} failed",
            &transform, ser
        ));
        assert_eq!(transform, rt_transform);
    }
}

#[test]
fn test_partition_spec_deserialize() {
    let partition_spec_json_str = r#"
    {
        "spec-id": 0,
        "fields": [
            {
                "source-id": 4,
                "field-id": 1000,
                "name": "ts_day",
                "transform": "day"
            },
            {
                "source-id": 1,
                "field-id": 1001,
                "name": "id_bucket",
                "transform": "bucket[16]"
            }
        ]
    }
    "#;

    let deserialized_partition_spec: PartitionSpec =
        from_str(partition_spec_json_str).unwrap();
    let expected_partition_spec = PartitionSpec {
        spec_id: 0,
        fields: vec![
            PartitionField {
                source_id: 4,
                field_id: 1000,
                name: "ts_day".to_string(),
                transform: Transform::Day,
            },
            PartitionField {
                source_id: 1,
                field_id: 1001,
                name: "id_bucket".to_string(),
                transform: Transform::Bucket(16),
            },
        ],
    };

    assert_eq!(deserialized_partition_spec, expected_partition_spec);
}

#[test]
fn test_partition_spec_serde_roundtrip() {
    let spec = PartitionSpec {
        spec_id: 0,
        fields: vec![
            PartitionField {
                source_id: 4,
                field_id: 1000,
                name: "ts_day".to_string(),
                transform: Transform::Day,
            },
            PartitionField {
                source_id: 1,
                field_id: 1001,
                name: "id_truncate".to_string(),
                transform: Transform::Truncate(16),
            },
        ],
    };

    let serialized = to_string(&spec).unwrap();
    let deserialized: PartitionSpec = from_str(&serialized).unwrap();
    assert_eq!(spec, deserialized);
}
