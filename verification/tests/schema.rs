use rustberg::codec::{from_text, to_text, Codec};
use rustberg::error::CodecError;
use rustberg::schema::{
    IcebergSchemaV2, IcebergType, ListType, MapType, PrimitiveType, StructField, StructType,
};

fn from_str<T: Codec>(text: &str) -> Result<T, CodecError> {
    from_text::<T>(text)
}

fn to_string<T: Codec>(value: &T) -> Result<String, CodecError> {
    Ok(to_text::<T>(value))
}

#[test]
fn test_fixed_type_deser_fails_on_incorrect_format() {
    let data = [r#""fixed(1)"""#, r#""fixed[a]""#];
    for datum in data {
        let iceberg_type = from_str::<PrimitiveType>(datum);
        assert!(iceberg_type.is_err())
    }
}

#[test]
fn test_decimal_type_deser_fails_on_incorrect_format() {
    let data = [r#""decimal(1)"""#, r#""decimal[40,2]""#];
    for datum in data {
        let iceberg_type = from_str::<PrimitiveType>(datum);
        assert!(iceberg_type.is_err())
    }
}

#[test]
fn test_fixed_type_deser() {
    let data = [r#""fixed[1]""#, r#""fixed[400]""#];
    let iceberg_types = data.map(|datum| {
        from_str::<PrimitiveType>(datum)
            .expect(&format!("Failed for variant {}", datum))
    });
    assert_eq!(
        [PrimitiveType::Fixed(1), PrimitiveType::Fixed(400)],
        iceberg_types
    )
}

#[test]
fn test_decimal_type_deser() {
    let data = [r#""decimal(1, 20)""#, r#""decimal(38, 2)""#];
    let iceberg_types = data.map(|datum| {
        from_str::<PrimitiveType>(datum)
            .expect(&format!("Failed for variant {}", datum))
    });
    assert_eq!(
        [
            PrimitiveType::Decimal {
                precision: 1,
                scale: 20
            },
            PrimitiveType::Decimal {
                precision: 38,
                scale: 2
            }
        ],
        iceberg_types
    )
}

#[test]
fn test_fixed_and_decimal_type_serde_roundtrip() {
    let iceberg_types = [
        PrimitiveType::Decimal {
            precision: 1,
            scale: 20,
        },
        PrimitiveType::Decimal {
            precision: 38,
            scale: 2,
        },
        PrimitiveType::Fixed(1),
        PrimitiveType::Fixed(400),
    ];

    for iceberg_type in iceberg_types {
        let ser = to_string(&iceberg_type)
            .expect(&format!("Failed to serialize {:?}", iceberg_type));
        let deser: PrimitiveType =
            from_str(&ser).expect(&format!("Failed to deser {:?}", ser));
        assert_eq!(iceberg_type, deser);
    }
}

#[test]
fn test_primitive_types_deser() {
    let data = [
        r#""boolean""#,
        r#""int""#,
        r#""long""#,
        r#""float""#,
        r#""double""#,
        r#""date""#,
        r#""time""#,
        r#""timestamp""#,
        r#""timestamptz""#,
        r#""string""#,
        r#""uuid""#,
        r#""binary""#,
    ];

    let iceberg_types = data.map(|datum| {
        from_str::<PrimitiveType>(datum)
            .expect(&format!("Failed for variant {}", datum))
    });

    assert_eq!(
        [
            PrimitiveType::Boolean,
            PrimitiveType::Int,
            PrimitiveType::Long,
            PrimitiveType::Float,
            PrimitiveType::Double,
            PrimitiveType::Date,
            PrimitiveType::Time,
            PrimitiveType::Timestamp,
            PrimitiveType::Timestamptz,
            PrimitiveType::String,
            PrimitiveType::Uuid,
            PrimitiveType::Binary
        ],
        iceberg_types
    );
}

#[test]
fn test_primitive_types_serde_roundtrip() {
    let iceberg_types = [
        PrimitiveType::Boolean,
        PrimitiveType::Int,
        PrimitiveType::Long,
        PrimitiveType::Float,
        PrimitiveType::Double,
        PrimitiveType::Date,
        PrimitiveType::Time,
        PrimitiveType::Timestamp,
        PrimitiveType::Timestamptz,
        PrimitiveType::String,
        PrimitiveType::Uuid,
        PrimitiveType::Binary,
    ];

    for iceberg_type in iceberg_types {
        let ser = to_string(&iceberg_type)
            .expect(&format!("Failed to serialize {:?}", iceberg_type));
        let deser: PrimitiveType =
            from_str(&ser).expect(&format!("Failed to deser {:?}", ser));
        assert_eq!(iceberg_type, deser);
    }
}

#[test]
fn test_struct_deserialize() {
    let data = r#"
    {
      "type": "struct",
      "fields": [ {
        "id": 1,
        "name": "id",
        "required": true,
        "type": "uuid",
        "initial-default": "0db3e2a8-9d1d-42b9-aa7b-74ebe558dceb",
        "write-default": "ec5911be-b0a7-458c-8438-c9a3e53cffae"
      }, {
        "id": 2,
        "name": "list_data",
        "required": false,
        "type": {
          "type": "list",
          "element-id": 3,
          "element-required": true,
          "element": "string" 
        }
      }, {
        "id": 3,
        "name": "map_data",
        "required": true,
        "type": {
          "type": "map",
          "key-id": 4,
          "key": "decimal(30, 20)",
          "value-id": 5,
          "value-required": false,
          "value": "double"
        }
      }, {
        "id": 4,
        "name": "struct_data",
        "required": true,
        "type": {
              "type": "struct",
              "fields": [ {
                "id": 1,
                "name": "id",
                "required": true,
                "type": "long"
              }, {
                "id": 2,
                "name": "list_fixed",
                "required": false,
                "type": {
                  "type": "list",
                  "element-id": 3,
                  "element-required": true,
                  "element": "fixed[400]" 
                }
              }]
        }
      } ]
    }
    "#;

    let deser: IcebergType = from_str(data).unwrap();
    assert_eq!(
        IcebergType::Struct(StructType {
            fields: vec![
                StructField {
                    id: 1,
                    name: "id".to_string(),
                    required: true,
                    field_type: IcebergType::Primitive(PrimitiveType::Uuid),
                    doc: None,
                    initial_default: Some("0db3e2a8-9d1d-42b9-aa7b-74ebe558dceb".to_string()),
                    write_default: Some("ec5911be-b0a7-458c-8438-c9a3e53cffae".to_string())
                },
                StructField {
                    id: 2,
                    name: "list_data".to_string(),
                    required: false,
                    field_type: IcebergType::List(ListType {
                        element_id: 3,
                        element_required: true,
                        element: Box::new(IcebergType::Primitive(PrimitiveType::String))
                    }),
                    doc: None,
                    initial_default: None,
                    write_default: None
                },
                StructField {
                    id: 3,
                    name: "map_data".to_string(),
                    required: true,
                    field_type: IcebergType::Mapping(MapType {
                        key_id: 4,
                        key: Box::new(IcebergType::Primitive(PrimitiveType::Decimal {
                            precision: 30,
                            scale: 20
                        })),
                        value_id: 5,
                        value_required: false,
                        value: Box::new(IcebergType::Primitive(PrimitiveType::Double))
                    }),
                    doc: None,
                    initial_default: None,
                    write_default: None
                },
                StructField {
                    id: 4,
                    name: "struct_data".to_string(),
                    required: true,
                    field_type: IcebergType::Struct(StructType {
                        fields: vec![
                            StructField {
                                id: 1,
                                name: "id".to_string(),
                                required: true,
                                field_type: IcebergType::Primitive(PrimitiveType::Long),
                                doc: None,
                                initial_default: None,
                                write_default: None
                            },
                            StructField {
                                id: 2,
                                name: "list_fixed".to_string(),
                                required: false,
                                field_type: IcebergType::List(ListType {
                                    element_id: 3,
                                    element_required: true,
                                    element: Box::new(IcebergType::Primitive(
                                        PrimitiveType::Fixed(400)
                                    ))
                                }),
                                doc: None,
                                initial_default: None,
                                write_default: None
                            },
                        ]
                    }),
                    doc: None,
                    initial_default: None,
                    write_default: None
                },
            ]
        }),
        deser
    );
}

#[test]
fn test_iceberg_struct_serde_roundtrip() {
    let ib_struct = IcebergType::Struct(StructType {
        fields: vec![
            StructField {
                id: 1,
                name: "id".to_string(),
                required: true,
                field_type: IcebergType::Primitive(PrimitiveType::Uuid),
                doc: None,
                initial_default: Some("0db3e2a8-9d1d-42b9-aa7b-74ebe558dceb".to_string()),
                write_default: Some("ec5911be-b0a7-458c-8438-c9a3e53cffae".to_string()),
            },
            StructField {
                id: 2,
                name: "list_data".to_string(),
                required: false,
                field_type: IcebergType::List(ListType {
                    element_id: 3,
                    element_required: true,
                    element: Box::new(IcebergType::Primitive(PrimitiveType::String)),
                }),
                doc: None,
                initial_default: None,
                write_default: None,
            },
            StructField {
                id: 3,
                name: "map_data".to_string(),
                required: true,
                field_type: IcebergType::Mapping(MapType {
                    key_id: 4,
                    key: Box::new(IcebergType::Primitive(PrimitiveType::Decimal {
                        precision: 30,
                        scale: 20,
                    })),
                    value_id: 5,
                    value_required: false,
                    value: Box::new(IcebergType::Primitive(PrimitiveType::Double)),
                }),
                doc: None,
                initial_default: None,
                write_default: None,
            },
            StructField {
                id: 4,
                name: "struct_data".to_string(),
                required: true,
                field_type: IcebergType::Struct(StructType {
                    fields: vec![
                        StructField {
                            id: 1,
                            name: "id".to_string(),
                            required: true,
                            field_type: IcebergType::Primitive(PrimitiveType::Long),
                            doc: None,
                            initial_default: None,
                            write_default: None,
                        },
                        StructField {
                            id: 2,
                            name: "list_fixed".to_string(),
                            required: false,
                            field_type: IcebergType::List(ListType {
                                element_id: 3,
                                element_required: true,
                                element: Box::new(IcebergType::Primitive(
                                    PrimitiveType::Fixed(400),
                                )),
                            }),
                            doc: None,
                            initial_default: None,
                            write_default: None,
                        },
                    ],
                }),
                doc: None,
                initial_default: None,
                write_default: None,
            },
        ],
    });

    let ser = to_string(&ib_struct).unwrap();
    let deser: IcebergType = from_str(&ser).unwrap();
    assert_eq!(ib_struct, deser);
}

#[test]
fn test_iceberg_schema_v2() {
    let data = r#"
    {
      "schema-id": 123,
      "identifier-field-ids": [1, 2, 3],
      "type": "struct",
      "fields": [ {
        "id": 1,
        "name": "id",
        "required": true,
        "type": "uuid",
        "initial-default": "0db3e2a8-9d1d-42b9-aa7b-74ebe558dceb",
        "write-default": "ec5911be-b0a7-458c-8438-c9a3e53cffae"
      }, {
        "id": 2,
        "name": "list_data",
        "required": false,
        "type": {
          "type": "list",
          "element-id": 3,
          "element-required": true,
          "element": "string" 
        }
      }, {
        "id": 3,
        "name": "map_data",
        "required": true,
        "type": {
          "type": "map",
          "key-id": 4,
          "key": "decimal(30,20)",
          "value-id": 5,
          "value-required": false,
          "value": "double"
        }
      }, {
        "id": 4,
        "name": "struct_data",
        "required": true,
        "type": {
              "type": "struct",
              "fields": [ {
                "id": 1,
                "name": "id",
                "required": true,
                "type": "long"
              }, {
                "id": 2,
                "name": "list_fixed",
                "required": false,
                "type": {
                  "type": "list",
                  "element-id": 3,
                  "element-required": true,
                  "element": "fixed[400]" 
                }
              }]
        }
      } ]
    }
    "#;

    let ib_struct = StructType {
        fields: vec![
            StructField {
                id: 1,
                name: "id".to_string(),
                required: true,
                field_type: IcebergType::Primitive(PrimitiveType::Uuid),
                doc: None,
                initial_default: Some("0db3e2a8-9d1d-42b9-aa7b-74ebe558dceb".to_string()),
                write_default: Some("ec5911be-b0a7-458c-8438-c9a3e53cffae".to_string()),
            },
            StructField {
                id: 2,
                name: "list_data".to_string(),
                required: false,
                field_type: IcebergType::List(ListType {
                    element_id: 3,
                    element_required: true,
                    element: Box::new(IcebergType::Primitive(PrimitiveType::String)),
                }),
                doc: None,
                initial_default: None,
                write_default: None,
            },
            StructField {
                id: 3,
                name: "map_data".to_string(),
                required: true,
                field_type: IcebergType::Mapping(MapType {
                    key_id: 4,
                    key: Box::new(IcebergType::Primitive(PrimitiveType::Decimal {
                        precision: 30,
                        scale: 20,
                    })),
                    value_id: 5,
                    value_required: false,
                    value: Box::new(IcebergType::Primitive(PrimitiveType::Double)),
                }),
                doc: None,
                initial_default: None,
                write_default: None,
            },
            StructField {
                id: 4,
                name: "struct_data".to_string(),
                required: true,
                field_type: IcebergType::Struct(StructType {
                    fields: vec![
                        StructField {
                            id: 1,
                            name: "id".to_string(),
                            required: true,
                            field_type: IcebergType::Primitive(PrimitiveType::Long),
                            doc: None,
                            initial_default: None,
                            write_default: None,
                        },
                        StructField {
                            id: 2,
                            name: "list_fixed".to_string(),
                            required: false,
                            field_type: IcebergType::List(ListType {
                                element_id: 3,
                                element_required: true,
                                element: Box::new(IcebergType::Primitive(
                                    PrimitiveType::Fixed(400),
                                )),
                            }),
                            doc: None,
                            initial_default: None,
                            write_default: None,
                        },
                    ],
                }),
                doc: None,
                initial_default: None,
                write_default: None,
            },
        ],
    };

    let deser: IcebergSchemaV2 = from_str(data).unwrap();
    assert_eq!(
        IcebergSchemaV2 {
            schema_id: 123,
            identifier_field_ids: Some(vec![1, 2, 3]),
            schema: ib_struct
        },
        deser
    );
}

#[test]
fn test_iceberg_schema_v2_serde_roundtrip() {
    let ib_struct = StructType {
        fields: vec![
            StructField {
                id: 1,
                name: "id".to_string(),
                required: true,
                field_type: IcebergType::Primitive(PrimitiveType::Uuid),
                doc: None,
                initial_default: Some("0db3e2a8-9d1d-42b9-aa7b-74ebe558dceb".to_string()),
                write_default: Some("ec5911be-b0a7-458c-8438-c9a3e53cffae".to_string()),
            },
            StructField {
                id: 2,
                name: "list_data".to_string(),
                required: false,
                field_type: IcebergType::List(ListType {
                    element_id: 3,
                    element_required: true,
                    element: Box::new(IcebergType::Primitive(PrimitiveType::String)),
                }),
                doc: None,
                initial_default: None,
                write_default: None,
            },
            StructField {
                id: 3,
                name: "map_data".to_string(),
                required: true,
                field_type: IcebergType::Mapping(MapType {
                    key_id: 4,
                    key: Box::new(IcebergType::Primitive(PrimitiveType::Decimal {
                        precision: 30,
                        scale: 20,
                    })),
                    value_id: 5,
                    value_required: false,
                    value: Box::new(IcebergType::Primitive(PrimitiveType::Double)),
                }),
                doc: None,
                initial_default: None,
                write_default: None,
            },
            StructField {
                id: 4,
                name: "struct_data".to_string(),
                required: true,
                field_type: IcebergType::Struct(StructType {
                    fields: vec![
                        StructField {
                            id: 1,
                            name: "id".to_string(),
                            required: true,
                            field_type: IcebergType::Primitive(PrimitiveType::Long),
                            doc: None,
                            initial_default: None,
                            write_default: None,
                        },
                        StructField {
                            id: 2,
                            name: "list_fixed".to_string(),
                            required: false,
                            field_type: IcebergType::List(ListType {
                                element_id: 3,
                                element_required: true,
                                element: Box::new(IcebergType::Primitive(
                                    PrimitiveType::Fixed(400),
                                )),
                            }),
                            doc: None,
                            initial_default: None,
                            write_default: None,
                        },
                    ],
                }),
                doc: None,
                initial_default: None,
                write_default: None,
            },
        ],
    };

    let schema = IcebergSchemaV2 {
        schema_id: 123,
        identifier_field_ids: Some(vec![1, 2, 3]),
        schema: ib_struct,
    };

    let ser = to_string(&schema).unwrap();
    let deser: IcebergSchemaV2 = from_str(&ser).unwrap();
    assert_eq!(schema, deser);
}
