use rustberg::codec::{from_text, to_text, Codec};
use rustberg::error::CodecError;
use rustberg::table_metadata::TableMetadata;

fn from_str<T: Codec>(text: &str) -> Result<T, CodecError> {
    from_text::<T>(text)
}

fn to_string<T: Codec>(value: &T) -> Result<String, CodecError> {
    Ok(to_text::<T>(value))
}

#[test]
fn test_v1_metadata() {
    let example_v1_metadata = r#"
    {
      "format-version" : 1,
      "table-uuid" : "5ff386a7-6dfc-4519-9a24-99e10c212081",
      "location" : "file:/home/someone/sw/code/rust/rustberg/test_warehouse/db1.db/db1v1table1",
      "last-updated-ms" : 1665194853343,
      "last-column-id" : 12,
      "schema" : {
        "type" : "struct",
        "schema-id" : 0,
        "fields" : [ {
          "id" : 1,
          "name" : "byte0",
          "required" : false,
          "type" : "int",
          "doc" : "byte data type column, rev 0"
        }, {
          "id" : 2,
          "name" : "bool0",
          "required" : false,
          "type" : "boolean",
          "doc" : "boolean data type column, rev 0"
        }, {
          "id" : 3,
          "name" : "short0",
          "required" : false,
          "type" : "int",
          "doc" : "short data type column, rev 0"
        }, {
          "id" : 4,
          "name" : "int0",
          "required" : false,
          "type" : "int",
          "doc" : "integer data type column, rev 0"
        }, {
          "id" : 5,
          "name" : "long0",
          "required" : false,
          "type" : "long",
          "doc" : "long data type column, rev 0"
        }, {
          "id" : 6,
          "name" : "float0",
          "required" : false,
          "type" : "float",
          "doc" : "float data type column, rev 0"
        }, {
          "id" : 7,
          "name" : "double0",
          "required" : false,
          "type" : "double",
          "doc" : "double data type column, rev 0"
        }, {
          "id" : 8,
          "name" : "date0",
          "required" : false,
          "type" : "date",
          "doc" : "date data type column, rev 0"
        }, {
          "id" : 9,
          "name" : "timestamp0",
          "required" : false,
          "type" : "timestamptz",
          "doc" : "timestamp data type column, rev 0"
        }, {
          "id" : 10,
          "name" : "string0",
          "required" : false,
          "type" : "string",
          "doc" : "string data type column, rev 0"
        }, {
          "id" : 11,
          "name" : "binary0",
          "required" : false,
          "type" : "binary",
          "doc" : "binary data type column, rev 0"
        }, {
          "id" : 12,
          "name" : "decimal0",
          "required" : false,
          "type" : "decimal(10, 0)",
          "doc" : "decimal data type column, rev 0"
        } ]
      },
      "current-schema-id" : 0,
      "schemas" : [ {
        "type" : "struct",
        "schema-id" : 0,
        "fields" : [ {
          "id" : 1,
          "name" : "byte0",
          "required" : false,
          "type" : "int",
          "doc" : "byte data type column, rev 0"
        }, {
          "id" : 2,
          "name" : "bool0",
          "required" : false,
          "type" : "boolean",
          "doc" : "boolean data type column, rev 0"
        }, {
          "id" : 3,
          "name" : "short0",
          "required" : false,
          "type" : "int",
          "doc" : "short data type column, rev 0"
        }, {
          "id" : 4,
          "name" : "int0",
          "required" : false,
          "type" : "int",
          "doc" : "integer data type column, rev 0"
        }, {
          "id" : 5,
          "name" : "long0",
          "required" : false,
          "type" : "long",
          "doc" : "long data type column, rev 0"
        }, {
          "id" : 6,
          "name" : "float0",
          "required" : false,
          "type" : "float",
          "doc" : "float data type column, rev 0"
        }, {
          "id" : 7,
          "name" : "double0",
          "required" : false,
          "type" : "double",
          "doc" : "double data type column, rev 0"
        }, {
          "id" : 8,
          "name" : "date0",
          "required" : false,
          "type" : "date",
          "doc" : "date data type column, rev 0"
        }, {
          "id" : 9,
          "name" : "timestamp0",
          "required" : false,
          "type" : "timestamptz",
          "doc" : "timestamp data type column, rev 0"
        }, {
          "id" : 10,
          "name" : "string0",
          "required" : false,
          "type" : "string",
          "doc" : "string data type column, rev 0"
        }, {
          "id" : 11,
          "name" : "binary0",
          "required" : false,
          "type" : "binary",
          "doc" : "binary data type column, rev 0"
        }, {
          "id" : 12,
          "name" : "decimal0",
          "required" : false,
          "type" : "decimal(10, 0)",
          "doc" : "decimal data type column, rev 0"
        } ]
      } ],
      "partition-spec" : [ {
        "name" : "byte0_bucket",
        "transform" : "bucket[16]",
        "source-id" : 1,
        "field-id" : 1000
      }, {
        "name" : "timestamp0_day",
        "transform" : "day",
        "source-id" : 9,
        "field-id" : 1001
      }, {
        "name" : "string0",
        "transform" : "identity",
        "source-id" : 10,
        "field-id" : 1002
      } ],
      "default-spec-id" : 0,
      "partition-specs" : [ {
        "spec-id" : 0,
        "fields" : [ {
          "name" : "byte0_bucket",
          "transform" : "bucket[16]",
          "source-id" : 1,
          "field-id" : 1000
        }, {
          "name" : "timestamp0_day",
          "transform" : "day",
          "source-id" : 9,
          "field-id" : 1001
        }, {
          "name" : "string0",
          "transform" : "identity",
          "source-id" : 10,
          "field-id" : 1002
        } ]
      } ],
      "last-partition-id" : 1002,
      "default-sort-order-id" : 0,
      "sort-orders" : [ {
        "order-id" : 0,
        "fields" : [ ]
      } ],
      "properties" : {
        "owner" : "someone"
      },
      "current-snapshot-id" : 935718495670614874,
      "refs" : {
        "main" : {
          "snapshot-id" : 935718495670614874,
          "type" : "branch"
        }
      },
      "snapshots" : [ {
        "snapshot-id" : 935718495670614874,
        "timestamp-ms" : 1665194853343,
        "summary" : {
          "operation" : "append",
          "spark.app.id" : "local-1665194845087",
          "added-data-files" : "2",
          "added-records" : "2",
          "added-files-size" : "7818",
          "changed-partition-count" : "2",
          "total-records" : "2",
          "total-files-size" : "7818",
          "total-data-files" : "2",
          "total-delete-files" : "0",
          "total-position-deletes" : "0",
          "total-equality-deletes" : "0"
        },
        "manifest-list" : "file:/home/someone/sw/code/rust/rustberg/test_warehouse/db1.db/db1v1table1/metadata/snap-935718495670614874-1-83e34c0e-1bfd-4484-97c9-5a413da77b41.avro",
        "schema-id" : 0
      } ],
      "snapshot-log" : [ {
        "timestamp-ms" : 1665194853343,
        "snapshot-id" : 935718495670614874
      } ],
      "metadata-log" : [ {
        "timestamp-ms" : 1665194848817,
        "metadata-file" : "file:/home/someone/sw/code/rust/rustberg/test_warehouse/db1.db/db1v1table1/metadata/00000-fb84b7f0-e72d-48e0-91e1-f0ee7087f471.metadata.json"
      } ]
    }
    "#;

    let v1_metadata: TableMetadata =
        from_str(example_v1_metadata).expect("Unable to deserialize metadata");

    // Test roundtrip
    let v1_metadata_ser =
        to_string(&v1_metadata).expect("Serializing v1_metadata failed");
    let v1_metadata_deser = from_str(&v1_metadata_ser)
        .expect("Deserializing serialized v1_metadata failed");

    assert_eq!(v1_metadata, v1_metadata_deser);
}

#[test]
fn test_v2_metadata() {
    let example_v2_metadata = r#"
    {
      "format-version" : 2,
      "table-uuid" : "1cbafffd-0066-4eb8-9e09-b69b2f8e0d2a",
      "location" : "file:/home/someone/sw/code/rust/rustberg/test_warehouse/db1.db/db1v2table1",
      "last-sequence-number" : 1,
      "last-updated-ms" : 1665194853904,
      "last-column-id" : 12,
      "current-schema-id" : 0,
      "schemas" : [ {
        "type" : "struct",
        "schema-id" : 0,
        "fields" : [ {
          "id" : 1,
          "name" : "byte0",
          "required" : false,
          "type" : "int",
          "doc" : "byte data type column, rev 0"
        }, {
          "id" : 2,
          "name" : "bool0",
          "required" : false,
          "type" : "boolean",
          "doc" : "boolean data type column, rev 0"
        }, {
          "id" : 3,
          "name" : "short0",
          "required" : false,
          "type" : "int",
          "doc" : "short data type column, rev 0"
        }, {
          "id" : 4,
          "name" : "int0",
          "required" : false,
          "type" : "int",
          "doc" : "integer data type column, rev 0"
        }, {
          "id" : 5,
          "name" : "long0",
          "required" : false,
          "type" : "long",
          "doc" : "long data type column, rev 0"
        }, {
          "id" : 6,
          "name" : "float0",
          "required" : false,
          "type" : "float",
          "doc" : "float data type column, rev 0"
        }, {
          "id" : 7,
          "name" : "double0",
          "required" : false,
          "type" : "double",
          "doc" : "double data type column, rev 0"
        }, {
          "id" : 8,
          "name" : "date0",
          "required" : false,
          "type" : "date",
          "doc" : "date data type column, rev 0"
        }, {
          "id" : 9,
          "name" : "timestamp0",
          "required" : false,
          "type" : "timestamptz",
          "doc" : "timestamp data type column, rev 0"
        }, {
          "id" : 10,
          "name" : "string0",
          "required" : false,
          "type" : "string",
          "doc" : "string data type column, rev 0"
        }, {
          "id" : 11,
          "name" : "binary0",
          "required" : false,
          "type" : "binary",
          "doc" : "binary data type column, rev 0"
        }, {
          "id" : 12,
          "name" : "decimal0",
          "required" : false,
          "type" : "decimal(10, 0)",
          "doc" : "decimal data type column, rev 0"
        } ]
      } ],
      "default-spec-id" : 0,
      "partition-specs" : [ {
        "spec-id" : 0,
        "fields" : [ {
          "name" : "byte0_bucket",
          "transform" : "bucket[16]",
          "source-id" : 1,
          "field-id" : 1000
        }, {
          "name" : "timestamp0_day",
          "transform" : "day",
          "source-id" : 9,
          "field-id" : 1001
        }, {
          "name" : "string0",
          "transform" : "identity",
          "source-id" : 10,
          "field-id" : 1002
        } ]
      } ],
      "last-partition-id" : 1002,
      "default-sort-order-id" : 0,
      "sort-orders" : [ {
        "order-id" : 0,
        "fields" : [ ]
      } ],
      "properties" : {
        "owner" : "someone"
      },
      "current-snapshot-id" : 6627642968708327025,
      "refs" : {
        "main" : {
          "snapshot-id" : 6627642968708327025,
          "type" : "branch"
        }
      },
      "snapshots" : [ {
        "sequence-number" : 1,
        "snapshot-id" : 6627642968708327025,
        "timestamp-ms" : 1665194853904,
        "summary" : {
          "operation" : "append",
          "spark.app.id" : "local-1665194845087",
          "added-data-files" : "2",
          "added-records" : "2",
          "added-files-size" : "7818",
          "changed-partition-count" : "2",
          "total-records" : "2",
          "total-files-size" : "7818",
          "total-data-files" : "2",
          "total-delete-files" : "0",
          "total-position-deletes" : "0",
          "total-equality-deletes" : "0"
        },
        "manifest-list" : "file:/home/someone/sw/code/rust/rustberg/test_warehouse/db1.db/db1v2table1/metadata/snap-6627642968708327025-1-b49a8ca6-305a-47c6-ac6e-09acbd78ba00.avro",
        "schema-id" : 0
      } ],
      "snapshot-log" : [ {
        "timestamp-ms" : 1665194853904,
        "snapshot-id" : 6627642968708327025
      } ],
      "metadata-log" : [ {
        "timestamp-ms" : 1665194850314,
        "metadata-file" : "file:/home/someone/sw/code/rust/rustberg/test_warehouse/db1.db/db1v2table1/metadata/00000-dfb95aa3-93b3-42c4-a228-1acf61ea2305.metadata.json"
      } ]
    }
    "#;

    let v2_metadata: TableMetadata =
        from_str(example_v2_metadata).expect("Unable to deserialize metadata");

    // Test roundtrip
    let v2_metadata_ser =
        to_string(&v2_metadata).expect("Serializing v2_metadata failed");
    let v2_metadata_deser = from_str(&v2_metadata_ser)
        .expect("Deserializing serialized v2_metadata failed");

    assert_eq!(v2_metadata, v2_metadata_deser);
}
