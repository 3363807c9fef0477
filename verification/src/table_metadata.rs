//! The table-metadata document of format versions 1 and 2, and the
//! dispatch on its `format-version`.

use vstd::prelude::*;
use crate::codec::{
    decoded_array_at, decoded_array_opt, decoded_at, decoded_object_at, decoded_object_opt,
    decoded_opt, decoded_text, deserialize_array_at, deserialize_array_opt, deserialize_at,
    deserialize_object_at, deserialize_object_opt, deserialize_opt, encoded_entries, encoded_list,
    encoded_list_opt, encoded_object_opt, encoded_opt, from_text, lemma_decode_encode_decode,
    lemma_decoded_entries_valid, lemma_decoded_list_valid, lemma_list_round_trip, lemma_list_tidy,
    lemma_named_tidy, lemma_object_round_trip, list_opt_view, named_opt_view, named_view,
    serialize_list, serialize_list_opt, serialize_object, serialize_object_opt, serialize_opt,
    to_text, valid_entries, valid_list, Codec,
};
use crate::error::{
    error_of, fail, fail_bare, first_error, group_first_error, option_view, result_view, seq_view,
    CodecError, CodecErrorV, ErrorKind, Fault,
};
use crate::json::{
    document_text, group_lookup, group_tidy, int_json, int_some, long_json, long_some,
    lookup, no_entries, object, push_some, put, put_some, stored, Json, JsonV, NumberV,
};
use crate::partition_spec::{PartitionField, PartitionFieldV, PartitionSpec, PartitionSpecV};
use crate::schema::{IcebergSchemaV1, IcebergSchemaV1V, IcebergSchemaV2, IcebergSchemaV2V};
use crate::snapshot::{SnapshotRefV2, SnapshotV1, SnapshotV1V, SnapshotV2, SnapshotV2V};
use crate::sort_orders::{SortOrders, SortOrdersV};

verus! {

/// The 128 bits that `uuid::Uuid::parse_str` reads from a text; `None`
/// where it reports an error.
pub uninterp spec fn uuid_of_text(text: Seq<char>) -> Option<u128>;

/// The hyphenated lower-case text that the `uuid` crate prints for 128
/// bits.
pub uninterp spec fn uuid_text(bits: u128) -> Seq<char>;

/// Calls `uuid::Uuid::parse_str` and hands out the bits of what it read
/// (`Uuid::as_u128`). The contract only names the result.
#[verifier::external_body]
fn read_uuid(text: &str) -> (r: Option<u128>)
    ensures
        r == uuid_of_text(text@),
{
    match uuid::Uuid::parse_str(text) {
        Ok(id) => Some(id.as_u128()),
        Err(_) => None,
    }
}

/// Calls `uuid::Uuid::from_u128` and prints the result in the hyphenated
/// form. The contract only names the result.
#[verifier::external_body]
fn write_uuid(bits: u128) -> (r: String)
    ensures
        r@ == uuid_text(bits),
{
    uuid::Uuid::from_u128(bits).hyphenated().to_string()
}

/// The UUID of a table, as its 128 bits.
#[derive(Clone, Copy, Debug, PartialEq, Eq)]
pub struct TableUuid(pub u128);

impl View for TableUuid {
    type V = TableUuid;

    open spec fn view(&self) -> TableUuid {
        *self
    }
}

/// Whether the text that is printed for the bits reads back as the bits.
pub open spec fn uuid_reads_back(bits: u128) -> bool {
    uuid_of_text(uuid_text(bits)) == Some(bits)
}

/// What a string decodes to as a UUID: its bits, where it is a UUID whose
/// printed form reads back as the same bits.
pub open spec fn uuid_decoded(s: Seq<char>) -> Result<TableUuid, CodecErrorV> {
    match uuid_of_text(s) {
        Some(bits) => if uuid_reads_back(bits) {
            Ok(TableUuid(bits))
        } else {
            Err(fail(Fault::InvalidUuid, s))
        },
        None => Err(fail(Fault::InvalidUuid, s)),
    }
}

impl TableUuid {
    /// Reads a UUID from a string.
    pub fn parse(value: &str) -> (r: Result<TableUuid, CodecError>)
        ensures
            result_view(r) == uuid_decoded(value@),
    {
        match read_uuid(value) {
            Some(bits) => {
                let printed = write_uuid(bits);
                match read_uuid(printed.as_str()) {
                    Some(again) => if again == bits {
                        Ok(TableUuid(bits))
                    } else {
                        Err(CodecError::new(Fault::InvalidUuid, value))
                    },
                    None => Err(CodecError::new(Fault::InvalidUuid, value)),
                }
            },
            None => Err(CodecError::new(Fault::InvalidUuid, value)),
        }
    }

    /// The UUID in its hyphenated lower-case form.
    pub fn to_text(&self) -> (r: String)
        ensures
            r@ == uuid_text(self.0),
    {
        write_uuid(self.0)
    }
}

impl Codec for TableUuid {
    open spec fn valid(v: TableUuid) -> bool {
        uuid_reads_back(v.0)
    }

    open spec fn decoded(doc: JsonV) -> Result<TableUuid, CodecErrorV> {
        match doc.as_text(""@) {
            Err(e) => Err(e),
            Ok(s) => uuid_decoded(s),
        }
    }

    open spec fn encoded(v: TableUuid) -> JsonV {
        JsonV::Text(uuid_text(v.0))
    }

    fn deserialize(doc: &Json) -> (r: Result<TableUuid, CodecError>) {
        let s = doc.as_text("")?;
        TableUuid::parse(s.as_str())
    }

    fn serialize(&self) -> (doc: Json) {
        Json::Text(self.to_text())
    }

    proof fn decoded_is_valid(doc: JsonV) {
    }

    proof fn round_trip(v: TableUuid) {
    }

    proof fn encoded_is_tidy(v: TableUuid) {
        broadcast use group_tidy;
    }
}

/// Statistics of a table. They are kept as a mark that the document has
/// them; what they hold is not read.
#[derive(Clone, Copy, Debug, PartialEq, Eq)]
pub struct Statistics {}

impl View for Statistics {
    type V = Statistics;

    open spec fn view(&self) -> Statistics {
        *self
    }
}

impl Codec for Statistics {
    open spec fn valid(v: Statistics) -> bool {
        true
    }

    open spec fn decoded(doc: JsonV) -> Result<Statistics, CodecErrorV> {
        match doc {
            JsonV::Object(_) => Ok(Statistics {  }),
            JsonV::Array(_) => Ok(Statistics {  }),
            _ => Err(fail_bare(Fault::NotAnObject)),
        }
    }

    open spec fn encoded(v: Statistics) -> JsonV {
        JsonV::Object(Seq::empty())
    }

    fn deserialize(doc: &Json) -> (r: Result<Statistics, CodecError>) {
        match doc {
            Json::Object(_) => Ok(Statistics {  }),
            Json::Array(_) => Ok(Statistics {  }),
            _ => Err(CodecError::bare(Fault::NotAnObject)),
        }
    }

    fn serialize(&self) -> (doc: Json) {
        let entries = no_entries();
        object(entries)
    }

    proof fn decoded_is_valid(doc: JsonV) {
    }

    proof fn round_trip(v: Statistics) {
    }

    proof fn encoded_is_tidy(v: Statistics) {
        broadcast use group_tidy;
    }
}

/// The keys of this file: their lengths and, where two have one length, their
/// first characters.
proof fn lemma_keys()
    ensures
        "format-version"@.len() == 14,
        "format-version"@[0] == 'f',
        "table-uuid"@.len() == 10,
        "table-uuid"@[0] == 't',
        "location"@.len() == 8,
        "last-sequence-number"@.len() == 20,
        "last-updated-ms"@.len() == 15,
        "last-updated-ms"@[0] == 'l',
        "last-column-id"@.len() == 14,
        "last-column-id"@[0] == 'l',
        "schemas"@.len() == 7,
        "current-schema-id"@.len() == 17,
        "current-schema-id"@[0] == 'c',
        "partition-specs"@.len() == 15,
        "partition-specs"@[0] == 'p',
        "default-spec-id"@.len() == 15,
        "default-spec-id"@[0] == 'd',
        "last-partition-id"@.len() == 17,
        "last-partition-id"@[0] == 'l',
        "properties"@.len() == 10,
        "properties"@[0] == 'p',
        "current-snapshot-id"@.len() == 19,
        "snapshots"@.len() == 9,
        "snapshot-log"@.len() == 12,
        "snapshot-log"@[0] == 's',
        "metadata-log"@.len() == 12,
        "metadata-log"@[0] == 'm',
        "sort-orders"@.len() == 11,
        "default-sort-order-id"@.len() == 21,
        "refs"@.len() == 4,
        "statistics"@.len() == 10,
        "statistics"@[0] == 's',
        "schema"@.len() == 6,
        "partition-spec"@.len() == 14,
        "partition-spec"@[0] == 'p',
        "snapshot-id"@.len() == 11,
        "timestamp-ms"@.len() == 12,
        "metadata-file"@.len() == 13,
{
    reveal_strlit("format-version");
    reveal_strlit("table-uuid");
    reveal_strlit("location");
    reveal_strlit("last-sequence-number");
    reveal_strlit("last-updated-ms");
    reveal_strlit("last-column-id");
    reveal_strlit("schemas");
    reveal_strlit("current-schema-id");
    reveal_strlit("partition-specs");
    reveal_strlit("default-spec-id");
    reveal_strlit("last-partition-id");
    reveal_strlit("properties");
    reveal_strlit("current-snapshot-id");
    reveal_strlit("snapshots");
    reveal_strlit("snapshot-log");
    reveal_strlit("metadata-log");
    reveal_strlit("sort-orders");
    reveal_strlit("default-sort-order-id");
    reveal_strlit("refs");
    reveal_strlit("statistics");
    reveal_strlit("schema");
    reveal_strlit("partition-spec");
    reveal_strlit("snapshot-id");
    reveal_strlit("timestamp-ms");
    reveal_strlit("metadata-file");
}

/// An entry of the log of snapshots.
#[derive(Clone, Copy, Debug, PartialEq, Eq)]
pub struct SnapshotLog {
    pub snapshot_id: i64,
    pub timestamp_ms: i64,
}

impl View for SnapshotLog {
    type V = SnapshotLog;

    open spec fn view(&self) -> SnapshotLog {
        *self
    }
}

impl Codec for SnapshotLog {
    open spec fn valid(v: SnapshotLog) -> bool {
        true
    }

    open spec fn decoded(doc: JsonV) -> Result<SnapshotLog, CodecErrorV> {
        if !(doc is Object) {
            Err(fail_bare(Fault::NotAnObject))
        } else {
            match doc.long_at("snapshot-id"@) {
                Err(e) => Err(e),
                Ok(snapshot_id) => match doc.long_at("timestamp-ms"@) {
                    Err(e) => Err(e),
                    Ok(timestamp_ms) => Ok(SnapshotLog { snapshot_id, timestamp_ms }),
                },
            }
        }
    }

    open spec fn encoded(v: SnapshotLog) -> JsonV {
        JsonV::Object(
            Seq::empty()
                .push(("snapshot-id"@, JsonV::Number(NumberV::Int(v.snapshot_id))))
                .push(("timestamp-ms"@, JsonV::Number(NumberV::Int(v.timestamp_ms)))),
        )
    }

    fn deserialize(doc: &Json) -> (r: Result<SnapshotLog, CodecError>) {
        let _ = doc.as_entries()?;
        let snapshot_id = doc.long_at("snapshot-id")?;
        let timestamp_ms = doc.long_at("timestamp-ms")?;
        Ok(SnapshotLog { snapshot_id, timestamp_ms })
    }

    fn serialize(&self) -> (doc: Json) {
        let mut entries = no_entries();
        put(&mut entries, "snapshot-id", Json::long(self.snapshot_id));
        put(&mut entries, "timestamp-ms", Json::long(self.timestamp_ms));
        object(entries)
    }

    proof fn decoded_is_valid(doc: JsonV) {
    }

    proof fn round_trip(v: SnapshotLog) {
        broadcast use group_lookup;

        lemma_keys();
    }

    proof fn encoded_is_tidy(v: SnapshotLog) {
        broadcast use group_tidy;
    }
}

/// An entry of the log of metadata files.
#[derive(Clone, Debug, PartialEq, Eq)]
pub struct MetadataLog {
    pub metadata_file: String,
    pub timestamp_ms: i64,
}

/// The mathematical value of a [`MetadataLog`].
pub ghost struct MetadataLogV {
    pub metadata_file: Seq<char>,
    pub timestamp_ms: i64,
}

impl View for MetadataLog {
    type V = MetadataLogV;

    open spec fn view(&self) -> MetadataLogV {
        MetadataLogV {
            metadata_file: self.metadata_file@,
            timestamp_ms: self.timestamp_ms,
        }
    }
}

impl Codec for MetadataLog {
    open spec fn valid(v: MetadataLogV) -> bool {
        true
    }

    open spec fn decoded(doc: JsonV) -> Result<MetadataLogV, CodecErrorV> {
        if !(doc is Object) {
            Err(fail_bare(Fault::NotAnObject))
        } else {
            match doc.text_at("metadata-file"@) {
                Err(e) => Err(e),
                Ok(metadata_file) => match doc.long_at("timestamp-ms"@) {
                    Err(e) => Err(e),
                    Ok(timestamp_ms) => Ok(MetadataLogV { metadata_file, timestamp_ms }),
                },
            }
        }
    }

    open spec fn encoded(v: MetadataLogV) -> JsonV {
        JsonV::Object(
            Seq::empty()
                .push(("metadata-file"@, JsonV::Text(v.metadata_file)))
                .push(("timestamp-ms"@, JsonV::Number(NumberV::Int(v.timestamp_ms)))),
        )
    }

    fn deserialize(doc: &Json) -> (r: Result<MetadataLog, CodecError>) {
        let _ = doc.as_entries()?;
        let metadata_file = doc.text_at("metadata-file")?;
        let timestamp_ms = doc.long_at("timestamp-ms")?;
        Ok(MetadataLog { metadata_file, timestamp_ms })
    }

    fn serialize(&self) -> (doc: Json) {
        let mut entries = no_entries();
        put(&mut entries, "metadata-file", Json::Text(self.metadata_file.clone()));
        put(&mut entries, "timestamp-ms", Json::long(self.timestamp_ms));
        object(entries)
    }

    proof fn decoded_is_valid(doc: JsonV) {
    }

    proof fn round_trip(v: MetadataLogV) {
        broadcast use group_lookup;

        lemma_keys();
    }

    proof fn encoded_is_tidy(v: MetadataLogV) {
        broadcast use group_tidy;
    }
}

/// The table metadata of format version 2.
#[derive(Debug, PartialEq, Eq)]
pub struct TableMetadataV2 {
    pub format_version: i32,
    pub table_uuid: TableUuid,
    pub location: String,
    pub last_sequence_number: i64,
    pub last_updated_ms: i64,
    pub last_column_id: i32,
    pub schemas: Vec<IcebergSchemaV2>,
    pub current_schema_id: i32,
    pub partition_specs: Vec<PartitionSpec>,
    pub default_spec_id: i32,
    pub last_partition_id: i32,
    /// The properties by name, in the order of the document; no name occurs
    /// twice.
    pub properties: Option<Vec<(String, String)>>,
    pub current_snapshot_id: Option<i64>,
    pub snapshots: Option<Vec<SnapshotV2>>,
    pub snapshot_log: Option<Vec<SnapshotLog>>,
    pub metadata_log: Option<Vec<MetadataLog>>,
    pub sort_orders: Vec<SortOrders>,
    pub default_sort_order_id: i32,
    /// The references by name, in the order of the document; no name occurs
    /// twice.
    pub refs: Vec<(String, SnapshotRefV2)>,
    pub statistics: Option<Statistics>,
}

/// The mathematical value of a [`TableMetadataV2`].
pub ghost struct TableMetadataV2V {
    pub format_version: i32,
    pub table_uuid: TableUuid,
    pub location: Seq<char>,
    pub last_sequence_number: i64,
    pub last_updated_ms: i64,
    pub last_column_id: i32,
    pub schemas: Seq<IcebergSchemaV2V>,
    pub current_schema_id: i32,
    pub partition_specs: Seq<PartitionSpecV>,
    pub default_spec_id: i32,
    pub last_partition_id: i32,
    pub properties: Option<Seq<(Seq<char>, Seq<char>)>>,
    pub current_snapshot_id: Option<i64>,
    pub snapshots: Option<Seq<SnapshotV2V>>,
    pub snapshot_log: Option<Seq<SnapshotLog>>,
    pub metadata_log: Option<Seq<MetadataLogV>>,
    pub sort_orders: Seq<SortOrdersV>,
    pub default_sort_order_id: i32,
    pub refs: Seq<(Seq<char>, SnapshotRefV2)>,
    pub statistics: Option<Statistics>,
}

impl View for TableMetadataV2 {
    type V = TableMetadataV2V;

    open spec fn view(&self) -> TableMetadataV2V {
        TableMetadataV2V {
            format_version: self.format_version,
            table_uuid: self.table_uuid@,
            location: self.location@,
            last_sequence_number: self.last_sequence_number,
            last_updated_ms: self.last_updated_ms,
            last_column_id: self.last_column_id,
            schemas: seq_view(self.schemas@),
            current_schema_id: self.current_schema_id,
            partition_specs: seq_view(self.partition_specs@),
            default_spec_id: self.default_spec_id,
            last_partition_id: self.last_partition_id,
            properties: named_opt_view(self.properties),
            current_snapshot_id: self.current_snapshot_id,
            snapshots: list_opt_view(self.snapshots),
            snapshot_log: list_opt_view(self.snapshot_log),
            metadata_log: list_opt_view(self.metadata_log),
            sort_orders: seq_view(self.sort_orders@),
            default_sort_order_id: self.default_sort_order_id,
            refs: named_view(self.refs@),
            statistics: option_view(self.statistics),
        }
    }
}

/// What is wrong with each key of a version 2 document, in the order in
/// which the keys are read.
pub open spec fn v2_errors(doc: JsonV) -> Seq<Option<CodecErrorV>> {
    Seq::empty()
        .push(error_of(doc.int_at("format-version"@)))
        .push(error_of(decoded_at::<TableUuid>(doc, "table-uuid"@)))
        .push(error_of(doc.text_at("location"@)))
        .push(error_of(doc.long_at("last-sequence-number"@)))
        .push(error_of(doc.long_at("last-updated-ms"@)))
        .push(error_of(doc.int_at("last-column-id"@)))
        .push(error_of(decoded_array_at::<IcebergSchemaV2>(doc, "schemas"@)))
        .push(error_of(doc.int_at("current-schema-id"@)))
        .push(error_of(decoded_array_at::<PartitionSpec>(doc, "partition-specs"@)))
        .push(error_of(doc.int_at("default-spec-id"@)))
        .push(error_of(doc.int_at("last-partition-id"@)))
        .push(error_of(decoded_object_opt::<String>(doc, "properties"@)))
        .push(error_of(doc.long_opt("current-snapshot-id"@)))
        .push(error_of(decoded_array_opt::<SnapshotV2>(doc, "snapshots"@)))
        .push(error_of(decoded_array_opt::<SnapshotLog>(doc, "snapshot-log"@)))
        .push(error_of(decoded_array_opt::<MetadataLog>(doc, "metadata-log"@)))
        .push(error_of(decoded_array_at::<SortOrders>(doc, "sort-orders"@)))
        .push(error_of(doc.int_at("default-sort-order-id"@)))
        .push(error_of(decoded_object_at::<SnapshotRefV2>(doc, "refs"@)))
        .push(error_of(decoded_opt::<Statistics>(doc, "statistics"@)))
}

/// The metadata that the keys of a version 2 document give, where
/// nothing is wrong with any of them.
pub open spec fn v2_values(doc: JsonV) -> TableMetadataV2V {
    TableMetadataV2V {
        format_version: doc.int_at("format-version"@)->Ok_0,
        table_uuid: decoded_at::<TableUuid>(doc, "table-uuid"@)->Ok_0,
        location: doc.text_at("location"@)->Ok_0,
        last_sequence_number: doc.long_at("last-sequence-number"@)->Ok_0,
        last_updated_ms: doc.long_at("last-updated-ms"@)->Ok_0,
        last_column_id: doc.int_at("last-column-id"@)->Ok_0,
        schemas: decoded_array_at::<IcebergSchemaV2>(doc, "schemas"@)->Ok_0,
        current_schema_id: doc.int_at("current-schema-id"@)->Ok_0,
        partition_specs: decoded_array_at::<PartitionSpec>(doc, "partition-specs"@)->Ok_0,
        default_spec_id: doc.int_at("default-spec-id"@)->Ok_0,
        last_partition_id: doc.int_at("last-partition-id"@)->Ok_0,
        properties: decoded_object_opt::<String>(doc, "properties"@)->Ok_0,
        current_snapshot_id: doc.long_opt("current-snapshot-id"@)->Ok_0,
        snapshots: decoded_array_opt::<SnapshotV2>(doc, "snapshots"@)->Ok_0,
        snapshot_log: decoded_array_opt::<SnapshotLog>(doc, "snapshot-log"@)->Ok_0,
        metadata_log: decoded_array_opt::<MetadataLog>(doc, "metadata-log"@)->Ok_0,
        sort_orders: decoded_array_at::<SortOrders>(doc, "sort-orders"@)->Ok_0,
        default_sort_order_id: doc.int_at("default-sort-order-id"@)->Ok_0,
        refs: decoded_object_at::<SnapshotRefV2>(doc, "refs"@)->Ok_0,
        statistics: decoded_opt::<Statistics>(doc, "statistics"@)->Ok_0,
    }
}

/// The entries of the object that encodes the metadata of version 2, in
/// the order in which they are written. Of the optional keys only those
/// with a value are written.
#[verifier::opaque]
pub open spec fn v2_entries(v: TableMetadataV2V) -> Seq<(Seq<char>, JsonV)> {
    let entries = Seq::empty()
        .push(("format-version"@, JsonV::Number(NumberV::Int(v.format_version as i64))))
        .push(("table-uuid"@, TableUuid::encoded(v.table_uuid)))
        .push(("location"@, JsonV::Text(v.location)))
        .push(("last-sequence-number"@, JsonV::Number(NumberV::Int(v.last_sequence_number))))
        .push(("last-updated-ms"@, JsonV::Number(NumberV::Int(v.last_updated_ms))))
        .push(("last-column-id"@, JsonV::Number(NumberV::Int(v.last_column_id as i64))))
        .push(("schemas"@, JsonV::Array(encoded_list::<IcebergSchemaV2>(v.schemas))))
        .push(("current-schema-id"@, JsonV::Number(NumberV::Int(v.current_schema_id as i64))))
        .push(("partition-specs"@, JsonV::Array(encoded_list::<PartitionSpec>(v.partition_specs))))
        .push(("default-spec-id"@, JsonV::Number(NumberV::Int(v.default_spec_id as i64))))
        .push(("last-partition-id"@, JsonV::Number(NumberV::Int(v.last_partition_id as i64))));
    let entries = push_some(entries, "properties"@, encoded_object_opt::<String>(v.properties));
    let entries = push_some(entries, "current-snapshot-id"@, long_some(v.current_snapshot_id));
    let entries = push_some(entries, "snapshots"@, encoded_list_opt::<SnapshotV2>(v.snapshots));
    let entries = push_some(
        entries,
        "snapshot-log"@,
        encoded_list_opt::<SnapshotLog>(v.snapshot_log),
    );
    let entries = push_some(
        entries,
        "metadata-log"@,
        encoded_list_opt::<MetadataLog>(v.metadata_log),
    );
    let entries = entries
        .push(("sort-orders"@, JsonV::Array(encoded_list::<SortOrders>(v.sort_orders))))
        .push(
            ("default-sort-order-id"@, JsonV::Number(NumberV::Int(v.default_sort_order_id as i64))),
        )
        .push(("refs"@, JsonV::Object(encoded_entries::<SnapshotRefV2>(v.refs))));
    let entries = push_some(entries, "statistics"@, encoded_opt::<Statistics>(v.statistics));
    entries
}

/// What the entries of a version 2 document give the first five of its keys.
proof fn lemma_v2_first_keys(v: TableMetadataV2V)
    ensures
        lookup(v2_entries(v), "format-version"@) == Some(
            JsonV::Number(NumberV::Int(v.format_version as i64)),
        ),
        lookup(v2_entries(v), "table-uuid"@) == Some(TableUuid::encoded(v.table_uuid)),
        lookup(v2_entries(v), "location"@) == Some(JsonV::Text(v.location)),
        lookup(v2_entries(v), "last-sequence-number"@) == Some(
            JsonV::Number(NumberV::Int(v.last_sequence_number)),
        ),
        lookup(v2_entries(v), "last-updated-ms"@) == Some(
            JsonV::Number(NumberV::Int(v.last_updated_ms)),
        ),
{
    broadcast use group_lookup;

    reveal(v2_entries);
    lemma_keys();
}

/// What the entries of a version 2 document give the second five of its keys.
proof fn lemma_v2_second_keys(v: TableMetadataV2V)
    ensures
        lookup(v2_entries(v), "last-column-id"@) == Some(
            JsonV::Number(NumberV::Int(v.last_column_id as i64)),
        ),
        lookup(v2_entries(v), "schemas"@) == Some(
            JsonV::Array(encoded_list::<IcebergSchemaV2>(v.schemas)),
        ),
        lookup(v2_entries(v), "current-schema-id"@) == Some(
            JsonV::Number(NumberV::Int(v.current_schema_id as i64)),
        ),
        lookup(v2_entries(v), "partition-specs"@) == Some(
            JsonV::Array(encoded_list::<PartitionSpec>(v.partition_specs)),
        ),
        lookup(v2_entries(v), "default-spec-id"@) == Some(
            JsonV::Number(NumberV::Int(v.default_spec_id as i64)),
        ),
{
    broadcast use group_lookup;

    reveal(v2_entries);
    lemma_keys();
}

/// What the entries of a version 2 document give the third five of its keys.
proof fn lemma_v2_third_keys(v: TableMetadataV2V)
    ensures
        lookup(v2_entries(v), "last-partition-id"@) == Some(
            JsonV::Number(NumberV::Int(v.last_partition_id as i64)),
        ),
        lookup(v2_entries(v), "properties"@) == encoded_object_opt::<String>(v.properties),
        lookup(v2_entries(v), "current-snapshot-id"@) == long_some(v.current_snapshot_id),
        lookup(v2_entries(v), "snapshots"@) == encoded_list_opt::<SnapshotV2>(v.snapshots),
        lookup(v2_entries(v), "snapshot-log"@) == encoded_list_opt::<SnapshotLog>(v.snapshot_log),
{
    broadcast use group_lookup;

    reveal(v2_entries);
    lemma_keys();
}

/// What the entries of a version 2 document give the fourth five of its keys.
proof fn lemma_v2_fourth_keys(v: TableMetadataV2V)
    ensures
        lookup(v2_entries(v), "metadata-log"@) == encoded_list_opt::<MetadataLog>(v.metadata_log),
        lookup(v2_entries(v), "sort-orders"@) == Some(
            JsonV::Array(encoded_list::<SortOrders>(v.sort_orders)),
        ),
        lookup(v2_entries(v), "default-sort-order-id"@) == Some(
            JsonV::Number(NumberV::Int(v.default_sort_order_id as i64)),
        ),
        lookup(v2_entries(v), "refs"@) == Some(
            JsonV::Object(encoded_entries::<SnapshotRefV2>(v.refs)),
        ),
        lookup(v2_entries(v), "statistics"@) == encoded_opt::<Statistics>(v.statistics),
{
    broadcast use group_lookup;

    reveal(v2_entries);
    lemma_keys();
}

impl Codec for TableMetadataV2 {
    open spec fn valid(v: TableMetadataV2V) -> bool {
        &&& TableUuid::valid(v.table_uuid)
        &&& valid_list::<IcebergSchemaV2>(v.schemas)
        &&& valid_list::<PartitionSpec>(v.partition_specs)
        &&& v.properties matches Some(x) ==> valid_entries::<String>(x, None)
        &&& v.snapshots matches Some(x) ==> valid_list::<SnapshotV2>(x)
        &&& v.snapshot_log matches Some(x) ==> valid_list::<SnapshotLog>(x)
        &&& v.metadata_log matches Some(x) ==> valid_list::<MetadataLog>(x)
        &&& valid_list::<SortOrders>(v.sort_orders)
        &&& valid_entries::<SnapshotRefV2>(v.refs, None)
        &&& v.statistics matches Some(x) ==> Statistics::valid(x)
    }

    open spec fn decoded(doc: JsonV) -> Result<TableMetadataV2V, CodecErrorV> {
        if !(doc is Object) {
            Err(fail_bare(Fault::NotAnObject))
        } else {
            match first_error(v2_errors(doc)) {
                Some(e) => Err(e),
                None => Ok(v2_values(doc)),
            }
        }
    }

    open spec fn encoded(v: TableMetadataV2V) -> JsonV {
        JsonV::Object(v2_entries(v))
    }

    fn deserialize(doc: &Json) -> (r: Result<TableMetadataV2, CodecError>) {
        broadcast use group_first_error;

        let _ = doc.as_entries()?;
        let format_version = doc.int_at("format-version")?;
        let table_uuid = deserialize_at::<TableUuid>(doc, "table-uuid")?;
        let location = doc.text_at("location")?;
        let last_sequence_number = doc.long_at("last-sequence-number")?;
        let last_updated_ms = doc.long_at("last-updated-ms")?;
        let last_column_id = doc.int_at("last-column-id")?;
        let schemas = deserialize_array_at::<IcebergSchemaV2>(doc, "schemas")?;
        let current_schema_id = doc.int_at("current-schema-id")?;
        let partition_specs = deserialize_array_at::<PartitionSpec>(doc, "partition-specs")?;
        let default_spec_id = doc.int_at("default-spec-id")?;
        let last_partition_id = doc.int_at("last-partition-id")?;
        let properties = deserialize_object_opt::<String>(doc, "properties")?;
        let current_snapshot_id = doc.long_opt("current-snapshot-id")?;
        let snapshots = deserialize_array_opt::<SnapshotV2>(doc, "snapshots")?;
        let snapshot_log = deserialize_array_opt::<SnapshotLog>(doc, "snapshot-log")?;
        let metadata_log = deserialize_array_opt::<MetadataLog>(doc, "metadata-log")?;
        let sort_orders = deserialize_array_at::<SortOrders>(doc, "sort-orders")?;
        let default_sort_order_id = doc.int_at("default-sort-order-id")?;
        let refs = deserialize_object_at::<SnapshotRefV2>(doc, "refs")?;
        let statistics = deserialize_opt::<Statistics>(doc, "statistics")?;
        Ok(
            TableMetadataV2 {
                format_version,
                table_uuid,
                location,
                last_sequence_number,
                last_updated_ms,
                last_column_id,
                schemas,
                current_schema_id,
                partition_specs,
                default_spec_id,
                last_partition_id,
                properties,
                current_snapshot_id,
                snapshots,
                snapshot_log,
                metadata_log,
                sort_orders,
                default_sort_order_id,
                refs,
                statistics,
            },
        )
    }

    fn serialize(&self) -> (doc: Json) {
        self.write(self.format_version)
    }

    proof fn decoded_is_valid(doc: JsonV) {
        broadcast use group_first_error;

        if doc is Object {
            if let Some(x) = doc.get("table-uuid"@) {
                TableUuid::decoded_is_valid(x);
            }
            if let Some(JsonV::Array(items)) = doc.get("schemas"@) {
                lemma_decoded_list_valid::<IcebergSchemaV2>(items);
            }
            if let Some(JsonV::Array(items)) = doc.get("partition-specs"@) {
                lemma_decoded_list_valid::<PartitionSpec>(items);
            }
            if let Some(JsonV::Object(entries)) = doc.present("properties"@) {
                lemma_decoded_entries_valid::<String>(entries, None);
            }
            if let Some(JsonV::Array(items)) = doc.present("snapshots"@) {
                lemma_decoded_list_valid::<SnapshotV2>(items);
            }
            if let Some(JsonV::Array(items)) = doc.present("snapshot-log"@) {
                lemma_decoded_list_valid::<SnapshotLog>(items);
            }
            if let Some(JsonV::Array(items)) = doc.present("metadata-log"@) {
                lemma_decoded_list_valid::<MetadataLog>(items);
            }
            if let Some(JsonV::Array(items)) = doc.get("sort-orders"@) {
                lemma_decoded_list_valid::<SortOrders>(items);
            }
            if let Some(JsonV::Object(entries)) = doc.get("refs"@) {
                lemma_decoded_entries_valid::<SnapshotRefV2>(entries, None);
            }
            if let Some(x) = doc.present("statistics"@) {
                Statistics::decoded_is_valid(x);
            }
        }
    }

    proof fn round_trip(v: TableMetadataV2V) {
        broadcast use group_first_error;

        lemma_v2_first_keys(v);
        lemma_v2_second_keys(v);
        lemma_v2_third_keys(v);
        lemma_v2_fourth_keys(v);
        TableUuid::round_trip(v.table_uuid);
        lemma_list_round_trip::<IcebergSchemaV2>(v.schemas);
        lemma_list_round_trip::<PartitionSpec>(v.partition_specs);
        if let Some(x) = v.properties {
            lemma_object_round_trip::<String>(x);
        }
        if let Some(x) = v.snapshots {
            lemma_list_round_trip::<SnapshotV2>(x);
        }
        if let Some(x) = v.snapshot_log {
            lemma_list_round_trip::<SnapshotLog>(x);
        }
        if let Some(x) = v.metadata_log {
            lemma_list_round_trip::<MetadataLog>(x);
        }
        lemma_list_round_trip::<SortOrders>(v.sort_orders);
        lemma_object_round_trip::<SnapshotRefV2>(v.refs);
        if let Some(x) = v.statistics {
            Statistics::round_trip(x);
        }
    }

    proof fn encoded_is_tidy(v: TableMetadataV2V) {
        broadcast use group_tidy;

        reveal(v2_entries);
        TableUuid::encoded_is_tidy(v.table_uuid);
        lemma_list_tidy::<IcebergSchemaV2>(v.schemas);
        lemma_list_tidy::<PartitionSpec>(v.partition_specs);
        if let Some(x) = v.properties {
            lemma_named_tidy::<String>(x);
        }
        if let Some(x) = v.snapshots {
            lemma_list_tidy::<SnapshotV2>(x);
        }
        if let Some(x) = v.snapshot_log {
            lemma_list_tidy::<SnapshotLog>(x);
        }
        if let Some(x) = v.metadata_log {
            lemma_list_tidy::<MetadataLog>(x);
        }
        lemma_list_tidy::<SortOrders>(v.sort_orders);
        lemma_named_tidy::<SnapshotRefV2>(v.refs);
        if let Some(x) = v.statistics {
            Statistics::encoded_is_tidy(x);
        }
    }
}

impl TableMetadataV2 {
    /// Encodes the value with the given number in the place of its format
    /// version.
    pub fn write(&self, version: i32) -> (doc: Json)
        ensures
            doc@ == Self::encoded(TableMetadataV2V { format_version: version, ..self@ }),
    {
        reveal(v2_entries);
        let mut entries = no_entries();
        put(&mut entries, "format-version", Json::short(version));
        put(&mut entries, "table-uuid", self.table_uuid.serialize());
        put(&mut entries, "location", Json::Text(self.location.clone()));
        put(&mut entries, "last-sequence-number", Json::long(self.last_sequence_number));
        put(&mut entries, "last-updated-ms", Json::long(self.last_updated_ms));
        put(&mut entries, "last-column-id", Json::short(self.last_column_id));
        put(&mut entries, "schemas", serialize_list::<IcebergSchemaV2>(&self.schemas));
        put(&mut entries, "current-schema-id", Json::short(self.current_schema_id));
        put(
            &mut entries,
            "partition-specs",
            serialize_list::<PartitionSpec>(&self.partition_specs),
        );
        put(&mut entries, "default-spec-id", Json::short(self.default_spec_id));
        put(&mut entries, "last-partition-id", Json::short(self.last_partition_id));
        put_some(&mut entries, "properties", serialize_object_opt::<String>(&self.properties));
        put_some(&mut entries, "current-snapshot-id", long_json(&self.current_snapshot_id));
        put_some(&mut entries, "snapshots", serialize_list_opt::<SnapshotV2>(&self.snapshots));
        put_some(
            &mut entries,
            "snapshot-log",
            serialize_list_opt::<SnapshotLog>(&self.snapshot_log),
        );
        put_some(
            &mut entries,
            "metadata-log",
            serialize_list_opt::<MetadataLog>(&self.metadata_log),
        );
        put(&mut entries, "sort-orders", serialize_list::<SortOrders>(&self.sort_orders));
        put(&mut entries, "default-sort-order-id", Json::short(self.default_sort_order_id));
        put(&mut entries, "refs", serialize_object::<SnapshotRefV2>(&self.refs));
        put_some(&mut entries, "statistics", serialize_opt::<Statistics>(&self.statistics));
        object(entries)
    }
}

/// The table metadata of format version 1.
#[derive(Debug, PartialEq, Eq)]
pub struct TableMetadataV1 {
    pub format_version: i32,
    pub table_uuid: Option<TableUuid>,
    pub location: String,
    pub last_updated_ms: i64,
    pub last_column_id: i32,
    pub schema: IcebergSchemaV1,
    pub schemas: Option<Vec<IcebergSchemaV1>>,
    pub current_schema_id: Option<i32>,
    pub partition_spec: Vec<PartitionField>,
    pub partition_specs: Vec<PartitionSpec>,
    pub default_spec_id: Option<i32>,
    pub last_partition_id: Option<i32>,
    /// The properties by name, in the order of the document; no name occurs
    /// twice.
    pub properties: Option<Vec<(String, String)>>,
    pub current_snapshot_id: Option<i64>,
    pub snapshots: Option<Vec<SnapshotV1>>,
    pub snapshot_log: Option<Vec<SnapshotLog>>,
    pub metadata_log: Option<Vec<MetadataLog>>,
    pub sort_orders: Option<Vec<SortOrders>>,
    pub default_sort_order_id: i32,
    pub statistics: Option<Statistics>,
}

/// The mathematical value of a [`TableMetadataV1`].
pub ghost struct TableMetadataV1V {
    pub format_version: i32,
    pub table_uuid: Option<TableUuid>,
    pub location: Seq<char>,
    pub last_updated_ms: i64,
    pub last_column_id: i32,
    pub schema: IcebergSchemaV1V,
    pub schemas: Option<Seq<IcebergSchemaV1V>>,
    pub current_schema_id: Option<i32>,
    pub partition_spec: Seq<PartitionFieldV>,
    pub partition_specs: Seq<PartitionSpecV>,
    pub default_spec_id: Option<i32>,
    pub last_partition_id: Option<i32>,
    pub properties: Option<Seq<(Seq<char>, Seq<char>)>>,
    pub current_snapshot_id: Option<i64>,
    pub snapshots: Option<Seq<SnapshotV1V>>,
    pub snapshot_log: Option<Seq<SnapshotLog>>,
    pub metadata_log: Option<Seq<MetadataLogV>>,
    pub sort_orders: Option<Seq<SortOrdersV>>,
    pub default_sort_order_id: i32,
    pub statistics: Option<Statistics>,
}

impl View for TableMetadataV1 {
    type V = TableMetadataV1V;

    open spec fn view(&self) -> TableMetadataV1V {
        TableMetadataV1V {
            format_version: self.format_version,
            table_uuid: option_view(self.table_uuid),
            location: self.location@,
            last_updated_ms: self.last_updated_ms,
            last_column_id: self.last_column_id,
            schema: self.schema@,
            schemas: list_opt_view(self.schemas),
            current_schema_id: self.current_schema_id,
            partition_spec: seq_view(self.partition_spec@),
            partition_specs: seq_view(self.partition_specs@),
            default_spec_id: self.default_spec_id,
            last_partition_id: self.last_partition_id,
            properties: named_opt_view(self.properties),
            current_snapshot_id: self.current_snapshot_id,
            snapshots: list_opt_view(self.snapshots),
            snapshot_log: list_opt_view(self.snapshot_log),
            metadata_log: list_opt_view(self.metadata_log),
            sort_orders: list_opt_view(self.sort_orders),
            default_sort_order_id: self.default_sort_order_id,
            statistics: option_view(self.statistics),
        }
    }
}

/// What is wrong with each key of a version 1 document, in the order in
/// which the keys are read.
pub open spec fn v1_errors(doc: JsonV) -> Seq<Option<CodecErrorV>> {
    Seq::empty()
        .push(error_of(doc.int_at("format-version"@)))
        .push(error_of(decoded_opt::<TableUuid>(doc, "table-uuid"@)))
        .push(error_of(doc.text_at("location"@)))
        .push(error_of(doc.long_at("last-updated-ms"@)))
        .push(error_of(doc.int_at("last-column-id"@)))
        .push(error_of(decoded_at::<IcebergSchemaV1>(doc, "schema"@)))
        .push(error_of(decoded_array_opt::<IcebergSchemaV1>(doc, "schemas"@)))
        .push(error_of(doc.int_opt("current-schema-id"@)))
        .push(error_of(decoded_array_at::<PartitionField>(doc, "partition-spec"@)))
        .push(error_of(decoded_array_at::<PartitionSpec>(doc, "partition-specs"@)))
        .push(error_of(doc.int_opt("default-spec-id"@)))
        .push(error_of(doc.int_opt("last-partition-id"@)))
        .push(error_of(decoded_object_opt::<String>(doc, "properties"@)))
        .push(error_of(doc.long_opt("current-snapshot-id"@)))
        .push(error_of(decoded_array_opt::<SnapshotV1>(doc, "snapshots"@)))
        .push(error_of(decoded_array_opt::<SnapshotLog>(doc, "snapshot-log"@)))
        .push(error_of(decoded_array_opt::<MetadataLog>(doc, "metadata-log"@)))
        .push(error_of(decoded_array_opt::<SortOrders>(doc, "sort-orders"@)))
        .push(error_of(doc.int_at("default-sort-order-id"@)))
        .push(error_of(decoded_opt::<Statistics>(doc, "statistics"@)))
}

/// The metadata that the keys of a version 1 document give, where
/// nothing is wrong with any of them.
pub open spec fn v1_values(doc: JsonV) -> TableMetadataV1V {
    TableMetadataV1V {
        format_version: doc.int_at("format-version"@)->Ok_0,
        table_uuid: decoded_opt::<TableUuid>(doc, "table-uuid"@)->Ok_0,
        location: doc.text_at("location"@)->Ok_0,
        last_updated_ms: doc.long_at("last-updated-ms"@)->Ok_0,
        last_column_id: doc.int_at("last-column-id"@)->Ok_0,
        schema: decoded_at::<IcebergSchemaV1>(doc, "schema"@)->Ok_0,
        schemas: decoded_array_opt::<IcebergSchemaV1>(doc, "schemas"@)->Ok_0,
        current_schema_id: doc.int_opt("current-schema-id"@)->Ok_0,
        partition_spec: decoded_array_at::<PartitionField>(doc, "partition-spec"@)->Ok_0,
        partition_specs: decoded_array_at::<PartitionSpec>(doc, "partition-specs"@)->Ok_0,
        default_spec_id: doc.int_opt("default-spec-id"@)->Ok_0,
        last_partition_id: doc.int_opt("last-partition-id"@)->Ok_0,
        properties: decoded_object_opt::<String>(doc, "properties"@)->Ok_0,
        current_snapshot_id: doc.long_opt("current-snapshot-id"@)->Ok_0,
        snapshots: decoded_array_opt::<SnapshotV1>(doc, "snapshots"@)->Ok_0,
        snapshot_log: decoded_array_opt::<SnapshotLog>(doc, "snapshot-log"@)->Ok_0,
        metadata_log: decoded_array_opt::<MetadataLog>(doc, "metadata-log"@)->Ok_0,
        sort_orders: decoded_array_opt::<SortOrders>(doc, "sort-orders"@)->Ok_0,
        default_sort_order_id: doc.int_at("default-sort-order-id"@)->Ok_0,
        statistics: decoded_opt::<Statistics>(doc, "statistics"@)->Ok_0,
    }
}

/// The entries of the object that encodes the metadata of version 1, in
/// the order in which they are written. Of the optional keys only those
/// with a value are written.
#[verifier::opaque]
pub open spec fn v1_entries(v: TableMetadataV1V) -> Seq<(Seq<char>, JsonV)> {
    let entries = Seq::empty()
        .push(("format-version"@, JsonV::Number(NumberV::Int(v.format_version as i64))));
    let entries = push_some(entries, "table-uuid"@, encoded_opt::<TableUuid>(v.table_uuid));
    let entries = entries
        .push(("location"@, JsonV::Text(v.location)))
        .push(("last-updated-ms"@, JsonV::Number(NumberV::Int(v.last_updated_ms))))
        .push(("last-column-id"@, JsonV::Number(NumberV::Int(v.last_column_id as i64))))
        .push(("schema"@, IcebergSchemaV1::encoded(v.schema)));
    let entries = push_some(entries, "schemas"@, encoded_list_opt::<IcebergSchemaV1>(v.schemas));
    let entries = push_some(entries, "current-schema-id"@, int_some(v.current_schema_id));
    let entries = entries
        .push(("partition-spec"@, JsonV::Array(encoded_list::<PartitionField>(v.partition_spec))))
        .push(("partition-specs"@, JsonV::Array(encoded_list::<PartitionSpec>(v.partition_specs))));
    let entries = push_some(entries, "default-spec-id"@, int_some(v.default_spec_id));
    let entries = push_some(entries, "last-partition-id"@, int_some(v.last_partition_id));
    let entries = push_some(entries, "properties"@, encoded_object_opt::<String>(v.properties));
    let entries = push_some(entries, "current-snapshot-id"@, long_some(v.current_snapshot_id));
    let entries = push_some(entries, "snapshots"@, encoded_list_opt::<SnapshotV1>(v.snapshots));
    let entries = push_some(
        entries,
        "snapshot-log"@,
        encoded_list_opt::<SnapshotLog>(v.snapshot_log),
    );
    let entries = push_some(
        entries,
        "metadata-log"@,
        encoded_list_opt::<MetadataLog>(v.metadata_log),
    );
    let entries = push_some(entries, "sort-orders"@, encoded_list_opt::<SortOrders>(v.sort_orders));
    let entries = entries
        .push(
            ("default-sort-order-id"@, JsonV::Number(NumberV::Int(v.default_sort_order_id as i64))),
        );
    let entries = push_some(entries, "statistics"@, encoded_opt::<Statistics>(v.statistics));
    entries
}

/// What the entries of a version 1 document give the first five of its keys.
proof fn lemma_v1_first_keys(v: TableMetadataV1V)
    ensures
        lookup(v1_entries(v), "format-version"@) == Some(
            JsonV::Number(NumberV::Int(v.format_version as i64)),
        ),
        lookup(v1_entries(v), "table-uuid"@) == encoded_opt::<TableUuid>(v.table_uuid),
        lookup(v1_entries(v), "location"@) == Some(JsonV::Text(v.location)),
        lookup(v1_entries(v), "last-updated-ms"@) == Some(
            JsonV::Number(NumberV::Int(v.last_updated_ms)),
        ),
        lookup(v1_entries(v), "last-column-id"@) == Some(
            JsonV::Number(NumberV::Int(v.last_column_id as i64)),
        ),
{
    broadcast use group_lookup;

    reveal(v1_entries);
    lemma_keys();
}

/// What the entries of a version 1 document give the second five of its keys.
proof fn lemma_v1_second_keys(v: TableMetadataV1V)
    ensures
        lookup(v1_entries(v), "schema"@) == Some(IcebergSchemaV1::encoded(v.schema)),
        lookup(v1_entries(v), "schemas"@) == encoded_list_opt::<IcebergSchemaV1>(v.schemas),
        lookup(v1_entries(v), "current-schema-id"@) == int_some(v.current_schema_id),
        lookup(v1_entries(v), "partition-spec"@) == Some(
            JsonV::Array(encoded_list::<PartitionField>(v.partition_spec)),
        ),
        lookup(v1_entries(v), "partition-specs"@) == Some(
            JsonV::Array(encoded_list::<PartitionSpec>(v.partition_specs)),
        ),
{
    broadcast use group_lookup;

    reveal(v1_entries);
    lemma_keys();
}

/// What the entries of a version 1 document give the third five of its keys.
proof fn lemma_v1_third_keys(v: TableMetadataV1V)
    ensures
        lookup(v1_entries(v), "default-spec-id"@) == int_some(v.default_spec_id),
        lookup(v1_entries(v), "last-partition-id"@) == int_some(v.last_partition_id),
        lookup(v1_entries(v), "properties"@) == encoded_object_opt::<String>(v.properties),
        lookup(v1_entries(v), "current-snapshot-id"@) == long_some(v.current_snapshot_id),
        lookup(v1_entries(v), "snapshots"@) == encoded_list_opt::<SnapshotV1>(v.snapshots),
{
    broadcast use group_lookup;

    reveal(v1_entries);
    lemma_keys();
}

/// What the entries of a version 1 document give the fourth five of its keys.
proof fn lemma_v1_fourth_keys(v: TableMetadataV1V)
    ensures
        lookup(v1_entries(v), "snapshot-log"@) == encoded_list_opt::<SnapshotLog>(v.snapshot_log),
        lookup(v1_entries(v), "metadata-log"@) == encoded_list_opt::<MetadataLog>(v.metadata_log),
        lookup(v1_entries(v), "sort-orders"@) == encoded_list_opt::<SortOrders>(v.sort_orders),
        lookup(v1_entries(v), "default-sort-order-id"@) == Some(
            JsonV::Number(NumberV::Int(v.default_sort_order_id as i64)),
        ),
        lookup(v1_entries(v), "statistics"@) == encoded_opt::<Statistics>(v.statistics),
{
    broadcast use group_lookup;

    reveal(v1_entries);
    lemma_keys();
}

impl Codec for TableMetadataV1 {
    open spec fn valid(v: TableMetadataV1V) -> bool {
        &&& v.table_uuid matches Some(x) ==> TableUuid::valid(x)
        &&& IcebergSchemaV1::valid(v.schema)
        &&& v.schemas matches Some(x) ==> valid_list::<IcebergSchemaV1>(x)
        &&& valid_list::<PartitionField>(v.partition_spec)
        &&& valid_list::<PartitionSpec>(v.partition_specs)
        &&& v.properties matches Some(x) ==> valid_entries::<String>(x, None)
        &&& v.snapshots matches Some(x) ==> valid_list::<SnapshotV1>(x)
        &&& v.snapshot_log matches Some(x) ==> valid_list::<SnapshotLog>(x)
        &&& v.metadata_log matches Some(x) ==> valid_list::<MetadataLog>(x)
        &&& v.sort_orders matches Some(x) ==> valid_list::<SortOrders>(x)
        &&& v.statistics matches Some(x) ==> Statistics::valid(x)
    }

    open spec fn decoded(doc: JsonV) -> Result<TableMetadataV1V, CodecErrorV> {
        if !(doc is Object) {
            Err(fail_bare(Fault::NotAnObject))
        } else {
            match first_error(v1_errors(doc)) {
                Some(e) => Err(e),
                None => Ok(v1_values(doc)),
            }
        }
    }

    open spec fn encoded(v: TableMetadataV1V) -> JsonV {
        JsonV::Object(v1_entries(v))
    }

    fn deserialize(doc: &Json) -> (r: Result<TableMetadataV1, CodecError>) {
        broadcast use group_first_error;

        let _ = doc.as_entries()?;
        let format_version = doc.int_at("format-version")?;
        let table_uuid = deserialize_opt::<TableUuid>(doc, "table-uuid")?;
        let location = doc.text_at("location")?;
        let last_updated_ms = doc.long_at("last-updated-ms")?;
        let last_column_id = doc.int_at("last-column-id")?;
        let schema = deserialize_at::<IcebergSchemaV1>(doc, "schema")?;
        let schemas = deserialize_array_opt::<IcebergSchemaV1>(doc, "schemas")?;
        let current_schema_id = doc.int_opt("current-schema-id")?;
        let partition_spec = deserialize_array_at::<PartitionField>(doc, "partition-spec")?;
        let partition_specs = deserialize_array_at::<PartitionSpec>(doc, "partition-specs")?;
        let default_spec_id = doc.int_opt("default-spec-id")?;
        let last_partition_id = doc.int_opt("last-partition-id")?;
        let properties = deserialize_object_opt::<String>(doc, "properties")?;
        let current_snapshot_id = doc.long_opt("current-snapshot-id")?;
        let snapshots = deserialize_array_opt::<SnapshotV1>(doc, "snapshots")?;
        let snapshot_log = deserialize_array_opt::<SnapshotLog>(doc, "snapshot-log")?;
        let metadata_log = deserialize_array_opt::<MetadataLog>(doc, "metadata-log")?;
        let sort_orders = deserialize_array_opt::<SortOrders>(doc, "sort-orders")?;
        let default_sort_order_id = doc.int_at("default-sort-order-id")?;
        let statistics = deserialize_opt::<Statistics>(doc, "statistics")?;
        Ok(
            TableMetadataV1 {
                format_version,
                table_uuid,
                location,
                last_updated_ms,
                last_column_id,
                schema,
                schemas,
                current_schema_id,
                partition_spec,
                partition_specs,
                default_spec_id,
                last_partition_id,
                properties,
                current_snapshot_id,
                snapshots,
                snapshot_log,
                metadata_log,
                sort_orders,
                default_sort_order_id,
                statistics,
            },
        )
    }

    fn serialize(&self) -> (doc: Json) {
        self.write(self.format_version)
    }

    proof fn decoded_is_valid(doc: JsonV) {
        broadcast use group_first_error;

        if doc is Object {
            if let Some(x) = doc.present("table-uuid"@) {
                TableUuid::decoded_is_valid(x);
            }
            if let Some(x) = doc.get("schema"@) {
                IcebergSchemaV1::decoded_is_valid(x);
            }
            if let Some(JsonV::Array(items)) = doc.present("schemas"@) {
                lemma_decoded_list_valid::<IcebergSchemaV1>(items);
            }
            if let Some(JsonV::Array(items)) = doc.get("partition-spec"@) {
                lemma_decoded_list_valid::<PartitionField>(items);
            }
            if let Some(JsonV::Array(items)) = doc.get("partition-specs"@) {
                lemma_decoded_list_valid::<PartitionSpec>(items);
            }
            if let Some(JsonV::Object(entries)) = doc.present("properties"@) {
                lemma_decoded_entries_valid::<String>(entries, None);
            }
            if let Some(JsonV::Array(items)) = doc.present("snapshots"@) {
                lemma_decoded_list_valid::<SnapshotV1>(items);
            }
            if let Some(JsonV::Array(items)) = doc.present("snapshot-log"@) {
                lemma_decoded_list_valid::<SnapshotLog>(items);
            }
            if let Some(JsonV::Array(items)) = doc.present("metadata-log"@) {
                lemma_decoded_list_valid::<MetadataLog>(items);
            }
            if let Some(JsonV::Array(items)) = doc.present("sort-orders"@) {
                lemma_decoded_list_valid::<SortOrders>(items);
            }
            if let Some(x) = doc.present("statistics"@) {
                Statistics::decoded_is_valid(x);
            }
        }
    }

    proof fn round_trip(v: TableMetadataV1V) {
        broadcast use group_first_error;

        lemma_v1_first_keys(v);
        lemma_v1_second_keys(v);
        lemma_v1_third_keys(v);
        lemma_v1_fourth_keys(v);
        if let Some(x) = v.table_uuid {
            TableUuid::round_trip(x);
        }
        IcebergSchemaV1::round_trip(v.schema);
        if let Some(x) = v.schemas {
            lemma_list_round_trip::<IcebergSchemaV1>(x);
        }
        lemma_list_round_trip::<PartitionField>(v.partition_spec);
        lemma_list_round_trip::<PartitionSpec>(v.partition_specs);
        if let Some(x) = v.properties {
            lemma_object_round_trip::<String>(x);
        }
        if let Some(x) = v.snapshots {
            lemma_list_round_trip::<SnapshotV1>(x);
        }
        if let Some(x) = v.snapshot_log {
            lemma_list_round_trip::<SnapshotLog>(x);
        }
        if let Some(x) = v.metadata_log {
            lemma_list_round_trip::<MetadataLog>(x);
        }
        if let Some(x) = v.sort_orders {
            lemma_list_round_trip::<SortOrders>(x);
        }
        if let Some(x) = v.statistics {
            Statistics::round_trip(x);
        }
    }

    proof fn encoded_is_tidy(v: TableMetadataV1V) {
        broadcast use group_tidy;

        reveal(v1_entries);
        if let Some(x) = v.table_uuid {
            TableUuid::encoded_is_tidy(x);
        }
        IcebergSchemaV1::encoded_is_tidy(v.schema);
        if let Some(x) = v.schemas {
            lemma_list_tidy::<IcebergSchemaV1>(x);
        }
        lemma_list_tidy::<PartitionField>(v.partition_spec);
        lemma_list_tidy::<PartitionSpec>(v.partition_specs);
        if let Some(x) = v.properties {
            lemma_named_tidy::<String>(x);
        }
        if let Some(x) = v.snapshots {
            lemma_list_tidy::<SnapshotV1>(x);
        }
        if let Some(x) = v.snapshot_log {
            lemma_list_tidy::<SnapshotLog>(x);
        }
        if let Some(x) = v.metadata_log {
            lemma_list_tidy::<MetadataLog>(x);
        }
        if let Some(x) = v.sort_orders {
            lemma_list_tidy::<SortOrders>(x);
        }
        if let Some(x) = v.statistics {
            Statistics::encoded_is_tidy(x);
        }
    }
}

impl TableMetadataV1 {
    /// Encodes the value with the given number in the place of its format
    /// version.
    pub fn write(&self, version: i32) -> (doc: Json)
        ensures
            doc@ == Self::encoded(TableMetadataV1V { format_version: version, ..self@ }),
    {
        reveal(v1_entries);
        let mut entries = no_entries();
        put(&mut entries, "format-version", Json::short(version));
        put_some(&mut entries, "table-uuid", serialize_opt::<TableUuid>(&self.table_uuid));
        put(&mut entries, "location", Json::Text(self.location.clone()));
        put(&mut entries, "last-updated-ms", Json::long(self.last_updated_ms));
        put(&mut entries, "last-column-id", Json::short(self.last_column_id));
        put(&mut entries, "schema", self.schema.serialize());
        put_some(&mut entries, "schemas", serialize_list_opt::<IcebergSchemaV1>(&self.schemas));
        put_some(&mut entries, "current-schema-id", int_json(&self.current_schema_id));
        put(&mut entries, "partition-spec", serialize_list::<PartitionField>(&self.partition_spec));
        put(
            &mut entries,
            "partition-specs",
            serialize_list::<PartitionSpec>(&self.partition_specs),
        );
        put_some(&mut entries, "default-spec-id", int_json(&self.default_spec_id));
        put_some(&mut entries, "last-partition-id", int_json(&self.last_partition_id));
        put_some(&mut entries, "properties", serialize_object_opt::<String>(&self.properties));
        put_some(&mut entries, "current-snapshot-id", long_json(&self.current_snapshot_id));
        put_some(&mut entries, "snapshots", serialize_list_opt::<SnapshotV1>(&self.snapshots));
        put_some(
            &mut entries,
            "snapshot-log",
            serialize_list_opt::<SnapshotLog>(&self.snapshot_log),
        );
        put_some(
            &mut entries,
            "metadata-log",
            serialize_list_opt::<MetadataLog>(&self.metadata_log),
        );
        put_some(&mut entries, "sort-orders", serialize_list_opt::<SortOrders>(&self.sort_orders));
        put(&mut entries, "default-sort-order-id", Json::short(self.default_sort_order_id));
        put_some(&mut entries, "statistics", serialize_opt::<Statistics>(&self.statistics));
        object(entries)
    }
}

/// The table metadata of either format version.
#[derive(Debug, PartialEq, Eq)]
pub enum TableMetadata {
    V1(TableMetadataV1),
    V2(TableMetadataV2),
}

/// The mathematical value of a [`TableMetadata`].
pub ghost enum TableMetadataV {
    V1(TableMetadataV1V),
    V2(TableMetadataV2V),
}

impl View for TableMetadata {
    type V = TableMetadataV;

    open spec fn view(&self) -> TableMetadataV {
        match self {
            TableMetadata::V1(m) => TableMetadataV::V1(m@),
            TableMetadata::V2(m) => TableMetadataV::V2(m@),
        }
    }
}

/// The format version of a document: the integer under `format-version`.
pub open spec fn format_version_of(doc: JsonV) -> Option<i64> {
    match doc.get("format-version"@) {
        Some(JsonV::Number(NumberV::Int(n))) => Some(n),
        _ => None,
    }
}

impl Codec for TableMetadata {
    open spec fn valid(v: TableMetadataV) -> bool {
        match v {
            TableMetadataV::V1(m) => m.format_version == 1 && TableMetadataV1::valid(m),
            TableMetadataV::V2(m) => m.format_version == 2 && TableMetadataV2::valid(m),
        }
    }

    open spec fn decoded(doc: JsonV) -> Result<TableMetadataV, CodecErrorV> {
        match format_version_of(doc) {
            None => Err(fail_bare(Fault::MissingOrBadFormatVersion)),
            Some(n) => if n == 2 {
                match TableMetadataV2::decoded(doc) {
                    Ok(m) => Ok(TableMetadataV::V2(m)),
                    Err(e) => Err(e.in_version(2)),
                }
            } else if n == 1 {
                match TableMetadataV1::decoded(doc) {
                    Ok(m) => Ok(TableMetadataV::V1(m)),
                    Err(e) => Err(e.in_version(1)),
                }
            } else {
                Err(fail_bare(Fault::UnsupportedVersion(n)))
            },
        }
    }

    open spec fn encoded(v: TableMetadataV) -> JsonV {
        match v {
            TableMetadataV::V1(m) => TableMetadataV1::encoded(
                TableMetadataV1V { format_version: 1, ..m },
            ),
            TableMetadataV::V2(m) => TableMetadataV2::encoded(
                TableMetadataV2V { format_version: 2, ..m },
            ),
        }
    }

    fn deserialize(doc: &Json) -> (r: Result<TableMetadata, CodecError>) {
        let version = match doc.get("format-version") {
            Some(v) => match v.as_long("") {
                Ok(n) => n,
                Err(_) => {
                    return Err(CodecError::bare(Fault::MissingOrBadFormatVersion));
                },
            },
            None => {
                return Err(CodecError::bare(Fault::MissingOrBadFormatVersion));
            },
        };
        if version == 2 {
            match TableMetadataV2::deserialize(doc) {
                Ok(m) => Ok(TableMetadata::V2(m)),
                Err(e) => Err(e.in_version(2)),
            }
        } else if version == 1 {
            match TableMetadataV1::deserialize(doc) {
                Ok(m) => Ok(TableMetadata::V1(m)),
                Err(e) => Err(e.in_version(1)),
            }
        } else {
            Err(CodecError::bare(Fault::UnsupportedVersion(version)))
        }
    }

    fn serialize(&self) -> (doc: Json) {
        match self {
            TableMetadata::V1(m) => m.write(1),
            TableMetadata::V2(m) => m.write(2),
        }
    }

    proof fn decoded_is_valid(doc: JsonV) {
        TableMetadataV1::decoded_is_valid(doc);
        TableMetadataV2::decoded_is_valid(doc);
    }

    proof fn round_trip(v: TableMetadataV) {
        match v {
            TableMetadataV::V1(m) => {
                TableMetadataV1::round_trip(m);
                lemma_version_written_v1(m);
            },
            TableMetadataV::V2(m) => {
                TableMetadataV2::round_trip(m);
                lemma_version_written_v2(m);
            },
        }
    }

    proof fn encoded_is_tidy(v: TableMetadataV) {
        match v {
            TableMetadataV::V1(m) => {
                TableMetadataV1::encoded_is_tidy(TableMetadataV1V { format_version: 1, ..m });
            },
            TableMetadataV::V2(m) => {
                TableMetadataV2::encoded_is_tidy(TableMetadataV2V { format_version: 2, ..m });
            },
        }
    }
}

/// The tree of a version 2 document gives `format-version` its number.
pub proof fn lemma_version_written_v2(m: TableMetadataV2V)
    ensures
        TableMetadataV2::encoded(m).get("format-version"@) == Some(
            JsonV::Number(NumberV::Int(m.format_version as i64)),
        ),
{
    lemma_v2_first_keys(m);
}

/// The tree of a version 1 document gives `format-version` its number.
pub proof fn lemma_version_written_v1(m: TableMetadataV1V)
    ensures
        TableMetadataV1::encoded(m).get("format-version"@) == Some(
            JsonV::Number(NumberV::Int(m.format_version as i64)),
        ),
{
    lemma_v1_first_keys(m);
}

/// Whatever the metadata holds, its tree carries the number of its variant
/// under `format-version`.
pub proof fn lemma_version_is_written(v: TableMetadataV)
    ensures
        format_version_of(TableMetadata::encoded(v)) == Some(
            match v {
                TableMetadataV::V1(_) => 1i64,
                TableMetadataV::V2(_) => 2i64,
            },
        ),
{
    match v {
        TableMetadataV::V1(m) => lemma_version_written_v1(
            TableMetadataV1V { format_version: 1, ..m },
        ),
        TableMetadataV::V2(m) => lemma_version_written_v2(
            TableMetadataV2V { format_version: 2, ..m },
        ),
    }
}

/// A document without an integer under `format-version` is refused for
/// that, whatever else it holds.
pub proof fn lemma_version_is_required(doc: JsonV)
    requires
        format_version_of(doc) is None,
    ensures
        TableMetadata::decoded(doc) == Err::<TableMetadataV, CodecErrorV>(
            fail_bare(Fault::MissingOrBadFormatVersion),
        ),
        Fault::MissingOrBadFormatVersion.spec_kind() == ErrorKind::Version,
{
}

/// A document of a format version other than 1 and 2 is refused for that,
/// whatever else it holds.
pub proof fn lemma_version_is_one_or_two(doc: JsonV, n: i64)
    requires
        format_version_of(doc) == Some(n),
        n != 1,
        n != 2,
    ensures
        TableMetadata::decoded(doc) == Err::<TableMetadataV, CodecErrorV>(
            fail_bare(Fault::UnsupportedVersion(n)),
        ),
        Fault::UnsupportedVersion(n).spec_kind() == ErrorKind::Version,
{
}

/// Decoding a document, encoding what came out and decoding again gives
/// what the first decoding gave.
pub proof fn lemma_metadata_decodes_again(doc: JsonV)
    ensures
        TableMetadata::decoded(doc) matches Ok(v) ==> TableMetadata::decoded(
            TableMetadata::encoded(v),
        ) == Ok::<TableMetadataV, CodecErrorV>(v),
{
    lemma_decode_encode_decode::<TableMetadata>(doc);
}

impl TableMetadata {
    /// Reads a textual document.
    pub fn from_json_text(text: &str) -> (r: Result<TableMetadata, CodecError>)
        ensures
            result_view(r) == decoded_text::<TableMetadata>(text@),
    {
        from_text::<TableMetadata>(text)
    }

    /// Writes the metadata as a textual document.
    pub fn to_json_text(&self) -> (r: String)
        ensures
            r@ == document_text(stored(TableMetadata::encoded(self@))),
    {
        to_text::<TableMetadata>(self)
    }
}

} // verus!
