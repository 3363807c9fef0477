//! The records of the manifest list: the in-memory shape of format
//! version 2, which also takes the records of version 1, and the shape of
//! version 1 itself.

use vstd::prelude::*;
use crate::avro::{
    array, branch, bytes_opt, bytes_union, bytes_view, decoded_all, decoded_file, deserialize_all,
    encoded_all, field_of, fields_view, find_given, flag_at, flag_opt, flag_union, given,
    group_field_of, int_at, int_opt, int_or_zero, int_union, is_written_under, lemma_all_round_trip,
    lemma_respelled, long_at, long_opt, long_or_zero, long_union, no_fields, parse_schema,
    put_field, read_bytes_opt, read_flag, read_flag_opt, read_int, read_int_opt, read_int_or_zero,
    read_long, read_long_opt, read_long_or_zero, read_text, record, respelled, schema_read,
    serialize_all, text_at, AvroCodec, AvroV, AvroValue,
};
use crate::codec::list_opt_view;
use crate::error::{
    error_of, fail, first_error, group_first_error, result_view, seq_view, CodecError, CodecErrorV,
    Fault,
};
use crate::manifest_list_avro_schema::{MANIFEST_LIST_V1_SCHEMA, MANIFEST_LIST_V2_SCHEMA};

verus! {

/// What the files of a manifest hold.
#[derive(Clone, Copy, Debug, PartialEq, Eq)]
pub enum FileType {
    Data,
    Delete,
}

impl View for FileType {
    type V = FileType;

    open spec fn view(&self) -> FileType {
        *self
    }
}

impl FileType {
    /// The content of a manifest that names none: data.
    pub fn data() -> (r: FileType)
        ensures
            r == FileType::Data,
    {
        FileType::Data
    }

    /// The number that stands for the content in a record.
    pub open spec fn spec_code(self) -> i32 {
        match self {
            FileType::Data => 0,
            FileType::Delete => 1,
        }
    }

    /// The number that stands for the content in a record.
    #[verifier::when_used_as_spec(spec_code)]
    pub fn code(self) -> (c: i32)
        ensures
            c == self.spec_code(),
    {
        match self {
            FileType::Data => 0,
            FileType::Delete => 1,
        }
    }

    /// The content that a number stands for.
    pub fn from_code(code: i32) -> (r: Result<FileType, CodecError>)
        ensures
            result_view(r) == content_of_code(code),
    {
        if code == 0 {
            Ok(FileType::Data)
        } else if code == 1 {
            Ok(FileType::Delete)
        } else {
            Err(CodecError::new(Fault::UnknownContent, "content"))
        }
    }
}

/// The content that a number stands for: 0 is data, 1 is delete.
pub open spec fn content_of_code(code: i32) -> Result<FileType, CodecErrorV> {
    if code == 0 {
        Ok(FileType::Data)
    } else if code == 1 {
        Ok(FileType::Delete)
    } else {
        Err(fail(Fault::UnknownContent, "content"@))
    }
}

/// The content of a manifest: what the record gives, or data where it
/// gives none.
pub open spec fn content_of(fields: Seq<(Seq<char>, AvroV)>) -> Result<FileType, CodecErrorV> {
    match given(fields, "content"@) {
        None => Ok(FileType::Data),
        Some(v) => match v.as_int("content"@) {
            Err(e) => Err(e),
            Ok(code) => content_of_code(code),
        },
    }
}

/// Reads the content of a manifest from a record.
pub fn read_content(fields: &Vec<(String, AvroValue)>) -> (r: Result<FileType, CodecError>)
    ensures
        result_view(r) == content_of(fields_view(fields@)),
{
    match find_given(fields, "content") {
        None => Ok(FileType::data()),
        Some(v) => {
            let code = v.as_int("content")?;
            FileType::from_code(code)
        },
    }
}

/// The field summaries of a manifest, where the record gives some.
pub open spec fn summaries_of(fields: Seq<(Seq<char>, AvroV)>) -> Result<
    Option<Seq<FieldSummaryV2V>>,
    CodecErrorV,
> {
    match given(fields, "partitions"@) {
        None => Ok(None),
        Some(v) => match v.as_items("partitions"@) {
            Err(e) => Err(e),
            Ok(items) => match decoded_all::<FieldSummaryV2>(items) {
                Err(e) => Err(e),
                Ok(summaries) => Ok(Some(summaries)),
            },
        },
    }
}

/// Optional field summaries as a union of `null` and an array of records.
pub open spec fn summaries_union(o: Option<Seq<FieldSummaryV2V>>) -> AvroV {
    match o {
        Some(s) => AvroV::Union(1, Box::new(AvroV::Array(encoded_all::<FieldSummaryV2>(s)))),
        None => AvroV::Union(0, Box::new(AvroV::Null)),
    }
}

/// Reads the field summaries of a manifest from a record.
pub fn read_summaries(fields: &Vec<(String, AvroValue)>) -> (r: Result<
    Option<Vec<FieldSummaryV2>>,
    CodecError,
>)
    ensures
        match r {
            Ok(o) => summaries_of(fields_view(fields@)) == Ok::<
                Option<Seq<FieldSummaryV2V>>,
                CodecErrorV,
            >(list_opt_view(o)),
            Err(e) => summaries_of(fields_view(fields@)) == Err::<
                Option<Seq<FieldSummaryV2V>>,
                CodecErrorV,
            >(e@),
        },
{
    match find_given(fields, "partitions") {
        None => Ok(None),
        Some(v) => {
            let items = v.as_items("partitions")?;
            let summaries = deserialize_all::<FieldSummaryV2>(items)?;
            Ok(Some(summaries))
        },
    }
}

/// Optional field summaries as a union of `null` and an array of records.
pub fn write_summaries(o: &Option<Vec<FieldSummaryV2>>) -> (r: AvroValue)
    ensures
        r@ == summaries_union(list_opt_view(*o)),
{
    match o {
        Some(summaries) => branch(1, array(serialize_all::<FieldSummaryV2>(summaries))),
        None => branch(0, AvroValue::Null),
    }
}

/// Decoding the union that encodes optional field summaries gives them
/// back.
pub proof fn lemma_summaries_round_trip(o: Option<Seq<FieldSummaryV2V>>)
    ensures
        summaries_of(Seq::empty().push(("partitions"@, summaries_union(o)))) == Ok::<
            Option<Seq<FieldSummaryV2V>>,
            CodecErrorV,
        >(o),
{
    broadcast use group_field_of;

    if let Some(s) = o {
        lemma_all_round_trip::<FieldSummaryV2>(s);
    }
}

/// The names of the fields of this file: their lengths and as much of
/// their characters as tells them apart.
proof fn lemma_names()
    ensures
        "manifest_path"@.len() == 13,
        "manifest_length"@.len() == 15,
        "manifest_length"@[0] == 'm',
        "partition_spec_id"@.len() == 17,
        "partition_spec_id"@[0] == 'p',
        "content"@.len() == 7,
        "sequence_number"@.len() == 15,
        "sequence_number"@[0] == 's',
        "min_sequence_number"@.len() == 19,
        "min_sequence_number"@[0] == 'm',
        "added_snapshot_id"@.len() == 17,
        "added_snapshot_id"@[0] == 'a',
        "added_snapshot_id"@[6] == 's',
        "added_files_count"@.len() == 17,
        "added_files_count"@[0] == 'a',
        "added_files_count"@[6] == 'f',
        "existing_files_count"@.len() == 20,
        "deleted_files_count"@.len() == 19,
        "deleted_files_count"@[0] == 'd',
        "added_rows_count"@.len() == 16,
        "existing_rows_count"@.len() == 19,
        "existing_rows_count"@[0] == 'e',
        "deleted_rows_count"@.len() == 18,
        "partitions"@.len() == 10,
        "key_metadata"@.len() == 12,
        "added_data_files_count"@.len() == 22,
        "existing_data_files_count"@.len() == 25,
        "deleted_data_files_count"@.len() == 24,
        "contains_null"@.len() == 13,
        "contains_nan"@.len() == 12,
        "lower_bound"@.len() == 11,
        "lower_bound"@[0] == 'l',
        "upper_bound"@.len() == 11,
        "upper_bound"@[0] == 'u',
{
    reveal_strlit("manifest_path");
    reveal_strlit("manifest_length");
    reveal_strlit("partition_spec_id");
    reveal_strlit("content");
    reveal_strlit("sequence_number");
    reveal_strlit("min_sequence_number");
    reveal_strlit("added_snapshot_id");
    reveal_strlit("added_files_count");
    reveal_strlit("existing_files_count");
    reveal_strlit("deleted_files_count");
    reveal_strlit("added_rows_count");
    reveal_strlit("existing_rows_count");
    reveal_strlit("deleted_rows_count");
    reveal_strlit("partitions");
    reveal_strlit("key_metadata");
    reveal_strlit("added_data_files_count");
    reveal_strlit("existing_data_files_count");
    reveal_strlit("deleted_data_files_count");
    reveal_strlit("contains_null");
    reveal_strlit("contains_nan");
    reveal_strlit("lower_bound");
    reveal_strlit("upper_bound");
}

/// What a manifest says of one partition field.
#[derive(Clone, Debug, PartialEq, Eq)]
pub struct FieldSummaryV2 {
    pub contains_null: bool,
    pub contains_nan: Option<bool>,
    /// The lower bound as the table format encodes values; it is not read.
    pub lower_bound: Option<Vec<u8>>,
    /// The upper bound as the table format encodes values; it is not read.
    pub upper_bound: Option<Vec<u8>>,
}

/// The mathematical value of a [`FieldSummaryV2`].
pub ghost struct FieldSummaryV2V {
    pub contains_null: bool,
    pub contains_nan: Option<bool>,
    pub lower_bound: Option<Seq<u8>>,
    pub upper_bound: Option<Seq<u8>>,
}

impl View for FieldSummaryV2 {
    type V = FieldSummaryV2V;

    open spec fn view(&self) -> FieldSummaryV2V {
        FieldSummaryV2V {
            contains_null: self.contains_null,
            contains_nan: self.contains_nan,
            lower_bound: bytes_view(self.lower_bound),
            upper_bound: bytes_view(self.upper_bound),
        }
    }
}

/// What the fields of a record give as a [`FieldSummaryV2`].
pub open spec fn summary_of(fields: Seq<(Seq<char>, AvroV)>) -> Result<
    FieldSummaryV2V,
    CodecErrorV,
> {
    match flag_at(fields, "contains_null"@) {
        Err(e) => Err(e),
        Ok(contains_null) => match flag_opt(fields, "contains_nan"@) {
            Err(e) => Err(e),
            Ok(contains_nan) => match bytes_opt(fields, "lower_bound"@) {
                Err(e) => Err(e),
                Ok(lower_bound) => match bytes_opt(fields, "upper_bound"@) {
                    Err(e) => Err(e),
                    Ok(upper_bound) => Ok(
                        FieldSummaryV2V { contains_null, contains_nan, lower_bound, upper_bound },
                    ),
                },
            },
        },
    }
}

/// The fields of the record that encodes a [`FieldSummaryV2`], in the order of
/// the schema.
pub open spec fn summary_fields(v: FieldSummaryV2V) -> Seq<(Seq<char>, AvroV)> {
    Seq::empty()
        .push(("contains_null"@, AvroV::Boolean(v.contains_null)))
        .push(("contains_nan"@, flag_union(v.contains_nan)))
        .push(("lower_bound"@, bytes_union(v.lower_bound)))
        .push(("upper_bound"@, bytes_union(v.upper_bound)))
}

impl AvroCodec for FieldSummaryV2 {
    open spec fn valid(v: FieldSummaryV2V) -> bool {
        true
    }

    open spec fn decoded(value: AvroV) -> Result<FieldSummaryV2V, CodecErrorV> {
        match value.as_fields() {
            Err(e) => Err(e),
            Ok(fields) => summary_of(fields),
        }
    }

    open spec fn encoded(v: FieldSummaryV2V) -> AvroV {
        AvroV::Record(summary_fields(v))
    }

    fn deserialize(value: &AvroValue) -> (r: Result<FieldSummaryV2, CodecError>) {
        let fields = value.as_fields()?;
        let contains_null = read_flag(fields, "contains_null")?;
        let contains_nan = read_flag_opt(fields, "contains_nan")?;
        let lower_bound = read_bytes_opt(fields, "lower_bound")?;
        let upper_bound = read_bytes_opt(fields, "upper_bound")?;
        Ok(
            FieldSummaryV2 {
                contains_null,
                contains_nan,
                lower_bound,
                upper_bound,
            },
        )
    }

    fn serialize(&self) -> (value: AvroValue) {
        let mut fields = no_fields();
        put_field(&mut fields, "contains_null", AvroValue::Boolean(self.contains_null));
        put_field(&mut fields, "contains_nan", AvroValue::flag_union(self.contains_nan));
        put_field(&mut fields, "lower_bound", AvroValue::bytes_union(&self.lower_bound));
        put_field(&mut fields, "upper_bound", AvroValue::bytes_union(&self.upper_bound));
        record(fields)
    }

    proof fn decoded_is_valid(value: AvroV) {
    }

    proof fn round_trip(v: FieldSummaryV2V) {
        broadcast use group_field_of;

        lemma_names();
    }
}

/// The field summary of format version 1, which is that of version 2.
pub type FieldSummaryV1 = FieldSummaryV2;

/// A record of the manifest list in the shape of format version 2. A record
/// of version 1 decodes into it too.
#[derive(Clone, Debug, PartialEq, Eq)]
pub struct ManifestListV2 {
    pub manifest_path: String,
    pub manifest_length: i64,
    pub partition_spec_id: i32,
    /// Data where the record names no content.
    pub content: FileType,
    /// Zero where the record names none.
    pub sequence_number: i64,
    /// Zero where the record names none.
    pub min_sequence_number: i64,
    pub added_snapshot_id: i64,
    /// Zero where the record names none under either spelling.
    pub added_files_count: i32,
    /// Zero where the record names none under either spelling.
    pub existing_files_count: i32,
    /// Zero where the record names none under either spelling.
    pub deleted_files_count: i32,
    pub added_rows_count: i64,
    pub existing_rows_count: i64,
    pub deleted_rows_count: i64,
    pub partitions: Option<Vec<FieldSummaryV2>>,
    pub key_metadata: Option<Vec<u8>>,
}

/// The mathematical value of a [`ManifestListV2`].
pub ghost struct ManifestListV2V {
    pub manifest_path: Seq<char>,
    pub manifest_length: i64,
    pub partition_spec_id: i32,
    pub content: FileType,
    pub sequence_number: i64,
    pub min_sequence_number: i64,
    pub added_snapshot_id: i64,
    pub added_files_count: i32,
    pub existing_files_count: i32,
    pub deleted_files_count: i32,
    pub added_rows_count: i64,
    pub existing_rows_count: i64,
    pub deleted_rows_count: i64,
    pub partitions: Option<Seq<FieldSummaryV2V>>,
    pub key_metadata: Option<Seq<u8>>,
}

impl View for ManifestListV2 {
    type V = ManifestListV2V;

    open spec fn view(&self) -> ManifestListV2V {
        ManifestListV2V {
            manifest_path: self.manifest_path@,
            manifest_length: self.manifest_length,
            partition_spec_id: self.partition_spec_id,
            content: self.content,
            sequence_number: self.sequence_number,
            min_sequence_number: self.min_sequence_number,
            added_snapshot_id: self.added_snapshot_id,
            added_files_count: self.added_files_count,
            existing_files_count: self.existing_files_count,
            deleted_files_count: self.deleted_files_count,
            added_rows_count: self.added_rows_count,
            existing_rows_count: self.existing_rows_count,
            deleted_rows_count: self.deleted_rows_count,
            partitions: list_opt_view(self.partitions),
            key_metadata: bytes_view(self.key_metadata),
        }
    }
}

/// What is wrong with each field of a manifest of version 2, in the order
/// in which the fields are read.
pub open spec fn manifest_v2_errors(fields: Seq<(Seq<char>, AvroV)>) -> Seq<Option<CodecErrorV>> {
    Seq::empty()
        .push(error_of(text_at(fields, "manifest_path"@)))
        .push(error_of(long_at(fields, "manifest_length"@)))
        .push(error_of(int_at(fields, "partition_spec_id"@)))
        .push(error_of(content_of(fields)))
        .push(error_of(long_or_zero(fields, "sequence_number"@)))
        .push(error_of(long_or_zero(fields, "min_sequence_number"@)))
        .push(error_of(long_at(fields, "added_snapshot_id"@)))
        .push(error_of(int_or_zero(fields, "added_files_count"@, "added_data_files_count"@)))
        .push(error_of(int_or_zero(fields, "existing_files_count"@, "existing_data_files_count"@)))
        .push(error_of(int_or_zero(fields, "deleted_files_count"@, "deleted_data_files_count"@)))
        .push(error_of(long_or_zero(fields, "added_rows_count"@)))
        .push(error_of(long_or_zero(fields, "existing_rows_count"@)))
        .push(error_of(long_or_zero(fields, "deleted_rows_count"@)))
        .push(error_of(summaries_of(fields)))
        .push(error_of(bytes_opt(fields, "key_metadata"@)))
}

/// What the fields of a record give as a manifest of version 2, where
/// nothing is wrong with any of them.
pub open spec fn manifest_v2_values(fields: Seq<(Seq<char>, AvroV)>) -> ManifestListV2V {
    ManifestListV2V {
        manifest_path: text_at(fields, "manifest_path"@)->Ok_0,
        manifest_length: long_at(fields, "manifest_length"@)->Ok_0,
        partition_spec_id: int_at(fields, "partition_spec_id"@)->Ok_0,
        content: content_of(fields)->Ok_0,
        sequence_number: long_or_zero(fields, "sequence_number"@)->Ok_0,
        min_sequence_number: long_or_zero(fields, "min_sequence_number"@)->Ok_0,
        added_snapshot_id: long_at(fields, "added_snapshot_id"@)->Ok_0,
        added_files_count: int_or_zero(
            fields,
            "added_files_count"@,
            "added_data_files_count"@,
        )->Ok_0,
        existing_files_count: int_or_zero(
            fields,
            "existing_files_count"@,
            "existing_data_files_count"@,
        )->Ok_0,
        deleted_files_count: int_or_zero(
            fields,
            "deleted_files_count"@,
            "deleted_data_files_count"@,
        )->Ok_0,
        added_rows_count: long_or_zero(fields, "added_rows_count"@)->Ok_0,
        existing_rows_count: long_or_zero(fields, "existing_rows_count"@)->Ok_0,
        deleted_rows_count: long_or_zero(fields, "deleted_rows_count"@)->Ok_0,
        partitions: summaries_of(fields)->Ok_0,
        key_metadata: bytes_opt(fields, "key_metadata"@)->Ok_0,
    }
}

/// What the fields of a record give as a [`ManifestListV2`].
pub open spec fn manifest_v2_of(fields: Seq<(Seq<char>, AvroV)>) -> Result<
    ManifestListV2V,
    CodecErrorV,
> {
    match first_error(manifest_v2_errors(fields)) {
        Some(e) => Err(e),
        None => Ok(manifest_v2_values(fields)),
    }
}

/// The fields of the record that encodes a [`ManifestListV2`], in the order of
/// the schema.
pub open spec fn manifest_v2_fields(v: ManifestListV2V) -> Seq<(Seq<char>, AvroV)> {
    Seq::empty()
        .push(("manifest_path"@, AvroV::Text(v.manifest_path)))
        .push(("manifest_length"@, AvroV::Long(v.manifest_length)))
        .push(("partition_spec_id"@, AvroV::Int(v.partition_spec_id)))
        .push(("content"@, AvroV::Int(v.content.spec_code())))
        .push(("sequence_number"@, AvroV::Long(v.sequence_number)))
        .push(("min_sequence_number"@, AvroV::Long(v.min_sequence_number)))
        .push(("added_snapshot_id"@, AvroV::Long(v.added_snapshot_id)))
        .push(("added_files_count"@, AvroV::Int(v.added_files_count)))
        .push(("existing_files_count"@, AvroV::Int(v.existing_files_count)))
        .push(("deleted_files_count"@, AvroV::Int(v.deleted_files_count)))
        .push(("added_rows_count"@, AvroV::Long(v.added_rows_count)))
        .push(("existing_rows_count"@, AvroV::Long(v.existing_rows_count)))
        .push(("deleted_rows_count"@, AvroV::Long(v.deleted_rows_count)))
        .push(("partitions"@, summaries_union(v.partitions)))
        .push(("key_metadata"@, bytes_union(v.key_metadata)))
}

impl AvroCodec for ManifestListV2 {
    open spec fn valid(v: ManifestListV2V) -> bool {
        true
    }

    open spec fn decoded(value: AvroV) -> Result<ManifestListV2V, CodecErrorV> {
        match value.as_fields() {
            Err(e) => Err(e),
            Ok(fields) => manifest_v2_of(fields),
        }
    }

    open spec fn encoded(v: ManifestListV2V) -> AvroV {
        AvroV::Record(manifest_v2_fields(v))
    }

    fn deserialize(value: &AvroValue) -> (r: Result<ManifestListV2, CodecError>) {
        broadcast use group_first_error;

        let fields = value.as_fields()?;
        let manifest_path = read_text(fields, "manifest_path")?;
        let manifest_length = read_long(fields, "manifest_length")?;
        let partition_spec_id = read_int(fields, "partition_spec_id")?;
        let content = read_content(fields)?;
        let sequence_number = read_long_or_zero(fields, "sequence_number")?;
        let min_sequence_number = read_long_or_zero(fields, "min_sequence_number")?;
        let added_snapshot_id = read_long(fields, "added_snapshot_id")?;
        let added_files_count = read_int_or_zero(
            fields,
            "added_files_count",
            "added_data_files_count",
        )?;
        let existing_files_count = read_int_or_zero(
            fields,
            "existing_files_count",
            "existing_data_files_count",
        )?;
        let deleted_files_count = read_int_or_zero(
            fields,
            "deleted_files_count",
            "deleted_data_files_count",
        )?;
        let added_rows_count = read_long_or_zero(fields, "added_rows_count")?;
        let existing_rows_count = read_long_or_zero(fields, "existing_rows_count")?;
        let deleted_rows_count = read_long_or_zero(fields, "deleted_rows_count")?;
        let partitions = read_summaries(fields)?;
        let key_metadata = read_bytes_opt(fields, "key_metadata")?;
        Ok(
            ManifestListV2 {
                manifest_path,
                manifest_length,
                partition_spec_id,
                content,
                sequence_number,
                min_sequence_number,
                added_snapshot_id,
                added_files_count,
                existing_files_count,
                deleted_files_count,
                added_rows_count,
                existing_rows_count,
                deleted_rows_count,
                partitions,
                key_metadata,
            },
        )
    }

    fn serialize(&self) -> (value: AvroValue) {
        let mut fields = no_fields();
        put_field(&mut fields, "manifest_path", AvroValue::Text(self.manifest_path.clone()));
        put_field(&mut fields, "manifest_length", AvroValue::Long(self.manifest_length));
        put_field(&mut fields, "partition_spec_id", AvroValue::Int(self.partition_spec_id));
        put_field(&mut fields, "content", AvroValue::Int(self.content.code()));
        put_field(&mut fields, "sequence_number", AvroValue::Long(self.sequence_number));
        put_field(&mut fields, "min_sequence_number", AvroValue::Long(self.min_sequence_number));
        put_field(&mut fields, "added_snapshot_id", AvroValue::Long(self.added_snapshot_id));
        put_field(&mut fields, "added_files_count", AvroValue::Int(self.added_files_count));
        put_field(&mut fields, "existing_files_count", AvroValue::Int(self.existing_files_count));
        put_field(&mut fields, "deleted_files_count", AvroValue::Int(self.deleted_files_count));
        put_field(&mut fields, "added_rows_count", AvroValue::Long(self.added_rows_count));
        put_field(&mut fields, "existing_rows_count", AvroValue::Long(self.existing_rows_count));
        put_field(&mut fields, "deleted_rows_count", AvroValue::Long(self.deleted_rows_count));
        put_field(&mut fields, "partitions", write_summaries(&self.partitions));
        put_field(&mut fields, "key_metadata", AvroValue::bytes_union(&self.key_metadata));
        record(fields)
    }

    proof fn decoded_is_valid(value: AvroV) {
    }

    proof fn round_trip(v: ManifestListV2V) {
        broadcast use {group_field_of, group_first_error};

        lemma_names();
        lemma_summaries_round_trip(v.partitions);
    }
}

/// A record of the manifest list in the shape of format version 1.
#[derive(Clone, Debug, PartialEq, Eq)]
pub struct ManifestListV1 {
    pub manifest_path: String,
    pub manifest_length: i64,
    pub partition_spec_id: i32,
    pub added_snapshot_id: i64,
    pub added_files_count: Option<i32>,
    pub existing_files_count: Option<i32>,
    pub deleted_files_count: Option<i32>,
    pub added_rows_count: Option<i64>,
    pub existing_rows_count: Option<i64>,
    pub deleted_rows_count: Option<i64>,
    pub partitions: Option<Vec<FieldSummaryV2>>,
    pub key_metadata: Option<Vec<u8>>,
}

/// The mathematical value of a [`ManifestListV1`].
pub ghost struct ManifestListV1V {
    pub manifest_path: Seq<char>,
    pub manifest_length: i64,
    pub partition_spec_id: i32,
    pub added_snapshot_id: i64,
    pub added_files_count: Option<i32>,
    pub existing_files_count: Option<i32>,
    pub deleted_files_count: Option<i32>,
    pub added_rows_count: Option<i64>,
    pub existing_rows_count: Option<i64>,
    pub deleted_rows_count: Option<i64>,
    pub partitions: Option<Seq<FieldSummaryV2V>>,
    pub key_metadata: Option<Seq<u8>>,
}

impl View for ManifestListV1 {
    type V = ManifestListV1V;

    open spec fn view(&self) -> ManifestListV1V {
        ManifestListV1V {
            manifest_path: self.manifest_path@,
            manifest_length: self.manifest_length,
            partition_spec_id: self.partition_spec_id,
            added_snapshot_id: self.added_snapshot_id,
            added_files_count: self.added_files_count,
            existing_files_count: self.existing_files_count,
            deleted_files_count: self.deleted_files_count,
            added_rows_count: self.added_rows_count,
            existing_rows_count: self.existing_rows_count,
            deleted_rows_count: self.deleted_rows_count,
            partitions: list_opt_view(self.partitions),
            key_metadata: bytes_view(self.key_metadata),
        }
    }
}

/// What is wrong with each field of a manifest of version 1, in the order
/// in which the fields are read.
pub open spec fn manifest_v1_errors(fields: Seq<(Seq<char>, AvroV)>) -> Seq<Option<CodecErrorV>> {
    Seq::empty()
        .push(error_of(text_at(fields, "manifest_path"@)))
        .push(error_of(long_at(fields, "manifest_length"@)))
        .push(error_of(int_at(fields, "partition_spec_id"@)))
        .push(error_of(long_at(fields, "added_snapshot_id"@)))
        .push(error_of(int_opt(fields, "added_files_count"@, "added_data_files_count"@)))
        .push(error_of(int_opt(fields, "existing_files_count"@, "existing_data_files_count"@)))
        .push(error_of(int_opt(fields, "deleted_files_count"@, "deleted_data_files_count"@)))
        .push(error_of(long_opt(fields, "added_rows_count"@)))
        .push(error_of(long_opt(fields, "existing_rows_count"@)))
        .push(error_of(long_opt(fields, "deleted_rows_count"@)))
        .push(error_of(summaries_of(fields)))
        .push(error_of(bytes_opt(fields, "key_metadata"@)))
}

/// What the fields of a record give as a manifest of version 1, where
/// nothing is wrong with any of them.
pub open spec fn manifest_v1_values(fields: Seq<(Seq<char>, AvroV)>) -> ManifestListV1V {
    ManifestListV1V {
        manifest_path: text_at(fields, "manifest_path"@)->Ok_0,
        manifest_length: long_at(fields, "manifest_length"@)->Ok_0,
        partition_spec_id: int_at(fields, "partition_spec_id"@)->Ok_0,
        added_snapshot_id: long_at(fields, "added_snapshot_id"@)->Ok_0,
        added_files_count: int_opt(fields, "added_files_count"@, "added_data_files_count"@)->Ok_0,
        existing_files_count: int_opt(
            fields,
            "existing_files_count"@,
            "existing_data_files_count"@,
        )->Ok_0,
        deleted_files_count: int_opt(
            fields,
            "deleted_files_count"@,
            "deleted_data_files_count"@,
        )->Ok_0,
        added_rows_count: long_opt(fields, "added_rows_count"@)->Ok_0,
        existing_rows_count: long_opt(fields, "existing_rows_count"@)->Ok_0,
        deleted_rows_count: long_opt(fields, "deleted_rows_count"@)->Ok_0,
        partitions: summaries_of(fields)->Ok_0,
        key_metadata: bytes_opt(fields, "key_metadata"@)->Ok_0,
    }
}

/// What the fields of a record give as a [`ManifestListV1`].
pub open spec fn manifest_v1_of(fields: Seq<(Seq<char>, AvroV)>) -> Result<
    ManifestListV1V,
    CodecErrorV,
> {
    match first_error(manifest_v1_errors(fields)) {
        Some(e) => Err(e),
        None => Ok(manifest_v1_values(fields)),
    }
}

/// The fields of the record that encodes a [`ManifestListV1`], in the order of
/// the schema.
pub open spec fn manifest_v1_fields(v: ManifestListV1V) -> Seq<(Seq<char>, AvroV)> {
    Seq::empty()
        .push(("manifest_path"@, AvroV::Text(v.manifest_path)))
        .push(("manifest_length"@, AvroV::Long(v.manifest_length)))
        .push(("partition_spec_id"@, AvroV::Int(v.partition_spec_id)))
        .push(("added_snapshot_id"@, AvroV::Long(v.added_snapshot_id)))
        .push(("added_files_count"@, int_union(v.added_files_count)))
        .push(("existing_files_count"@, int_union(v.existing_files_count)))
        .push(("deleted_files_count"@, int_union(v.deleted_files_count)))
        .push(("added_rows_count"@, long_union(v.added_rows_count)))
        .push(("existing_rows_count"@, long_union(v.existing_rows_count)))
        .push(("deleted_rows_count"@, long_union(v.deleted_rows_count)))
        .push(("partitions"@, summaries_union(v.partitions)))
        .push(("key_metadata"@, bytes_union(v.key_metadata)))
}

impl AvroCodec for ManifestListV1 {
    open spec fn valid(v: ManifestListV1V) -> bool {
        true
    }

    open spec fn decoded(value: AvroV) -> Result<ManifestListV1V, CodecErrorV> {
        match value.as_fields() {
            Err(e) => Err(e),
            Ok(fields) => manifest_v1_of(fields),
        }
    }

    open spec fn encoded(v: ManifestListV1V) -> AvroV {
        AvroV::Record(manifest_v1_fields(v))
    }

    fn deserialize(value: &AvroValue) -> (r: Result<ManifestListV1, CodecError>) {
        broadcast use group_first_error;

        let fields = value.as_fields()?;
        let manifest_path = read_text(fields, "manifest_path")?;
        let manifest_length = read_long(fields, "manifest_length")?;
        let partition_spec_id = read_int(fields, "partition_spec_id")?;
        let added_snapshot_id = read_long(fields, "added_snapshot_id")?;
        let added_files_count = read_int_opt(
            fields,
            "added_files_count",
            "added_data_files_count",
        )?;
        let existing_files_count = read_int_opt(
            fields,
            "existing_files_count",
            "existing_data_files_count",
        )?;
        let deleted_files_count = read_int_opt(
            fields,
            "deleted_files_count",
            "deleted_data_files_count",
        )?;
        let added_rows_count = read_long_opt(fields, "added_rows_count")?;
        let existing_rows_count = read_long_opt(fields, "existing_rows_count")?;
        let deleted_rows_count = read_long_opt(fields, "deleted_rows_count")?;
        let partitions = read_summaries(fields)?;
        let key_metadata = read_bytes_opt(fields, "key_metadata")?;
        Ok(
            ManifestListV1 {
                manifest_path,
                manifest_length,
                partition_spec_id,
                added_snapshot_id,
                added_files_count,
                existing_files_count,
                deleted_files_count,
                added_rows_count,
                existing_rows_count,
                deleted_rows_count,
                partitions,
                key_metadata,
            },
        )
    }

    fn serialize(&self) -> (value: AvroValue) {
        let mut fields = no_fields();
        put_field(&mut fields, "manifest_path", AvroValue::Text(self.manifest_path.clone()));
        put_field(&mut fields, "manifest_length", AvroValue::Long(self.manifest_length));
        put_field(&mut fields, "partition_spec_id", AvroValue::Int(self.partition_spec_id));
        put_field(&mut fields, "added_snapshot_id", AvroValue::Long(self.added_snapshot_id));
        put_field(&mut fields, "added_files_count", AvroValue::int_union(self.added_files_count));
        put_field(
            &mut fields,
            "existing_files_count",
            AvroValue::int_union(self.existing_files_count),
        );
        put_field(
            &mut fields,
            "deleted_files_count",
            AvroValue::int_union(self.deleted_files_count),
        );
        put_field(&mut fields, "added_rows_count", AvroValue::long_union(self.added_rows_count));
        put_field(
            &mut fields,
            "existing_rows_count",
            AvroValue::long_union(self.existing_rows_count),
        );
        put_field(
            &mut fields,
            "deleted_rows_count",
            AvroValue::long_union(self.deleted_rows_count),
        );
        put_field(&mut fields, "partitions", write_summaries(&self.partitions));
        put_field(&mut fields, "key_metadata", AvroValue::bytes_union(&self.key_metadata));
        record(fields)
    }

    proof fn decoded_is_valid(value: AvroV) {
    }

    proof fn round_trip(v: ManifestListV1V) {
        broadcast use {group_field_of, group_first_error};

        lemma_names();
        lemma_summaries_round_trip(v.partitions);
    }
}

/// The value that a counter of version 1 has in version 2: zero where
/// there is none.
pub open spec fn int_or(o: Option<i32>) -> i32 {
    match o {
        Some(i) => i,
        None => 0,
    }
}

/// The value that a counter of version 1 has in version 2: zero where
/// there is none.
pub open spec fn long_or(o: Option<i64>) -> i64 {
    match o {
        Some(i) => i,
        None => 0,
    }
}

/// A record of version 1 in the shape of version 2: its content is data,
/// its sequence numbers are zero, and a counter without value is zero.
pub open spec fn upgraded(v: ManifestListV1V) -> ManifestListV2V {
    ManifestListV2V {
        manifest_path: v.manifest_path,
        manifest_length: v.manifest_length,
        partition_spec_id: v.partition_spec_id,
        content: FileType::Data,
        sequence_number: 0,
        min_sequence_number: 0,
        added_snapshot_id: v.added_snapshot_id,
        added_files_count: int_or(v.added_files_count),
        existing_files_count: int_or(v.existing_files_count),
        deleted_files_count: int_or(v.deleted_files_count),
        added_rows_count: long_or(v.added_rows_count),
        existing_rows_count: long_or(v.existing_rows_count),
        deleted_rows_count: long_or(v.deleted_rows_count),
        partitions: v.partitions,
        key_metadata: v.key_metadata,
    }
}

/// A record that names no content and no sequence numbers, as the records
/// of version 1 do, decodes in the shape of version 2 to what it decodes
/// to in the shape of version 1, upgraded.
pub proof fn lemma_v1_into_v2(fields: Seq<(Seq<char>, AvroV)>)
    requires
        given(fields, "content"@) is None,
        given(fields, "sequence_number"@) is None,
        given(fields, "min_sequence_number"@) is None,
    ensures
        manifest_v1_of(fields) matches Ok(v) ==> manifest_v2_of(fields) == Ok::<
            ManifestListV2V,
            CodecErrorV,
        >(upgraded(v)),
        manifest_v1_of(fields) matches Err(e) ==> manifest_v2_of(fields) == Err::<
            ManifestListV2V,
            CodecErrorV,
        >(e),
{
    broadcast use group_first_error;

}

/// Decoding the record that encodes a manifest of version 2 gives the
/// manifest back.
pub proof fn lemma_manifest_round_trip(v: ManifestListV2V)
    ensures
        ManifestListV2::decoded(ManifestListV2::encoded(v)) == Ok::<ManifestListV2V, CodecErrorV>(
            v,
        ),
{
    ManifestListV2::round_trip(v);
}

/// Whether the pair is one of the three counters with its second spelling.
pub open spec fn is_counter_alias(name: Seq<char>, alias: Seq<char>) -> bool {
    ||| name == "added_files_count"@ && alias == "added_data_files_count"@
    ||| name == "existing_files_count"@ && alias == "existing_data_files_count"@
    ||| name == "deleted_files_count"@ && alias == "deleted_data_files_count"@
}

/// A record that spells a counter the second way decodes to what the same
/// record decodes to with the counter spelled the first way.
pub proof fn lemma_alias_decodes_alike(
    fields: Seq<(Seq<char>, AvroV)>,
    name: Seq<char>,
    alias: Seq<char>,
)
    requires
        is_counter_alias(name, alias),
        field_of(fields, name) is None,
    ensures
        manifest_v2_of(respelled(fields, alias, name)) == manifest_v2_of(fields),
        manifest_v1_of(respelled(fields, alias, name)) == manifest_v1_of(fields),
{
    broadcast use group_first_error;

    lemma_names();
    let after = respelled(fields, alias, name);
    lemma_respelled(fields, alias, name, "manifest_path"@);
    lemma_respelled(fields, alias, name, "manifest_length"@);
    lemma_respelled(fields, alias, name, "partition_spec_id"@);
    lemma_respelled(fields, alias, name, "content"@);
    lemma_respelled(fields, alias, name, "sequence_number"@);
    lemma_respelled(fields, alias, name, "min_sequence_number"@);
    lemma_respelled(fields, alias, name, "added_snapshot_id"@);
    lemma_respelled(fields, alias, name, "added_files_count"@);
    lemma_respelled(fields, alias, name, "existing_files_count"@);
    lemma_respelled(fields, alias, name, "deleted_files_count"@);
    lemma_respelled(fields, alias, name, "added_data_files_count"@);
    lemma_respelled(fields, alias, name, "existing_data_files_count"@);
    lemma_respelled(fields, alias, name, "deleted_data_files_count"@);
    lemma_respelled(fields, alias, name, "added_rows_count"@);
    lemma_respelled(fields, alias, name, "existing_rows_count"@);
    lemma_respelled(fields, alias, name, "deleted_rows_count"@);
    lemma_respelled(fields, alias, name, "partitions"@);
    lemma_respelled(fields, alias, name, "key_metadata"@);
}

/// The record that encodes a manifest spells the three counters the first
/// way and never the second.
pub proof fn lemma_counters_are_written_canonically(v: ManifestListV2V)
    ensures
        field_of(manifest_v2_fields(v), "added_files_count"@) == Some(
            AvroV::Int(v.added_files_count),
        ),
        field_of(manifest_v2_fields(v), "existing_files_count"@) == Some(
            AvroV::Int(v.existing_files_count),
        ),
        field_of(manifest_v2_fields(v), "deleted_files_count"@) == Some(
            AvroV::Int(v.deleted_files_count),
        ),
        field_of(manifest_v2_fields(v), "added_data_files_count"@) is None,
        field_of(manifest_v2_fields(v), "existing_data_files_count"@) is None,
        field_of(manifest_v2_fields(v), "deleted_data_files_count"@) is None,
{
    broadcast use group_field_of;

    lemma_names();
}

impl ManifestListV1 {
    /// The record in the shape of format version 2.
    pub fn into_v2(self) -> (r: ManifestListV2)
        ensures
            r@ == upgraded(self@),
    {
        ManifestListV2 {
            manifest_path: self.manifest_path,
            manifest_length: self.manifest_length,
            partition_spec_id: self.partition_spec_id,
            content: FileType::data(),
            sequence_number: 0,
            min_sequence_number: 0,
            added_snapshot_id: self.added_snapshot_id,
            added_files_count: match self.added_files_count {
                Some(i) => i,
                None => 0,
            },
            existing_files_count: match self.existing_files_count {
                Some(i) => i,
                None => 0,
            },
            deleted_files_count: match self.deleted_files_count {
                Some(i) => i,
                None => 0,
            },
            added_rows_count: match self.added_rows_count {
                Some(i) => i,
                None => 0,
            },
            existing_rows_count: match self.existing_rows_count {
                Some(i) => i,
                None => 0,
            },
            deleted_rows_count: match self.deleted_rows_count {
                Some(i) => i,
                None => 0,
            },
            partitions: self.partitions,
            key_metadata: self.key_metadata,
        }
    }

    /// The schema of the container file of format version 1, as text.
    pub fn raw_avro_schema() -> (r: &'static str)
        ensures
            r@ == MANIFEST_LIST_V1_SCHEMA@,
    {
        MANIFEST_LIST_V1_SCHEMA
    }

    /// The schema of the container file of format version 1.
    pub fn avro_schema() -> (r: Result<apache_avro::Schema, CodecError>)
        ensures
            match r {
                Ok(schema) => schema_read(MANIFEST_LIST_V1_SCHEMA@) == Ok::<
                    apache_avro::Schema,
                    CodecErrorV,
                >(schema),
                Err(e) => schema_read(MANIFEST_LIST_V1_SCHEMA@) == Err::<
                    apache_avro::Schema,
                    CodecErrorV,
                >(e@),
            },
    {
        parse_schema(MANIFEST_LIST_V1_SCHEMA)
    }

    /// Reads a manifest list file in the shape of format version 1.
    pub fn read_all(bytes: &[u8]) -> (r: Result<Vec<ManifestListV1>, CodecError>)
        ensures
            match r {
                Ok(out) => decoded_file::<ManifestListV1>(bytes@) == Ok::<
                    Seq<ManifestListV1V>,
                    CodecErrorV,
                >(seq_view(out@)),
                Err(e) => decoded_file::<ManifestListV1>(bytes@) == Err::<
                    Seq<ManifestListV1V>,
                    CodecErrorV,
                >(e@),
            },
    {
        crate::avro::read_all::<ManifestListV1>(bytes)
    }

    /// Writes a manifest list file of format version 1: the records that
    /// encode the manifests are handed to the writer under the schema of
    /// version 1. Fails with `Fault::InvalidSchema` or `Fault::Unwritable`
    /// exactly where `apache_avro` refuses the schema or the records.
    pub fn write_all(records: &Vec<ManifestListV1>) -> (r: Result<Vec<u8>, CodecError>)
        ensures
            is_written_under(
                MANIFEST_LIST_V1_SCHEMA@,
                encoded_all::<ManifestListV1>(seq_view(records@)),
                r,
            ),
    {
        let schema = ManifestListV1::avro_schema()?;
        crate::avro::write_all::<ManifestListV1>(&schema, records)
    }
}

impl ManifestListV2 {
    /// The schema of the container file of format version 2, as text.
    pub fn raw_avro_schema() -> (r: &'static str)
        ensures
            r@ == MANIFEST_LIST_V2_SCHEMA@,
    {
        MANIFEST_LIST_V2_SCHEMA
    }

    /// The schema of the container file of format version 2.
    pub fn avro_schema() -> (r: Result<apache_avro::Schema, CodecError>)
        ensures
            match r {
                Ok(schema) => schema_read(MANIFEST_LIST_V2_SCHEMA@) == Ok::<
                    apache_avro::Schema,
                    CodecErrorV,
                >(schema),
                Err(e) => schema_read(MANIFEST_LIST_V2_SCHEMA@) == Err::<
                    apache_avro::Schema,
                    CodecErrorV,
                >(e@),
            },
    {
        parse_schema(MANIFEST_LIST_V2_SCHEMA)
    }

    /// Reads a manifest list file of either format version in the shape
    /// of version 2.
    pub fn read_all(bytes: &[u8]) -> (r: Result<Vec<ManifestListV2>, CodecError>)
        ensures
            match r {
                Ok(out) => decoded_file::<ManifestListV2>(bytes@) == Ok::<
                    Seq<ManifestListV2V>,
                    CodecErrorV,
                >(seq_view(out@)),
                Err(e) => decoded_file::<ManifestListV2>(bytes@) == Err::<
                    Seq<ManifestListV2V>,
                    CodecErrorV,
                >(e@),
            },
    {
        crate::avro::read_all::<ManifestListV2>(bytes)
    }

    /// Writes a manifest list file of format version 2: the records that
    /// encode the manifests are handed to the writer under the schema of
    /// version 2. Fails with `Fault::InvalidSchema` or `Fault::Unwritable`
    /// exactly where `apache_avro` refuses the schema or the records.
    pub fn write_all(records: &Vec<ManifestListV2>) -> (r: Result<Vec<u8>, CodecError>)
        ensures
            is_written_under(
                MANIFEST_LIST_V2_SCHEMA@,
                encoded_all::<ManifestListV2>(seq_view(records@)),
                r,
            ),
    {
        let schema = ManifestListV2::avro_schema()?;
        crate::avro::write_all::<ManifestListV2>(&schema, records)
    }
}

} // verus!
