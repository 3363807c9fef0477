//! Partition specs and the transforms that their fields apply.

use vstd::prelude::*;
use crate::codec::{
    decoded_array_at, decoded_at, deserialize_array_at, deserialize_at, encoded_list,
    lemma_decoded_list_valid, lemma_list_round_trip, lemma_list_tidy, serialize_list, valid_list,
    Codec,
};
use crate::error::{
    fail, fail_bare, result_view, seq_view, CodecError, CodecErrorV, ErrorKind, Fault,
};
use crate::json::{group_lookup, group_tidy, no_entries, object, put, Json, JsonV, NumberV};
use crate::text::{
    bracket_form, bracketed, has_prefix_at, lemma_bracketed, lemma_numeral, numeral, numeral_value,
    read_bracketed, same_text, starts_with, write_bracketed, Bracketed,
};

verus! {

/// A function from column values to partition or sort keys.
#[derive(Clone, Copy, Debug, PartialEq, Eq)]
pub enum Transform {
    Identity,
    Bucket(u32),
    Truncate(u32),
    Year,
    Month,
    Day,
    Hour,
}

impl View for Transform {
    type V = Transform;

    open spec fn view(&self) -> Transform {
        *self
    }
}

/// What a string that starts with `bucket` decodes to.
pub open spec fn bucket_of(s: Seq<char>) -> Result<Transform, CodecErrorV> {
    match bracketed(s, "bucket"@) {
        None => Err(fail(Fault::BucketFormat, s)),
        Some(digits) => if numeral_value(digits) <= 0xffff_ffff {
            Ok(Transform::Bucket(numeral_value(digits) as u32))
        } else {
            Err(fail(Fault::BucketNumber, s))
        },
    }
}

/// What a string that starts with `truncate` decodes to.
pub open spec fn truncate_of(s: Seq<char>) -> Result<Transform, CodecErrorV> {
    match bracketed(s, "truncate"@) {
        None => Err(fail(Fault::TruncateFormat, s)),
        Some(digits) => if numeral_value(digits) <= 0xffff_ffff {
            Ok(Transform::Truncate(numeral_value(digits) as u32))
        } else {
            Err(fail(Fault::TruncateNumber, s))
        },
    }
}

/// The transform that a string names.
pub open spec fn transform_of(s: Seq<char>) -> Result<Transform, CodecErrorV> {
    if has_prefix_at(s, 0, "bucket"@) {
        bucket_of(s)
    } else if has_prefix_at(s, 0, "truncate"@) {
        truncate_of(s)
    } else if s == "identity"@ {
        Ok(Transform::Identity)
    } else if s == "year"@ {
        Ok(Transform::Year)
    } else if s == "month"@ {
        Ok(Transform::Month)
    } else if s == "day"@ {
        Ok(Transform::Day)
    } else if s == "hour"@ {
        Ok(Transform::Hour)
    } else {
        Err(fail(Fault::UnknownTransform, s))
    }
}

/// The string that names a transform.
pub open spec fn transform_text(t: Transform) -> Seq<char> {
    match t {
        Transform::Identity => "identity"@,
        Transform::Bucket(n) => bracket_form("bucket"@, numeral(n as nat)),
        Transform::Truncate(n) => bracket_form("truncate"@, numeral(n as nat)),
        Transform::Year => "year"@,
        Transform::Month => "month"@,
        Transform::Day => "day"@,
        Transform::Hour => "hour"@,
    }
}

/// Reading the name of a transform gives the transform back.
pub proof fn lemma_transform_text(t: Transform)
    ensures
        transform_of(transform_text(t)) == Ok::<Transform, CodecErrorV>(t),
{
    reveal_strlit("bucket");
    reveal_strlit("truncate");
    reveal_strlit("identity");
    reveal_strlit("year");
    reveal_strlit("month");
    reveal_strlit("day");
    reveal_strlit("hour");
    let s = transform_text(t);
    match t {
        Transform::Bucket(n) => {
            lemma_numeral(n as nat);
            lemma_bracketed(s, "bucket"@, numeral(n as nat));
            assert(s.subrange(0, 6) =~= "bucket"@);
        },
        Transform::Truncate(n) => {
            lemma_numeral(n as nat);
            lemma_bracketed(s, "truncate"@, numeral(n as nat));
            assert(s.subrange(0, 8) =~= "truncate"@);
            assert(s[0] == 't');
            if has_prefix_at(s, 0, "bucket"@) {
                assert(s.subrange(0, 6)[0] == 'b');
            }
        },
        _ => {
            if has_prefix_at(s, 0, "bucket"@) {
                assert(s.subrange(0, 6)[0] == 'b');
            }
            if has_prefix_at(s, 0, "truncate"@) {
                assert(s.subrange(0, 8)[0] == 't');
                assert(s.subrange(0, 8)[1] == 'r');
            }
            if s == "identity"@ {
                assert(s[0] == 'i');
            }
            if s == "year"@ {
                assert(s[0] == 'y');
            }
            if s == "month"@ {
                assert(s[0] == 'm');
            }
            if s == "day"@ {
                assert(s[0] == 'd');
            }
            if s == "hour"@ {
                assert(s[0] == 'h');
            }
        },
    }
}

/// Decodes a string of the form `bucket[N]`.
pub fn try_deserialize_bucket(value: &str) -> (r: Result<Transform, CodecError>)
    ensures
        result_view(r) == bucket_of(value@),
{
    match read_bracketed(value, "bucket") {
        Bracketed::Mismatch => Err(CodecError::new(Fault::BucketFormat, value)),
        Bracketed::TooLarge => Err(CodecError::new(Fault::BucketNumber, value)),
        Bracketed::Value(n) => Ok(Transform::Bucket(n)),
    }
}

/// Decodes a string of the form `truncate[N]`.
pub fn try_deserialize_truncate(value: &str) -> (r: Result<Transform, CodecError>)
    ensures
        result_view(r) == truncate_of(value@),
{
    match read_bracketed(value, "truncate") {
        Bracketed::Mismatch => Err(CodecError::new(Fault::TruncateFormat, value)),
        Bracketed::TooLarge => Err(CodecError::new(Fault::TruncateNumber, value)),
        Bracketed::Value(n) => Ok(Transform::Truncate(n)),
    }
}

impl Transform {
    /// The transform that a string names.
    pub fn parse(value: &str) -> (r: Result<Transform, CodecError>)
        ensures
            result_view(r) == transform_of(value@),
    {
        if starts_with(value, "bucket") {
            try_deserialize_bucket(value)
        } else if starts_with(value, "truncate") {
            try_deserialize_truncate(value)
        } else if same_text(value, "identity") {
            Ok(Transform::Identity)
        } else if same_text(value, "year") {
            Ok(Transform::Year)
        } else if same_text(value, "month") {
            Ok(Transform::Month)
        } else if same_text(value, "day") {
            Ok(Transform::Day)
        } else if same_text(value, "hour") {
            Ok(Transform::Hour)
        } else {
            Err(CodecError::new(Fault::UnknownTransform, value))
        }
    }

    /// The string that names the transform.
    pub fn to_text(&self) -> (r: String)
        ensures
            r@ == transform_text(*self),
    {
        match self {
            Transform::Identity => String::from_str("identity"),
            Transform::Bucket(n) => write_bracketed("bucket", *n),
            Transform::Truncate(n) => write_bracketed("truncate", *n),
            Transform::Year => String::from_str("year"),
            Transform::Month => String::from_str("month"),
            Transform::Day => String::from_str("day"),
            Transform::Hour => String::from_str("hour"),
        }
    }
}

impl Codec for Transform {
    open spec fn valid(v: Transform) -> bool {
        true
    }

    open spec fn decoded(doc: JsonV) -> Result<Transform, CodecErrorV> {
        match doc.as_text(""@) {
            Err(e) => Err(e),
            Ok(s) => transform_of(s),
        }
    }

    open spec fn encoded(v: Transform) -> JsonV {
        JsonV::Text(transform_text(v))
    }

    fn deserialize(doc: &Json) -> (r: Result<Transform, CodecError>) {
        let s = doc.as_text("")?;
        Transform::parse(s.as_str())
    }

    fn serialize(&self) -> (doc: Json) {
        Json::Text(self.to_text())
    }

    proof fn decoded_is_valid(doc: JsonV) {
    }

    proof fn round_trip(v: Transform) {
        lemma_transform_text(v);
    }

    proof fn encoded_is_tidy(v: Transform) {
        broadcast use group_tidy;

        lemma_transform_text(v);
    }
}

/// The keys of the objects of this file differ in their lengths.
proof fn lemma_keys()
    ensures
        "source-id"@.len() == 9,
        "field-id"@.len() == 8,
        "name"@.len() == 4,
        "transform"@.len() == 9,
        "source-id"@[0] == 's',
        "transform"@[0] == 't',
        "spec-id"@.len() == 7,
        "fields"@.len() == 6,
{
    reveal_strlit("source-id");
    reveal_strlit("field-id");
    reveal_strlit("name");
    reveal_strlit("transform");
    reveal_strlit("spec-id");
    reveal_strlit("fields");
}

/// One field of a partition spec.
#[derive(Clone, Debug, PartialEq, Eq)]
pub struct PartitionField {
    pub source_id: i32,
    pub field_id: i32,
    pub name: String,
    pub transform: Transform,
}

/// The mathematical value of a [`PartitionField`].
pub ghost struct PartitionFieldV {
    pub source_id: i32,
    pub field_id: i32,
    pub name: Seq<char>,
    pub transform: Transform,
}

impl View for PartitionField {
    type V = PartitionFieldV;

    open spec fn view(&self) -> PartitionFieldV {
        PartitionFieldV {
            source_id: self.source_id,
            field_id: self.field_id,
            name: self.name@,
            transform: self.transform,
        }
    }
}

impl Codec for PartitionField {
    open spec fn valid(v: PartitionFieldV) -> bool {
        true
    }

    open spec fn decoded(doc: JsonV) -> Result<PartitionFieldV, CodecErrorV> {
        if !(doc is Object) {
            Err(fail_bare(Fault::NotAnObject))
        } else {
            match doc.int_at("source-id"@) {
                Err(e) => Err(e),
                Ok(source_id) => match doc.int_at("field-id"@) {
                    Err(e) => Err(e),
                    Ok(field_id) => match doc.text_at("name"@) {
                        Err(e) => Err(e),
                        Ok(name) => match decoded_at::<Transform>(
                            doc,
                            "transform"@,
                        ) {
                            Err(e) => Err(e),
                            Ok(transform) => Ok(
                                PartitionFieldV { source_id, field_id, name, transform },
                            ),
                        },
                    },
                },
            }
        }
    }

    open spec fn encoded(v: PartitionFieldV) -> JsonV {
        JsonV::Object(
            Seq::empty().push(("source-id"@, JsonV::Number(NumberV::Int(v.source_id as i64)))).push(
                ("field-id"@, JsonV::Number(NumberV::Int(v.field_id as i64))),
            ).push(("name"@, JsonV::Text(v.name))).push(
                ("transform"@, Transform::encoded(v.transform)),
            ),
        )
    }

    fn deserialize(doc: &Json) -> (r: Result<PartitionField, CodecError>) {
        let _ = doc.as_entries()?;
        let source_id = doc.int_at("source-id")?;
        let field_id = doc.int_at("field-id")?;
        let name = doc.text_at("name")?;
        let transform = deserialize_at::<Transform>(doc, "transform")?;
        Ok(PartitionField { source_id, field_id, name, transform })
    }

    fn serialize(&self) -> (doc: Json) {
        let mut entries = no_entries();
        put(&mut entries, "source-id", Json::short(self.source_id));
        put(&mut entries, "field-id", Json::short(self.field_id));
        put(&mut entries, "name", Json::Text(self.name.clone()));
        put(&mut entries, "transform", self.transform.serialize());
        object(entries)
    }

    proof fn decoded_is_valid(doc: JsonV) {
    }

    proof fn round_trip(v: PartitionFieldV) {
        broadcast use group_lookup;

        lemma_keys();
        Transform::round_trip(v.transform);
    }

    proof fn encoded_is_tidy(v: PartitionFieldV) {
        broadcast use group_tidy;

        Transform::encoded_is_tidy(v.transform);
    }
}

/// A partition spec: its id and its fields in order.
#[derive(Clone, Debug, PartialEq, Eq)]
pub struct PartitionSpec {
    pub spec_id: i32,
    pub fields: Vec<PartitionField>,
}

/// The mathematical value of a [`PartitionSpec`].
pub ghost struct PartitionSpecV {
    pub spec_id: i32,
    pub fields: Seq<PartitionFieldV>,
}

impl View for PartitionSpec {
    type V = PartitionSpecV;

    open spec fn view(&self) -> PartitionSpecV {
        PartitionSpecV { spec_id: self.spec_id, fields: seq_view(self.fields@) }
    }
}

impl Codec for PartitionSpec {
    open spec fn valid(v: PartitionSpecV) -> bool {
        valid_list::<PartitionField>(v.fields)
    }

    open spec fn decoded(doc: JsonV) -> Result<PartitionSpecV, CodecErrorV> {
        if !(doc is Object) {
            Err(fail_bare(Fault::NotAnObject))
        } else {
            match doc.int_at("spec-id"@) {
                Err(e) => Err(e),
                Ok(spec_id) => match decoded_array_at::<PartitionField>(doc, "fields"@) {
                    Err(e) => Err(e),
                    Ok(fields) => Ok(PartitionSpecV { spec_id, fields }),
                },
            }
        }
    }

    open spec fn encoded(v: PartitionSpecV) -> JsonV {
        JsonV::Object(
            Seq::empty().push(("spec-id"@, JsonV::Number(NumberV::Int(v.spec_id as i64)))).push(
                ("fields"@, JsonV::Array(encoded_list::<PartitionField>(v.fields))),
            ),
        )
    }

    fn deserialize(doc: &Json) -> (r: Result<PartitionSpec, CodecError>) {
        let _ = doc.as_entries()?;
        let spec_id = doc.int_at("spec-id")?;
        let fields = deserialize_array_at::<PartitionField>(doc, "fields")?;
        Ok(PartitionSpec { spec_id, fields })
    }

    fn serialize(&self) -> (doc: Json) {
        let mut entries = no_entries();
        put(&mut entries, "spec-id", Json::short(self.spec_id));
        put(&mut entries, "fields", serialize_list::<PartitionField>(&self.fields));
        object(entries)
    }

    proof fn decoded_is_valid(doc: JsonV) {
        if doc is Object {
            if let Ok(v) = doc.required("fields"@) {
                if let Ok(items) = v.as_items("fields"@) {
                    lemma_decoded_list_valid::<PartitionField>(items);
                }
            }
        }
    }

    proof fn round_trip(v: PartitionSpecV) {
        broadcast use group_lookup;

        lemma_keys();
        lemma_list_round_trip::<PartitionField>(v.fields);
    }

    proof fn encoded_is_tidy(v: PartitionSpecV) {
        broadcast use group_tidy;

        lemma_list_tidy::<PartitionField>(v.fields);
    }
}

/// A string that starts with `bucket` and is not `bucket[N]` is refused as
/// ill-formed.
pub proof fn lemma_bucket_format(s: Seq<char>)
    requires
        has_prefix_at(s, 0, "bucket"@),
        bracketed(s, "bucket"@) is None,
    ensures
        transform_of(s) == Err::<Transform, CodecErrorV>(fail(Fault::BucketFormat, s)),
        Fault::BucketFormat.spec_kind() == ErrorKind::FormatString,
{
}

/// A string that starts with `truncate` and is not `truncate[N]` is
/// refused as ill-formed.
pub proof fn lemma_truncate_format(s: Seq<char>)
    requires
        has_prefix_at(s, 0, "truncate"@),
        bracketed(s, "truncate"@) is None,
    ensures
        transform_of(s) == Err::<Transform, CodecErrorV>(fail(Fault::TruncateFormat, s)),
        Fault::TruncateFormat.spec_kind() == ErrorKind::FormatString,
{
    reveal_strlit("bucket");
    reveal_strlit("truncate");
    if has_prefix_at(s, 0, "bucket"@) {
        assert(s.subrange(0, 6)[0] == 'b');
        assert(s.subrange(0, 8)[0] == 't');
    }
}

} // verus!
