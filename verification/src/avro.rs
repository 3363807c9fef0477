//! The value tree of the binary form, its lookups, and the bridge to
//! `apache_avro`, which reads and writes the container file.

use apache_avro::types::Value;
use vstd::prelude::*;
use crate::error::{fail, fail_bare, result_view, seq_view, CodecError, CodecErrorV, Fault};
use crate::text::same_text;

verus! {

/// `apache_avro::types::Value`, whose inside is read through `node` only.
#[verifier::external_type_specification]
#[verifier::external_body]
pub struct ExAvroValue(apache_avro::types::Value);

/// `apache_avro::Schema`, which is handed to the writer as it is.
#[verifier::external_type_specification]
#[verifier::external_body]
pub struct ExAvroSchema(apache_avro::Schema);

/// `apache_avro::Error`, of which only the presence is used.
#[verifier::external_type_specification]
#[verifier::external_body]
pub struct ExAvroError(apache_avro::Error);

/// A value of a container file. Of the kinds of value that the outside
/// format has, those that a manifest list holds are kept; any other is
/// `Other`.
#[derive(Debug, PartialEq, Eq)]
pub enum AvroValue {
    Null,
    Boolean(bool),
    Int(i32),
    Long(i64),
    Bytes(Vec<u8>),
    Text(String),
    /// The position of the branch in its union, and the value.
    Union(u32, Box<AvroValue>),
    Array(Vec<AvroValue>),
    /// The fields by name, in the order of the record.
    Record(Vec<(String, AvroValue)>),
    Other,
}

/// The mathematical value of an [`AvroValue`].
pub ghost enum AvroV {
    Null,
    Boolean(bool),
    Int(i32),
    Long(i64),
    Bytes(Seq<u8>),
    Text(Seq<char>),
    Union(u32, Box<AvroV>),
    Array(Seq<AvroV>),
    Record(Seq<(Seq<char>, AvroV)>),
    Other,
}

/// The tree that an `apache_avro::types::Value` holds.
pub uninterp spec fn avro_tree(v: Value) -> AvroV;

/// The records that `apache_avro::Reader` reads from the bytes of a
/// container file, in order; `None` where it reports an error, at the
/// header or at any record.
pub uninterp spec fn container_records(bytes: Seq<u8>) -> Option<Seq<AvroV>>;

/// The schema that `apache_avro::Schema::parse_str` reads from a text;
/// `None` where it reports an error.
pub uninterp spec fn text_schema(text: Seq<char>) -> Option<apache_avro::Schema>;

/// Whether `apache_avro::Writer` takes the records under the schema, that
/// is, finds every record to fit the schema and can encode it.
pub uninterp spec fn writer_accepts(schema: apache_avro::Schema, records: Seq<AvroV>) -> bool;

/// The records that `apache_avro::Reader` finds in a file that
/// `apache_avro::Writer` made of the records under the schema; `None`
/// where the reader reports an error.
pub uninterp spec fn file_records(schema: apache_avro::Schema, records: Seq<AvroV>) -> Option<
    Seq<AvroV>,
>;

/// The mathematical value of a value.
pub open spec fn avro_view(v: AvroValue) -> AvroV
    decreases v,
{
    match v {
        AvroValue::Null => AvroV::Null,
        AvroValue::Boolean(b) => AvroV::Boolean(b),
        AvroValue::Int(i) => AvroV::Int(i),
        AvroValue::Long(i) => AvroV::Long(i),
        AvroValue::Bytes(b) => AvroV::Bytes(b@),
        AvroValue::Text(s) => AvroV::Text(s@),
        AvroValue::Union(i, inner) => AvroV::Union(i, Box::new(avro_view(*inner))),
        AvroValue::Array(items) => AvroV::Array(
            Seq::new(
                items.len() as nat,
                |i: int|
                    if 0 <= i < items.len() {
                        avro_view(items[i])
                    } else {
                        AvroV::Null
                    },
            ),
        ),
        AvroValue::Record(fields) => AvroV::Record(
            Seq::new(
                fields.len() as nat,
                |i: int|
                    if 0 <= i < fields.len() {
                        (fields[i].0@, avro_view(fields[i].1))
                    } else {
                        (Seq::empty(), AvroV::Null)
                    },
            ),
        ),
        AvroValue::Other => AvroV::Other,
    }
}

impl View for AvroValue {
    type V = AvroV;

    open spec fn view(&self) -> AvroV {
        avro_view(*self)
    }
}

/// The values of a list of values.
pub open spec fn values_view(items: Seq<AvroValue>) -> Seq<AvroV> {
    Seq::new(items.len(), |i: int| items[i]@)
}

/// The values of a list of fields.
pub open spec fn fields_view(fields: Seq<(String, AvroValue)>) -> Seq<(Seq<char>, AvroV)> {
    Seq::new(fields.len(), |i: int| (fields[i].0@, fields[i].1@))
}

/// The view of an array is the list of its items' views.
pub broadcast proof fn lemma_avro_array_view(items: Vec<AvroValue>)
    ensures
        #[trigger] AvroValue::Array(items)@ == AvroV::Array(values_view(items@)),
{
    let a = AvroValue::Array(items)@;
    assert(a->Array_0 =~= values_view(items@));
}

/// The view of a record is the list of its fields' views.
pub broadcast proof fn lemma_avro_record_view(fields: Vec<(String, AvroValue)>)
    ensures
        #[trigger] AvroValue::Record(fields)@ == AvroV::Record(fields_view(fields@)),
{
    let a = AvroValue::Record(fields)@;
    assert(a->Record_0 =~= fields_view(fields@));
}

/// One node of an `apache_avro::types::Value`, with its children still in
/// the outside form.
pub enum AvroNode<'a> {
    Null,
    Boolean(bool),
    Int(i32),
    Long(i64),
    Bytes(&'a Vec<u8>),
    Text(&'a String),
    Union(u32, &'a Value),
    Array(&'a Vec<Value>),
    Record(&'a Vec<(String, Value)>),
    Other,
}

/// The tree that a node stands for.
pub open spec fn node_tree(node: AvroNode<'_>) -> AvroV {
    match node {
        AvroNode::Null => AvroV::Null,
        AvroNode::Boolean(b) => AvroV::Boolean(b),
        AvroNode::Int(i) => AvroV::Int(i),
        AvroNode::Long(i) => AvroV::Long(i),
        AvroNode::Bytes(b) => AvroV::Bytes(b@),
        AvroNode::Text(s) => AvroV::Text(s@),
        AvroNode::Union(i, inner) => AvroV::Union(i, Box::new(avro_tree(*inner))),
        AvroNode::Array(items) => AvroV::Array(
            Seq::new(items.len() as nat, |i: int| avro_tree(items[i])),
        ),
        AvroNode::Record(fields) => AvroV::Record(
            Seq::new(fields.len() as nat, |i: int| (fields[i].0@, avro_tree(fields[i].1))),
        ),
        AvroNode::Other => AvroV::Other,
    }
}

/// The parts of one node of an `apache_avro::types::Value` to be built,
/// with the children already in the outside form.
pub enum AvroParts {
    Null,
    Boolean(bool),
    Int(i32),
    Long(i64),
    Bytes(Vec<u8>),
    Text(String),
    Union(u32, Value),
    Array(Vec<Value>),
    Record(Vec<(String, Value)>),
}

/// The tree of the value that is built from the parts.
pub open spec fn parts_tree(parts: AvroParts) -> AvroV {
    match parts {
        AvroParts::Null => AvroV::Null,
        AvroParts::Boolean(b) => AvroV::Boolean(b),
        AvroParts::Int(i) => AvroV::Int(i),
        AvroParts::Long(i) => AvroV::Long(i),
        AvroParts::Bytes(b) => AvroV::Bytes(b@),
        AvroParts::Text(s) => AvroV::Text(s@),
        AvroParts::Union(i, inner) => AvroV::Union(i, Box::new(avro_tree(inner))),
        AvroParts::Array(items) => AvroV::Array(
            Seq::new(items.len() as nat, |i: int| avro_tree(items[i])),
        ),
        AvroParts::Record(fields) => AvroV::Record(
            Seq::new(fields.len() as nat, |i: int| (fields[i].0@, avro_tree(fields[i].1))),
        ),
    }
}

/// The trees of a list of outside values.
pub open spec fn trees(values: Seq<Value>) -> Seq<AvroV> {
    Seq::new(values.len(), |i: int| avro_tree(values[i]))
}

/// Tells the variants of `apache_avro::types::Value` apart and hands out
/// what each holds. Every variant that is not named here is `Other`.
#[verifier::external_body]
fn node(v: &Value) -> (r: AvroNode<'_>)
    ensures
        avro_tree(*v) == node_tree(r),
{
    match v {
        Value::Null => AvroNode::Null,
        Value::Boolean(b) => AvroNode::Boolean(*b),
        Value::Int(i) => AvroNode::Int(*i),
        Value::Long(i) => AvroNode::Long(*i),
        Value::Bytes(b) => AvroNode::Bytes(b),
        Value::String(s) => AvroNode::Text(s),
        Value::Union(i, inner) => AvroNode::Union(*i, inner),
        Value::Array(items) => AvroNode::Array(items),
        Value::Record(fields) => AvroNode::Record(fields),
        _ => AvroNode::Other,
    }
}

/// Builds the variant of `apache_avro::types::Value` that the parts ask
/// for.
#[verifier::external_body]
fn assemble(parts: AvroParts) -> (v: Value)
    ensures
        avro_tree(v) == parts_tree(parts),
{
    match parts {
        AvroParts::Null => Value::Null,
        AvroParts::Boolean(b) => Value::Boolean(b),
        AvroParts::Int(i) => Value::Int(i),
        AvroParts::Long(i) => Value::Long(i),
        AvroParts::Bytes(b) => Value::Bytes(b),
        AvroParts::Text(s) => Value::String(s),
        AvroParts::Union(i, inner) => Value::Union(i, Box::new(inner)),
        AvroParts::Array(items) => Value::Array(items),
        AvroParts::Record(fields) => Value::Record(fields),
    }
}

/// Calls `apache_avro::Reader::new` on the bytes and walks the reader to
/// its end. The contract only names what comes out: the same bytes give
/// the same records, or the same failure.
#[verifier::external_body]
fn read_container(bytes: &[u8]) -> (r: Result<Vec<Value>, apache_avro::Error>)
    ensures
        r matches Ok(values) ==> container_records(bytes@) == Some(trees(values@)),
        r is Err ==> container_records(bytes@) is None,
{
    apache_avro::Reader::new(bytes)?.collect()
}

/// Calls `apache_avro::Schema::parse_str`. The contract only names what
/// comes out: the same text gives the same schema, or is refused again.
#[verifier::external_body]
fn read_schema(text: &str) -> (r: Result<apache_avro::Schema, apache_avro::Error>)
    ensures
        r matches Ok(schema) ==> text_schema(text@) == Some(schema),
        r is Err ==> text_schema(text@) is None,
{
    apache_avro::Schema::parse_str(text)
}

/// Calls `apache_avro::Writer::new` with an empty buffer, then
/// `Writer::extend_from_slice`, which holds every record to the schema,
/// then `Writer::into_inner`. The writer draws the sync marker of the file
/// at random, so the bytes differ from call to call. The contract names
/// what does not depend on the marker: whether the writer takes the
/// records, and what a reader finds in the file. For that the records hold
/// no value of a kind that is not kept, so that their trees say all of
/// them.
#[verifier::external_body]
fn write_container(schema: &apache_avro::Schema, records: &Vec<Value>) -> (r:
    Result<Vec<u8>, apache_avro::Error>)
    requires
        !any_has_other(trees(records@)),
    ensures
        r is Ok <==> writer_accepts(*schema, trees(records@)),
        r matches Ok(bytes) ==> container_records(bytes@) == file_records(
            *schema,
            trees(records@),
        ),
{
    let mut writer = apache_avro::Writer::new(schema, Vec::new())?;
    writer.extend_from_slice(records)?;
    writer.into_inner()
}

/// Whether a tree holds a value of a kind that is not kept.
pub open spec fn has_other(v: AvroV) -> bool
    decreases v,
{
    match v {
        AvroV::Other => true,
        AvroV::Union(_, inner) => has_other(*inner),
        AvroV::Array(items) => any_has_other(items),
        AvroV::Record(fields) => any_field_has_other(fields),
        _ => false,
    }
}

/// Whether one of the trees holds a value of a kind that is not kept.
pub open spec fn any_has_other(values: Seq<AvroV>) -> bool
    decreases values,
{
    if values.len() == 0 {
        false
    } else {
        any_has_other(values.drop_last()) || has_other(values.last())
    }
}

/// Whether the value of one of the fields holds a value of a kind that is
/// not kept.
pub open spec fn any_field_has_other(fields: Seq<(Seq<char>, AvroV)>) -> bool
    decreases fields,
{
    if fields.len() == 0 {
        false
    } else {
        any_field_has_other(fields.drop_last()) || has_other(fields.last().1)
    }
}

/// What is found among the first trees is found among all.
pub proof fn lemma_other_stays(values: Seq<AvroV>, n: int)
    requires
        0 <= n <= values.len(),
        any_has_other(values.subrange(0, n)),
    ensures
        any_has_other(values),
    decreases values.len() - n,
{
    if n < values.len() {
        assert(values.subrange(0, n + 1).drop_last() =~= values.subrange(0, n));
        lemma_other_stays(values, n + 1);
    } else {
        assert(values.subrange(0, n) =~= values);
    }
}

/// What is found among the first fields is found among all.
pub proof fn lemma_field_other_stays(fields: Seq<(Seq<char>, AvroV)>, n: int)
    requires
        0 <= n <= fields.len(),
        any_field_has_other(fields.subrange(0, n)),
    ensures
        any_field_has_other(fields),
    decreases fields.len() - n,
{
    if n < fields.len() {
        assert(fields.subrange(0, n + 1).drop_last() =~= fields.subrange(0, n));
        lemma_field_other_stays(fields, n + 1);
    } else {
        assert(fields.subrange(0, n) =~= fields);
    }
}

impl AvroValue {
    /// The tree that an `apache_avro::types::Value` holds.
    #[verifier::loop_isolation(false)]
    pub fn from_value(v: &Value) -> (r: AvroValue)
        ensures
            r@ == avro_tree(*v),
        decreases avro_tree(*v),
    {
        broadcast use {lemma_avro_array_view, lemma_avro_record_view};

        match node(v) {
            AvroNode::Null => AvroValue::Null,
            AvroNode::Boolean(b) => AvroValue::Boolean(b),
            AvroNode::Int(i) => AvroValue::Int(i),
            AvroNode::Long(i) => AvroValue::Long(i),
            AvroNode::Bytes(b) => AvroValue::Bytes(b.clone()),
            AvroNode::Text(s) => AvroValue::Text(s.clone()),
            AvroNode::Union(i, inner) => {
                let ghost tree = avro_tree(*v);
                assert(*tree->Union_1 == avro_tree(*inner));
                assert(decreases_to!(tree => tree->Union_1));
                AvroValue::Union(i, Box::new(AvroValue::from_value(inner)))
            },
            AvroNode::Array(items) => {
                let ghost tree = avro_tree(*v);
                let mut out: Vec<AvroValue> = Vec::new();
                let mut i: usize = 0;
                while i < items.len()
                    invariant
                        i <= items.len(),
                        out.len() == i,
                        forall|k: int| 0 <= k < i ==> (#[trigger] out[k])@ == avro_tree(items[k]),
                    decreases items.len() - i,
                {
                    assert(tree->Array_0[i as int] == avro_tree(items[i as int]));
                    out.push(AvroValue::from_value(&items[i]));
                    i += 1;
                }
                assert(values_view(out@) =~= tree->Array_0);
                AvroValue::Array(out)
            },
            AvroNode::Record(fields) => {
                let ghost tree = avro_tree(*v);
                let mut out: Vec<(String, AvroValue)> = Vec::new();
                let mut i: usize = 0;
                while i < fields.len()
                    invariant
                        i <= fields.len(),
                        out.len() == i,
                        forall|k: int|
                            0 <= k < i ==> (#[trigger] out[k]).0@ == fields[k].0@ && out[k].1@
                                == avro_tree(fields[k].1),
                    decreases fields.len() - i,
                {
                    assert(tree->Record_0[i as int].1 == avro_tree(fields[i as int].1));
                    let child = AvroValue::from_value(&fields[i].1);
                    out.push((fields[i].0.clone(), child));
                    i += 1;
                }
                assert(fields_view(out@) =~= tree->Record_0);
                AvroValue::Record(out)
            },
            AvroNode::Other => AvroValue::Other,
        }
    }

    /// The `apache_avro::types::Value` that holds the tree; `None` where
    /// the tree holds a value of a kind that is not kept.
    #[verifier::loop_isolation(false)]
    pub fn to_value(&self) -> (r: Option<Value>)
        ensures
            match r {
                Some(v) => avro_tree(v) == self@ && !has_other(self@),
                None => has_other(self@),
            },
        decreases self,
    {
        broadcast use {lemma_avro_array_view, lemma_avro_record_view};

        match self {
            AvroValue::Null => Some(assemble(AvroParts::Null)),
            AvroValue::Boolean(b) => Some(assemble(AvroParts::Boolean(*b))),
            AvroValue::Int(i) => Some(assemble(AvroParts::Int(*i))),
            AvroValue::Long(i) => Some(assemble(AvroParts::Long(*i))),
            AvroValue::Bytes(b) => Some(assemble(AvroParts::Bytes(b.clone()))),
            AvroValue::Text(s) => Some(assemble(AvroParts::Text(s.clone()))),
            AvroValue::Union(i, inner) => match inner.to_value() {
                Some(v) => Some(assemble(AvroParts::Union(*i, v))),
                None => None,
            },
            AvroValue::Array(items) => {
                let mut out: Vec<Value> = Vec::new();
                let mut i: usize = 0;
                proof {
                    lemma_avro_array_view(*items);
                }
                let ghost all = values_view(items@);
                assert(all.subrange(0, 0) =~= Seq::<AvroV>::empty());
                while i < items.len()
                    invariant
                        i <= items.len(),
                        out.len() == i,
                        forall|k: int| 0 <= k < i ==> avro_tree(#[trigger] out[k]) == items[k]@,
                        !any_has_other(all.subrange(0, i as int)),
                    decreases items.len() - i,
                {
                    proof {
                        let part = all.subrange(0, i + 1);
                        assert(part.drop_last() =~= all.subrange(0, i as int));
                        assert(part.last() == items[i as int]@);
                    }
                    match items[i].to_value() {
                        Some(v) => out.push(v),
                        None => {
                            proof {
                                lemma_other_stays(all, i + 1);
                            }
                            return None;
                        },
                    }
                    i += 1;
                }
                assert(all.subrange(0, i as int) =~= all);
                assert(trees(out@) =~= values_view(items@));
                Some(assemble(AvroParts::Array(out)))
            },
            AvroValue::Record(fields) => {
                let mut out: Vec<(String, Value)> = Vec::new();
                let mut i: usize = 0;
                proof {
                    lemma_avro_record_view(*fields);
                }
                let ghost all = fields_view(fields@);
                assert(all.subrange(0, 0) =~= Seq::<(Seq<char>, AvroV)>::empty());
                while i < fields.len()
                    invariant
                        i <= fields.len(),
                        out.len() == i,
                        forall|k: int|
                            0 <= k < i ==> (#[trigger] out[k]).0@ == fields[k].0@ && avro_tree(
                                out[k].1,
                            ) == fields[k].1@,
                        !any_field_has_other(all.subrange(0, i as int)),
                    decreases fields.len() - i,
                {
                    proof {
                        let part = all.subrange(0, i + 1);
                        assert(part.drop_last() =~= all.subrange(0, i as int));
                        assert(part.last() == (fields[i as int].0@, fields[i as int].1@));
                    }
                    match fields[i].1.to_value() {
                        Some(v) => out.push((fields[i].0.clone(), v)),
                        None => {
                            proof {
                                lemma_field_other_stays(all, i + 1);
                            }
                            return None;
                        },
                    }
                    i += 1;
                }
                assert(all.subrange(0, i as int) =~= all);
                assert(Seq::new(out.len() as nat, |k: int| (out[k].0@, avro_tree(out[k].1)))
                    =~= fields_view(fields@));
                Some(assemble(AvroParts::Record(out)))
            },
            AvroValue::Other => None,
        }
    }
}

/// What reading the bytes of a container file gives: its records, or the
/// error that the bytes are no container file.
pub open spec fn records_read(bytes: Seq<u8>) -> Result<Seq<AvroV>, CodecErrorV> {
    match container_records(bytes) {
        Some(records) => Ok(records),
        None => Err(fail_bare(Fault::Container)),
    }
}

/// Reads the records of a container file.
pub fn read_records(bytes: &[u8]) -> (r: Result<Vec<AvroValue>, CodecError>)
    ensures
        match r {
            Ok(records) => records_read(bytes@) == Ok::<Seq<AvroV>, CodecErrorV>(
                values_view(records@),
            ),
            Err(e) => records_read(bytes@) == Err::<Seq<AvroV>, CodecErrorV>(e@),
        },
{
    match read_container(bytes) {
        Err(_) => Err(CodecError::bare(Fault::Container)),
        Ok(values) => {
            let mut out: Vec<AvroValue> = Vec::new();
            let mut i: usize = 0;
            while i < values.len()
                invariant
                    i <= values.len(),
                    out.len() == i,
                    forall|k: int| 0 <= k < i ==> (#[trigger] out[k])@ == avro_tree(values[k]),
                decreases values.len() - i,
            {
                out.push(AvroValue::from_value(&values[i]));
                i += 1;
            }
            assert(values_view(out@) =~= trees(values@));
            Ok(out)
        },
    }
}

/// What reading the text of a schema gives: the schema, or the error that
/// the text is no schema.
pub open spec fn schema_read(text: Seq<char>) -> Result<apache_avro::Schema, CodecErrorV> {
    match text_schema(text) {
        Some(schema) => Ok(schema),
        None => Err(fail_bare(Fault::InvalidSchema)),
    }
}

/// Whether a result is what writing records under a schema may give.
/// Records with a value of a kind that is not kept are not written. Any
/// others are written where the writer takes them, and the file is one in
/// which a reader finds `file_records`. Whatever fails, fails with
/// `Fault::Unwritable`.
pub open spec fn is_written(
    schema: apache_avro::Schema,
    records: Seq<AvroV>,
    r: Result<Vec<u8>, CodecError>,
) -> bool {
    match r {
        Ok(bytes) => {
            &&& !any_has_other(records)
            &&& writer_accepts(schema, records)
            &&& container_records(bytes@) == file_records(schema, records)
        },
        Err(e) => {
            &&& e@ == fail_bare(Fault::Unwritable)
            &&& any_has_other(records) || !writer_accepts(schema, records)
        },
    }
}

/// Whether a result is what writing records under the schema of a text
/// may give: the error that the text is no schema, or what writing under
/// that schema may give.
pub open spec fn is_written_under(
    schema_text: Seq<char>,
    records: Seq<AvroV>,
    r: Result<Vec<u8>, CodecError>,
) -> bool {
    match text_schema(schema_text) {
        Some(schema) => is_written(schema, records, r),
        None => r matches Err(e) && e@ == fail_bare(Fault::InvalidSchema),
    }
}

/// Reads the schema of a container file from its text. Fails with
/// `Fault::InvalidSchema` exactly where `apache_avro` refuses the text.
pub fn parse_schema(text: &str) -> (r: Result<apache_avro::Schema, CodecError>)
    ensures
        match r {
            Ok(schema) => schema_read(text@) == Ok::<apache_avro::Schema, CodecErrorV>(schema),
            Err(e) => schema_read(text@) == Err::<apache_avro::Schema, CodecErrorV>(e@),
        },
{
    match read_schema(text) {
        Ok(schema) => Ok(schema),
        Err(_) => Err(CodecError::bare(Fault::InvalidSchema)),
    }
}

/// Writes records as a container file with the given schema. Fails with
/// `Fault::Unwritable` exactly where a record holds a value of a kind that
/// is not kept, or where `apache_avro` refuses the records.
pub fn write_records(schema: &apache_avro::Schema, records: &Vec<AvroValue>) -> (r: Result<
    Vec<u8>,
    CodecError,
>)
    ensures
        is_written(*schema, values_view(records@), r),
{
    let mut out: Vec<Value> = Vec::new();
    let mut i: usize = 0;
    let ghost all = values_view(records@);
    assert(all.subrange(0, 0) =~= Seq::<AvroV>::empty());
    while i < records.len()
        invariant
            i <= records.len(),
            out.len() == i,
            all == values_view(records@),
            !any_has_other(all.subrange(0, i as int)),
            forall|k: int| 0 <= k < i ==> avro_tree(#[trigger] out[k]) == records[k]@,
        decreases records.len() - i,
    {
        proof {
            let part = all.subrange(0, i + 1);
            assert(part.drop_last() =~= all.subrange(0, i as int));
            assert(part.last() == records[i as int]@);
        }
        match records[i].to_value() {
            Some(v) => out.push(v),
            None => {
                proof {
                    lemma_other_stays(all, i + 1);
                }
                return Err(CodecError::bare(Fault::Unwritable));
            },
        }
        i += 1;
    }
    assert(all.subrange(0, i as int) =~= all);
    assert(trees(out@) =~= all);
    match write_container(schema, &out) {
        Ok(bytes) => Ok(bytes),
        Err(_) => Err(CodecError::bare(Fault::Unwritable)),
    }
}

/// The value that a record gives a name: that of the last field with
/// this name.
pub open spec fn field_of(fields: Seq<(Seq<char>, AvroV)>, name: Seq<char>) -> Option<AvroV>
    decreases fields.len(),
{
    if fields.len() == 0 {
        None
    } else if fields.last().0 == name {
        Some(fields.last().1)
    } else {
        field_of(fields.drop_last(), name)
    }
}

/// A lookup in a record with one more field.
pub broadcast proof fn lemma_field_of_push(
    fields: Seq<(Seq<char>, AvroV)>,
    field: (Seq<char>, AvroV),
    name: Seq<char>,
)
    ensures
        #[trigger] field_of(fields.push(field), name) == if field.0 == name {
            Some(field.1)
        } else {
            field_of(fields, name)
        },
{
    assert(fields.push(field).drop_last() =~= fields);
    assert(fields.push(field).last() == field);
}

/// A lookup in the empty record finds nothing.
pub broadcast proof fn lemma_field_of_empty(name: Seq<char>)
    ensures
        #[trigger] field_of(Seq::<(Seq<char>, AvroV)>::empty(), name) is None,
{
}

/// The two facts by which a lookup in a record under construction is
/// found.
pub broadcast group group_field_of {
    lemma_field_of_push,
    lemma_field_of_empty,
}

/// The value inside the branch of a union; any other value as it is.
pub open spec fn unwrapped(v: AvroV) -> AvroV {
    match v {
        AvroV::Union(_, inner) => *inner,
        other => other,
    }
}

/// The value that a record gives a name, taken out of its union, where
/// the record has the name and the value is not null.
pub open spec fn given(fields: Seq<(Seq<char>, AvroV)>, name: Seq<char>) -> Option<AvroV> {
    match field_of(fields, name) {
        None => None,
        Some(v) => if unwrapped(v) is Null {
            None
        } else {
            Some(unwrapped(v))
        },
    }
}

/// The value that a record gives a name or, where it does not have the
/// name, its second spelling.
pub open spec fn given_either(
    fields: Seq<(Seq<char>, AvroV)>,
    name: Seq<char>,
    alias: Seq<char>,
) -> Option<AvroV> {
    match field_of(fields, name) {
        Some(_) => given(fields, name),
        None => given(fields, alias),
    }
}

/// The value that a record must give a name, taken out of its union.
pub open spec fn needed(fields: Seq<(Seq<char>, AvroV)>, name: Seq<char>) -> Result<
    AvroV,
    CodecErrorV,
> {
    match field_of(fields, name) {
        None => Err(fail(Fault::MissingField, name)),
        Some(v) => Ok(unwrapped(v)),
    }
}

impl AvroV {
    /// The 64-bit integer that the value is; an `int` is one too.
    pub open spec fn as_long(self, subject: Seq<char>) -> Result<i64, CodecErrorV> {
        match self {
            AvroV::Int(i) => Ok(i as i64),
            AvroV::Long(i) => Ok(i),
            _ => Err(fail(Fault::NotAnInteger, subject)),
        }
    }

    /// The 32-bit integer that the value is; a `long` is one where it
    /// fits.
    pub open spec fn as_int(self, subject: Seq<char>) -> Result<i32, CodecErrorV> {
        match self {
            AvroV::Int(i) => Ok(i),
            AvroV::Long(i) => if -0x8000_0000 <= i <= 0x7fff_ffff {
                Ok(i as i32)
            } else {
                Err(fail(Fault::IntegerOutOfRange, subject))
            },
            _ => Err(fail(Fault::NotAnInteger, subject)),
        }
    }

    /// The string that the value is.
    pub open spec fn as_text(self, subject: Seq<char>) -> Result<Seq<char>, CodecErrorV> {
        match self {
            AvroV::Text(s) => Ok(s),
            _ => Err(fail(Fault::NotAString, subject)),
        }
    }

    /// The boolean that the value is.
    pub open spec fn as_flag(self, subject: Seq<char>) -> Result<bool, CodecErrorV> {
        match self {
            AvroV::Boolean(b) => Ok(b),
            _ => Err(fail(Fault::NotABoolean, subject)),
        }
    }

    /// The bytes that the value is.
    pub open spec fn as_bytes(self, subject: Seq<char>) -> Result<Seq<u8>, CodecErrorV> {
        match self {
            AvroV::Bytes(b) => Ok(b),
            _ => Err(fail(Fault::NotBytes, subject)),
        }
    }

    /// The items of the array that the value is.
    pub open spec fn as_items(self, subject: Seq<char>) -> Result<Seq<AvroV>, CodecErrorV> {
        match self {
            AvroV::Array(items) => Ok(items),
            _ => Err(fail(Fault::NotAnArray, subject)),
        }
    }

    /// The fields of the record that the value is, taken out of its union.
    pub open spec fn as_fields(self) -> Result<Seq<(Seq<char>, AvroV)>, CodecErrorV> {
        match unwrapped(self) {
            AvroV::Record(fields) => Ok(fields),
            _ => Err(fail_bare(Fault::NotAnObject)),
        }
    }
}

/// The 64-bit integer under a name that a record must have.
pub open spec fn long_at(fields: Seq<(Seq<char>, AvroV)>, name: Seq<char>) -> Result<
    i64,
    CodecErrorV,
> {
    match needed(fields, name) {
        Err(e) => Err(e),
        Ok(v) => v.as_long(name),
    }
}

/// The 32-bit integer under a name that a record must have.
pub open spec fn int_at(fields: Seq<(Seq<char>, AvroV)>, name: Seq<char>) -> Result<
    i32,
    CodecErrorV,
> {
    match needed(fields, name) {
        Err(e) => Err(e),
        Ok(v) => v.as_int(name),
    }
}

/// The string under a name that a record must have.
pub open spec fn text_at(fields: Seq<(Seq<char>, AvroV)>, name: Seq<char>) -> Result<
    Seq<char>,
    CodecErrorV,
> {
    match needed(fields, name) {
        Err(e) => Err(e),
        Ok(v) => v.as_text(name),
    }
}

/// The boolean under a name that a record must have.
pub open spec fn flag_at(fields: Seq<(Seq<char>, AvroV)>, name: Seq<char>) -> Result<
    bool,
    CodecErrorV,
> {
    match needed(fields, name) {
        Err(e) => Err(e),
        Ok(v) => v.as_flag(name),
    }
}

/// The 64-bit integer under a name, where the record gives one.
pub open spec fn long_opt(fields: Seq<(Seq<char>, AvroV)>, name: Seq<char>) -> Result<
    Option<i64>,
    CodecErrorV,
> {
    match given(fields, name) {
        None => Ok(None),
        Some(v) => match v.as_long(name) {
            Err(e) => Err(e),
            Ok(i) => Ok(Some(i)),
        },
    }
}

/// The 32-bit integer under a name or its second spelling, where the
/// record gives one.
pub open spec fn int_opt(
    fields: Seq<(Seq<char>, AvroV)>,
    name: Seq<char>,
    alias: Seq<char>,
) -> Result<Option<i32>, CodecErrorV> {
    match given_either(fields, name, alias) {
        None => Ok(None),
        Some(v) => match v.as_int(name) {
            Err(e) => Err(e),
            Ok(i) => Ok(Some(i)),
        },
    }
}

/// The boolean under a name, where the record gives one.
pub open spec fn flag_opt(fields: Seq<(Seq<char>, AvroV)>, name: Seq<char>) -> Result<
    Option<bool>,
    CodecErrorV,
> {
    match given(fields, name) {
        None => Ok(None),
        Some(v) => match v.as_flag(name) {
            Err(e) => Err(e),
            Ok(b) => Ok(Some(b)),
        },
    }
}

/// The bytes under a name, where the record gives some.
pub open spec fn bytes_opt(fields: Seq<(Seq<char>, AvroV)>, name: Seq<char>) -> Result<
    Option<Seq<u8>>,
    CodecErrorV,
> {
    match given(fields, name) {
        None => Ok(None),
        Some(v) => match v.as_bytes(name) {
            Err(e) => Err(e),
            Ok(b) => Ok(Some(b)),
        },
    }
}

/// The 64-bit integer under a name, or zero where the record gives none.
pub open spec fn long_or_zero(fields: Seq<(Seq<char>, AvroV)>, name: Seq<char>) -> Result<
    i64,
    CodecErrorV,
> {
    match long_opt(fields, name) {
        Err(e) => Err(e),
        Ok(Some(i)) => Ok(i),
        Ok(None) => Ok(0),
    }
}

/// The 32-bit integer under a name or its second spelling, or zero where
/// the record gives none.
pub open spec fn int_or_zero(
    fields: Seq<(Seq<char>, AvroV)>,
    name: Seq<char>,
    alias: Seq<char>,
) -> Result<i32, CodecErrorV> {
    match int_opt(fields, name, alias) {
        Err(e) => Err(e),
        Ok(Some(i)) => Ok(i),
        Ok(None) => Ok(0),
    }
}

/// An optional 64-bit integer as a union of `null` and `long`.
pub open spec fn long_union(o: Option<i64>) -> AvroV {
    match o {
        Some(i) => AvroV::Union(1, Box::new(AvroV::Long(i))),
        None => AvroV::Union(0, Box::new(AvroV::Null)),
    }
}

/// An optional 32-bit integer as a union of `null` and `int`.
pub open spec fn int_union(o: Option<i32>) -> AvroV {
    match o {
        Some(i) => AvroV::Union(1, Box::new(AvroV::Int(i))),
        None => AvroV::Union(0, Box::new(AvroV::Null)),
    }
}

/// An optional boolean as a union of `null` and `boolean`.
pub open spec fn flag_union(o: Option<bool>) -> AvroV {
    match o {
        Some(b) => AvroV::Union(1, Box::new(AvroV::Boolean(b))),
        None => AvroV::Union(0, Box::new(AvroV::Null)),
    }
}

/// Optional bytes as a union of `null` and `bytes`.
pub open spec fn bytes_union(o: Option<Seq<u8>>) -> AvroV {
    match o {
        Some(b) => AvroV::Union(1, Box::new(AvroV::Bytes(b))),
        None => AvroV::Union(0, Box::new(AvroV::Null)),
    }
}

/// The view of optional bytes.
pub open spec fn bytes_view(o: Option<Vec<u8>>) -> Option<Seq<u8>> {
    match o {
        Some(b) => Some(b@),
        None => None,
    }
}

/// The view of an optional reference to a value.
pub open spec fn value_ref_view(o: Option<&AvroValue>) -> Option<AvroV> {
    match o {
        Some(v) => Some(v@),
        None => None,
    }
}

/// The value that a record gives a name.
pub fn find<'a>(fields: &'a Vec<(String, AvroValue)>, name: &str) -> (r: Option<&'a AvroValue>)
    ensures
        value_ref_view(r) == field_of(fields_view(fields@), name@),
{
    let mut i: usize = fields.len();
    let ghost all = fields_view(fields@);
    assert(all.subrange(0, i as int) =~= all);
    while i > 0
        invariant
            i <= fields.len(),
            all == fields_view(fields@),
            field_of(all, name@) == field_of(all.subrange(0, i as int), name@),
        decreases i,
    {
        i -= 1;
        proof {
            let part = all.subrange(0, i + 1);
            assert(part.last() == all[i as int]);
            assert(part.drop_last() =~= all.subrange(0, i as int));
            assert(all[i as int] == (fields[i as int].0@, fields[i as int].1@));
        }
        if same_text(fields[i].0.as_str(), name) {
            return Some(&fields[i].1);
        }
    }
    None
}

impl AvroValue {
    /// The value inside the branch of a union; any other value as it is.
    pub fn unwrap_union(&self) -> (r: &AvroValue)
        ensures
            r@ == unwrapped(self@),
    {
        match self {
            AvroValue::Union(_, inner) => &**inner,
            other => other,
        }
    }

    /// The 64-bit integer that the value is; an `int` is one too.
    pub fn as_long(&self, subject: &str) -> (r: Result<i64, CodecError>)
        ensures
            result_view(r) == self@.as_long(subject@),
    {
        match self {
            AvroValue::Int(i) => Ok(*i as i64),
            AvroValue::Long(i) => Ok(*i),
            _ => Err(CodecError::new(Fault::NotAnInteger, subject)),
        }
    }

    /// The 32-bit integer that the value is; a `long` is one where it
    /// fits.
    pub fn as_int(&self, subject: &str) -> (r: Result<i32, CodecError>)
        ensures
            result_view(r) == self@.as_int(subject@),
    {
        match self {
            AvroValue::Int(i) => Ok(*i),
            AvroValue::Long(i) => if -0x8000_0000 <= *i && *i <= 0x7fff_ffff {
                Ok(*i as i32)
            } else {
                Err(CodecError::new(Fault::IntegerOutOfRange, subject))
            },
            _ => Err(CodecError::new(Fault::NotAnInteger, subject)),
        }
    }

    /// The string that the value is.
    pub fn as_text(&self, subject: &str) -> (r: Result<String, CodecError>)
        ensures
            result_view(r) == self@.as_text(subject@),
    {
        match self {
            AvroValue::Text(s) => Ok(s.clone()),
            _ => Err(CodecError::new(Fault::NotAString, subject)),
        }
    }

    /// The boolean that the value is.
    pub fn as_flag(&self, subject: &str) -> (r: Result<bool, CodecError>)
        ensures
            result_view(r) == self@.as_flag(subject@),
    {
        match self {
            AvroValue::Boolean(b) => Ok(*b),
            _ => Err(CodecError::new(Fault::NotABoolean, subject)),
        }
    }

    /// The bytes that the value is.
    pub fn as_bytes(&self, subject: &str) -> (r: Result<Vec<u8>, CodecError>)
        ensures
            match r {
                Ok(b) => self@.as_bytes(subject@) == Ok::<Seq<u8>, CodecErrorV>(b@),
                Err(e) => self@.as_bytes(subject@) == Err::<Seq<u8>, CodecErrorV>(e@),
            },
    {
        match self {
            AvroValue::Bytes(b) => Ok(b.clone()),
            _ => Err(CodecError::new(Fault::NotBytes, subject)),
        }
    }

    /// The items of the array that the value is.
    pub fn as_items(&self, subject: &str) -> (r: Result<&Vec<AvroValue>, CodecError>)
        ensures
            match r {
                Ok(items) => self@.as_items(subject@) == Ok::<Seq<AvroV>, CodecErrorV>(
                    values_view(items@),
                ),
                Err(e) => self@.as_items(subject@) == Err::<Seq<AvroV>, CodecErrorV>(e@),
            },
    {
        match self {
            AvroValue::Array(items) => {
                broadcast use lemma_avro_array_view;

                Ok(items)
            },
            _ => Err(CodecError::new(Fault::NotAnArray, subject)),
        }
    }

    /// The fields of the record that the value is, taken out of its union.
    pub fn as_fields(&self) -> (r: Result<&Vec<(String, AvroValue)>, CodecError>)
        ensures
            match r {
                Ok(fields) => self@.as_fields() == Ok::<Seq<(Seq<char>, AvroV)>, CodecErrorV>(
                    fields_view(fields@),
                ),
                Err(e) => self@.as_fields() == Err::<Seq<(Seq<char>, AvroV)>, CodecErrorV>(e@),
            },
    {
        match self.unwrap_union() {
            AvroValue::Record(fields) => {
                broadcast use lemma_avro_record_view;

                Ok(fields)
            },
            _ => Err(CodecError::bare(Fault::NotAnObject)),
        }
    }

    /// An optional 64-bit integer as a union of `null` and `long`.
    pub fn long_union(o: Option<i64>) -> (r: AvroValue)
        ensures
            r@ == long_union(o),
    {
        reveal_with_fuel(avro_view, 2);
        match o {
            Some(i) => AvroValue::Union(1, Box::new(AvroValue::Long(i))),
            None => AvroValue::Union(0, Box::new(AvroValue::Null)),
        }
    }

    /// An optional 32-bit integer as a union of `null` and `int`.
    pub fn int_union(o: Option<i32>) -> (r: AvroValue)
        ensures
            r@ == int_union(o),
    {
        reveal_with_fuel(avro_view, 2);
        match o {
            Some(i) => AvroValue::Union(1, Box::new(AvroValue::Int(i))),
            None => AvroValue::Union(0, Box::new(AvroValue::Null)),
        }
    }

    /// An optional boolean as a union of `null` and `boolean`.
    pub fn flag_union(o: Option<bool>) -> (r: AvroValue)
        ensures
            r@ == flag_union(o),
    {
        reveal_with_fuel(avro_view, 2);
        match o {
            Some(b) => AvroValue::Union(1, Box::new(AvroValue::Boolean(b))),
            None => AvroValue::Union(0, Box::new(AvroValue::Null)),
        }
    }

    /// Optional bytes as a union of `null` and `bytes`.
    pub fn bytes_union(o: &Option<Vec<u8>>) -> (r: AvroValue)
        ensures
            r@ == bytes_union(bytes_view(*o)),
    {
        reveal_with_fuel(avro_view, 2);
        match o {
            Some(b) => AvroValue::Union(1, Box::new(AvroValue::Bytes(b.clone()))),
            None => AvroValue::Union(0, Box::new(AvroValue::Null)),
        }
    }
}

/// The value that a record gives a name, taken out of its union, where
/// the record has the name and the value is not null.
pub fn find_given<'a>(fields: &'a Vec<(String, AvroValue)>, name: &str) -> (r: Option<
    &'a AvroValue,
>)
    ensures
        value_ref_view(r) == given(fields_view(fields@), name@),
{
    match find(fields, name) {
        None => None,
        Some(v) => {
            let inner = v.unwrap_union();
            match inner {
                AvroValue::Null => None,
                _ => Some(inner),
            }
        },
    }
}

/// The value that a record gives a name or, where it does not have the
/// name, its second spelling.
pub fn find_either<'a>(fields: &'a Vec<(String, AvroValue)>, name: &str, alias: &str) -> (r:
    Option<&'a AvroValue>)
    ensures
        value_ref_view(r) == given_either(fields_view(fields@), name@, alias@),
{
    match find(fields, name) {
        Some(_) => find_given(fields, name),
        None => find_given(fields, alias),
    }
}

/// The value that a record must give a name, taken out of its union.
pub fn find_needed<'a>(fields: &'a Vec<(String, AvroValue)>, name: &str) -> (r: Result<
    &'a AvroValue,
    CodecError,
>)
    ensures
        match r {
            Ok(v) => needed(fields_view(fields@), name@) == Ok::<AvroV, CodecErrorV>(v@),
            Err(e) => needed(fields_view(fields@), name@) == Err::<AvroV, CodecErrorV>(e@),
        },
{
    match find(fields, name) {
        None => Err(CodecError::new(Fault::MissingField, name)),
        Some(v) => Ok(v.unwrap_union()),
    }
}

/// The 64-bit integer under a name that a record must have.
pub fn read_long(fields: &Vec<(String, AvroValue)>, name: &str) -> (r: Result<i64, CodecError>)
    ensures
        result_view(r) == long_at(fields_view(fields@), name@),
{
    let v = find_needed(fields, name)?;
    v.as_long(name)
}

/// The 32-bit integer under a name that a record must have.
pub fn read_int(fields: &Vec<(String, AvroValue)>, name: &str) -> (r: Result<i32, CodecError>)
    ensures
        result_view(r) == int_at(fields_view(fields@), name@),
{
    let v = find_needed(fields, name)?;
    v.as_int(name)
}

/// The string under a name that a record must have.
pub fn read_text(fields: &Vec<(String, AvroValue)>, name: &str) -> (r: Result<String, CodecError>)
    ensures
        result_view(r) == text_at(fields_view(fields@), name@),
{
    let v = find_needed(fields, name)?;
    v.as_text(name)
}

/// The boolean under a name that a record must have.
pub fn read_flag(fields: &Vec<(String, AvroValue)>, name: &str) -> (r: Result<bool, CodecError>)
    ensures
        result_view(r) == flag_at(fields_view(fields@), name@),
{
    let v = find_needed(fields, name)?;
    v.as_flag(name)
}

/// The 64-bit integer under a name, where the record gives one.
pub fn read_long_opt(fields: &Vec<(String, AvroValue)>, name: &str) -> (r: Result<
    Option<i64>,
    CodecError,
>)
    ensures
        result_view(r) == long_opt(fields_view(fields@), name@),
{
    match find_given(fields, name) {
        None => Ok(None),
        Some(v) => {
            let i = v.as_long(name)?;
            Ok(Some(i))
        },
    }
}

/// The 32-bit integer under a name or its second spelling, where the
/// record gives one.
pub fn read_int_opt(fields: &Vec<(String, AvroValue)>, name: &str, alias: &str) -> (r: Result<
    Option<i32>,
    CodecError,
>)
    ensures
        result_view(r) == int_opt(fields_view(fields@), name@, alias@),
{
    match find_either(fields, name, alias) {
        None => Ok(None),
        Some(v) => {
            let i = v.as_int(name)?;
            Ok(Some(i))
        },
    }
}

/// The boolean under a name, where the record gives one.
pub fn read_flag_opt(fields: &Vec<(String, AvroValue)>, name: &str) -> (r: Result<
    Option<bool>,
    CodecError,
>)
    ensures
        result_view(r) == flag_opt(fields_view(fields@), name@),
{
    match find_given(fields, name) {
        None => Ok(None),
        Some(v) => {
            let b = v.as_flag(name)?;
            Ok(Some(b))
        },
    }
}

/// The bytes under a name, where the record gives some.
pub fn read_bytes_opt(fields: &Vec<(String, AvroValue)>, name: &str) -> (r: Result<
    Option<Vec<u8>>,
    CodecError,
>)
    ensures
        match r {
            Ok(o) => bytes_opt(fields_view(fields@), name@) == Ok::<Option<Seq<u8>>, CodecErrorV>(
                bytes_view(o),
            ),
            Err(e) => bytes_opt(fields_view(fields@), name@) == Err::<
                Option<Seq<u8>>,
                CodecErrorV,
            >(e@),
        },
{
    match find_given(fields, name) {
        None => Ok(None),
        Some(v) => {
            let b = v.as_bytes(name)?;
            Ok(Some(b))
        },
    }
}

/// The 64-bit integer under a name, or zero where the record gives none.
pub fn read_long_or_zero(fields: &Vec<(String, AvroValue)>, name: &str) -> (r: Result<
    i64,
    CodecError,
>)
    ensures
        result_view(r) == long_or_zero(fields_view(fields@), name@),
{
    match read_long_opt(fields, name)? {
        Some(i) => Ok(i),
        None => Ok(0),
    }
}

/// The 32-bit integer under a name or its second spelling, or zero where
/// the record gives none.
pub fn read_int_or_zero(fields: &Vec<(String, AvroValue)>, name: &str, alias: &str) -> (r: Result<
    i32,
    CodecError,
>)
    ensures
        result_view(r) == int_or_zero(fields_view(fields@), name@, alias@),
{
    match read_int_opt(fields, name, alias)? {
        Some(i) => Ok(i),
        None => Ok(0),
    }
}

/// The fields of a record under construction, none so far.
pub fn no_fields() -> (fields: Vec<(String, AvroValue)>)
    ensures
        fields_view(fields@) == Seq::<(Seq<char>, AvroV)>::empty(),
{
    let fields: Vec<(String, AvroValue)> = Vec::new();
    assert(fields_view(fields@) =~= Seq::empty());
    fields
}

/// Adds a field to the fields of a record under construction.
pub fn put_field(fields: &mut Vec<(String, AvroValue)>, name: &str, value: AvroValue)
    ensures
        fields_view(final(fields)@) == fields_view(old(fields)@).push((name@, value@)),
{
    fields.push((String::from_str(name), value));
    assert(fields_view(final(fields)@) =~= fields_view(old(fields)@).push((name@, value@)));
}

/// The array with these items.
pub fn array(items: Vec<AvroValue>) -> (r: AvroValue)
    ensures
        r@ == AvroV::Array(values_view(items@)),
{
    broadcast use lemma_avro_array_view;

    AvroValue::Array(items)
}

/// The branch of a union at the given position.
pub fn branch(position: u32, value: AvroValue) -> (r: AvroValue)
    ensures
        r@ == AvroV::Union(position, Box::new(value@)),
{
    AvroValue::Union(position, Box::new(value))
}

/// The record with these fields.
pub fn record(fields: Vec<(String, AvroValue)>) -> (r: AvroValue)
    ensures
        r@ == AvroV::Record(fields_view(fields@)),
{
    broadcast use lemma_avro_record_view;

    AvroValue::Record(fields)
}

/// A type that is read from and written to a record of a container file.
pub trait AvroCodec: Sized + View {
    /// Whether a value is one that a record can hold.
    spec fn valid(v: Self::V) -> bool;

    /// What decoding a value gives: the record's content, or the first
    /// error.
    spec fn decoded(value: AvroV) -> Result<Self::V, CodecErrorV>;

    /// The record that encodes a value.
    spec fn encoded(v: Self::V) -> AvroV;

    /// Decodes a record.
    fn deserialize(value: &AvroValue) -> (r: Result<Self, CodecError>)
        ensures
            result_view(r) == Self::decoded(value@),
    ;

    /// Encodes the value as a record.
    fn serialize(&self) -> (value: AvroValue)
        ensures
            value@ == Self::encoded(self@),
    ;

    /// Whatever decoding gives is valid.
    proof fn decoded_is_valid(value: AvroV)
        ensures
            Self::decoded(value) matches Ok(v) ==> Self::valid(v),
    ;

    /// Decoding the record that encodes a valid value gives the value
    /// back.
    proof fn round_trip(v: Self::V)
        requires
            Self::valid(v),
        ensures
            Self::decoded(Self::encoded(v)) == Ok::<Self::V, CodecErrorV>(v),
    ;
}

/// What decoding a list of values gives: the contents in order, or the
/// error of the first value that has one.
pub open spec fn decoded_all<T: AvroCodec>(values: Seq<AvroV>) -> Result<Seq<T::V>, CodecErrorV>
    decreases values.len(),
{
    if values.len() == 0 {
        Ok(Seq::empty())
    } else {
        match decoded_all::<T>(values.drop_last()) {
            Err(e) => Err(e),
            Ok(front) => match T::decoded(values.last()) {
                Err(e) => Err(e),
                Ok(v) => Ok(front.push(v)),
            },
        }
    }
}

/// The records that encode the values of a list.
pub open spec fn encoded_all<T: AvroCodec>(values: Seq<T::V>) -> Seq<AvroV> {
    Seq::new(values.len(), |i: int| T::encoded(values[i]))
}

/// Whether every value of a list is valid.
pub open spec fn valid_all<T: AvroCodec>(values: Seq<T::V>) -> bool {
    forall|i: int| 0 <= i < values.len() ==> T::valid(#[trigger] values[i])
}

/// An error among the first values of a list is the error of the list.
pub proof fn lemma_all_error_stays<T: AvroCodec>(values: Seq<AvroV>, n: int)
    requires
        0 <= n <= values.len(),
    ensures
        decoded_all::<T>(
            values.subrange(0, n),
        ) matches Err(e) ==> decoded_all::<T>(values) == Err::<
            Seq<T::V>,
            CodecErrorV,
        >(e),
    decreases values.len() - n,
{
    if n < values.len() {
        let part = values.subrange(0, n + 1);
        assert(part.drop_last() =~= values.subrange(0, n));
        lemma_all_error_stays::<T>(values, n + 1);
    } else {
        assert(values.subrange(0, n) =~= values);
    }
}

/// Every value that decoding a list gives is valid.
pub proof fn lemma_decoded_all_valid<T: AvroCodec>(values: Seq<AvroV>)
    ensures
        decoded_all::<T>(values) matches Ok(out) ==> valid_all::<T>(out) && out.len()
            == values.len(),
    decreases values.len(),
{
    if values.len() > 0 {
        lemma_decoded_all_valid::<T>(values.drop_last());
        T::decoded_is_valid(values.last());
    }
}

/// Decoding the records that encode a list of valid values gives the list
/// back.
pub proof fn lemma_all_round_trip<T: AvroCodec>(values: Seq<T::V>)
    requires
        valid_all::<T>(values),
    ensures
        decoded_all::<T>(encoded_all::<T>(values)) == Ok::<Seq<T::V>, CodecErrorV>(values),
    decreases values.len(),
{
    let items = encoded_all::<T>(values);
    if values.len() == 0 {
        assert(values =~= Seq::empty());
    } else {
        let front = values.drop_last();
        assert(valid_all::<T>(front)) by {
            assert forall|i: int| 0 <= i < front.len() implies T::valid(#[trigger] front[i]) by {
                assert(front[i] == values[i]);
            }
        }
        lemma_all_round_trip::<T>(front);
        assert(items.drop_last() =~= encoded_all::<T>(front));
        assert(items.last() == T::encoded(values.last()));
        assert(T::valid(values.last()));
        T::round_trip(values.last());
        assert(front.push(values.last()) =~= values);
    }
}

/// Decodes a list of values.
pub fn deserialize_all<T: AvroCodec>(values: &Vec<AvroValue>) -> (r: Result<Vec<T>, CodecError>)
    ensures
        match r {
            Ok(out) => decoded_all::<T>(values_view(values@)) == Ok::<Seq<T::V>, CodecErrorV>(
                seq_view(out@),
            ),
            Err(e) => decoded_all::<T>(values_view(values@)) == Err::<Seq<T::V>, CodecErrorV>(e@),
        },
{
    let mut out: Vec<T> = Vec::new();
    let mut i: usize = 0;
    let ghost all = values_view(values@);
    assert(all.subrange(0, 0) =~= Seq::<AvroV>::empty());
    assert(seq_view(out@) =~= Seq::<T::V>::empty());
    while i < values.len()
        invariant
            i <= values.len(),
            all == values_view(values@),
            decoded_all::<T>(all.subrange(0, i as int)) == Ok::<Seq<T::V>, CodecErrorV>(
                seq_view(out@),
            ),
        decreases values.len() - i,
    {
        proof {
            let part = all.subrange(0, i + 1);
            assert(part.drop_last() =~= all.subrange(0, i as int));
            assert(part.last() == values[i as int]@);
            lemma_all_error_stays::<T>(all, i + 1);
        }
        match T::deserialize(&values[i]) {
            Err(e) => {
                return Err(e);
            },
            Ok(v) => {
                let ghost before = seq_view(out@);
                out.push(v);
                assert(seq_view(out@) =~= before.push(v@));
            },
        }
        i += 1;
    }
    assert(all.subrange(0, i as int) =~= all);
    Ok(out)
}

/// Encodes the values of a list as records.
pub fn serialize_all<T: AvroCodec>(values: &Vec<T>) -> (out: Vec<AvroValue>)
    ensures
        values_view(out@) == encoded_all::<T>(seq_view(values@)),
{
    let mut out: Vec<AvroValue> = Vec::new();
    let mut i: usize = 0;
    while i < values.len()
        invariant
            i <= values.len(),
            out.len() == i,
            forall|k: int| 0 <= k < i ==> (#[trigger] out[k])@ == T::encoded(values[k]@),
        decreases values.len() - i,
    {
        out.push(values[i].serialize());
        i += 1;
    }
    assert(values_view(out@) =~= encoded_all::<T>(seq_view(values@)));
    out
}

/// What reading a container file as a list of records of one type gives.
pub open spec fn decoded_file<T: AvroCodec>(bytes: Seq<u8>) -> Result<Seq<T::V>, CodecErrorV> {
    match records_read(bytes) {
        Err(e) => Err(e),
        Ok(values) => decoded_all::<T>(values),
    }
}

/// Reads a container file as a list of records of one type.
pub fn read_all<T: AvroCodec>(bytes: &[u8]) -> (r: Result<Vec<T>, CodecError>)
    ensures
        match r {
            Ok(out) => decoded_file::<T>(bytes@) == Ok::<Seq<T::V>, CodecErrorV>(seq_view(out@)),
            Err(e) => decoded_file::<T>(bytes@) == Err::<Seq<T::V>, CodecErrorV>(e@),
        },
{
    let values = read_records(bytes)?;
    deserialize_all::<T>(&values)
}

/// Writes a list of records of one type as a container file with the given
/// schema: the records that encode the values are handed to the writer.
pub fn write_all<T: AvroCodec>(schema: &apache_avro::Schema, values: &Vec<T>) -> (r: Result<
    Vec<u8>,
    CodecError,
>)
    ensures
        is_written(*schema, encoded_all::<T>(seq_view(values@)), r),
{
    let records = serialize_all::<T>(values);
    write_records(schema, &records)
}

/// The fields of a record with one name spelled another way.
pub open spec fn respelled(fields: Seq<(Seq<char>, AvroV)>, from: Seq<char>, to: Seq<char>) -> Seq<
    (Seq<char>, AvroV),
> {
    Seq::new(
        fields.len(),
        |i: int|
            (
                if fields[i].0 == from {
                    to
                } else {
                    fields[i].0
                },
                fields[i].1,
            ),
    )
}

/// What a record gives its names after one of them was spelled another
/// way: the new spelling finds what the old one found, the old spelling
/// finds nothing, and every other name finds what it found before.
pub proof fn lemma_respelled(
    fields: Seq<(Seq<char>, AvroV)>,
    from: Seq<char>,
    to: Seq<char>,
    name: Seq<char>,
)
    requires
        from != to,
        field_of(fields, to) is None,
    ensures
        field_of(respelled(fields, from, to), name) == if name == to {
            field_of(fields, from)
        } else if name == from {
            None
        } else {
            field_of(fields, name)
        },
    decreases fields.len(),
{
    let after = respelled(fields, from, to);
    if fields.len() > 0 {
        assert(after.drop_last() =~= respelled(fields.drop_last(), from, to));
        assert(after.last().1 == fields.last().1);
        lemma_respelled(fields.drop_last(), from, to, name);
    }
}

} // verus!
