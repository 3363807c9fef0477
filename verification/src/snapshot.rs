//! Snapshots, their summaries, and the named references to them.

use vstd::prelude::*;
use crate::codec::{
    decoded_array_opt, decoded_at, decoded_each, decoded_entries, decoded_opt,
    deserialize_array_opt, deserialize_at, deserialize_entries, deserialize_opt, encoded_entries,
    encoded_list_opt, encoded_opt, lemma_decoded_entries_valid, lemma_entries_round_trip,
    lemma_list_round_trip, lemma_list_tidy, lemma_named_tidy, list_opt_view, named_view,
    serialize_entries, serialize_list_opt, serialize_opt, valid_entries, Codec,
};
use crate::error::{
    fail, fail_bare, option_view, result_view, CodecError, CodecErrorV, ErrorKind, Fault,
};
use crate::json::{
    entries_view, group_lookup, group_tidy, int_json, int_some, lemma_entries_tidy_extended,
    lemma_lookup_extended, long_json, long_some, no_entries, object, push_some, put, put_some,
    text_json, text_some, Json, JsonV, NumberV,
};
use crate::text::same_text;

verus! {

/// What a snapshot did to the table.
#[derive(Clone, Copy, Debug, PartialEq, Eq)]
pub enum Operation {
    Append,
    Replace,
    Overwrite,
    Delete,
}

impl View for Operation {
    type V = Operation;

    open spec fn view(&self) -> Operation {
        *self
    }
}

/// The operation that a string names.
pub open spec fn operation_of(s: Seq<char>) -> Result<Operation, CodecErrorV> {
    if s == "append"@ {
        Ok(Operation::Append)
    } else if s == "replace"@ {
        Ok(Operation::Replace)
    } else if s == "overwrite"@ {
        Ok(Operation::Overwrite)
    } else if s == "delete"@ {
        Ok(Operation::Delete)
    } else {
        Err(fail(Fault::UnknownOperation, s))
    }
}

/// The string that names an operation.
pub open spec fn operation_text(o: Operation) -> Seq<char> {
    match o {
        Operation::Append => "append"@,
        Operation::Replace => "replace"@,
        Operation::Overwrite => "overwrite"@,
        Operation::Delete => "delete"@,
    }
}

/// The keys and names of this file: their lengths and as much of their
/// characters as tells them apart.
proof fn lemma_keys()
    ensures
        "append"@.len() == 6,
        "append"@[0] == 'a',
        "replace"@.len() == 7,
        "overwrite"@.len() == 9,
        "delete"@.len() == 6,
        "delete"@[0] == 'd',
        "operation"@.len() == 9,
        "snapshot-id"@.len() == 11,
        "parent-snapshot-id"@.len() == 18,
        "sequence-number"@.len() == 15,
        "timestamp-ms"@.len() == 12,
        "summary"@.len() == 7,
        "manifest-list"@.len() == 13,
        "manifests"@.len() == 9,
        "manifests"@[0] == 'm',
        "schema-id"@.len() == 9,
        "schema-id"@[0] == 's',
        "type"@.len() == 4,
        "branch"@.len() == 6,
        "tag"@.len() == 3,
        "min-snapshots-to-keep"@.len() == 21,
        "max-snapshot-age-ms"@.len() == 19,
        "max-ref-age-ms"@.len() == 14,
{
    reveal_strlit("append");
    reveal_strlit("replace");
    reveal_strlit("overwrite");
    reveal_strlit("delete");
    reveal_strlit("operation");
    reveal_strlit("snapshot-id");
    reveal_strlit("parent-snapshot-id");
    reveal_strlit("sequence-number");
    reveal_strlit("timestamp-ms");
    reveal_strlit("summary");
    reveal_strlit("manifest-list");
    reveal_strlit("manifests");
    reveal_strlit("schema-id");
    reveal_strlit("type");
    reveal_strlit("branch");
    reveal_strlit("tag");
    reveal_strlit("min-snapshots-to-keep");
    reveal_strlit("max-snapshot-age-ms");
    reveal_strlit("max-ref-age-ms");
}

impl Operation {
    /// The operation that a string names.
    pub fn parse(value: &str) -> (r: Result<Operation, CodecError>)
        ensures
            result_view(r) == operation_of(value@),
    {
        if same_text(value, "append") {
            Ok(Operation::Append)
        } else if same_text(value, "replace") {
            Ok(Operation::Replace)
        } else if same_text(value, "overwrite") {
            Ok(Operation::Overwrite)
        } else if same_text(value, "delete") {
            Ok(Operation::Delete)
        } else {
            Err(CodecError::new(Fault::UnknownOperation, value))
        }
    }

    /// The string that names the operation.
    pub fn to_text(&self) -> (r: String)
        ensures
            r@ == operation_text(*self),
    {
        match self {
            Operation::Append => String::from_str("append"),
            Operation::Replace => String::from_str("replace"),
            Operation::Overwrite => String::from_str("overwrite"),
            Operation::Delete => String::from_str("delete"),
        }
    }
}

impl Codec for Operation {
    open spec fn valid(v: Operation) -> bool {
        true
    }

    open spec fn decoded(doc: JsonV) -> Result<Operation, CodecErrorV> {
        match doc.as_text(""@) {
            Err(e) => Err(e),
            Ok(s) => operation_of(s),
        }
    }

    open spec fn encoded(v: Operation) -> JsonV {
        JsonV::Text(operation_text(v))
    }

    fn deserialize(doc: &Json) -> (r: Result<Operation, CodecError>) {
        let s = doc.as_text("")?;
        Operation::parse(s.as_str())
    }

    fn serialize(&self) -> (doc: Json) {
        Json::Text(self.to_text())
    }

    proof fn decoded_is_valid(doc: JsonV) {
    }

    proof fn round_trip(v: Operation) {
        lemma_keys();
    }

    proof fn encoded_is_tidy(v: Operation) {
        broadcast use group_tidy;
    }
}

/// The summary of a snapshot: its operation, and every other key of the
/// summary with its string, in the order of the document.
#[derive(Clone, Debug, PartialEq, Eq)]
pub struct Summary {
    pub operation: Operation,
    /// No key is `operation`, and no key occurs twice.
    pub rest: Vec<(String, String)>,
}

/// The mathematical value of a [`Summary`].
pub ghost struct SummaryV {
    pub operation: Operation,
    pub rest: Seq<(Seq<char>, Seq<char>)>,
}

impl View for Summary {
    type V = SummaryV;

    open spec fn view(&self) -> SummaryV {
        SummaryV { operation: self.operation, rest: named_view(self.rest@) }
    }
}

impl Codec for Summary {
    open spec fn valid(v: SummaryV) -> bool {
        valid_entries::<String>(v.rest, Some("operation"@))
    }

    open spec fn decoded(doc: JsonV) -> Result<SummaryV, CodecErrorV> {
        match doc.as_entries() {
            Err(e) => Err(e),
            Ok(entries) => match decoded_at::<Operation>(doc, "operation"@) {
                Err(e) => Err(e),
                Ok(operation) => match decoded_entries::<String>(entries, Some("operation"@)) {
                    Err(e) => Err(e),
                    Ok(rest) => Ok(SummaryV { operation, rest }),
                },
            },
        }
    }

    open spec fn encoded(v: SummaryV) -> JsonV {
        JsonV::Object(
            Seq::empty().push(("operation"@, Operation::encoded(v.operation)))
                + encoded_entries::<String>(v.rest),
        )
    }

    fn deserialize(doc: &Json) -> (r: Result<Summary, CodecError>) {
        let entries = doc.as_entries()?;
        let operation = deserialize_at::<Operation>(doc, "operation")?;
        let rest = deserialize_entries::<String>(entries, Some("operation"))?;
        Ok(Summary { operation, rest })
    }

    fn serialize(&self) -> (doc: Json) {
        let mut entries = no_entries();
        put(&mut entries, "operation", self.operation.serialize());
        serialize_entries::<String>(&mut entries, &self.rest);
        object(entries)
    }

    proof fn decoded_is_valid(doc: JsonV) {
        if let Ok(entries) = doc.as_entries() {
            lemma_decoded_entries_valid::<String>(entries, Some("operation"@));
        }
    }

    proof fn round_trip(v: SummaryV) {
        broadcast use group_lookup;

        lemma_keys();
        let front = Seq::empty().push(("operation"@, Operation::encoded(v.operation)));
        let back = encoded_entries::<String>(v.rest);
        assert forall|i: int| 0 <= i < back.len() implies (#[trigger] back[i]).0
            != "operation"@ by {
            assert(v.rest[i].0 != "operation"@);
        }
        lemma_lookup_extended(front, back, "operation"@);
        Operation::round_trip(v.operation);
        lemma_entries_round_trip::<String>(front, v.rest, Some("operation"@));
        assert(front.drop_last() =~= Seq::empty());
        assert(front.last().0 == "operation"@);
        assert(decoded_each::<String>(front.drop_last(), Some("operation"@)) == Ok::<
            Seq<(Seq<char>, Seq<char>)>,
            CodecErrorV,
        >(Seq::empty()));
        assert(decoded_each::<String>(front, Some("operation"@)) == Ok::<
            Seq<(Seq<char>, Seq<char>)>,
            CodecErrorV,
        >(Seq::empty()));
        assert(Seq::<(Seq<char>, Seq<char>)>::empty() + v.rest =~= v.rest);
        let all = front + back;
        assert forall|i: int, j: int| 0 <= i < j < all.len() implies (#[trigger] all[i]).0
            != (#[trigger] all[j]).0 by {
            assert(all[j] == back[j - 1]);
            if i > 0 {
                assert(all[i] == back[i - 1]);
                assert(v.rest[i - 1].0 != v.rest[j - 1].0);
            }
        }
    }

    proof fn encoded_is_tidy(v: SummaryV) {
        broadcast use group_tidy;

        let front = Seq::empty().push(("operation"@, Operation::encoded(v.operation)));
        lemma_named_tidy::<String>(v.rest);
        lemma_entries_tidy_extended(front, encoded_entries::<String>(v.rest));
    }
}

/// A snapshot of format version 2.
#[derive(Clone, Debug, PartialEq, Eq)]
pub struct SnapshotV2 {
    pub snapshot_id: i64,
    pub parent_snapshot_id: Option<i64>,
    pub sequence_number: i64,
    pub timestamp_ms: i64,
    pub summary: Summary,
    pub manifest_list: String,
    pub schema_id: Option<i32>,
}

/// The mathematical value of a [`SnapshotV2`].
pub ghost struct SnapshotV2V {
    pub snapshot_id: i64,
    pub parent_snapshot_id: Option<i64>,
    pub sequence_number: i64,
    pub timestamp_ms: i64,
    pub summary: SummaryV,
    pub manifest_list: Seq<char>,
    pub schema_id: Option<i32>,
}

impl View for SnapshotV2 {
    type V = SnapshotV2V;

    open spec fn view(&self) -> SnapshotV2V {
        SnapshotV2V {
            snapshot_id: self.snapshot_id,
            parent_snapshot_id: self.parent_snapshot_id,
            sequence_number: self.sequence_number,
            timestamp_ms: self.timestamp_ms,
            summary: self.summary@,
            manifest_list: self.manifest_list@,
            schema_id: self.schema_id,
        }
    }
}

/// The id of the parent as a tree: `null` for a snapshot without parent.
pub open spec fn parent_tree(parent: Option<i64>) -> JsonV {
    match parent {
        Some(i) => JsonV::Number(NumberV::Int(i)),
        None => JsonV::Null,
    }
}

/// The id of the parent as a tree: `null` for a snapshot without parent.
pub fn parent_json(parent: Option<i64>) -> (r: Json)
    ensures
        r@ == parent_tree(parent),
{
    match parent {
        Some(i) => Json::long(i),
        None => Json::Null,
    }
}

impl Codec for SnapshotV2 {
    open spec fn valid(v: SnapshotV2V) -> bool {
        Summary::valid(v.summary)
    }

    open spec fn decoded(doc: JsonV) -> Result<SnapshotV2V, CodecErrorV> {
        if !(doc is Object) {
            Err(fail_bare(Fault::NotAnObject))
        } else {
            match doc.long_at("snapshot-id"@) {
                Err(e) => Err(e),
                Ok(snapshot_id) => match doc.long_opt("parent-snapshot-id"@) {
                    Err(e) => Err(e),
                    Ok(parent_snapshot_id) => match doc.long_at("sequence-number"@) {
                        Err(e) => Err(e),
                        Ok(sequence_number) => match doc.long_at("timestamp-ms"@) {
                            Err(e) => Err(e),
                            Ok(timestamp_ms) => match decoded_at::<Summary>(doc, "summary"@) {
                                Err(e) => Err(e),
                                Ok(summary) => match doc.text_at("manifest-list"@) {
                                    Err(e) => Err(e),
                                    Ok(manifest_list) => match doc.int_opt("schema-id"@) {
                                        Err(e) => Err(e),
                                        Ok(schema_id) => Ok(
                                            SnapshotV2V {
                                                snapshot_id,
                                                parent_snapshot_id,
                                                sequence_number,
                                                timestamp_ms,
                                                summary,
                                                manifest_list,
                                                schema_id,
                                            },
                                        ),
                                    },
                                },
                            },
                        },
                    },
                },
            }
        }
    }

    open spec fn encoded(v: SnapshotV2V) -> JsonV {
        JsonV::Object(
            push_some(
                Seq::empty()
                    .push(("snapshot-id"@, JsonV::Number(NumberV::Int(v.snapshot_id))))
                    .push(
                    ("parent-snapshot-id"@, parent_tree(v.parent_snapshot_id)),
                ).push(("sequence-number"@, JsonV::Number(NumberV::Int(v.sequence_number)))).push(
                    ("timestamp-ms"@, JsonV::Number(NumberV::Int(v.timestamp_ms))),
                ).push(("summary"@, Summary::encoded(v.summary))).push(
                    ("manifest-list"@, JsonV::Text(v.manifest_list)),
                ),
                "schema-id"@,
                int_some(v.schema_id),
            ),
        )
    }

    fn deserialize(doc: &Json) -> (r: Result<SnapshotV2, CodecError>) {
        let _ = doc.as_entries()?;
        let snapshot_id = doc.long_at("snapshot-id")?;
        let parent_snapshot_id = doc.long_opt("parent-snapshot-id")?;
        let sequence_number = doc.long_at("sequence-number")?;
        let timestamp_ms = doc.long_at("timestamp-ms")?;
        let summary = deserialize_at::<Summary>(doc, "summary")?;
        let manifest_list = doc.text_at("manifest-list")?;
        let schema_id = doc.int_opt("schema-id")?;
        Ok(
            SnapshotV2 {
                snapshot_id,
                parent_snapshot_id,
                sequence_number,
                timestamp_ms,
                summary,
                manifest_list,
                schema_id,
            },
        )
    }

    fn serialize(&self) -> (doc: Json) {
        let mut entries = no_entries();
        put(&mut entries, "snapshot-id", Json::long(self.snapshot_id));
        put(&mut entries, "parent-snapshot-id", parent_json(self.parent_snapshot_id));
        put(&mut entries, "sequence-number", Json::long(self.sequence_number));
        put(&mut entries, "timestamp-ms", Json::long(self.timestamp_ms));
        put(&mut entries, "summary", self.summary.serialize());
        put(&mut entries, "manifest-list", Json::Text(self.manifest_list.clone()));
        put_some(&mut entries, "schema-id", int_json(&self.schema_id));
        object(entries)
    }

    proof fn decoded_is_valid(doc: JsonV) {
        if doc is Object {
            if let Some(s) = doc.get("summary"@) {
                Summary::decoded_is_valid(s);
            }
        }
    }

    proof fn round_trip(v: SnapshotV2V) {
        broadcast use group_lookup;

        lemma_keys();
        Summary::round_trip(v.summary);
    }

    proof fn encoded_is_tidy(v: SnapshotV2V) {
        broadcast use group_tidy;

        Summary::encoded_is_tidy(v.summary);
    }
}

/// A snapshot of format version 1. It names its manifest list or its
/// manifests, never both.
#[derive(Clone, Debug, PartialEq, Eq)]
pub struct SnapshotV1 {
    pub snapshot_id: i64,
    pub parent_snapshot_id: Option<i64>,
    pub timestamp_ms: i64,
    pub manifest_list: Option<String>,
    pub manifests: Option<Vec<String>>,
    pub summary: Option<Summary>,
    pub schema_id: Option<i64>,
}

/// The mathematical value of a [`SnapshotV1`].
pub ghost struct SnapshotV1V {
    pub snapshot_id: i64,
    pub parent_snapshot_id: Option<i64>,
    pub timestamp_ms: i64,
    pub manifest_list: Option<Seq<char>>,
    pub manifests: Option<Seq<Seq<char>>>,
    pub summary: Option<SummaryV>,
    pub schema_id: Option<i64>,
}

impl View for SnapshotV1 {
    type V = SnapshotV1V;

    open spec fn view(&self) -> SnapshotV1V {
        SnapshotV1V {
            snapshot_id: self.snapshot_id,
            parent_snapshot_id: self.parent_snapshot_id,
            timestamp_ms: self.timestamp_ms,
            manifest_list: option_view(self.manifest_list),
            manifests: list_opt_view(self.manifests),
            summary: option_view(self.summary),
            schema_id: self.schema_id,
        }
    }
}

/// The fields of a version 1 snapshot as the document gives them, before
/// the two manifest keys are held against each other.
pub open spec fn snapshot_v1_fields(doc: JsonV) -> Result<SnapshotV1V, CodecErrorV> {
    if !(doc is Object) {
        Err(fail_bare(Fault::NotAnObject))
    } else {
        match doc.long_at("snapshot-id"@) {
            Err(e) => Err(e),
            Ok(snapshot_id) => match doc.long_opt("parent-snapshot-id"@) {
                Err(e) => Err(e),
                Ok(parent_snapshot_id) => match doc.long_at("timestamp-ms"@) {
                    Err(e) => Err(e),
                    Ok(timestamp_ms) => match doc.text_opt("manifest-list"@) {
                        Err(e) => Err(e),
                        Ok(manifest_list) => match decoded_array_opt::<String>(
                            doc,
                            "manifests"@,
                        ) {
                            Err(e) => Err(e),
                            Ok(manifests) => match decoded_opt::<Summary>(doc, "summary"@) {
                                Err(e) => Err(e),
                                Ok(summary) => match doc.long_opt("schema-id"@) {
                                    Err(e) => Err(e),
                                    Ok(schema_id) => Ok(
                                        SnapshotV1V {
                                            snapshot_id,
                                            parent_snapshot_id,
                                            timestamp_ms,
                                            manifest_list,
                                            manifests,
                                            summary,
                                            schema_id,
                                        },
                                    ),
                                },
                            },
                        },
                    },
                },
            },
        }
    }
}

/// The manifests to write: none where the snapshot names a manifest list.
pub open spec fn manifests_to_write(v: SnapshotV1V) -> Option<Seq<Seq<char>>> {
    if v.manifest_list is Some {
        None
    } else {
        v.manifests
    }
}

impl Codec for SnapshotV1 {
    open spec fn valid(v: SnapshotV1V) -> bool {
        &&& !(v.manifest_list is Some && v.manifests is Some)
        &&& v.summary matches Some(s) ==> Summary::valid(s)
    }

    open spec fn decoded(doc: JsonV) -> Result<SnapshotV1V, CodecErrorV> {
        match snapshot_v1_fields(doc) {
            Err(e) => Err(e),
            Ok(v) => if v.manifest_list is Some && v.manifests is Some {
                Err(fail_bare(Fault::ManifestListAndManifests))
            } else {
                Ok(v)
            },
        }
    }

    open spec fn encoded(v: SnapshotV1V) -> JsonV {
        JsonV::Object(
            push_some(
                push_some(
                    push_some(
                        push_some(
                            Seq::empty().push(
                                ("snapshot-id"@, JsonV::Number(NumberV::Int(v.snapshot_id))),
                            ).push(("parent-snapshot-id"@, parent_tree(v.parent_snapshot_id))).push(
                                ("timestamp-ms"@, JsonV::Number(NumberV::Int(v.timestamp_ms))),
                            ),
                            "manifest-list"@,
                            text_some(v.manifest_list),
                        ),
                        "manifests"@,
                        encoded_list_opt::<String>(manifests_to_write(v)),
                    ),
                    "summary"@,
                    encoded_opt::<Summary>(v.summary),
                ),
                "schema-id"@,
                long_some(v.schema_id),
            ),
        )
    }

    fn deserialize(doc: &Json) -> (r: Result<SnapshotV1, CodecError>) {
        let _ = doc.as_entries()?;
        let snapshot_id = doc.long_at("snapshot-id")?;
        let parent_snapshot_id = doc.long_opt("parent-snapshot-id")?;
        let timestamp_ms = doc.long_at("timestamp-ms")?;
        let manifest_list = doc.text_opt("manifest-list")?;
        let manifests = deserialize_array_opt::<String>(doc, "manifests")?;
        let summary = deserialize_opt::<Summary>(doc, "summary")?;
        let schema_id = doc.long_opt("schema-id")?;
        if manifest_list.is_some() && manifests.is_some() {
            return Err(CodecError::bare(Fault::ManifestListAndManifests));
        }
        Ok(
            SnapshotV1 {
                snapshot_id,
                parent_snapshot_id,
                timestamp_ms,
                manifest_list,
                manifests,
                summary,
                schema_id,
            },
        )
    }

    /// Encodes the snapshot. Where it names both a manifest list and its
    /// manifests, which no valid snapshot does, the manifests are left out,
    /// so that the tree never has both keys.
    fn serialize(&self) -> (doc: Json) {
        let mut entries = no_entries();
        put(&mut entries, "snapshot-id", Json::long(self.snapshot_id));
        put(&mut entries, "parent-snapshot-id", parent_json(self.parent_snapshot_id));
        put(&mut entries, "timestamp-ms", Json::long(self.timestamp_ms));
        put_some(&mut entries, "manifest-list", text_json(&self.manifest_list));
        if self.manifest_list.is_some() {
            put_some(&mut entries, "manifests", None);
        } else {
            put_some(&mut entries, "manifests", serialize_list_opt::<String>(&self.manifests));
        }
        put_some(&mut entries, "summary", serialize_opt::<Summary>(&self.summary));
        put_some(&mut entries, "schema-id", long_json(&self.schema_id));
        object(entries)
    }

    proof fn decoded_is_valid(doc: JsonV) {
        if doc is Object {
            if let Some(s) = doc.present("summary"@) {
                Summary::decoded_is_valid(s);
            }
        }
    }

    proof fn round_trip(v: SnapshotV1V) {
        broadcast use group_lookup;

        lemma_keys();
        if let Some(s) = v.summary {
            Summary::round_trip(s);
        }
        if let Some(m) = v.manifests {
            lemma_list_round_trip::<String>(m);
        }
    }

    proof fn encoded_is_tidy(v: SnapshotV1V) {
        broadcast use group_tidy;

        if let Some(s) = v.summary {
            Summary::encoded_is_tidy(s);
        }
        if let Some(m) = v.manifests {
            lemma_list_tidy::<String>(m);
        }
    }
}

/// Whatever the snapshot holds, its tree never has both manifest keys.
pub proof fn lemma_snapshot_v1_never_writes_both(v: SnapshotV1V)
    ensures
        !(SnapshotV1::encoded(v).get("manifest-list"@) is Some && SnapshotV1::encoded(v).get(
            "manifests"@,
        ) is Some),
{
    broadcast use group_lookup;

    lemma_keys();
}

/// A version 1 snapshot whose document gives both manifest keys a value is
/// refused.
pub proof fn lemma_snapshot_v1_refuses_both(doc: JsonV)
    requires
        doc.present("manifest-list"@) is Some,
        doc.present("manifests"@) is Some,
    ensures
        SnapshotV1::decoded(doc) is Err,
        snapshot_v1_fields(doc) is Ok ==> SnapshotV1::decoded(doc) == Err::<
            SnapshotV1V,
            CodecErrorV,
        >(fail_bare(Fault::ManifestListAndManifests)),
        Fault::ManifestListAndManifests.spec_kind() == ErrorKind::Shape,
{
}

/// What kind of reference it is, with what a branch may say of retention.
#[derive(Clone, Copy, Debug, PartialEq, Eq)]
pub enum RefType {
    Branch { min_snapshots_to_keep: Option<i32>, max_snapshot_age_ms: Option<i64> },
    Tag,
}

/// A named reference to a snapshot.
#[derive(Clone, Copy, Debug, PartialEq, Eq)]
pub struct SnapshotRefV2 {
    pub snapshot_id: i64,
    pub ref_type: RefType,
    pub max_ref_age_ms: Option<i64>,
}

impl View for RefType {
    type V = RefType;

    open spec fn view(&self) -> RefType {
        *self
    }
}

impl View for SnapshotRefV2 {
    type V = SnapshotRefV2;

    open spec fn view(&self) -> SnapshotRefV2 {
        *self
    }
}

/// What the keys of an object say of the kind of reference.
pub open spec fn ref_type_decoded(doc: JsonV) -> Result<RefType, CodecErrorV> {
    match doc.text_at("type"@) {
        Err(e) => Err(e),
        Ok(tag) => if tag == "branch"@ {
            match doc.int_opt("min-snapshots-to-keep"@) {
                Err(e) => Err(e),
                Ok(min_snapshots_to_keep) => match doc.long_opt("max-snapshot-age-ms"@) {
                    Err(e) => Err(e),
                    Ok(max_snapshot_age_ms) => Ok(
                        RefType::Branch { min_snapshots_to_keep, max_snapshot_age_ms },
                    ),
                },
            }
        } else if tag == "tag"@ {
            Ok(RefType::Tag)
        } else {
            Err(fail(Fault::UnknownRefType, tag))
        },
    }
}

/// The entries with those of a kind of reference added.
pub open spec fn ref_type_entries(entries: Seq<(Seq<char>, JsonV)>, t: RefType) -> Seq<
    (Seq<char>, JsonV),
> {
    match t {
        RefType::Branch { min_snapshots_to_keep, max_snapshot_age_ms } => push_some(
            push_some(
                entries.push(("type"@, JsonV::Text("branch"@))),
                "min-snapshots-to-keep"@,
                int_some(min_snapshots_to_keep),
            ),
            "max-snapshot-age-ms"@,
            long_some(max_snapshot_age_ms),
        ),
        RefType::Tag => entries.push(("type"@, JsonV::Text("tag"@))),
    }
}

impl RefType {
    /// Reads the kind of reference from the keys of an object.
    pub fn deserialize(doc: &Json) -> (r: Result<RefType, CodecError>)
        ensures
            result_view(r) == ref_type_decoded(doc@),
    {
        let tag = doc.text_at("type")?;
        if same_text(tag.as_str(), "branch") {
            let min_snapshots_to_keep = doc.int_opt("min-snapshots-to-keep")?;
            let max_snapshot_age_ms = doc.long_opt("max-snapshot-age-ms")?;
            Ok(RefType::Branch { min_snapshots_to_keep, max_snapshot_age_ms })
        } else if same_text(tag.as_str(), "tag") {
            Ok(RefType::Tag)
        } else {
            Err(CodecError::new(Fault::UnknownRefType, tag.as_str()))
        }
    }

    /// Adds the keys of the kind of reference to an object under
    /// construction.
    pub fn serialize(&self, entries: &mut Vec<(String, Json)>)
        ensures
            entries_view(final(entries)@) == ref_type_entries(
                entries_view(old(entries)@),
                *self,
            ),
    {
        match self {
            RefType::Branch { min_snapshots_to_keep, max_snapshot_age_ms } => {
                put(entries, "type", Json::text("branch"));
                put_some(entries, "min-snapshots-to-keep", int_json(min_snapshots_to_keep));
                put_some(entries, "max-snapshot-age-ms", long_json(max_snapshot_age_ms));
            },
            RefType::Tag => {
                put(entries, "type", Json::text("tag"));
            },
        }
    }
}

impl Codec for SnapshotRefV2 {
    open spec fn valid(v: SnapshotRefV2) -> bool {
        true
    }

    open spec fn decoded(doc: JsonV) -> Result<SnapshotRefV2, CodecErrorV> {
        if !(doc is Object) {
            Err(fail_bare(Fault::NotAnObject))
        } else {
            match doc.long_at("snapshot-id"@) {
                Err(e) => Err(e),
                Ok(snapshot_id) => match ref_type_decoded(doc) {
                    Err(e) => Err(e),
                    Ok(ref_type) => match doc.long_opt("max-ref-age-ms"@) {
                        Err(e) => Err(e),
                        Ok(max_ref_age_ms) => Ok(
                            SnapshotRefV2 { snapshot_id, ref_type, max_ref_age_ms },
                        ),
                    },
                },
            }
        }
    }

    open spec fn encoded(v: SnapshotRefV2) -> JsonV {
        JsonV::Object(
            push_some(
                ref_type_entries(
                    Seq::empty().push(("snapshot-id"@, JsonV::Number(NumberV::Int(v.snapshot_id)))),
                    v.ref_type,
                ),
                "max-ref-age-ms"@,
                long_some(v.max_ref_age_ms),
            ),
        )
    }

    fn deserialize(doc: &Json) -> (r: Result<SnapshotRefV2, CodecError>) {
        let _ = doc.as_entries()?;
        let snapshot_id = doc.long_at("snapshot-id")?;
        let ref_type = RefType::deserialize(doc)?;
        let max_ref_age_ms = doc.long_opt("max-ref-age-ms")?;
        Ok(SnapshotRefV2 { snapshot_id, ref_type, max_ref_age_ms })
    }

    fn serialize(&self) -> (doc: Json) {
        let mut entries = no_entries();
        put(&mut entries, "snapshot-id", Json::long(self.snapshot_id));
        self.ref_type.serialize(&mut entries);
        put_some(&mut entries, "max-ref-age-ms", long_json(&self.max_ref_age_ms));
        object(entries)
    }

    proof fn decoded_is_valid(doc: JsonV) {
    }

    proof fn round_trip(v: SnapshotRefV2) {
        broadcast use group_lookup;

        lemma_keys();
    }

    proof fn encoded_is_tidy(v: SnapshotRefV2) {
        broadcast use group_tidy;
    }
}

} // verus!
