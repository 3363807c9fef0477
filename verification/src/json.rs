//! The document tree of the textual form, its lookups, and the bridge to
//! `serde_json`, which reads and writes the text.

use vstd::prelude::*;
use crate::error::{fail, fail_bare, option_view, result_view, CodecError, CodecErrorV, Fault};

verus! {

/// `serde_json::Value`, whose inside is read through `node` only.
#[verifier::external_type_specification]
#[verifier::external_body]
pub struct ExValue(serde_json::Value);

/// `serde_json::Number`, which a tree carries as it is.
#[verifier::external_type_specification]
#[verifier::external_body]
pub struct ExNumber(serde_json::Number);

/// `serde_json::Error`, of which only the presence is used.
#[verifier::external_type_specification]
#[verifier::external_body]
pub struct ExJsonError(serde_json::Error);

/// A document tree. The entries of an object keep their order; where a key
/// occurs twice, the later entry is the one that lookups find.
#[derive(Debug, PartialEq, Eq)]
pub enum Json {
    Null,
    Bool(bool),
    Number(serde_json::Number),
    Text(String),
    Array(Vec<Json>),
    Object(Vec<(String, Json)>),
}

/// The mathematical value of a number in a document.
pub ghost enum NumberV {
    /// An integer that fits 64 bits.
    Int(i64),
    /// Any other number, as the text that `serde_json` prints for it.
    Real(Seq<char>),
}

/// The mathematical value of a document tree.
pub ghost enum JsonV {
    Null,
    Bool(bool),
    Number(NumberV),
    Text(Seq<char>),
    Array(Seq<JsonV>),
    Object(Seq<(Seq<char>, JsonV)>),
}

/// What a `serde_json::Number` holds: `Int` where `Number::as_i64` gives
/// an integer, else `Real`.
pub uninterp spec fn number_value(n: serde_json::Number) -> NumberV;

/// The tree that a `serde_json::Value` holds.
pub uninterp spec fn value_tree(v: serde_json::Value) -> JsonV;

/// The tree that `serde_json::from_str` reads from a text; `None` where it
/// reports an error.
pub uninterp spec fn text_document(text: Seq<char>) -> Option<JsonV>;

/// The text that `serde_json::to_string` writes for a tree.
pub uninterp spec fn document_text(doc: JsonV) -> Seq<char>;

/// The entries of the object that `serde_json` builds from a list of
/// entries: its map type decides their order and which of two entries with
/// one key stays.
pub uninterp spec fn object_entries(entries: Seq<(Seq<char>, JsonV)>) -> Seq<(Seq<char>, JsonV)>;

/// The values of a list of trees.
pub open spec fn items_view(items: Seq<Json>) -> Seq<JsonV> {
    Seq::new(items.len(), |i: int| items[i]@)
}

/// The values of a list of entries.
pub open spec fn entries_view(entries: Seq<(String, Json)>) -> Seq<(Seq<char>, JsonV)> {
    Seq::new(entries.len(), |i: int| (entries[i].0@, entries[i].1@))
}

/// The mathematical value of a tree.
pub open spec fn tree_view(j: Json) -> JsonV
    decreases j,
{
    match j {
        Json::Null => JsonV::Null,
        Json::Bool(b) => JsonV::Bool(b),
        Json::Number(n) => JsonV::Number(number_value(n)),
        Json::Text(s) => JsonV::Text(s@),
        Json::Array(items) => JsonV::Array(
            Seq::new(
                items.len() as nat,
                |i: int|
                    if 0 <= i < items.len() {
                        tree_view(items[i])
                    } else {
                        JsonV::Null
                    },
            ),
        ),
        Json::Object(entries) => JsonV::Object(
            Seq::new(
                entries.len() as nat,
                |i: int|
                    if 0 <= i < entries.len() {
                        (entries[i].0@, tree_view(entries[i].1))
                    } else {
                        (Seq::empty(), JsonV::Null)
                    },
            ),
        ),
    }
}

impl View for Json {
    type V = JsonV;

    open spec fn view(&self) -> JsonV {
        tree_view(*self)
    }
}

/// The view of an array is the list of its items' views.
pub broadcast proof fn lemma_array_view(items: Vec<Json>)
    ensures
        #[trigger] Json::Array(items)@ == JsonV::Array(items_view(items@)),
{
    let a = Json::Array(items)@;
    assert(a->Array_0 =~= items_view(items@));
}

/// The view of an object is the list of its entries' views.
pub broadcast proof fn lemma_object_view(entries: Vec<(String, Json)>)
    ensures
        #[trigger] Json::Object(entries)@ == JsonV::Object(entries_view(entries@)),
{
    let a = Json::Object(entries)@;
    assert(a->Object_0 =~= entries_view(entries@));
}

/// The value that a list of entries gives a key: that of the last entry
/// with this key.
pub open spec fn lookup(entries: Seq<(Seq<char>, JsonV)>, key: Seq<char>) -> Option<JsonV>
    decreases entries.len(),
{
    if entries.len() == 0 {
        None
    } else if entries.last().0 == key {
        Some(entries.last().1)
    } else {
        lookup(entries.drop_last(), key)
    }
}

/// A lookup in a list with one more entry.
pub broadcast proof fn lemma_lookup_push(
    entries: Seq<(Seq<char>, JsonV)>,
    entry: (Seq<char>, JsonV),
    key: Seq<char>,
)
    ensures
        #[trigger] lookup(entries.push(entry), key) == if entry.0 == key {
            Some(entry.1)
        } else {
            lookup(entries, key)
        },
{
    assert(entries.push(entry).drop_last() =~= entries);
    assert(entries.push(entry).last() == entry);
}

/// A lookup in the empty list finds nothing.
pub broadcast proof fn lemma_lookup_empty(key: Seq<char>)
    ensures
        #[trigger] lookup(Seq::<(Seq<char>, JsonV)>::empty(), key) is None,
{
}

/// What a lookup finds is the value of an entry with that key.
pub proof fn lemma_lookup_is_entry(entries: Seq<(Seq<char>, JsonV)>, key: Seq<char>)
    ensures
        lookup(entries, key) matches Some(v) ==> exists|i: int|
            0 <= i < entries.len() && (#[trigger] entries[i]) == (key, v),
    decreases entries.len(),
{
    if entries.len() > 0 {
        if entries.last().0 == key {
            assert(entries[entries.len() - 1] == (key, entries.last().1));
        } else {
            lemma_lookup_is_entry(entries.drop_last(), key);
            if let Some(v) = lookup(entries.drop_last(), key) {
                let i = choose|i: int|
                    0 <= i < entries.drop_last().len() && (#[trigger] entries.drop_last()[i]) == (
                        key,
                        v,
                    );
                assert(entries[i] == (key, v));
            }
        }
    }
}

/// What stands under a key of a tree is smaller than the tree.
pub proof fn lemma_get_decreases(doc: JsonV, key: Seq<char>)
    ensures
        doc.get(key) matches Some(v) ==> decreases_to!(doc => v),
        doc.present(key) matches Some(v) ==> decreases_to!(doc => v),
{
    if let JsonV::Object(entries) = doc {
        lemma_lookup_is_entry(entries, key);
        if let Some(v) = lookup(entries, key) {
            let i = choose|i: int| 0 <= i < entries.len() && (#[trigger] entries[i]) == (key, v);
            assert(decreases_to!(entries => entries[i]));
            assert(decreases_to!(entries[i] => entries[i].1));
        }
    }
}

impl JsonV {
    /// The value under a key of an object; `None` where the key is absent
    /// or the tree is no object.
    pub open spec fn get(self, key: Seq<char>) -> Option<JsonV> {
        match self {
            JsonV::Object(entries) => lookup(entries, key),
            _ => None,
        }
    }

    /// The value under a key, where it is present and not `null`.
    pub open spec fn present(self, key: Seq<char>) -> Option<JsonV> {
        match self.get(key) {
            Some(JsonV::Null) => None,
            other => other,
        }
    }

    /// The value under a key that must be there.
    pub open spec fn required(self, key: Seq<char>) -> Result<JsonV, CodecErrorV> {
        match self.get(key) {
            Some(v) => Ok(v),
            None => Err(fail(Fault::MissingField, key)),
        }
    }

    /// The string that the tree is; the error names `subject`.
    pub open spec fn as_text(self, subject: Seq<char>) -> Result<Seq<char>, CodecErrorV> {
        match self {
            JsonV::Text(s) => Ok(s),
            _ => Err(fail(Fault::NotAString, subject)),
        }
    }

    /// The 64-bit integer that the tree is; the error names `subject`.
    pub open spec fn as_long(self, subject: Seq<char>) -> Result<i64, CodecErrorV> {
        match self {
            JsonV::Number(NumberV::Int(i)) => Ok(i),
            _ => Err(fail(Fault::NotAnInteger, subject)),
        }
    }

    /// The 32-bit integer that the tree is; the error names `subject`.
    pub open spec fn as_int(self, subject: Seq<char>) -> Result<i32, CodecErrorV> {
        match self {
            JsonV::Number(NumberV::Int(i)) => if -0x8000_0000 <= i <= 0x7fff_ffff {
                Ok(i as i32)
            } else {
                Err(fail(Fault::IntegerOutOfRange, subject))
            },
            _ => Err(fail(Fault::NotAnInteger, subject)),
        }
    }

    /// The boolean that the tree is; the error names `subject`.
    pub open spec fn as_flag(self, subject: Seq<char>) -> Result<bool, CodecErrorV> {
        match self {
            JsonV::Bool(b) => Ok(b),
            _ => Err(fail(Fault::NotABoolean, subject)),
        }
    }

    /// The items of the array that the tree is; the error names `subject`.
    pub open spec fn as_items(self, subject: Seq<char>) -> Result<Seq<JsonV>, CodecErrorV> {
        match self {
            JsonV::Array(items) => Ok(items),
            _ => Err(fail(Fault::NotAnArray, subject)),
        }
    }

    /// The entries of the object that the tree is.
    pub open spec fn as_entries(self) -> Result<Seq<(Seq<char>, JsonV)>, CodecErrorV> {
        match self {
            JsonV::Object(entries) => Ok(entries),
            _ => Err(fail_bare(Fault::NotAnObject)),
        }
    }

    /// The string under a required key.
    pub open spec fn text_at(self, key: Seq<char>) -> Result<Seq<char>, CodecErrorV> {
        match self.required(key) {
            Ok(v) => v.as_text(key),
            Err(e) => Err(e),
        }
    }

    /// The 64-bit integer under a required key.
    pub open spec fn long_at(self, key: Seq<char>) -> Result<i64, CodecErrorV> {
        match self.required(key) {
            Ok(v) => v.as_long(key),
            Err(e) => Err(e),
        }
    }

    /// The 32-bit integer under a required key.
    pub open spec fn int_at(self, key: Seq<char>) -> Result<i32, CodecErrorV> {
        match self.required(key) {
            Ok(v) => v.as_int(key),
            Err(e) => Err(e),
        }
    }

    /// The boolean under a required key.
    pub open spec fn flag_at(self, key: Seq<char>) -> Result<bool, CodecErrorV> {
        match self.required(key) {
            Ok(v) => v.as_flag(key),
            Err(e) => Err(e),
        }
    }

    /// The items of the array under a required key.
    pub open spec fn items_at(self, key: Seq<char>) -> Result<Seq<JsonV>, CodecErrorV> {
        match self.required(key) {
            Ok(v) => v.as_items(key),
            Err(e) => Err(e),
        }
    }

    /// The string under an optional key.
    pub open spec fn text_opt(self, key: Seq<char>) -> Result<Option<Seq<char>>, CodecErrorV> {
        match self.present(key) {
            None => Ok(None),
            Some(v) => match v.as_text(key) {
                Ok(s) => Ok(Some(s)),
                Err(e) => Err(e),
            },
        }
    }

    /// The 64-bit integer under an optional key.
    pub open spec fn long_opt(self, key: Seq<char>) -> Result<Option<i64>, CodecErrorV> {
        match self.present(key) {
            None => Ok(None),
            Some(v) => match v.as_long(key) {
                Ok(i) => Ok(Some(i)),
                Err(e) => Err(e),
            },
        }
    }

    /// The 32-bit integer under an optional key.
    pub open spec fn int_opt(self, key: Seq<char>) -> Result<Option<i32>, CodecErrorV> {
        match self.present(key) {
            None => Ok(None),
            Some(v) => match v.as_int(key) {
                Ok(i) => Ok(Some(i)),
                Err(e) => Err(e),
            },
        }
    }
}

/// The list of entries with one more, where there is a value to add.
#[verifier::opaque]
pub open spec fn push_some(
    entries: Seq<(Seq<char>, JsonV)>,
    key: Seq<char>,
    value: Option<JsonV>,
) -> Seq<(Seq<char>, JsonV)> {
    match value {
        Some(v) => entries.push((key, v)),
        None => entries,
    }
}

/// A lookup in a list to which an entry was added where there was a value.
pub broadcast proof fn lemma_lookup_push_some(
    entries: Seq<(Seq<char>, JsonV)>,
    added: Seq<char>,
    value: Option<JsonV>,
    key: Seq<char>,
)
    ensures
        #[trigger] lookup(push_some(entries, added, value), key) == if added == key && value
            is Some {
            value
        } else {
            lookup(entries, key)
        },
{
    reveal(push_some);
    lemma_lookup_push(entries, (added, value.unwrap()), key);
}

/// The three facts by which a lookup in a tree under construction is
/// found.
pub broadcast group group_lookup {
    lemma_lookup_push,
    lemma_lookup_empty,
    lemma_lookup_push_some,
}

impl Json {
    /// The value under a key of an object.
    pub fn get(&self, key: &str) -> (r: Option<&Json>)
        ensures
            option_ref_view(r) == self@.get(key@),
    {
        match self {
            Json::Object(entries) => {
                broadcast use lemma_object_view;

                let wanted = String::from_str(key);
                let mut i: usize = entries.len();
                let ghost all = entries_view(entries@);
                assert(all.subrange(0, i as int) =~= all);
                while i > 0
                    invariant
                        i <= entries.len(),
                        wanted@ == key@,
                        all == entries_view(entries@),
                        self@ == JsonV::Object(all),
                        lookup(all, key@) == lookup(all.subrange(0, i as int), key@),
                    decreases i,
                {
                    i -= 1;
                    proof {
                        let part = all.subrange(0, i + 1);
                        assert(part.last() == all[i as int]);
                        assert(part.drop_last() =~= all.subrange(0, i as int));
                    }
                    assert(all[i as int] == (entries[i as int].0@, entries[i as int].1@));
                    if entries[i].0 == wanted {
                        return Some(&entries[i].1);
                    }
                }
                None
            },
            _ => None,
        }
    }

    /// The value under a key, where it is present and not `null`.
    pub fn present(&self, key: &str) -> (r: Option<&Json>)
        ensures
            option_ref_view(r) == self@.present(key@),
    {
        match self.get(key) {
            Some(Json::Null) => None,
            other => other,
        }
    }

    /// The value under a key that must be there.
    pub fn required(&self, key: &str) -> (r: Result<&Json, CodecError>)
        ensures
            result_ref_view(r) == self@.required(key@),
    {
        match self.get(key) {
            Some(v) => Ok(v),
            None => Err(CodecError::new(Fault::MissingField, key)),
        }
    }

    /// The string that the tree is; the error names `subject`.
    pub fn as_text(&self, subject: &str) -> (r: Result<&String, CodecError>)
        ensures
            result_ref_view(r) == self@.as_text(subject@),
    {
        match self {
            Json::Text(s) => Ok(s),
            _ => Err(CodecError::new(Fault::NotAString, subject)),
        }
    }

    /// The 64-bit integer that the tree is; the error names `subject`.
    pub fn as_long(&self, subject: &str) -> (r: Result<i64, CodecError>)
        ensures
            result_view(r) == self@.as_long(subject@),
    {
        match self {
            Json::Number(n) => match number_int(n) {
                Some(i) => Ok(i),
                None => Err(CodecError::new(Fault::NotAnInteger, subject)),
            },
            _ => Err(CodecError::new(Fault::NotAnInteger, subject)),
        }
    }

    /// The 32-bit integer that the tree is; the error names `subject`.
    pub fn as_int(&self, subject: &str) -> (r: Result<i32, CodecError>)
        ensures
            result_view(r) == self@.as_int(subject@),
    {
        match self.as_long(subject) {
            Ok(i) => if -0x8000_0000 <= i && i <= 0x7fff_ffff {
                Ok(i as i32)
            } else {
                Err(CodecError::new(Fault::IntegerOutOfRange, subject))
            },
            Err(e) => Err(e),
        }
    }

    /// The boolean that the tree is; the error names `subject`.
    pub fn as_flag(&self, subject: &str) -> (r: Result<bool, CodecError>)
        ensures
            result_view(r) == self@.as_flag(subject@),
    {
        match self {
            Json::Bool(b) => Ok(*b),
            _ => Err(CodecError::new(Fault::NotABoolean, subject)),
        }
    }

    /// The items of the array that the tree is; the error names `subject`.
    pub fn as_items(&self, subject: &str) -> (r: Result<&Vec<Json>, CodecError>)
        ensures
            match r {
                Ok(items) => self@.as_items(subject@) == Ok::<Seq<JsonV>, CodecErrorV>(
                    items_view(items@),
                ),
                Err(e) => self@.as_items(subject@) == Err::<Seq<JsonV>, CodecErrorV>(e@),
            },
    {
        match self {
            Json::Array(items) => {
                broadcast use lemma_array_view;

                Ok(items)
            },
            _ => Err(CodecError::new(Fault::NotAnArray, subject)),
        }
    }

    /// The entries of the object that the tree is.
    pub fn as_entries(&self) -> (r: Result<&Vec<(String, Json)>, CodecError>)
        ensures
            match r {
                Ok(entries) => self@.as_entries() == Ok::<Seq<(Seq<char>, JsonV)>, CodecErrorV>(
                    entries_view(entries@),
                ),
                Err(e) => self@.as_entries() == Err::<Seq<(Seq<char>, JsonV)>, CodecErrorV>(e@),
            },
    {
        match self {
            Json::Object(entries) => {
                broadcast use lemma_object_view;

                Ok(entries)
            },
            _ => Err(CodecError::bare(Fault::NotAnObject)),
        }
    }

    /// The string under a required key.
    pub fn text_at(&self, key: &str) -> (r: Result<String, CodecError>)
        ensures
            result_view(r) == self@.text_at(key@),
    {
        let v = self.required(key)?;
        let s = v.as_text(key)?;
        Ok(s.clone())
    }

    /// The 64-bit integer under a required key.
    pub fn long_at(&self, key: &str) -> (r: Result<i64, CodecError>)
        ensures
            result_view(r) == self@.long_at(key@),
    {
        let v = self.required(key)?;
        v.as_long(key)
    }

    /// The 32-bit integer under a required key.
    pub fn int_at(&self, key: &str) -> (r: Result<i32, CodecError>)
        ensures
            result_view(r) == self@.int_at(key@),
    {
        let v = self.required(key)?;
        v.as_int(key)
    }

    /// The boolean under a required key.
    pub fn flag_at(&self, key: &str) -> (r: Result<bool, CodecError>)
        ensures
            result_view(r) == self@.flag_at(key@),
    {
        let v = self.required(key)?;
        v.as_flag(key)
    }

    /// The items of the array under a required key.
    pub fn items_at(&self, key: &str) -> (r: Result<&Vec<Json>, CodecError>)
        ensures
            match r {
                Ok(items) => self@.items_at(
                    key@,
                ) == Ok::<Seq<JsonV>, CodecErrorV>(items_view(items@)),
                Err(e) => self@.items_at(key@) == Err::<Seq<JsonV>, CodecErrorV>(e@),
            },
    {
        let v = self.required(key)?;
        v.as_items(key)
    }

    /// The string under an optional key.
    pub fn text_opt(&self, key: &str) -> (r: Result<Option<String>, CodecError>)
        ensures
            match r {
                Ok(o) => self@.text_opt(key@) == Ok::<Option<Seq<char>>, CodecErrorV>(
                    option_view(o),
                ),
                Err(e) => self@.text_opt(key@) == Err::<Option<Seq<char>>, CodecErrorV>(e@),
            },
    {
        match self.present(key) {
            None => Ok(None),
            Some(v) => {
                let s = v.as_text(key)?;
                Ok(Some(s.clone()))
            },
        }
    }

    /// The 64-bit integer under an optional key.
    pub fn long_opt(&self, key: &str) -> (r: Result<Option<i64>, CodecError>)
        ensures
            result_view(r) == self@.long_opt(key@),
    {
        match self.present(key) {
            None => Ok(None),
            Some(v) => {
                let i = v.as_long(key)?;
                Ok(Some(i))
            },
        }
    }

    /// The 32-bit integer under an optional key.
    pub fn int_opt(&self, key: &str) -> (r: Result<Option<i32>, CodecError>)
        ensures
            result_view(r) == self@.int_opt(key@),
    {
        match self.present(key) {
            None => Ok(None),
            Some(v) => {
                let i = v.as_int(key)?;
                Ok(Some(i))
            },
        }
    }

    /// The integer as a tree.
    pub fn long(i: i64) -> (j: Json)
        ensures
            j@ == JsonV::Number(NumberV::Int(i)),
    {
        Json::Number(number_of(i))
    }

    /// The integer as a tree.
    pub fn short(i: i32) -> (j: Json)
        ensures
            j@ == JsonV::Number(NumberV::Int(i as i64)),
    {
        Json::Number(number_of(i as i64))
    }

    /// The boolean as a tree.
    pub fn flag(b: bool) -> (j: Json)
        ensures
            j@ == JsonV::Bool(b),
    {
        Json::Bool(b)
    }

    /// The string as a tree.
    pub fn text(s: &str) -> (j: Json)
        ensures
            j@ == JsonV::Text(s@),
    {
        Json::Text(String::from_str(s))
    }
}

/// One node of a `serde_json::Value`, with its children still in the
/// outside form.
pub enum Node<'a> {
    Null,
    Bool(bool),
    Number(&'a serde_json::Number),
    Text(&'a String),
    Array(&'a Vec<serde_json::Value>),
    Object(Vec<(&'a String, &'a serde_json::Value)>),
}

/// The tree that a node stands for.
pub open spec fn node_tree(node: Node<'_>) -> JsonV {
    match node {
        Node::Null => JsonV::Null,
        Node::Bool(b) => JsonV::Bool(b),
        Node::Number(n) => JsonV::Number(number_value(*n)),
        Node::Text(s) => JsonV::Text(s@),
        Node::Array(items) => JsonV::Array(
            Seq::new(items.len() as nat, |i: int| value_tree(items[i])),
        ),
        Node::Object(entries) => JsonV::Object(
            Seq::new(entries.len() as nat, |i: int| (entries[i].0@, value_tree(*entries[i].1))),
        ),
    }
}

/// The parts of one node of a `serde_json::Value` to be built, with the
/// children already in the outside form.
pub enum Parts {
    Null,
    Bool(bool),
    Number(serde_json::Number),
    Text(String),
    Array(Vec<serde_json::Value>),
}

/// The tree of the value that is built from the parts.
pub open spec fn parts_tree(parts: Parts) -> JsonV {
    match parts {
        Parts::Null => JsonV::Null,
        Parts::Bool(b) => JsonV::Bool(b),
        Parts::Number(n) => JsonV::Number(number_value(n)),
        Parts::Text(s) => JsonV::Text(s@),
        Parts::Array(items) => JsonV::Array(
            Seq::new(items.len() as nat, |i: int| value_tree(items[i])),
        ),
    }
}

/// The entries of an object to be built, as trees.
pub open spec fn pairs_tree(entries: Seq<(String, serde_json::Value)>) -> Seq<(Seq<char>, JsonV)> {
    Seq::new(entries.len(), |i: int| (entries[i].0@, value_tree(entries[i].1)))
}

/// `Clone` of `serde_json::Number`, which is derived: the copy stands for
/// the same number.
pub assume_specification[ <serde_json::Number as Clone>::clone ](
    n: &serde_json::Number,
) -> (r: serde_json::Number)
    ensures
        number_value(r) == number_value(*n),
;

/// Calls `Number::as_i64`: the integer that the number is, if it is one
/// that fits 64 bits.
#[verifier::external_body]
fn number_int(n: &serde_json::Number) -> (r: Option<i64>)
    ensures
        r matches Some(i) ==> number_value(*n) == NumberV::Int(i),
        r is None ==> number_value(*n) is Real,
{
    n.as_i64()
}

/// Calls `Number::from` on a 64-bit integer.
#[verifier::external_body]
fn number_of(i: i64) -> (n: serde_json::Number)
    ensures
        number_value(n) == NumberV::Int(i),
{
    serde_json::Number::from(i)
}

/// Calls `serde_json::from_str` to read a whole text as one `Value`. The
/// contract only names what it returns: the same text gives the same tree.
#[verifier::external_body]
fn read_value(text: &str) -> (r: Result<serde_json::Value, serde_json::Error>)
    ensures
        r matches Ok(v) ==> text_document(text@) == Some(value_tree(v)),
        r is Err ==> text_document(text@) is None,
{
    serde_json::from_str::<serde_json::Value>(text)
}

/// Calls `serde_json::to_string` on a `Value`, which cannot fail for one.
/// The contract only names what it returns.
#[verifier::external_body]
fn write_value(v: &serde_json::Value) -> (r: String)
    ensures
        r@ == document_text(value_tree(*v)),
{
    serde_json::to_string(v).unwrap_or_default()
}

/// Tells the six variants of `serde_json::Value` apart and hands out what
/// each holds, the entries of an object in the order in which `Map::iter`
/// walks them.
#[verifier::external_body]
fn node(v: &serde_json::Value) -> (r: Node<'_>)
    ensures
        value_tree(*v) == node_tree(r),
{
    match v {
        serde_json::Value::Null => Node::Null,
        serde_json::Value::Bool(b) => Node::Bool(*b),
        serde_json::Value::Number(n) => Node::Number(n),
        serde_json::Value::String(s) => Node::Text(s),
        serde_json::Value::Array(items) => Node::Array(items),
        serde_json::Value::Object(map) => Node::Object(map.iter().collect()),
    }
}

/// Builds the variant of `serde_json::Value` that the parts ask for.
#[verifier::external_body]
fn assemble(parts: Parts) -> (v: serde_json::Value)
    ensures
        value_tree(v) == parts_tree(parts),
{
    match parts {
        Parts::Null => serde_json::Value::Null,
        Parts::Bool(b) => serde_json::Value::Bool(b),
        Parts::Number(n) => serde_json::Value::Number(n),
        Parts::Text(s) => serde_json::Value::String(s),
        Parts::Array(items) => serde_json::Value::Array(items),
    }
}

/// Collects the entries into a `serde_json::Map` and wraps it as an
/// object. The map decides the order of the entries and which of two
/// entries with one key stays; the contract only names the outcome.
#[verifier::external_body]
fn assemble_object(entries: Vec<(String, serde_json::Value)>) -> (v: serde_json::Value)
    ensures
        value_tree(v) == JsonV::Object(object_entries(pairs_tree(entries@))),
{
    serde_json::Value::Object(entries.into_iter().collect())
}

/// The tree as `serde_json` stores it: the entries of every object pass
/// through its map type.
pub open spec fn stored(doc: JsonV) -> JsonV
    decreases doc,
{
    match doc {
        JsonV::Array(items) => JsonV::Array(stored_items(items)),
        JsonV::Object(entries) => JsonV::Object(object_entries(stored_entries(entries))),
        other => other,
    }
}

/// The items of an array as `serde_json` stores them.
pub open spec fn stored_items(items: Seq<JsonV>) -> Seq<JsonV>
    decreases items,
{
    Seq::new(
        items.len(),
        |i: int|
            if 0 <= i < items.len() {
                stored(items[i])
            } else {
                JsonV::Null
            },
    )
}

/// The entries of an object with their values as `serde_json` stores
/// them, before they pass through its map type.
pub open spec fn stored_entries(entries: Seq<(Seq<char>, JsonV)>) -> Seq<(Seq<char>, JsonV)>
    decreases entries,
{
    Seq::new(
        entries.len(),
        |i: int|
            if 0 <= i < entries.len() {
                (entries[i].0, stored(entries[i].1))
            } else {
                (Seq::empty(), JsonV::Null)
            },
    )
}

impl Json {
    /// The tree that a `serde_json::Value` holds.
    #[verifier::loop_isolation(false)]
    pub fn from_value(v: &serde_json::Value) -> (j: Json)
        ensures
            j@ == value_tree(*v),
        decreases value_tree(*v),
    {
        broadcast use {lemma_array_view, lemma_object_view};

        match node(v) {
            Node::Null => Json::Null,
            Node::Bool(b) => Json::Bool(b),
            Node::Number(n) => Json::Number(n.clone()),
            Node::Text(s) => Json::Text(s.clone()),
            Node::Array(items) => {
                let ghost tree = value_tree(*v);
                let mut out: Vec<Json> = Vec::new();
                let mut i: usize = 0;
                while i < items.len()
                    invariant
                        i <= items.len(),
                        out.len() == i,
                        forall|k: int| 0 <= k < i ==> (#[trigger] out[k])@ == value_tree(items[k]),
                    decreases items.len() - i,
                {
                    assert(tree->Array_0[i as int] == value_tree(items[i as int]));
                    out.push(Json::from_value(&items[i]));
                    i += 1;
                }
                assert(items_view(out@) =~= tree->Array_0);
                Json::Array(out)
            },
            Node::Object(entries) => {
                let ghost tree = value_tree(*v);
                let mut out: Vec<(String, Json)> = Vec::new();
                let mut i: usize = 0;
                while i < entries.len()
                    invariant
                        i <= entries.len(),
                        out.len() == i,
                        forall|k: int|
                            0 <= k < i ==> (#[trigger] out[k]).0@ == entries[k].0@ && out[k].1@
                                == value_tree(*entries[k].1),
                    decreases entries.len() - i,
                {
                    assert(tree->Object_0[i as int].1 == value_tree(*entries[i as int].1));
                    let child = Json::from_value(entries[i].1);
                    out.push((entries[i].0.clone(), child));
                    i += 1;
                }
                assert(entries_view(out@) =~= tree->Object_0);
                Json::Object(out)
            },
        }
    }

    /// The `serde_json::Value` that holds the tree.
    #[verifier::loop_isolation(false)]
    pub fn to_value(&self) -> (v: serde_json::Value)
        ensures
            value_tree(v) == stored(self@),
        decreases self,
    {
        broadcast use {lemma_array_view, lemma_object_view};

        match self {
            Json::Null => {
                let v = assemble(Parts::Null);
                assert(value_tree(v) == stored(self@));
                v
            },
            Json::Bool(b) => {
                let v = assemble(Parts::Bool(*b));
                assert(value_tree(v) == stored(self@));
                v
            },
            Json::Number(n) => {
                let v = assemble(Parts::Number(n.clone()));
                assert(value_tree(v) == stored(self@));
                v
            },
            Json::Text(s) => {
                let v = assemble(Parts::Text(s.clone()));
                assert(value_tree(v) == stored(self@));
                v
            },
            Json::Array(items) => {
                let mut out: Vec<serde_json::Value> = Vec::new();
                let mut i: usize = 0;
                while i < items.len()
                    invariant
                        i <= items.len(),
                        out.len() == i,
                        forall|k: int|
                            0 <= k < i ==> value_tree(#[trigger] out[k]) == stored(items[k]@),
                    decreases items.len() - i,
                {
                    out.push(items[i].to_value());
                    i += 1;
                }
                proof {
                    lemma_array_view(*items);
                    assert(Seq::new(out.len() as nat, |k: int| value_tree(out[k]))
                        =~= stored_items(items_view(items@)));
                }
                assemble(Parts::Array(out))
            },
            Json::Object(entries) => {
                let mut out: Vec<(String, serde_json::Value)> = Vec::new();
                let mut i: usize = 0;
                while i < entries.len()
                    invariant
                        i <= entries.len(),
                        out.len() == i,
                        forall|k: int|
                            0 <= k < i ==> (#[trigger] out[k]).0@ == entries[k].0@ && value_tree(
                                out[k].1,
                            ) == stored(entries[k].1@),
                    decreases entries.len() - i,
                {
                    out.push((entries[i].0.clone(), entries[i].1.to_value()));
                    i += 1;
                }
                proof {
                    lemma_object_view(*entries);
                }
                assert(pairs_tree(out@) =~= stored_entries(entries_view(entries@)));
                assemble_object(out)
            },
        }
    }

    /// Reads a text as a document tree. Fails with `Fault::Syntax` exactly
    /// where `serde_json` refuses the text.
    pub fn parse(text: &str) -> (r: Result<Json, CodecError>)
        ensures
            result_view(r) == parsed(text@),
    {
        match read_value(text) {
            Ok(v) => Ok(Json::from_value(&v)),
            Err(_) => Err(CodecError::bare(Fault::Syntax)),
        }
    }

    /// Writes the tree as a text.
    pub fn to_text(&self) -> (r: String)
        ensures
            r@ == document_text(stored(self@)),
    {
        let v = self.to_value();
        write_value(&v)
    }
}

/// What reading a text gives: its tree, or the syntax error.
pub open spec fn parsed(text: Seq<char>) -> Result<JsonV, CodecErrorV> {
    match text_document(text) {
        Some(doc) => Ok(doc),
        None => Err(fail_bare(Fault::Syntax)),
    }
}

/// The view of what an optional reference points to.
pub open spec fn option_ref_view(o: Option<&Json>) -> Option<JsonV> {
    match o {
        Some(j) => Some(j@),
        None => None,
    }
}

/// The view of what a reference in a result points to.
pub open spec fn result_ref_view<T: View>(r: Result<&T, CodecError>) -> Result<T::V, CodecErrorV> {
    match r {
        Ok(t) => Ok(t@),
        Err(e) => Err(e@),
    }
}

/// The entries of an object under construction, none so far.
pub fn no_entries() -> (entries: Vec<(String, Json)>)
    ensures
        entries_view(entries@) == Seq::<(Seq<char>, JsonV)>::empty(),
{
    let entries: Vec<(String, Json)> = Vec::new();
    assert(entries_view(entries@) =~= Seq::empty());
    entries
}

/// Adds an entry to the entries of an object under construction.
pub fn put(entries: &mut Vec<(String, Json)>, key: &str, value: Json)
    ensures
        entries_view(final(entries)@) == entries_view(old(entries)@).push((key@, value@)),
{
    entries.push((String::from_str(key), value));
    assert(entries_view(final(entries)@) =~= entries_view(old(entries)@).push((key@, value@)));
}

/// Adds an entry where there is a value to add.
pub fn put_some(entries: &mut Vec<(String, Json)>, key: &str, value: Option<Json>)
    ensures
        entries_view(final(entries)@) == push_some(
            entries_view(old(entries)@),
            key@,
            option_view(value),
        ),
{
    reveal(push_some);
    match value {
        Some(v) => put(entries, key, v),
        None => {},
    }
}

/// The object with these entries.
pub fn object(entries: Vec<(String, Json)>) -> (j: Json)
    ensures
        j@ == JsonV::Object(entries_view(entries@)),
{
    broadcast use lemma_object_view;

    Json::Object(entries)
}

/// The array with these items.
pub fn array(items: Vec<Json>) -> (j: Json)
    ensures
        j@ == JsonV::Array(items_view(items@)),
{
    broadcast use lemma_array_view;

    Json::Array(items)
}

/// An optional string as a tree, where there is one.
pub open spec fn text_some(o: Option<Seq<char>>) -> Option<JsonV> {
    match o {
        Some(s) => Some(JsonV::Text(s)),
        None => None,
    }
}

/// An optional 32-bit integer as a tree, where there is one.
pub open spec fn int_some(o: Option<i32>) -> Option<JsonV> {
    match o {
        Some(i) => Some(JsonV::Number(NumberV::Int(i as i64))),
        None => None,
    }
}

/// An optional 64-bit integer as a tree, where there is one.
pub open spec fn long_some(o: Option<i64>) -> Option<JsonV> {
    match o {
        Some(i) => Some(JsonV::Number(NumberV::Int(i))),
        None => None,
    }
}

/// An optional string as a tree, where there is one.
pub fn text_json(o: &Option<String>) -> (r: Option<Json>)
    ensures
        option_view(r) == text_some(option_view(*o)),
{
    match o {
        Some(s) => Some(Json::Text(s.clone())),
        None => None,
    }
}

/// An optional 32-bit integer as a tree, where there is one.
pub fn int_json(o: &Option<i32>) -> (r: Option<Json>)
    ensures
        option_view(r) == int_some(*o),
{
    match o {
        Some(i) => Some(Json::short(*i)),
        None => None,
    }
}

/// An optional 64-bit integer as a tree, where there is one.
pub fn long_json(o: &Option<i64>) -> (r: Option<Json>)
    ensures
        option_view(r) == long_some(*o),
{
    match o {
        Some(i) => Some(Json::long(*i)),
        None => None,
    }
}

/// A lookup in a list that was extended finds what it found before,
/// unless one of the new entries has the key.
pub proof fn lemma_lookup_extended(
    front: Seq<(Seq<char>, JsonV)>,
    back: Seq<(Seq<char>, JsonV)>,
    key: Seq<char>,
)
    requires
        forall|i: int| 0 <= i < back.len() ==> (#[trigger] back[i]).0 != key,
    ensures
        lookup(front + back, key) == lookup(front, key),
    decreases back.len(),
{
    if back.len() == 0 {
        assert(front + back =~= front);
    } else {
        let all = front + back;
        assert(all.last() == back.last());
        assert(all.drop_last() =~= front + back.drop_last());
        lemma_lookup_extended(front, back.drop_last(), key);
    }
}

/// Whether a tree holds `null` nowhere but under the key
/// `parent-snapshot-id` of an object, where a snapshot without parent has
/// it.
pub open spec fn is_tidy(doc: JsonV) -> bool
    decreases doc, 1nat,
{
    match doc {
        JsonV::Null => false,
        JsonV::Array(items) => all_tidy(items),
        JsonV::Object(entries) => entries_tidy(entries),
        _ => true,
    }
}

/// Whether every tree of a list is tidy.
pub open spec fn all_tidy(items: Seq<JsonV>) -> bool
    decreases items, 0nat,
{
    if items.len() == 0 {
        true
    } else {
        all_tidy(items.drop_last()) && is_tidy(items.last())
    }
}

/// Whether the value of every entry is tidy, or is the `null` of a
/// snapshot without parent.
pub open spec fn entries_tidy(entries: Seq<(Seq<char>, JsonV)>) -> bool
    decreases entries, 0nat,
{
    if entries.len() == 0 {
        true
    } else {
        entries_tidy(entries.drop_last()) && entry_tidy(entries.last())
    }
}

/// Whether the value of an entry is tidy, or is the `null` of a snapshot
/// without parent.
pub open spec fn entry_tidy(entry: (Seq<char>, JsonV)) -> bool
    decreases entry, 2nat,
{
    if entry.1 is Null {
        entry.0 == "parent-snapshot-id"@
    } else {
        is_tidy(entry.1)
    }
}

/// A list with one more tree is tidy where the list and the tree are.
pub broadcast proof fn lemma_all_tidy_push(items: Seq<JsonV>, item: JsonV)
    ensures
        #[trigger] all_tidy(items.push(item)) == (all_tidy(items) && is_tidy(item)),
{
    assert(items.push(item).drop_last() =~= items);
    assert(items.push(item).last() == item);
}

/// Entries with one more are tidy where the entries and the new one are.
pub broadcast proof fn lemma_entries_tidy_push(
    entries: Seq<(Seq<char>, JsonV)>,
    entry: (Seq<char>, JsonV),
)
    ensures
        #[trigger] entries_tidy(entries.push(entry)) == (entries_tidy(entries) && entry_tidy(
            entry,
        )),
{
    assert(entries.push(entry).drop_last() =~= entries);
    assert(entries.push(entry).last() == entry);
}

/// Entries to which one was added where there was a value are tidy where
/// the entries and the value are.
pub broadcast proof fn lemma_entries_tidy_push_some(
    entries: Seq<(Seq<char>, JsonV)>,
    key: Seq<char>,
    value: Option<JsonV>,
)
    ensures
        #[trigger] entries_tidy(push_some(entries, key, value)) == (entries_tidy(entries) && (
        value matches Some(v) ==> entry_tidy((key, v)))),
{
    reveal(push_some);
    if let Some(v) = value {
        lemma_entries_tidy_push(entries, (key, v));
    }
}

/// Entries that were extended are tidy where both parts are.
pub proof fn lemma_entries_tidy_extended(
    front: Seq<(Seq<char>, JsonV)>,
    back: Seq<(Seq<char>, JsonV)>,
)
    ensures
        entries_tidy(front + back) == (entries_tidy(front) && entries_tidy(back)),
    decreases back.len(),
{
    if back.len() == 0 {
        assert(front + back =~= front);
    } else {
        let all = front + back;
        assert(all.last() == back.last());
        assert(all.drop_last() =~= front + back.drop_last());
        lemma_entries_tidy_extended(front, back.drop_last());
    }
}

/// What it is for a tree to be tidy, node by node.
pub broadcast proof fn lemma_is_tidy(doc: JsonV)
    ensures
        #[trigger] is_tidy(doc) == match doc {
            JsonV::Null => false,
            JsonV::Array(items) => all_tidy(items),
            JsonV::Object(entries) => entries_tidy(entries),
            _ => true,
        },
{
}

/// What it is for an entry to be tidy.
pub broadcast proof fn lemma_entry_tidy(entry: (Seq<char>, JsonV))
    ensures
        #[trigger] entry_tidy(entry) == if entry.1 is Null {
            entry.0 == "parent-snapshot-id"@
        } else {
            is_tidy(entry.1)
        },
{
}

/// No tree is no untidy tree, and no entry is no untidy entry.
pub broadcast proof fn lemma_none_tidy()
    ensures
        #[trigger] all_tidy(Seq::<JsonV>::empty()),
        #[trigger] entries_tidy(Seq::<(Seq<char>, JsonV)>::empty()),
{
}

/// The facts by which a tree under construction is found tidy.
pub broadcast group group_tidy {
    lemma_is_tidy,
    lemma_entry_tidy,
    lemma_none_tidy,
    lemma_all_tidy_push,
    lemma_entries_tidy_push,
    lemma_entries_tidy_push_some,
}

} // verus!
