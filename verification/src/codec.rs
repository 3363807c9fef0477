//! What every type of the textual form has in common: a decoder and an
//! encoder over document trees, each with its mathematical meaning, and the
//! two laws that tie them together.

use vstd::prelude::*;
use crate::error::{fail_bare, option_view, result_view, seq_view, CodecError, CodecErrorV, Fault};
use crate::json::{
    all_tidy, array, document_text, entries_tidy, entries_view, group_tidy, is_tidy, items_view,
    no_entries, object, parsed, stored, Json, JsonV, NumberV,
};
use crate::text::same_text;

verus! {

/// A type that is read from and written to a document tree.
pub trait Codec: Sized + View {
    /// Whether a value is one that a document can hold.
    spec fn valid(v: Self::V) -> bool;

    /// What decoding a tree gives: the value, or the first error.
    spec fn decoded(doc: JsonV) -> Result<Self::V, CodecErrorV>;

    /// The tree that encodes a value.
    spec fn encoded(v: Self::V) -> JsonV;

    /// Decodes a tree.
    fn deserialize(doc: &Json) -> (r: Result<Self, CodecError>)
        ensures
            result_view(r) == Self::decoded(doc@),
    ;

    /// Encodes the value.
    fn serialize(&self) -> (doc: Json)
        ensures
            doc@ == Self::encoded(self@),
    ;

    /// Whatever decoding gives is valid.
    proof fn decoded_is_valid(doc: JsonV)
        ensures
            Self::decoded(doc) matches Ok(v) ==> Self::valid(v),
    ;

    /// Decoding the tree that encodes a valid value gives the value back.
    proof fn round_trip(v: Self::V)
        requires
            Self::valid(v),
        ensures
            Self::decoded(Self::encoded(v)) == Ok::<Self::V, CodecErrorV>(v),
    ;

    /// The tree that encodes a value holds no `null` but that of a snapshot
    /// without parent: a key without value is left out.
    proof fn encoded_is_tidy(v: Self::V)
        ensures
            is_tidy(Self::encoded(v)),
    ;
}

impl Codec for i32 {
    open spec fn valid(v: i32) -> bool {
        true
    }

    open spec fn decoded(doc: JsonV) -> Result<i32, CodecErrorV> {
        doc.as_int(""@)
    }

    open spec fn encoded(v: i32) -> JsonV {
        JsonV::Number(NumberV::Int(v as i64))
    }

    fn deserialize(doc: &Json) -> (r: Result<i32, CodecError>) {
        doc.as_int("")
    }

    fn serialize(&self) -> (doc: Json) {
        Json::short(*self)
    }

    proof fn decoded_is_valid(doc: JsonV) {
    }

    proof fn round_trip(v: i32) {
    }

    proof fn encoded_is_tidy(v: i32) {
    }
}

impl Codec for String {
    open spec fn valid(v: Seq<char>) -> bool {
        true
    }

    open spec fn decoded(doc: JsonV) -> Result<Seq<char>, CodecErrorV> {
        doc.as_text(""@)
    }

    open spec fn encoded(v: Seq<char>) -> JsonV {
        JsonV::Text(v)
    }

    fn deserialize(doc: &Json) -> (r: Result<String, CodecError>) {
        let s = doc.as_text("")?;
        Ok(s.clone())
    }

    fn serialize(&self) -> (doc: Json) {
        Json::Text(self.clone())
    }

    proof fn decoded_is_valid(doc: JsonV) {
    }

    proof fn round_trip(v: Seq<char>) {
    }

    proof fn encoded_is_tidy(v: Seq<char>) {
    }
}

/// What decoding the items of an array gives: the values in order, or the
/// error of the first item that has one.
pub open spec fn decoded_list<T: Codec>(items: Seq<JsonV>) -> Result<Seq<T::V>, CodecErrorV>
    decreases items.len(),
{
    if items.len() == 0 {
        Ok(Seq::empty())
    } else {
        match decoded_list::<T>(items.drop_last()) {
            Err(e) => Err(e),
            Ok(front) => match T::decoded(items.last()) {
                Err(e) => Err(e),
                Ok(v) => Ok(front.push(v)),
            },
        }
    }
}

/// The trees that encode the values of a list.
pub open spec fn encoded_list<T: Codec>(values: Seq<T::V>) -> Seq<JsonV> {
    Seq::new(values.len(), |i: int| T::encoded(values[i]))
}

/// Whether every value of a list is valid.
pub open spec fn valid_list<T: Codec>(values: Seq<T::V>) -> bool {
    forall|i: int| 0 <= i < values.len() ==> T::valid(#[trigger] values[i])
}

/// What decoding a tree that must be an array gives.
pub open spec fn decoded_array<T: Codec>(doc: JsonV, subject: Seq<char>) -> Result<
    Seq<T::V>,
    CodecErrorV,
> {
    match doc.as_items(subject) {
        Err(e) => Err(e),
        Ok(items) => decoded_list::<T>(items),
    }
}

/// What decoding the array under a required key gives.
pub open spec fn decoded_array_at<T: Codec>(doc: JsonV, key: Seq<char>) -> Result<
    Seq<T::V>,
    CodecErrorV,
> {
    match doc.required(key) {
        Err(e) => Err(e),
        Ok(v) => decoded_array::<T>(v, key),
    }
}

/// What decoding the array under an optional key gives.
pub open spec fn decoded_array_opt<T: Codec>(doc: JsonV, key: Seq<char>) -> Result<
    Option<Seq<T::V>>,
    CodecErrorV,
> {
    match doc.present(key) {
        None => Ok(None),
        Some(v) => match decoded_array::<T>(v, key) {
            Err(e) => Err(e),
            Ok(values) => Ok(Some(values)),
        },
    }
}

/// What decoding the value under a required key gives.
pub open spec fn decoded_at<T: Codec>(doc: JsonV, key: Seq<char>) -> Result<T::V, CodecErrorV> {
    match doc.required(key) {
        Err(e) => Err(e),
        Ok(v) => T::decoded(v),
    }
}

/// What decoding the value under an optional key gives.
pub open spec fn decoded_opt<T: Codec>(doc: JsonV, key: Seq<char>) -> Result<
    Option<T::V>,
    CodecErrorV,
> {
    match doc.present(key) {
        None => Ok(None),
        Some(v) => match T::decoded(v) {
            Err(e) => Err(e),
            Ok(value) => Ok(Some(value)),
        },
    }
}

/// The tree of an optional list, where there is one.
pub open spec fn encoded_list_opt<T: Codec>(values: Option<Seq<T::V>>) -> Option<JsonV> {
    match values {
        Some(s) => Some(JsonV::Array(encoded_list::<T>(s))),
        None => None,
    }
}

/// The tree of an optional value, where there is one.
pub open spec fn encoded_opt<T: Codec>(value: Option<T::V>) -> Option<JsonV> {
    match value {
        Some(v) => Some(T::encoded(v)),
        None => None,
    }
}

/// Every value that decoding a list gives is valid.
pub proof fn lemma_decoded_list_valid<T: Codec>(items: Seq<JsonV>)
    ensures
        decoded_list::<T>(items) matches Ok(values) ==> valid_list::<T>(values) && values.len()
            == items.len(),
    decreases items.len(),
{
    if items.len() > 0 {
        lemma_decoded_list_valid::<T>(items.drop_last());
        T::decoded_is_valid(items.last());
    }
}

/// Decoding the trees that encode a list of valid values gives the list
/// back.
pub proof fn lemma_list_round_trip<T: Codec>(values: Seq<T::V>)
    requires
        valid_list::<T>(values),
    ensures
        decoded_list::<T>(encoded_list::<T>(values)) == Ok::<Seq<T::V>, CodecErrorV>(values),
    decreases values.len(),
{
    let items = encoded_list::<T>(values);
    if values.len() == 0 {
        assert(values =~= Seq::empty());
    } else {
        let front = values.drop_last();
        assert(valid_list::<T>(front)) by {
            assert forall|i: int| 0 <= i < front.len() implies T::valid(#[trigger] front[i]) by {
                assert(front[i] == values[i]);
            }
        }
        lemma_list_round_trip::<T>(front);
        assert(items.drop_last() =~= encoded_list::<T>(front));
        assert(items.last() == T::encoded(values.last()));
        assert(T::valid(values.last()));
        T::round_trip(values.last());
        assert(front.push(values.last()) =~= values);
    }
}

/// Decodes the items of an array.
pub fn deserialize_list<T: Codec>(items: &Vec<Json>) -> (r: Result<Vec<T>, CodecError>)
    ensures
        match r {
            Ok(values) => decoded_list::<T>(items_view(items@)) == Ok::<Seq<T::V>, CodecErrorV>(
                seq_view(values@),
            ),
            Err(e) => decoded_list::<T>(items_view(items@)) == Err::<Seq<T::V>, CodecErrorV>(e@),
        },
{
    let mut out: Vec<T> = Vec::new();
    let mut i: usize = 0;
    let ghost all = items_view(items@);
    assert(all.subrange(0, 0) =~= Seq::<JsonV>::empty());
    assert(seq_view(out@) =~= Seq::<T::V>::empty());
    while i < items.len()
        invariant
            i <= items.len(),
            all == items_view(items@),
            decoded_list::<T>(all.subrange(0, i as int)) == Ok::<Seq<T::V>, CodecErrorV>(
                seq_view(out@),
            ),
        decreases items.len() - i,
    {
        proof {
            let part = all.subrange(0, i + 1);
            assert(part.drop_last() =~= all.subrange(0, i as int));
            assert(part.last() == items[i as int]@);
            lemma_list_error_stays::<T>(all, i + 1);
        }
        match T::deserialize(&items[i]) {
            Err(e) => {
                return Err(e);
            },
            Ok(v) => {
                let ghost before = seq_view(out@);
                out.push(v);
                assert(seq_view(out@) =~= before.push(v@));
            },
        }
        i += 1;
    }
    assert(all.subrange(0, i as int) =~= all);
    Ok(out)
}

/// An error among the first items of a list is the error of the list.
pub proof fn lemma_list_error_stays<T: Codec>(items: Seq<JsonV>, n: int)
    requires
        0 <= n <= items.len(),
    ensures
        decoded_list::<T>(
            items.subrange(0, n),
        ) matches Err(e) ==> decoded_list::<T>(items) == Err::<
            Seq<T::V>,
            CodecErrorV,
        >(e),
    decreases items.len() - n,
{
    if n < items.len() {
        let part = items.subrange(0, n + 1);
        assert(part.drop_last() =~= items.subrange(0, n));
        lemma_list_error_stays::<T>(items, n + 1);
    } else {
        assert(items.subrange(0, n) =~= items);
    }
}

/// Encodes the values of a list.
pub fn serialize_list<T: Codec>(values: &Vec<T>) -> (doc: Json)
    ensures
        doc@ == JsonV::Array(encoded_list::<T>(seq_view(values@))),
{
    let mut out: Vec<Json> = Vec::new();
    let mut i: usize = 0;
    while i < values.len()
        invariant
            i <= values.len(),
            out.len() == i,
            forall|k: int| 0 <= k < i ==> (#[trigger] out[k])@ == T::encoded(values[k]@),
        decreases values.len() - i,
    {
        out.push(values[i].serialize());
        i += 1;
    }
    assert(items_view(out@) =~= encoded_list::<T>(seq_view(values@)));
    array(out)
}

/// Decodes a tree that must be an array; the error names `subject`.
pub fn deserialize_array<T: Codec>(doc: &Json, subject: &str) -> (r: Result<Vec<T>, CodecError>)
    ensures
        match r {
            Ok(values) => decoded_array::<T>(doc@, subject@) == Ok::<Seq<T::V>, CodecErrorV>(
                seq_view(values@),
            ),
            Err(e) => decoded_array::<T>(doc@, subject@) == Err::<Seq<T::V>, CodecErrorV>(e@),
        },
{
    let items = doc.as_items(subject)?;
    deserialize_list::<T>(items)
}

/// Decodes the array under a required key.
pub fn deserialize_array_at<T: Codec>(doc: &Json, key: &str) -> (r: Result<Vec<T>, CodecError>)
    ensures
        match r {
            Ok(values) => decoded_array_at::<T>(doc@, key@) == Ok::<Seq<T::V>, CodecErrorV>(
                seq_view(values@),
            ),
            Err(e) => decoded_array_at::<T>(doc@, key@) == Err::<Seq<T::V>, CodecErrorV>(e@),
        },
{
    let v = doc.required(key)?;
    deserialize_array::<T>(v, key)
}

/// The view of an optional list.
pub open spec fn list_opt_view<T: View>(o: Option<Vec<T>>) -> Option<Seq<T::V>> {
    match o {
        Some(values) => Some(seq_view(values@)),
        None => None,
    }
}

/// Decodes the array under an optional key.
pub fn deserialize_array_opt<T: Codec>(doc: &Json, key: &str) -> (r: Result<
    Option<Vec<T>>,
    CodecError,
>)
    ensures
        match r {
            Ok(values) => decoded_array_opt::<T>(doc@, key@) == Ok::<
                Option<Seq<T::V>>,
                CodecErrorV,
            >(list_opt_view(values)),
            Err(e) => decoded_array_opt::<T>(doc@, key@) == Err::<Option<Seq<T::V>>, CodecErrorV>(
                e@,
            ),
        },
{
    match doc.present(key) {
        None => Ok(None),
        Some(v) => {
            let values = deserialize_array::<T>(v, key)?;
            Ok(Some(values))
        },
    }
}

/// Decodes the value under a required key.
pub fn deserialize_at<T: Codec>(doc: &Json, key: &str) -> (r: Result<T, CodecError>)
    ensures
        result_view(r) == decoded_at::<T>(doc@, key@),
{
    let v = doc.required(key)?;
    T::deserialize(v)
}

/// Decodes the value under an optional key.
pub fn deserialize_opt<T: Codec>(doc: &Json, key: &str) -> (r: Result<Option<T>, CodecError>)
    ensures
        match r {
            Ok(value) => decoded_opt::<T>(doc@, key@) == Ok::<Option<T::V>, CodecErrorV>(
                option_view(value),
            ),
            Err(e) => decoded_opt::<T>(doc@, key@) == Err::<Option<T::V>, CodecErrorV>(e@),
        },
{
    match doc.present(key) {
        None => Ok(None),
        Some(v) => {
            let value = T::deserialize(v)?;
            Ok(Some(value))
        },
    }
}

/// Encodes an optional list, where there is one.
pub fn serialize_list_opt<T: Codec>(values: &Option<Vec<T>>) -> (doc: Option<Json>)
    ensures
        option_view(doc) == encoded_list_opt::<T>(list_opt_view(*values)),
{
    match values {
        Some(v) => Some(serialize_list::<T>(v)),
        None => None,
    }
}

/// Encodes an optional value, where there is one.
pub fn serialize_opt<T: Codec>(value: &Option<T>) -> (doc: Option<Json>)
    ensures
        option_view(doc) == encoded_opt::<T>(option_view(*value)),
{
    match value {
        Some(v) => Some(v.serialize()),
        None => None,
    }
}

/// The view of a list of named values.
pub open spec fn named_view<T: View>(s: Seq<(String, T)>) -> Seq<(Seq<char>, T::V)> {
    Seq::new(s.len(), |i: int| (s[i].0@, s[i].1@))
}

/// The view of an optional list of named values.
pub open spec fn named_opt_view<T: View>(o: Option<Vec<(String, T)>>) -> Option<
    Seq<(Seq<char>, T::V)>,
> {
    match o {
        Some(values) => Some(named_view(values@)),
        None => None,
    }
}

/// Whether no name occurs twice.
pub open spec fn distinct_names<V>(values: Seq<(Seq<char>, V)>) -> bool {
    forall|i: int, j: int|
        0 <= i < j < values.len() ==> (#[trigger] values[i]).0 != (#[trigger] values[j]).0
}

/// What decoding the entries of an object as named values gives: the
/// error that a key occurs twice, or what decoding entry by entry gives.
pub open spec fn decoded_entries<T: Codec>(
    entries: Seq<(Seq<char>, JsonV)>,
    skip: Option<Seq<char>>,
) -> Result<Seq<(Seq<char>, T::V)>, CodecErrorV> {
    if !distinct_names(entries) {
        Err(fail_bare(Fault::DuplicateKey))
    } else {
        decoded_each::<T>(entries, skip)
    }
}

/// What decoding entry by entry gives: every entry in order but those
/// with the key `skip`, or the error of the first entry that has one.
pub open spec fn decoded_each<T: Codec>(
    entries: Seq<(Seq<char>, JsonV)>,
    skip: Option<Seq<char>>,
) -> Result<Seq<(Seq<char>, T::V)>, CodecErrorV>
    decreases entries.len(),
{
    if entries.len() == 0 {
        Ok(Seq::empty())
    } else {
        match decoded_each::<T>(entries.drop_last(), skip) {
            Err(e) => Err(e),
            Ok(front) => if skip == Some(entries.last().0) {
                Ok(front)
            } else {
                match T::decoded(entries.last().1) {
                    Err(e) => Err(e),
                    Ok(v) => Ok(front.push((entries.last().0, v))),
                }
            },
        }
    }
}

/// The entries that encode a list of named values.
pub open spec fn encoded_entries<T: Codec>(values: Seq<(Seq<char>, T::V)>) -> Seq<
    (Seq<char>, JsonV),
> {
    Seq::new(values.len(), |i: int| (values[i].0, T::encoded(values[i].1)))
}

/// Whether every value of a list of named values is valid, none has the
/// name `skip`, and no name occurs twice.
pub open spec fn valid_entries<T: Codec>(
    values: Seq<(Seq<char>, T::V)>,
    skip: Option<Seq<char>>,
) -> bool {
    &&& distinct_names(values)
    &&& forall|i: int|
        0 <= i < values.len() ==> T::valid((#[trigger] values[i]).1) && skip != Some(values[i].0)
}

/// What decoding the object under an optional key as named values gives.
pub open spec fn decoded_object_opt<T: Codec>(doc: JsonV, key: Seq<char>) -> Result<
    Option<Seq<(Seq<char>, T::V)>>,
    CodecErrorV,
> {
    match doc.present(key) {
        None => Ok(None),
        Some(v) => match v.as_entries() {
            Err(e) => Err(e),
            Ok(entries) => match decoded_entries::<T>(entries, None) {
                Err(e) => Err(e),
                Ok(values) => Ok(Some(values)),
            },
        },
    }
}

/// The object of an optional list of named values, where there is one.
pub open spec fn encoded_object_opt<T: Codec>(values: Option<Seq<(Seq<char>, T::V)>>) -> Option<
    JsonV,
> {
    match values {
        Some(s) => Some(JsonV::Object(encoded_entries::<T>(s))),
        None => None,
    }
}

/// An error among the first entries of a list is the error of the list.
pub proof fn lemma_entries_error_stays<T: Codec>(
    entries: Seq<(Seq<char>, JsonV)>,
    skip: Option<Seq<char>>,
    n: int,
)
    requires
        0 <= n <= entries.len(),
    ensures
        decoded_each::<T>(entries.subrange(0, n), skip) matches Err(e) ==> decoded_each::<T>(
            entries,
            skip,
        ) == Err::<Seq<(Seq<char>, T::V)>, CodecErrorV>(e),
    decreases entries.len() - n,
{
    if n < entries.len() {
        let part = entries.subrange(0, n + 1);
        assert(part.drop_last() =~= entries.subrange(0, n));
        lemma_entries_error_stays::<T>(entries, skip, n + 1);
    } else {
        assert(entries.subrange(0, n) =~= entries);
    }
}

/// Every name that decoding entry by entry gives is the name of an entry.
pub proof fn lemma_decoded_names<T: Codec>(
    entries: Seq<(Seq<char>, JsonV)>,
    skip: Option<Seq<char>>,
)
    ensures
        decoded_each::<T>(entries, skip) matches Ok(values) ==> forall|k: int|
            0 <= k < values.len() ==> exists|i: int|
                0 <= i < entries.len() && (#[trigger] entries[i]).0 == (#[trigger] values[k]).0,
    decreases entries.len(),
{
    if entries.len() > 0 {
        let less = entries.drop_last();
        lemma_decoded_names::<T>(less, skip);
        if let Ok(values) = decoded_each::<T>(entries, skip) {
            let front = decoded_each::<T>(less, skip)->Ok_0;
            assert forall|k: int| 0 <= k < values.len() implies exists|i: int|
                0 <= i < entries.len() && (#[trigger] entries[i]).0 == (#[trigger] values[k]).0 by {
                if k < front.len() {
                    assert(values[k] == front[k]);
                    let i = choose|i: int|
                        0 <= i < less.len() && (#[trigger] less[i]).0 == front[k].0;
                    assert(entries[i] == less[i]);
                } else {
                    assert(entries[entries.len() - 1].0 == values[k].0);
                }
            }
        }
    }
}

/// Every value that decoding a list of entries gives is valid, none has
/// the name `skip`, and no name occurs twice.
pub proof fn lemma_decoded_entries_valid<T: Codec>(
    entries: Seq<(Seq<char>, JsonV)>,
    skip: Option<Seq<char>>,
)
    ensures
        decoded_entries::<T>(entries, skip) matches Ok(values) ==> valid_entries::<T>(values, skip),
    decreases entries.len(),
{
    if distinct_names(entries) && entries.len() > 0 {
        let less = entries.drop_last();
        assert(distinct_names(less)) by {
            assert forall|i: int, j: int| 0 <= i < j < less.len() implies (#[trigger] less[i]).0
                != (#[trigger] less[j]).0 by {
                assert(less[i] == entries[i] && less[j] == entries[j]);
            }
        }
        lemma_decoded_entries_valid::<T>(less, skip);
        lemma_decoded_names::<T>(less, skip);
        T::decoded_is_valid(entries.last().1);
        if let Ok(values) = decoded_each::<T>(entries, skip) {
            let front = decoded_each::<T>(less, skip)->Ok_0;
            assert forall|i: int| 0 <= i < values.len() implies T::valid(
                (#[trigger] values[i]).1,
            ) && skip != Some(values[i].0) by {
                if i < front.len() {
                    assert(values[i] == front[i]);
                }
            }
            assert forall|i: int, j: int| 0 <= i < j < values.len() implies (#[trigger] values[i]).0
                != (#[trigger] values[j]).0 by {
                if j < front.len() {
                    assert(values[i] == front[i] && values[j] == front[j]);
                } else {
                    assert(values[i] == front[i]);
                    let at = choose|at: int|
                        0 <= at < less.len() && (#[trigger] less[at]).0 == front[i].0;
                    assert(less[at] == entries[at]);
                    assert(values[j].0 == entries[entries.len() - 1].0);
                }
            }
        }
    }
}

/// Decoding entries that were extended by the entries of valid named
/// values gives what the first entries give, extended by those values.
pub proof fn lemma_entries_round_trip<T: Codec>(
    front: Seq<(Seq<char>, JsonV)>,
    values: Seq<(Seq<char>, T::V)>,
    skip: Option<Seq<char>>,
)
    requires
        forall|i: int|
            0 <= i < values.len() ==> T::valid((#[trigger] values[i]).1) && skip != Some(
                values[i].0,
            ),
    ensures
        decoded_each::<T>(front + encoded_entries::<T>(values), skip) == match decoded_each::<T>(
            front,
            skip,
        ) {
            Ok(first) => Ok::<Seq<(Seq<char>, T::V)>, CodecErrorV>(first + values),
            Err(e) => Err(e),
        },
    decreases values.len(),
{
    let back = encoded_entries::<T>(values);
    if values.len() == 0 {
        assert(front + back =~= front);
        if let Ok(first) = decoded_each::<T>(front, skip) {
            assert(first + values =~= first);
        }
    } else {
        let all = front + back;
        let less = values.drop_last();
        assert forall|i: int| 0 <= i < less.len() implies T::valid((#[trigger] less[i]).1)
            && skip != Some(less[i].0) by {
            assert(less[i] == values[i]);
        }
        lemma_entries_round_trip::<T>(front, less, skip);
        assert(all.drop_last() =~= front + encoded_entries::<T>(less));
        assert(all.last() == (values.last().0, T::encoded(values.last().1)));
        assert(T::valid(values.last().1) && skip != Some(values.last().0));
        T::round_trip(values.last().1);
        if let Ok(first) = decoded_each::<T>(front, skip) {
            assert((first + less).push(values.last()) =~= first + values);
        }
    }
}

/// Whether a key occurs twice among the entries.
pub fn has_repeat(entries: &Vec<(String, Json)>) -> (r: bool)
    ensures
        r == !distinct_names(entries_view(entries@)),
{
    let ghost all = entries_view(entries@);
    let mut j: usize = 0;
    while j < entries.len()
        invariant
            j <= entries.len(),
            all == entries_view(entries@),
            forall|a: int, b: int|
                0 <= a < b < j ==> (#[trigger] all[a]).0 != (#[trigger] all[b]).0,
        decreases entries.len() - j,
    {
        let mut i: usize = 0;
        while i < j
            invariant
                i <= j < entries.len(),
                all == entries_view(entries@),
                forall|a: int| 0 <= a < i ==> (#[trigger] all[a]).0 != all[j as int].0,
            decreases j - i,
        {
            if entries[i].0 == entries[j].0 {
                assert(all[i as int].0 == all[j as int].0);
                return true;
            }
            i += 1;
        }
        j += 1;
    }
    false
}

/// Decodes the entries of an object as named values, but those with the
/// key `skip`. An object that has a key twice is refused.
pub fn deserialize_entries<T: Codec>(entries: &Vec<(String, Json)>, skip: Option<&str>) -> (r:
    Result<Vec<(String, T)>, CodecError>)
    ensures
        match r {
            Ok(values) => decoded_entries::<T>(entries_view(entries@), skip_view(skip)) == Ok::<
                Seq<(Seq<char>, T::V)>,
                CodecErrorV,
            >(named_view(values@)),
            Err(e) => decoded_entries::<T>(entries_view(entries@), skip_view(skip)) == Err::<
                Seq<(Seq<char>, T::V)>,
                CodecErrorV,
            >(e@),
        },
{
    if has_repeat(entries) {
        return Err(CodecError::bare(Fault::DuplicateKey));
    }
    let mut out: Vec<(String, T)> = Vec::new();
    let mut i: usize = 0;
    let ghost all = entries_view(entries@);
    let ghost sk = skip_view(skip);
    assert(all.subrange(0, 0) =~= Seq::<(Seq<char>, JsonV)>::empty());
    assert(named_view(out@) =~= Seq::<(Seq<char>, T::V)>::empty());
    while i < entries.len()
        invariant
            i <= entries.len(),
            all == entries_view(entries@),
            sk == skip_view(skip),
            distinct_names(all),
            decoded_each::<T>(all.subrange(0, i as int), sk) == Ok::<
                Seq<(Seq<char>, T::V)>,
                CodecErrorV,
            >(named_view(out@)),
        decreases entries.len() - i,
    {
        proof {
            let part = all.subrange(0, i + 1);
            assert(part.drop_last() =~= all.subrange(0, i as int));
            assert(part.last() == (entries[i as int].0@, entries[i as int].1@));
            lemma_entries_error_stays::<T>(all, sk, i + 1);
        }
        let skipped = match skip {
            Some(k) => same_text(entries[i].0.as_str(), k),
            None => false,
        };
        if !skipped {
            match T::deserialize(&entries[i].1) {
                Err(e) => {
                    return Err(e);
                },
                Ok(v) => {
                    let ghost before = named_view(out@);
                    out.push((entries[i].0.clone(), v));
                    assert(named_view(out@) =~= before.push((entries[i as int].0@, v@)));
                },
            }
        }
        i += 1;
    }
    assert(all.subrange(0, i as int) =~= all);
    Ok(out)
}

/// The key to skip, as a value.
pub open spec fn skip_view(skip: Option<&str>) -> Option<Seq<char>> {
    match skip {
        Some(k) => Some(k@),
        None => None,
    }
}

/// Appends the entries that encode a list of named values.
pub fn serialize_entries<T: Codec>(entries: &mut Vec<(String, Json)>, values: &Vec<(String, T)>)
    ensures
        entries_view(final(entries)@) == entries_view(old(entries)@) + encoded_entries::<T>(
            named_view(values@),
        ),
{
    let mut i: usize = 0;
    let ghost start = entries_view(entries@);
    let ghost back = encoded_entries::<T>(named_view(values@));
    assert(start + back.subrange(0, 0) =~= start);
    while i < values.len()
        invariant
            i <= values.len(),
            back == encoded_entries::<T>(named_view(values@)),
            entries_view(entries@) == start + back.subrange(0, i as int),
        decreases values.len() - i,
    {
        let ghost before = entries_view(entries@);
        let doc = values[i].1.serialize();
        entries.push((values[i].0.clone(), doc));
        assert(entries_view(entries@) =~= before.push(back[i as int]));
        assert(start + back.subrange(0, i + 1) =~= (start + back.subrange(0, i as int)).push(
            back[i as int],
        ));
        i += 1;
    }
    assert(back.subrange(0, i as int) =~= back);
}

/// Decodes the object under an optional key as named values.
pub fn deserialize_object_opt<T: Codec>(doc: &Json, key: &str) -> (r: Result<
    Option<Vec<(String, T)>>,
    CodecError,
>)
    ensures
        match r {
            Ok(values) => decoded_object_opt::<T>(doc@, key@) == Ok::<
                Option<Seq<(Seq<char>, T::V)>>,
                CodecErrorV,
            >(named_opt_view(values)),
            Err(e) => decoded_object_opt::<T>(doc@, key@) == Err::<
                Option<Seq<(Seq<char>, T::V)>>,
                CodecErrorV,
            >(e@),
        },
{
    match doc.present(key) {
        None => Ok(None),
        Some(v) => {
            let entries = v.as_entries()?;
            let values = deserialize_entries::<T>(entries, None)?;
            Ok(Some(values))
        },
    }
}

/// Encodes an optional list of named values as an object, where there is
/// one.
pub fn serialize_object_opt<T: Codec>(values: &Option<Vec<(String, T)>>) -> (doc: Option<Json>)
    ensures
        option_view(doc) == encoded_object_opt::<T>(named_opt_view(*values)),
{
    match values {
        Some(v) => {
            let mut entries = no_entries();
            serialize_entries::<T>(&mut entries, v);
            assert(Seq::<(Seq<char>, JsonV)>::empty() + encoded_entries::<T>(named_view(v@))
                =~= encoded_entries::<T>(named_view(v@)));
            Some(object(entries))
        },
        None => None,
    }
}

/// Decoding the object of a list of valid named values gives the list
/// back.
pub proof fn lemma_object_round_trip<T: Codec>(values: Seq<(Seq<char>, T::V)>)
    requires
        valid_entries::<T>(values, None),
    ensures
        decoded_entries::<T>(encoded_entries::<T>(values), None) == Ok::<
            Seq<(Seq<char>, T::V)>,
            CodecErrorV,
        >(values),
{
    lemma_entries_round_trip::<T>(Seq::empty(), values, None);
    let entries = encoded_entries::<T>(values);
    assert(Seq::<(Seq<char>, JsonV)>::empty() + entries =~= entries);
    assert(Seq::<(Seq<char>, T::V)>::empty() + values =~= values);
    assert forall|i: int, j: int| 0 <= i < j < entries.len() implies (#[trigger] entries[i]).0
        != (#[trigger] entries[j]).0 by {
        assert(values[i].0 != values[j].0);
    }
}

/// What decoding the object under a required key as named values gives.
pub open spec fn decoded_object_at<T: Codec>(doc: JsonV, key: Seq<char>) -> Result<
    Seq<(Seq<char>, T::V)>,
    CodecErrorV,
> {
    match doc.required(key) {
        Err(e) => Err(e),
        Ok(v) => match v.as_entries() {
            Err(e) => Err(e),
            Ok(entries) => decoded_entries::<T>(entries, None),
        },
    }
}

/// Decodes the object under a required key as named values.
pub fn deserialize_object_at<T: Codec>(doc: &Json, key: &str) -> (r: Result<
    Vec<(String, T)>,
    CodecError,
>)
    ensures
        match r {
            Ok(values) => decoded_object_at::<T>(doc@, key@) == Ok::<
                Seq<(Seq<char>, T::V)>,
                CodecErrorV,
            >(named_view(values@)),
            Err(e) => decoded_object_at::<T>(doc@, key@) == Err::<
                Seq<(Seq<char>, T::V)>,
                CodecErrorV,
            >(e@),
        },
{
    let v = doc.required(key)?;
    let entries = v.as_entries()?;
    deserialize_entries::<T>(entries, None)
}

/// Encodes a list of named values as an object.
pub fn serialize_object<T: Codec>(values: &Vec<(String, T)>) -> (doc: Json)
    ensures
        doc@ == JsonV::Object(encoded_entries::<T>(named_view(values@))),
{
    let mut entries = no_entries();
    serialize_entries::<T>(&mut entries, values);
    assert(Seq::<(Seq<char>, JsonV)>::empty() + encoded_entries::<T>(named_view(values@))
        =~= encoded_entries::<T>(named_view(values@)));
    object(entries)
}

/// What reading a text as a value gives: the syntax error, or what
/// decoding its tree gives.
pub open spec fn decoded_text<T: Codec>(text: Seq<char>) -> Result<T::V, CodecErrorV> {
    match parsed(text) {
        Err(e) => Err(e),
        Ok(doc) => T::decoded(doc),
    }
}

/// Reads a text as a value.
pub fn from_text<T: Codec>(text: &str) -> (r: Result<T, CodecError>)
    ensures
        result_view(r) == decoded_text::<T>(text@),
{
    let doc = Json::parse(text)?;
    T::deserialize(&doc)
}

/// Writes a value as a text.
pub fn to_text<T: Codec>(value: &T) -> (r: String)
    ensures
        r@ == document_text(stored(T::encoded(value@))),
{
    value.serialize().to_text()
}

/// Decoding, encoding and decoding again gives what decoding gave: the
/// document that encodes a decoded value decodes to the same value.
pub proof fn lemma_decode_encode_decode<T: Codec>(doc: JsonV)
    ensures
        T::decoded(doc) matches Ok(v) ==> T::decoded(T::encoded(v)) == Ok::<T::V, CodecErrorV>(v),
{
    if let Ok(v) = T::decoded(doc) {
        T::decoded_is_valid(doc);
        T::round_trip(v);
    }
}

/// The trees that encode a list of values are tidy.
pub proof fn lemma_list_tidy<T: Codec>(values: Seq<T::V>)
    ensures
        all_tidy(encoded_list::<T>(values)),
        is_tidy(JsonV::Array(encoded_list::<T>(values))),
    decreases values.len(),
{
    broadcast use group_tidy;

    let items = encoded_list::<T>(values);
    if values.len() > 0 {
        lemma_list_tidy::<T>(values.drop_last());
        assert(items =~= encoded_list::<T>(values.drop_last()).push(T::encoded(values.last())));
        T::encoded_is_tidy(values.last());
    } else {
        assert(items =~= Seq::empty());
    }
}

/// The entries that encode a list of named values are tidy.
pub proof fn lemma_named_tidy<T: Codec>(values: Seq<(Seq<char>, T::V)>)
    ensures
        entries_tidy(encoded_entries::<T>(values)),
        is_tidy(JsonV::Object(encoded_entries::<T>(values))),
    decreases values.len(),
{
    broadcast use group_tidy;

    let entries = encoded_entries::<T>(values);
    if values.len() > 0 {
        lemma_named_tidy::<T>(values.drop_last());
        let front = encoded_entries::<T>(values.drop_last());
        let last = (values.last().0, T::encoded(values.last().1));
        assert(entries =~= front.push(last));
        T::encoded_is_tidy(values.last().1);
    } else {
        assert(entries =~= Seq::empty());
    }
}

} // verus!
