//! Sort orders.

use vstd::prelude::*;
use crate::codec::{
    decoded_array_at, decoded_at, deserialize_array_at, deserialize_at, encoded_list,
    lemma_decoded_list_valid, lemma_list_round_trip, lemma_list_tidy, serialize_list, valid_list,
    Codec,
};
use crate::error::{
    fail, fail_bare, result_view, seq_view, CodecError, CodecErrorV, ErrorKind, Fault,
};
use crate::json::{group_lookup, group_tidy, no_entries, object, put, Json, JsonV, NumberV};
use crate::partition_spec::Transform;
use crate::text::same_text;

verus! {

/// The direction of a sort.
#[derive(Clone, Copy, Debug, PartialEq, Eq)]
pub enum Direction {
    ASC,
    DESC,
}

/// Where a sort puts the null values.
#[derive(Clone, Copy, Debug, PartialEq, Eq)]
pub enum NullOrder {
    NullsFirst,
    NullsLast,
}

impl View for Direction {
    type V = Direction;

    open spec fn view(&self) -> Direction {
        *self
    }
}

impl View for NullOrder {
    type V = NullOrder;

    open spec fn view(&self) -> NullOrder {
        *self
    }
}

/// The direction that a string names.
pub open spec fn direction_of(s: Seq<char>) -> Result<Direction, CodecErrorV> {
    if s == "asc"@ {
        Ok(Direction::ASC)
    } else if s == "desc"@ {
        Ok(Direction::DESC)
    } else {
        Err(fail(Fault::UnknownDirection, s))
    }
}

/// The string that names a direction.
pub open spec fn direction_text(d: Direction) -> Seq<char> {
    match d {
        Direction::ASC => "asc"@,
        Direction::DESC => "desc"@,
    }
}

/// The null order that a string names.
pub open spec fn null_order_of(s: Seq<char>) -> Result<NullOrder, CodecErrorV> {
    if s == "nulls-first"@ {
        Ok(NullOrder::NullsFirst)
    } else if s == "nulls-last"@ {
        Ok(NullOrder::NullsLast)
    } else {
        Err(fail(Fault::UnknownNullOrder, s))
    }
}

/// The string that names a null order.
pub open spec fn null_order_text(n: NullOrder) -> Seq<char> {
    match n {
        NullOrder::NullsFirst => "nulls-first"@,
        NullOrder::NullsLast => "nulls-last"@,
    }
}

/// The strings of this file differ in their lengths.
proof fn lemma_keys()
    ensures
        "asc"@.len() == 3,
        "desc"@.len() == 4,
        "nulls-first"@.len() == 11,
        "nulls-last"@.len() == 10,
        "transform"@.len() == 9,
        "source-id"@.len() == 9,
        "direction"@.len() == 9,
        "null-order"@.len() == 10,
        "transform"@[0] == 't',
        "source-id"@[0] == 's',
        "direction"@[0] == 'd',
        "order-id"@.len() == 8,
        "fields"@.len() == 6,
{
    reveal_strlit("asc");
    reveal_strlit("desc");
    reveal_strlit("nulls-first");
    reveal_strlit("nulls-last");
    reveal_strlit("transform");
    reveal_strlit("source-id");
    reveal_strlit("direction");
    reveal_strlit("null-order");
    reveal_strlit("order-id");
    reveal_strlit("fields");
}

impl Direction {
    /// The direction that a string names.
    pub fn parse(value: &str) -> (r: Result<Direction, CodecError>)
        ensures
            result_view(r) == direction_of(value@),
    {
        if same_text(value, "asc") {
            Ok(Direction::ASC)
        } else if same_text(value, "desc") {
            Ok(Direction::DESC)
        } else {
            Err(CodecError::new(Fault::UnknownDirection, value))
        }
    }

    /// The string that names the direction.
    pub fn to_text(&self) -> (r: String)
        ensures
            r@ == direction_text(*self),
    {
        match self {
            Direction::ASC => String::from_str("asc"),
            Direction::DESC => String::from_str("desc"),
        }
    }
}

impl NullOrder {
    /// The null order that a string names.
    pub fn parse(value: &str) -> (r: Result<NullOrder, CodecError>)
        ensures
            result_view(r) == null_order_of(value@),
    {
        if same_text(value, "nulls-first") {
            Ok(NullOrder::NullsFirst)
        } else if same_text(value, "nulls-last") {
            Ok(NullOrder::NullsLast)
        } else {
            Err(CodecError::new(Fault::UnknownNullOrder, value))
        }
    }

    /// The string that names the null order.
    pub fn to_text(&self) -> (r: String)
        ensures
            r@ == null_order_text(*self),
    {
        match self {
            NullOrder::NullsFirst => String::from_str("nulls-first"),
            NullOrder::NullsLast => String::from_str("nulls-last"),
        }
    }
}

impl Codec for Direction {
    open spec fn valid(v: Direction) -> bool {
        true
    }

    open spec fn decoded(doc: JsonV) -> Result<Direction, CodecErrorV> {
        match doc.as_text(""@) {
            Err(e) => Err(e),
            Ok(s) => direction_of(s),
        }
    }

    open spec fn encoded(v: Direction) -> JsonV {
        JsonV::Text(direction_text(v))
    }

    fn deserialize(doc: &Json) -> (r: Result<Direction, CodecError>) {
        let s = doc.as_text("")?;
        Direction::parse(s.as_str())
    }

    fn serialize(&self) -> (doc: Json) {
        Json::Text(self.to_text())
    }

    proof fn decoded_is_valid(doc: JsonV) {
    }

    proof fn round_trip(v: Direction) {
        lemma_keys();
    }

    proof fn encoded_is_tidy(v: Direction) {
        broadcast use group_tidy;
    }
}

impl Codec for NullOrder {
    open spec fn valid(v: NullOrder) -> bool {
        true
    }

    open spec fn decoded(doc: JsonV) -> Result<NullOrder, CodecErrorV> {
        match doc.as_text(""@) {
            Err(e) => Err(e),
            Ok(s) => null_order_of(s),
        }
    }

    open spec fn encoded(v: NullOrder) -> JsonV {
        JsonV::Text(null_order_text(v))
    }

    fn deserialize(doc: &Json) -> (r: Result<NullOrder, CodecError>) {
        let s = doc.as_text("")?;
        NullOrder::parse(s.as_str())
    }

    fn serialize(&self) -> (doc: Json) {
        Json::Text(self.to_text())
    }

    proof fn decoded_is_valid(doc: JsonV) {
    }

    proof fn round_trip(v: NullOrder) {
        lemma_keys();
    }

    proof fn encoded_is_tidy(v: NullOrder) {
        broadcast use group_tidy;
    }
}

/// One field of a sort order.
#[derive(Clone, Copy, Debug, PartialEq, Eq)]
pub struct SortField {
    pub transform: Transform,
    pub source_id: i32,
    pub direction: Direction,
    pub null_order: NullOrder,
}

impl View for SortField {
    type V = SortField;

    open spec fn view(&self) -> SortField {
        *self
    }
}

impl Codec for SortField {
    open spec fn valid(v: SortField) -> bool {
        true
    }

    open spec fn decoded(doc: JsonV) -> Result<SortField, CodecErrorV> {
        if !(doc is Object) {
            Err(fail_bare(Fault::NotAnObject))
        } else {
            match decoded_at::<Transform>(doc, "transform"@) {
                Err(e) => Err(e),
                Ok(transform) => match doc.int_at("source-id"@) {
                    Err(e) => Err(e),
                    Ok(source_id) => match decoded_at::<Direction>(doc, "direction"@) {
                        Err(e) => Err(e),
                        Ok(direction) => match decoded_at::<NullOrder>(doc, "null-order"@) {
                            Err(e) => Err(e),
                            Ok(null_order) => Ok(
                                SortField { transform, source_id, direction, null_order },
                            ),
                        },
                    },
                },
            }
        }
    }

    open spec fn encoded(v: SortField) -> JsonV {
        JsonV::Object(
            Seq::empty().push(("transform"@, Transform::encoded(v.transform))).push(
                ("source-id"@, JsonV::Number(NumberV::Int(v.source_id as i64))),
            ).push(("direction"@, Direction::encoded(v.direction))).push(
                ("null-order"@, NullOrder::encoded(v.null_order)),
            ),
        )
    }

    fn deserialize(doc: &Json) -> (r: Result<SortField, CodecError>) {
        let _ = doc.as_entries()?;
        let transform = deserialize_at::<Transform>(doc, "transform")?;
        let source_id = doc.int_at("source-id")?;
        let direction = deserialize_at::<Direction>(doc, "direction")?;
        let null_order = deserialize_at::<NullOrder>(doc, "null-order")?;
        Ok(SortField { transform, source_id, direction, null_order })
    }

    fn serialize(&self) -> (doc: Json) {
        let mut entries = no_entries();
        put(&mut entries, "transform", self.transform.serialize());
        put(&mut entries, "source-id", Json::short(self.source_id));
        put(&mut entries, "direction", self.direction.serialize());
        put(&mut entries, "null-order", self.null_order.serialize());
        object(entries)
    }

    proof fn decoded_is_valid(doc: JsonV) {
    }

    proof fn round_trip(v: SortField) {
        broadcast use group_lookup;

        lemma_keys();
        Transform::round_trip(v.transform);
        Direction::round_trip(v.direction);
        NullOrder::round_trip(v.null_order);
    }

    proof fn encoded_is_tidy(v: SortField) {
        broadcast use group_tidy;

        Transform::encoded_is_tidy(v.transform);
        Direction::encoded_is_tidy(v.direction);
        NullOrder::encoded_is_tidy(v.null_order);
    }
}

/// A sort order: its id and its fields in order.
#[derive(Clone, Debug, PartialEq, Eq)]
pub struct SortOrders {
    pub order_id: i32,
    pub fields: Vec<SortField>,
}

/// The mathematical value of a [`SortOrders`].
pub ghost struct SortOrdersV {
    pub order_id: i32,
    pub fields: Seq<SortField>,
}

impl View for SortOrders {
    type V = SortOrdersV;

    open spec fn view(&self) -> SortOrdersV {
        SortOrdersV { order_id: self.order_id, fields: seq_view(self.fields@) }
    }
}

impl Codec for SortOrders {
    open spec fn valid(v: SortOrdersV) -> bool {
        valid_list::<SortField>(v.fields)
    }

    open spec fn decoded(doc: JsonV) -> Result<SortOrdersV, CodecErrorV> {
        if !(doc is Object) {
            Err(fail_bare(Fault::NotAnObject))
        } else {
            match doc.int_at("order-id"@) {
                Err(e) => Err(e),
                Ok(order_id) => match decoded_array_at::<SortField>(doc, "fields"@) {
                    Err(e) => Err(e),
                    Ok(fields) => Ok(SortOrdersV { order_id, fields }),
                },
            }
        }
    }

    open spec fn encoded(v: SortOrdersV) -> JsonV {
        JsonV::Object(
            Seq::empty().push(("order-id"@, JsonV::Number(NumberV::Int(v.order_id as i64)))).push(
                ("fields"@, JsonV::Array(encoded_list::<SortField>(v.fields))),
            ),
        )
    }

    fn deserialize(doc: &Json) -> (r: Result<SortOrders, CodecError>) {
        let _ = doc.as_entries()?;
        let order_id = doc.int_at("order-id")?;
        let fields = deserialize_array_at::<SortField>(doc, "fields")?;
        Ok(SortOrders { order_id, fields })
    }

    fn serialize(&self) -> (doc: Json) {
        let mut entries = no_entries();
        put(&mut entries, "order-id", Json::short(self.order_id));
        put(&mut entries, "fields", serialize_list::<SortField>(&self.fields));
        object(entries)
    }

    proof fn decoded_is_valid(doc: JsonV) {
        if doc is Object {
            if let Ok(v) = doc.required("fields"@) {
                if let Ok(items) = v.as_items("fields"@) {
                    lemma_decoded_list_valid::<SortField>(items);
                }
            }
        }
    }

    proof fn round_trip(v: SortOrdersV) {
        broadcast use group_lookup;

        lemma_keys();
        lemma_list_round_trip::<SortField>(v.fields);
    }

    proof fn encoded_is_tidy(v: SortOrdersV) {
        broadcast use group_tidy;

        lemma_list_tidy::<SortField>(v.fields);
    }
}

/// Any string but `asc` and `desc` is refused as outside the domain.
pub proof fn lemma_unknown_direction(s: Seq<char>)
    requires
        s != "asc"@,
        s != "desc"@,
    ensures
        direction_of(s) == Err::<Direction, CodecErrorV>(fail(Fault::UnknownDirection, s)),
        Fault::UnknownDirection.spec_kind() == ErrorKind::Domain,
{
}

/// Any string but `nulls-first` and `nulls-last` is refused as outside the
/// domain.
pub proof fn lemma_unknown_null_order(s: Seq<char>)
    requires
        s != "nulls-first"@,
        s != "nulls-last"@,
    ensures
        null_order_of(s) == Err::<NullOrder, CodecErrorV>(fail(Fault::UnknownNullOrder, s)),
        Fault::UnknownNullOrder.spec_kind() == ErrorKind::Domain,
{
}

} // verus!
