//! The type system of column schemas: primitive types, which a document
//! writes as strings, and structs, lists and maps, which it writes as
//! objects with a `type` tag.

use vstd::prelude::*;
use crate::codec::{
    decoded_array_opt, deserialize_array_opt, encoded_list_opt, lemma_list_round_trip,
    lemma_list_tidy, list_opt_view, serialize_list_opt, Codec,
};
use crate::error::{
    fail, fail_bare, option_view, result_view, seq_view, CodecError, CodecErrorV, ErrorKind, Fault,
};
use crate::json::{
    all_tidy, array, group_lookup, group_tidy, int_json, int_some, is_tidy, items_view,
    lemma_get_decreases, no_entries, object, push_some, put, put_some, text_json, text_some, Json,
    JsonV, NumberV,
};
use crate::text::{
    all_digits, bracket_form, bracketed, chars_of, digit_value, digits_end, has_prefix_at, is_space,
    lemma_bracketed, lemma_digits_end, lemma_digits_end_is, lemma_numeral, lemma_spaces_end,
    lemma_spaces_end_is, numeral, numeral_value, push_numeral, read_bracketed, read_numeral,
    same_text, skip_spaces, spaces_end, starts_with, starts_with_at, write_bracketed, Bracketed,
};

verus! {

/// A primitive type.
#[derive(Clone, Copy, Debug, PartialEq, Eq)]
pub enum PrimitiveType {
    Boolean,
    Int,
    Long,
    Float,
    Double,
    /// The precision is at least 1 and at most 38.
    Decimal { precision: u8, scale: u32 },
    Date,
    Time,
    Timestamp,
    Timestamptz,
    String,
    Uuid,
    Fixed(u32),
    Binary,
}

impl View for PrimitiveType {
    type V = PrimitiveType;

    open spec fn view(&self) -> PrimitiveType {
        *self
    }
}

/// What a string that starts with `fixed` decodes to.
pub open spec fn fixed_of(s: Seq<char>) -> Result<PrimitiveType, CodecErrorV> {
    match bracketed(s, "fixed"@) {
        None => Err(fail(Fault::FixedFormat, s)),
        Some(digits) => if numeral_value(digits) <= 0xffff_ffff {
            Ok(PrimitiveType::Fixed(numeral_value(digits) as u32))
        } else {
            Err(fail(Fault::FixedLength, s))
        },
    }
}

/// The two runs of digits of a string of the form `decimal(P,S)`, where
/// white space may stand on both sides of the comma; `None` for any other
/// string.
pub open spec fn decimal_parts(s: Seq<char>) -> Option<(Seq<char>, Seq<char>)> {
    let head = "decimal("@.len() as int;
    let mid = digits_end(s, head);
    let comma = spaces_end(s, mid);
    let tail = spaces_end(s, comma + 1);
    let end = digits_end(s, tail);
    if has_prefix_at(s, 0, "decimal("@) && head < mid && comma < s.len() && s[comma] == ',' && tail
        < end && end + 1 == s.len() && s[end] == ')' {
        Some((s.subrange(head, mid), s.subrange(tail, end)))
    } else {
        None
    }
}

/// The string `decimal(P` `,` `S)` with white space `a` before the comma
/// and `b` after it.
pub open spec fn decimal_form(
    precision: Seq<char>,
    a: Seq<char>,
    b: Seq<char>,
    scale: Seq<char>,
) -> Seq<char> {
    "decimal("@ + precision + a + seq![','] + b + scale + seq![')']
}

/// Whether every character is white space.
pub open spec fn all_spaces(s: Seq<char>) -> bool {
    forall|i: int| 0 <= i < s.len() ==> is_space(#[trigger] s[i])
}

/// No digit is white space, and neither is the comma.
pub proof fn lemma_classes(c: char)
    ensures
        digit_value(c) is Some ==> !is_space(c),
        c == ',' ==> !is_space(c) && digit_value(c) is None,
        c == ')' ==> digit_value(c) is None,
{
}

/// `decimal_parts` accepts every string of the form `decimal(P,S)` with
/// white space round the comma, and gives back the two runs of digits.
pub proof fn lemma_decimal_form(
    precision: Seq<char>,
    a: Seq<char>,
    b: Seq<char>,
    scale: Seq<char>,
)
    requires
        all_digits(precision),
        precision.len() > 0,
        all_digits(scale),
        scale.len() > 0,
        all_spaces(a),
        all_spaces(b),
    ensures
        decimal_parts(decimal_form(precision, a, b, scale)) == Some((precision, scale)),
{
    let s = decimal_form(precision, a, b, scale);
    let head = "decimal("@.len() as int;
    let mid = head + precision.len();
    let comma = mid + a.len();
    let tail = comma + 1 + b.len();
    let end = tail + scale.len();
    assert(s.len() == end + 1);
    assert(s.subrange(0, head) =~= "decimal("@);
    assert forall|i: int| head <= i < mid implies (#[trigger] digit_value(s[i])) is Some by {
        assert(s[i] == precision[i - head]);
    }
    assert forall|i: int| mid <= i < comma implies is_space(#[trigger] s[i]) by {
        assert(s[i] == a[i - mid]);
    }
    assert(s[comma] == ',');
    assert forall|i: int| comma + 1 <= i < tail implies is_space(#[trigger] s[i]) by {
        assert(s[i] == b[i - comma - 1]);
    }
    assert forall|i: int| tail <= i < end implies (#[trigger] digit_value(s[i])) is Some by {
        assert(s[i] == scale[i - tail]);
    }
    assert(s[end] == ')');
    assert(s[tail] == scale[0]);
    lemma_classes(s[tail]);
    lemma_classes(s[comma]);
    lemma_classes(s[end]);
    if a.len() > 0 {
        assert(s[mid] == a[0]);
    }
    assert(digit_value(s[mid]) is None) by {
        if a.len() > 0 {
            if digit_value(s[mid]) is Some {
                lemma_classes(s[mid]);
            }
        }
    }
    lemma_digits_end_is(s, head, mid);
    lemma_spaces_end_is(s, mid, comma);
    lemma_spaces_end_is(s, comma + 1, tail);
    lemma_digits_end_is(s, tail, end);
    assert(s.subrange(head, mid) =~= precision);
    assert(s.subrange(tail, end) =~= scale);
}

/// Whatever `decimal_parts` accepts has the form `decimal(P,S)` with white
/// space round the comma.
pub proof fn lemma_decimal_parts(s: Seq<char>)
    ensures
        decimal_parts(s) matches Some((precision, scale)) ==> all_digits(precision)
            && precision.len() > 0 && all_digits(scale) && scale.len() > 0 && exists|
            a: Seq<char>,
            b: Seq<char>,
        |
            all_spaces(a) && all_spaces(b) && s == #[trigger] decimal_form(precision, a, b, scale),
{
    if let Some((precision, scale)) = decimal_parts(s) {
        let head = "decimal("@.len() as int;
        let mid = digits_end(s, head);
        lemma_digits_end(s, head);
        let comma = spaces_end(s, mid);
        lemma_spaces_end(s, mid);
        lemma_spaces_run(s, mid);
        let tail = spaces_end(s, comma + 1);
        lemma_spaces_end(s, comma + 1);
        lemma_spaces_run(s, comma + 1);
        let end = digits_end(s, tail);
        lemma_digits_end(s, tail);
        let a = s.subrange(mid, comma);
        let b = s.subrange(comma + 1, tail);
        assert(s =~= decimal_form(precision, a, b, scale));
    }
}

/// The run that `spaces_end` finds holds white space only.
pub proof fn lemma_spaces_run(s: Seq<char>, from: int)
    requires
        0 <= from <= s.len(),
    ensures
        from <= spaces_end(s, from) <= s.len(),
        all_spaces(s.subrange(from, spaces_end(s, from))),
    decreases s.len() - from,
{
    if from < s.len() && is_space(s[from]) {
        lemma_spaces_run(s, from + 1);
        let e = spaces_end(s, from);
        let run = s.subrange(from, e);
        assert forall|i: int| 0 <= i < run.len() implies is_space(#[trigger] run[i]) by {
            if i > 0 {
                assert(run[i] == s.subrange(from + 1, e)[i - 1]);
            }
        }
    }
}

/// What a string that starts with `decimal` decodes to.
pub open spec fn decimal_of(s: Seq<char>) -> Result<PrimitiveType, CodecErrorV> {
    match decimal_parts(s) {
        None => Err(fail(Fault::DecimalFormat, s)),
        Some((precision, scale)) => if numeral_value(precision) > 255 {
            Err(fail(Fault::DecimalPrecision, s))
        } else if numeral_value(precision) < 1 || numeral_value(precision) > 38 {
            Err(fail(Fault::DecimalPrecisionOutOfRange, s))
        } else if numeral_value(scale) > 0xffff_ffff {
            Err(fail(Fault::DecimalScale, s))
        } else {
            Ok(
                PrimitiveType::Decimal {
                    precision: numeral_value(precision) as u8,
                    scale: numeral_value(scale) as u32,
                },
            )
        },
    }
}

/// The primitive type that a string names.
pub open spec fn primitive_of(s: Seq<char>) -> Result<PrimitiveType, CodecErrorV> {
    if has_prefix_at(s, 0, "fixed"@) {
        fixed_of(s)
    } else if has_prefix_at(s, 0, "decimal"@) {
        decimal_of(s)
    } else if s == "boolean"@ {
        Ok(PrimitiveType::Boolean)
    } else if s == "int"@ {
        Ok(PrimitiveType::Int)
    } else if s == "long"@ {
        Ok(PrimitiveType::Long)
    } else if s == "float"@ {
        Ok(PrimitiveType::Float)
    } else if s == "double"@ {
        Ok(PrimitiveType::Double)
    } else if s == "date"@ {
        Ok(PrimitiveType::Date)
    } else if s == "time"@ {
        Ok(PrimitiveType::Time)
    } else if s == "timestamp"@ {
        Ok(PrimitiveType::Timestamp)
    } else if s == "timestamptz"@ {
        Ok(PrimitiveType::Timestamptz)
    } else if s == "string"@ {
        Ok(PrimitiveType::String)
    } else if s == "uuid"@ {
        Ok(PrimitiveType::Uuid)
    } else if s == "binary"@ {
        Ok(PrimitiveType::Binary)
    } else {
        Err(fail(Fault::UnknownPrimitiveType, s))
    }
}

/// The string that names a primitive type: `decimal(P, S)` with one space
/// after the comma, `fixed[N]` without any.
pub open spec fn primitive_text(p: PrimitiveType) -> Seq<char> {
    match p {
        PrimitiveType::Boolean => "boolean"@,
        PrimitiveType::Int => "int"@,
        PrimitiveType::Long => "long"@,
        PrimitiveType::Float => "float"@,
        PrimitiveType::Double => "double"@,
        PrimitiveType::Decimal { precision, scale } => decimal_form(
            numeral(precision as nat),
            Seq::empty(),
            seq![' '],
            numeral(scale as nat),
        ),
        PrimitiveType::Date => "date"@,
        PrimitiveType::Time => "time"@,
        PrimitiveType::Timestamp => "timestamp"@,
        PrimitiveType::Timestamptz => "timestamptz"@,
        PrimitiveType::String => "string"@,
        PrimitiveType::Uuid => "uuid"@,
        PrimitiveType::Fixed(n) => bracket_form("fixed"@, numeral(n as nat)),
        PrimitiveType::Binary => "binary"@,
    }
}

/// Whether a primitive type is one that a document can hold: the
/// precision of a decimal is at least 1 and at most 38.
pub open spec fn primitive_valid(p: PrimitiveType) -> bool {
    match p {
        PrimitiveType::Decimal { precision, scale } => 1 <= precision <= 38,
        _ => true,
    }
}

/// The names of the primitive types: their lengths and as much of their
/// characters as tells them apart.
proof fn lemma_names()
    ensures
        "fixed"@.len() == 5,
        "fixed"@[0] == 'f',
        "fixed"@[1] == 'i',
        "decimal"@ == seq!['d', 'e', 'c', 'i', 'm', 'a', 'l'],
        "decimal("@ == seq!['d', 'e', 'c', 'i', 'm', 'a', 'l', '('],
        "boolean"@.len() == 7,
        "boolean"@[0] == 'b',
        "int"@.len() == 3,
        "long"@.len() == 4,
        "long"@[0] == 'l',
        "float"@.len() == 5,
        "float"@[1] == 'l',
        "double"@.len() == 6,
        "double"@[0] == 'd',
        "date"@.len() == 4,
        "date"@[0] == 'd',
        "time"@.len() == 4,
        "time"@[0] == 't',
        "timestamp"@.len() == 9,
        "timestamp"@[0] == 't',
        "timestamptz"@.len() == 11,
        "timestamptz"@[0] == 't',
        "string"@.len() == 6,
        "string"@[0] == 's',
        "uuid"@.len() == 4,
        "uuid"@[0] == 'u',
        "binary"@.len() == 6,
        "binary"@[0] == 'b',
{
    reveal_strlit("fixed");
    reveal_strlit("decimal");
    reveal_strlit("decimal(");
    reveal_strlit("boolean");
    reveal_strlit("int");
    reveal_strlit("long");
    reveal_strlit("float");
    reveal_strlit("double");
    reveal_strlit("date");
    reveal_strlit("time");
    reveal_strlit("timestamp");
    reveal_strlit("timestamptz");
    reveal_strlit("string");
    reveal_strlit("uuid");
    reveal_strlit("binary");
    assert("decimal"@ =~= seq!['d', 'e', 'c', 'i', 'm', 'a', 'l']);
    assert("decimal("@ =~= seq!['d', 'e', 'c', 'i', 'm', 'a', 'l', '(']);
}

/// Reading the name of a valid primitive type gives the type back.
pub proof fn lemma_primitive_text(p: PrimitiveType)
    requires
        primitive_valid(p),
    ensures
        primitive_of(primitive_text(p)) == Ok::<PrimitiveType, CodecErrorV>(p),
{
    lemma_names();
    let s = primitive_text(p);
    match p {
        PrimitiveType::Fixed(n) => {
            lemma_numeral(n as nat);
            lemma_bracketed(s, "fixed"@, numeral(n as nat));
            assert(s.subrange(0, 5) =~= "fixed"@);
        },
        PrimitiveType::Decimal { precision, scale } => {
            lemma_numeral(precision as nat);
            lemma_numeral(scale as nat);
            assert(all_spaces(Seq::<char>::empty()));
            assert(all_spaces(seq![' ']));
            lemma_decimal_form(
                numeral(precision as nat),
                Seq::empty(),
                seq![' '],
                numeral(scale as nat),
            );
            assert(s.subrange(0, 7) =~= "decimal"@);
            assert(s[0] == 'd');
            if has_prefix_at(s, 0, "fixed"@) {
                assert(s.subrange(0, 5)[0] == 'f');
            }
        },
        _ => {
            if has_prefix_at(s, 0, "fixed"@) {
                assert(s.subrange(0, 5)[0] == 'f');
                assert(s.subrange(0, 5)[1] == 'i');
            }
            if has_prefix_at(s, 0, "decimal"@) {
                assert(s.subrange(0, 7)[0] == 'd');
            }
        },
    }
}

/// Decodes a string of the form `fixed[N]`.
pub fn try_deserialize_fixed_type(value: &str) -> (r: Result<PrimitiveType, CodecError>)
    ensures
        result_view(r) == fixed_of(value@),
{
    match read_bracketed(value, "fixed") {
        Bracketed::Mismatch => Err(CodecError::new(Fault::FixedFormat, value)),
        Bracketed::TooLarge => Err(CodecError::new(Fault::FixedLength, value)),
        Bracketed::Value(n) => Ok(PrimitiveType::Fixed(n)),
    }
}

/// Decodes a string of the form `decimal(P, S)`.
pub fn try_deserialize_decimal_type(value: &str) -> (r: Result<PrimitiveType, CodecError>)
    ensures
        result_view(r) == decimal_of(value@),
{
    let chars = chars_of(value);
    let head = "decimal(".unicode_len();
    if !starts_with_at(&chars, 0, "decimal(") {
        return Err(CodecError::new(Fault::DecimalFormat, value));
    }
    let precision = read_numeral(&chars, head, 255);
    proof {
        lemma_digits_end(chars@, head as int);
    }
    let mid = precision.end;
    if mid == head {
        return Err(CodecError::new(Fault::DecimalFormat, value));
    }
    let comma = skip_spaces(&chars, mid);
    if comma >= chars.len() || chars[comma] != ',' {
        return Err(CodecError::new(Fault::DecimalFormat, value));
    }
    let tail = skip_spaces(&chars, comma + 1);
    let scale = read_numeral(&chars, tail, 0xffff_ffff);
    proof {
        lemma_digits_end(chars@, tail as int);
    }
    let end = scale.end;
    if end == tail || end >= chars.len() || chars[end] != ')' || end + 1 != chars.len() {
        return Err(CodecError::new(Fault::DecimalFormat, value));
    }
    match precision.value {
        None => Err(CodecError::new(Fault::DecimalPrecision, value)),
        Some(p) => {
            if p < 1 || p > 38 {
                Err(CodecError::new(Fault::DecimalPrecisionOutOfRange, value))
            } else {
                match scale.value {
                    None => Err(CodecError::new(Fault::DecimalScale, value)),
                    Some(s) => Ok(PrimitiveType::Decimal { precision: p as u8, scale: s as u32 }),
                }
            }
        },
    }
}

impl PrimitiveType {
    /// The primitive type that a string names.
    pub fn parse(value: &str) -> (r: Result<PrimitiveType, CodecError>)
        ensures
            result_view(r) == primitive_of(value@),
    {
        if starts_with(value, "fixed") {
            try_deserialize_fixed_type(value)
        } else if starts_with(value, "decimal") {
            try_deserialize_decimal_type(value)
        } else if same_text(value, "boolean") {
            Ok(PrimitiveType::Boolean)
        } else if same_text(value, "int") {
            Ok(PrimitiveType::Int)
        } else if same_text(value, "long") {
            Ok(PrimitiveType::Long)
        } else if same_text(value, "float") {
            Ok(PrimitiveType::Float)
        } else if same_text(value, "double") {
            Ok(PrimitiveType::Double)
        } else if same_text(value, "date") {
            Ok(PrimitiveType::Date)
        } else if same_text(value, "time") {
            Ok(PrimitiveType::Time)
        } else if same_text(value, "timestamp") {
            Ok(PrimitiveType::Timestamp)
        } else if same_text(value, "timestamptz") {
            Ok(PrimitiveType::Timestamptz)
        } else if same_text(value, "string") {
            Ok(PrimitiveType::String)
        } else if same_text(value, "uuid") {
            Ok(PrimitiveType::Uuid)
        } else if same_text(value, "binary") {
            Ok(PrimitiveType::Binary)
        } else {
            Err(CodecError::new(Fault::UnknownPrimitiveType, value))
        }
    }

    /// The string that names the type.
    pub fn to_text(&self) -> (r: String)
        ensures
            r@ == primitive_text(*self),
    {
        match self {
            PrimitiveType::Boolean => String::from_str("boolean"),
            PrimitiveType::Int => String::from_str("int"),
            PrimitiveType::Long => String::from_str("long"),
            PrimitiveType::Float => String::from_str("float"),
            PrimitiveType::Double => String::from_str("double"),
            PrimitiveType::Decimal { precision, scale } => {
                proof {
                    reveal_strlit(", ");
                    reveal_strlit(")");
                }
                let mut out = String::from_str("decimal(");
                push_numeral(&mut out, *precision as u64);
                out.append(", ");
                push_numeral(&mut out, *scale as u64);
                out.append(")");
                assert(out@ =~= primitive_text(*self));
                out
            },
            PrimitiveType::Date => String::from_str("date"),
            PrimitiveType::Time => String::from_str("time"),
            PrimitiveType::Timestamp => String::from_str("timestamp"),
            PrimitiveType::Timestamptz => String::from_str("timestamptz"),
            PrimitiveType::String => String::from_str("string"),
            PrimitiveType::Uuid => String::from_str("uuid"),
            PrimitiveType::Fixed(n) => write_bracketed("fixed", *n),
            PrimitiveType::Binary => String::from_str("binary"),
        }
    }
}

impl Codec for PrimitiveType {
    open spec fn valid(v: PrimitiveType) -> bool {
        primitive_valid(v)
    }

    open spec fn decoded(doc: JsonV) -> Result<PrimitiveType, CodecErrorV> {
        match doc.as_text(""@) {
            Err(e) => Err(e),
            Ok(s) => primitive_of(s),
        }
    }

    open spec fn encoded(v: PrimitiveType) -> JsonV {
        JsonV::Text(primitive_text(v))
    }

    fn deserialize(doc: &Json) -> (r: Result<PrimitiveType, CodecError>) {
        let s = doc.as_text("")?;
        PrimitiveType::parse(s.as_str())
    }

    fn serialize(&self) -> (doc: Json) {
        Json::Text(self.to_text())
    }

    proof fn decoded_is_valid(doc: JsonV) {
    }

    proof fn round_trip(v: PrimitiveType) {
        lemma_primitive_text(v);
    }

    proof fn encoded_is_tidy(v: PrimitiveType) {
        broadcast use group_tidy;
    }
}

/// A type of a column or of a part of one.
#[derive(Debug, PartialEq, Eq)]
pub enum IcebergType {
    Primitive(PrimitiveType),
    Struct(StructType),
    List(ListType),
    /// A map type.
    Mapping(MapType),
}

/// A struct type: its fields, in the order in which they are written.
#[derive(Debug, PartialEq, Eq)]
pub struct StructType {
    pub fields: Vec<StructField>,
}

/// A field of a struct type. The two defaults are encoded values that are
/// carried as text and never read.
#[derive(Debug, PartialEq, Eq)]
pub struct StructField {
    pub id: i32,
    pub name: String,
    pub required: bool,
    pub field_type: IcebergType,
    pub doc: Option<String>,
    pub initial_default: Option<String>,
    pub write_default: Option<String>,
}

/// A list type.
#[derive(Debug, PartialEq, Eq)]
pub struct ListType {
    pub element_id: i32,
    pub element_required: bool,
    pub element: Box<IcebergType>,
}

/// A map type.
#[derive(Debug, PartialEq, Eq)]
pub struct MapType {
    pub key_id: i32,
    pub key: Box<IcebergType>,
    pub value_id: i32,
    pub value_required: bool,
    pub value: Box<IcebergType>,
}

/// The mathematical value of an [`IcebergType`].
pub ghost enum IcebergTypeV {
    Primitive(PrimitiveType),
    Struct(StructTypeV),
    List(ListTypeV),
    Mapping(MapTypeV),
}

/// The mathematical value of a [`StructType`].
pub ghost struct StructTypeV {
    pub fields: Seq<StructFieldV>,
}

/// The mathematical value of a [`StructField`].
pub ghost struct StructFieldV {
    pub id: i32,
    pub name: Seq<char>,
    pub required: bool,
    pub field_type: IcebergTypeV,
    pub doc: Option<Seq<char>>,
    pub initial_default: Option<Seq<char>>,
    pub write_default: Option<Seq<char>>,
}

/// The mathematical value of a [`ListType`].
pub ghost struct ListTypeV {
    pub element_id: i32,
    pub element_required: bool,
    pub element: Box<IcebergTypeV>,
}

/// The mathematical value of a [`MapType`].
pub ghost struct MapTypeV {
    pub key_id: i32,
    pub key: Box<IcebergTypeV>,
    pub value_id: i32,
    pub value_required: bool,
    pub value: Box<IcebergTypeV>,
}

/// The mathematical value of a type.
pub open spec fn type_view(t: IcebergType) -> IcebergTypeV
    decreases t,
{
    match t {
        IcebergType::Primitive(p) => IcebergTypeV::Primitive(p),
        IcebergType::Struct(s) => IcebergTypeV::Struct(struct_view(s)),
        IcebergType::List(l) => IcebergTypeV::List(
            ListTypeV {
                element_id: l.element_id,
                element_required: l.element_required,
                element: Box::new(type_view(*l.element)),
            },
        ),
        IcebergType::Mapping(m) => IcebergTypeV::Mapping(
            MapTypeV {
                key_id: m.key_id,
                key: Box::new(type_view(*m.key)),
                value_id: m.value_id,
                value_required: m.value_required,
                value: Box::new(type_view(*m.value)),
            },
        ),
    }
}

/// The mathematical value of a struct type.
pub open spec fn struct_view(s: StructType) -> StructTypeV
    decreases s,
{
    StructTypeV {
        fields: Seq::new(
            s.fields.len() as nat,
            |i: int|
                if 0 <= i < s.fields.len() {
                    field_view(s.fields[i])
                } else {
                    arbitrary()
                },
        ),
    }
}

/// The mathematical value of a field.
pub open spec fn field_view(f: StructField) -> StructFieldV
    decreases f,
{
    StructFieldV {
        id: f.id,
        name: f.name@,
        required: f.required,
        field_type: type_view(f.field_type),
        doc: option_view(f.doc),
        initial_default: option_view(f.initial_default),
        write_default: option_view(f.write_default),
    }
}

impl View for IcebergType {
    type V = IcebergTypeV;

    open spec fn view(&self) -> IcebergTypeV {
        type_view(*self)
    }
}

impl View for StructType {
    type V = StructTypeV;

    open spec fn view(&self) -> StructTypeV {
        struct_view(*self)
    }
}

impl View for StructField {
    type V = StructFieldV;

    open spec fn view(&self) -> StructFieldV {
        field_view(*self)
    }
}

impl View for ListType {
    type V = ListTypeV;

    open spec fn view(&self) -> ListTypeV {
        ListTypeV {
            element_id: self.element_id,
            element_required: self.element_required,
            element: Box::new(type_view(*self.element)),
        }
    }
}

impl View for MapType {
    type V = MapTypeV;

    open spec fn view(&self) -> MapTypeV {
        MapTypeV {
            key_id: self.key_id,
            key: Box::new(type_view(*self.key)),
            value_id: self.value_id,
            value_required: self.value_required,
            value: Box::new(type_view(*self.value)),
        }
    }
}

/// The view of a struct type holds the views of its fields.
pub proof fn lemma_struct_view(s: StructType)
    ensures
        s@.fields == seq_view(s.fields@),
{
    assert(s@.fields =~= seq_view(s.fields@));
}

/// Whether a type is one that a document can hold: its decimals have a
/// precision of at least 1 and at most 38.
pub open spec fn type_valid(v: IcebergTypeV) -> bool
    decreases v,
{
    match v {
        IcebergTypeV::Primitive(p) => primitive_valid(p),
        IcebergTypeV::Struct(s) => struct_valid(s),
        IcebergTypeV::List(l) => type_valid(*l.element),
        IcebergTypeV::Mapping(m) => type_valid(*m.key) && type_valid(*m.value),
    }
}

/// Whether the types of all fields are valid.
pub open spec fn struct_valid(s: StructTypeV) -> bool
    decreases s,
{
    forall|i: int| 0 <= i < s.fields.len() ==> type_valid((#[trigger] s.fields[i]).field_type)
}

/// What decoding a tree as a type gives: a string names a primitive type,
/// an object is dispatched on its `type`.
pub open spec fn type_decoded(doc: JsonV) -> Result<IcebergTypeV, CodecErrorV>
    decreases doc, 1nat,
{
    match doc {
        JsonV::Text(s) => match primitive_of(s) {
            Err(e) => Err(e),
            Ok(p) => Ok(IcebergTypeV::Primitive(p)),
        },
        JsonV::Object(_) => match doc.text_at("type"@) {
            Err(e) => Err(e),
            Ok(tag) => if tag == "struct"@ {
                match struct_decoded(doc) {
                    Err(e) => Err(e),
                    Ok(s) => Ok(IcebergTypeV::Struct(s)),
                }
            } else if tag == "list"@ {
                match list_decoded(doc) {
                    Err(e) => Err(e),
                    Ok(l) => Ok(IcebergTypeV::List(l)),
                }
            } else if tag == "map"@ {
                match map_decoded(doc) {
                    Err(e) => Err(e),
                    Ok(m) => Ok(IcebergTypeV::Mapping(m)),
                }
            } else {
                Err(fail(Fault::UnknownTypeTag, tag))
            },
        },
        _ => Err(fail_bare(Fault::NotAType)),
    }
}

/// What decoding an object as a struct type gives. The `type` of the
/// object is not read here.
pub open spec fn struct_decoded(doc: JsonV) -> Result<StructTypeV, CodecErrorV>
    decreases doc, 0nat,
{
    if !(doc is Object) {
        Err(fail_bare(Fault::NotAnObject))
    } else {
        match doc.items_at("fields"@) {
            Err(e) => Err(e),
            Ok(items) => {
                proof {
                    lemma_get_decreases(doc, "fields"@);
                }
                match fields_decoded(items) {
                    Err(e) => Err(e),
                    Ok(fields) => Ok(StructTypeV { fields }),
                }
            },
        }
    }
}

/// What decoding the items of an array as fields gives: the fields in
/// order, or the error of the first item that has one.
pub open spec fn fields_decoded(items: Seq<JsonV>) -> Result<Seq<StructFieldV>, CodecErrorV>
    decreases items, 0nat,
{
    if items.len() == 0 {
        Ok(Seq::empty())
    } else {
        match fields_decoded(items.drop_last()) {
            Err(e) => Err(e),
            Ok(front) => match field_decoded(items.last()) {
                Err(e) => Err(e),
                Ok(f) => Ok(front.push(f)),
            },
        }
    }
}

/// What decoding an object as a field gives.
pub open spec fn field_decoded(doc: JsonV) -> Result<StructFieldV, CodecErrorV>
    decreases doc, 0nat,
{
    if !(doc is Object) {
        Err(fail_bare(Fault::NotAnObject))
    } else {
        match doc.int_at("id"@) {
            Err(e) => Err(e),
            Ok(id) => match doc.text_at("name"@) {
                Err(e) => Err(e),
                Ok(name) => match doc.flag_at("required"@) {
                    Err(e) => Err(e),
                    Ok(required) => match doc.required("type"@) {
                        Err(e) => Err(e),
                        Ok(t) => {
                            proof {
                                lemma_get_decreases(doc, "type"@);
                            }
                            match type_decoded(t) {
                                Err(e) => Err(e),
                                Ok(field_type) => match doc.text_opt("doc"@) {
                                    Err(e) => Err(e),
                                    Ok(doc_text) => match doc.text_opt("initial-default"@) {
                                        Err(e) => Err(e),
                                        Ok(initial_default) => match doc.text_opt(
                                            "write-default"@,
                                        ) {
                                            Err(e) => Err(e),
                                            Ok(write_default) => Ok(
                                                StructFieldV {
                                                    id,
                                                    name,
                                                    required,
                                                    field_type,
                                                    doc: doc_text,
                                                    initial_default,
                                                    write_default,
                                                },
                                            ),
                                        },
                                    },
                                },
                            }
                        },
                    },
                },
            },
        }
    }
}

/// What decoding an object as a list type gives.
pub open spec fn list_decoded(doc: JsonV) -> Result<ListTypeV, CodecErrorV>
    decreases doc, 0nat,
{
    if !(doc is Object) {
        Err(fail_bare(Fault::NotAnObject))
    } else {
        match doc.int_at("element-id"@) {
            Err(e) => Err(e),
            Ok(element_id) => match doc.flag_at("element-required"@) {
                Err(e) => Err(e),
                Ok(element_required) => match doc.required("element"@) {
                    Err(e) => Err(e),
                    Ok(t) => {
                        proof {
                            lemma_get_decreases(doc, "element"@);
                        }
                        match type_decoded(t) {
                            Err(e) => Err(e),
                            Ok(element) => Ok(
                                ListTypeV {
                                    element_id,
                                    element_required,
                                    element: Box::new(element),
                                },
                            ),
                        }
                    },
                },
            },
        }
    }
}

/// What decoding an object as a map type gives.
pub open spec fn map_decoded(doc: JsonV) -> Result<MapTypeV, CodecErrorV>
    decreases doc, 0nat,
{
    if !(doc is Object) {
        Err(fail_bare(Fault::NotAnObject))
    } else {
        match doc.int_at("key-id"@) {
            Err(e) => Err(e),
            Ok(key_id) => match doc.required("key"@) {
                Err(e) => Err(e),
                Ok(k) => {
                    proof {
                        lemma_get_decreases(doc, "key"@);
                    }
                    match type_decoded(k) {
                        Err(e) => Err(e),
                        Ok(key) => match doc.int_at("value-id"@) {
                            Err(e) => Err(e),
                            Ok(value_id) => match doc.flag_at("value-required"@) {
                                Err(e) => Err(e),
                                Ok(value_required) => match doc.required("value"@) {
                                    Err(e) => Err(e),
                                    Ok(v) => {
                                        proof {
                                            lemma_get_decreases(doc, "value"@);
                                        }
                                        match type_decoded(v) {
                                            Err(e) => Err(e),
                                            Ok(value) => Ok(
                                                MapTypeV {
                                                    key_id,
                                                    key: Box::new(key),
                                                    value_id,
                                                    value_required,
                                                    value: Box::new(value),
                                                },
                                            ),
                                        }
                                    },
                                },
                            },
                        },
                    }
                },
            },
        }
    }
}

/// The tree that encodes a type: a string for a primitive type, an object
/// with its `type` for the others.
pub open spec fn type_encoded(v: IcebergTypeV) -> JsonV
    decreases v, 1nat,
{
    match v {
        IcebergTypeV::Primitive(p) => JsonV::Text(primitive_text(p)),
        IcebergTypeV::Struct(s) => struct_encoded(s),
        IcebergTypeV::List(l) => list_encoded(l),
        IcebergTypeV::Mapping(m) => map_encoded(m),
    }
}

/// The tree that encodes a struct type.
pub open spec fn struct_encoded(s: StructTypeV) -> JsonV
    decreases s, 0nat,
{
    JsonV::Object(
        Seq::empty().push(("type"@, JsonV::Text("struct"@))).push(
            ("fields"@, JsonV::Array(fields_encoded(s.fields))),
        ),
    )
}

/// The trees that encode the fields of a struct type.
pub open spec fn fields_encoded(fields: Seq<StructFieldV>) -> Seq<JsonV>
    decreases fields, 0nat,
{
    Seq::new(
        fields.len(),
        |i: int|
            if 0 <= i < fields.len() {
                field_encoded(fields[i])
            } else {
                JsonV::Null
            },
    )
}

/// The tree that encodes a field. Of the three optional keys only those
/// with a value are written.
pub open spec fn field_encoded(f: StructFieldV) -> JsonV
    decreases f, 0nat,
{
    JsonV::Object(
        push_some(
            push_some(
                push_some(
                    Seq::empty().push(("id"@, JsonV::Number(NumberV::Int(f.id as i64)))).push(
                        ("name"@, JsonV::Text(f.name)),
                    ).push(("required"@, JsonV::Bool(f.required))).push(
                        ("type"@, type_encoded(f.field_type)),
                    ),
                    "doc"@,
                    text_some(f.doc),
                ),
                "initial-default"@,
                text_some(f.initial_default),
            ),
            "write-default"@,
            text_some(f.write_default),
        ),
    )
}

/// The tree that encodes a list type.
pub open spec fn list_encoded(l: ListTypeV) -> JsonV
    decreases l, 0nat,
{
    JsonV::Object(
        Seq::empty().push(("type"@, JsonV::Text("list"@))).push(
            ("element-id"@, JsonV::Number(NumberV::Int(l.element_id as i64))),
        ).push(("element-required"@, JsonV::Bool(l.element_required))).push(
            ("element"@, type_encoded(*l.element)),
        ),
    )
}

/// The tree that encodes a map type.
pub open spec fn map_encoded(m: MapTypeV) -> JsonV
    decreases m, 0nat,
{
    JsonV::Object(
        Seq::empty().push(("type"@, JsonV::Text("map"@))).push(
            ("key-id"@, JsonV::Number(NumberV::Int(m.key_id as i64))),
        ).push(("key"@, type_encoded(*m.key))).push(
            ("value-id"@, JsonV::Number(NumberV::Int(m.value_id as i64))),
        ).push(("value-required"@, JsonV::Bool(m.value_required))).push(
            ("value"@, type_encoded(*m.value)),
        ),
    )
}

/// An error among the first items of a list of fields is the error of the
/// list.
pub proof fn lemma_fields_error_stays(items: Seq<JsonV>, n: int)
    requires
        0 <= n <= items.len(),
    ensures
        fields_decoded(items.subrange(0, n)) matches Err(e) ==> fields_decoded(items) == Err::<
            Seq<StructFieldV>,
            CodecErrorV,
        >(e),
    decreases items.len() - n,
{
    if n < items.len() {
        let part = items.subrange(0, n + 1);
        assert(part.drop_last() =~= items.subrange(0, n));
        lemma_fields_error_stays(items, n + 1);
    } else {
        assert(items.subrange(0, n) =~= items);
    }
}

/// Decodes a tree as a type.
pub fn decode_type(doc: &Json) -> (r: Result<IcebergType, CodecError>)
    ensures
        result_view(r) == type_decoded(doc@),
    decreases doc@, 1nat,
{
    match doc {
        Json::Text(s) => {
            let p = PrimitiveType::parse(s.as_str())?;
            Ok(IcebergType::Primitive(p))
        },
        Json::Object(_) => {
            let tag = doc.text_at("type")?;
            if same_text(tag.as_str(), "struct") {
                let s = decode_struct(doc)?;
                Ok(IcebergType::Struct(s))
            } else if same_text(tag.as_str(), "list") {
                let l = decode_list(doc)?;
                Ok(IcebergType::List(l))
            } else if same_text(tag.as_str(), "map") {
                let m = decode_map(doc)?;
                Ok(IcebergType::Mapping(m))
            } else {
                Err(CodecError::new(Fault::UnknownTypeTag, tag.as_str()))
            }
        },
        _ => Err(CodecError::bare(Fault::NotAType)),
    }
}

/// Decodes an object as a struct type.
#[verifier::loop_isolation(false)]
pub fn decode_struct(doc: &Json) -> (r: Result<StructType, CodecError>)
    ensures
        result_view(r) == struct_decoded(doc@),
    decreases doc@, 0nat,
{
    let _ = doc.as_entries()?;
    let items = doc.items_at("fields")?;
    let ghost all = items_view(items@);
    proof {
        lemma_get_decreases(doc@, "fields"@);
    }
    let mut out: Vec<StructField> = Vec::new();
    let mut i: usize = 0;
    assert(all.subrange(0, 0) =~= Seq::<JsonV>::empty());
    assert(seq_view(out@) =~= Seq::<StructFieldV>::empty());
    while i < items.len()
        invariant
            i <= items.len(),
            fields_decoded(all.subrange(0, i as int)) == Ok::<Seq<StructFieldV>, CodecErrorV>(
                seq_view(out@),
            ),
        decreases items.len() - i,
    {
        proof {
            let part = all.subrange(0, i + 1);
            assert(part.drop_last() =~= all.subrange(0, i as int));
            assert(part.last() == items[i as int]@);
            lemma_fields_error_stays(all, i + 1);
            assert(all[i as int] == items[i as int]@);
        }
        match decode_field(&items[i]) {
            Err(e) => {
                return Err(e);
            },
            Ok(f) => {
                let ghost before = seq_view(out@);
                out.push(f);
                assert(seq_view(out@) =~= before.push(f@));
            },
        }
        i += 1;
    }
    assert(all.subrange(0, i as int) =~= all);
    let s = StructType { fields: out };
    proof {
        lemma_struct_view(s);
    }
    Ok(s)
}

/// Decodes an object as a field of a struct type.
pub fn decode_field(doc: &Json) -> (r: Result<StructField, CodecError>)
    ensures
        result_view(r) == field_decoded(doc@),
    decreases doc@, 0nat,
{
    let _ = doc.as_entries()?;
    let id = doc.int_at("id")?;
    let name = doc.text_at("name")?;
    let required = doc.flag_at("required")?;
    let t = doc.required("type")?;
    proof {
        lemma_get_decreases(doc@, "type"@);
    }
    let field_type = decode_type(t)?;
    let doc_text = doc.text_opt("doc")?;
    let initial_default = doc.text_opt("initial-default")?;
    let write_default = doc.text_opt("write-default")?;
    Ok(
        StructField {
            id,
            name,
            required,
            field_type,
            doc: doc_text,
            initial_default,
            write_default,
        },
    )
}

/// Decodes an object as a list type.
pub fn decode_list(doc: &Json) -> (r: Result<ListType, CodecError>)
    ensures
        result_view(r) == list_decoded(doc@),
    decreases doc@, 0nat,
{
    let _ = doc.as_entries()?;
    let element_id = doc.int_at("element-id")?;
    let element_required = doc.flag_at("element-required")?;
    let t = doc.required("element")?;
    proof {
        lemma_get_decreases(doc@, "element"@);
    }
    let element = decode_type(t)?;
    Ok(ListType { element_id, element_required, element: Box::new(element) })
}

/// Decodes an object as a map type.
pub fn decode_map(doc: &Json) -> (r: Result<MapType, CodecError>)
    ensures
        result_view(r) == map_decoded(doc@),
    decreases doc@, 0nat,
{
    let _ = doc.as_entries()?;
    let key_id = doc.int_at("key-id")?;
    let k = doc.required("key")?;
    proof {
        lemma_get_decreases(doc@, "key"@);
    }
    let key = decode_type(k)?;
    let value_id = doc.int_at("value-id")?;
    let value_required = doc.flag_at("value-required")?;
    let v = doc.required("value")?;
    proof {
        lemma_get_decreases(doc@, "value"@);
    }
    let value = decode_type(v)?;
    Ok(MapType { key_id, key: Box::new(key), value_id, value_required, value: Box::new(value) })
}

/// Encodes a type.
pub fn encode_type(t: &IcebergType) -> (doc: Json)
    ensures
        doc@ == type_encoded(t@),
    decreases t, 1nat,
{
    match t {
        IcebergType::Primitive(p) => Json::Text(p.to_text()),
        IcebergType::Struct(s) => encode_struct(s),
        IcebergType::List(l) => encode_list(l),
        IcebergType::Mapping(m) => encode_map(m),
    }
}

/// Encodes the fields of a struct type.
#[verifier::loop_isolation(false)]
pub fn encode_fields(s: &StructType) -> (doc: Json)
    ensures
        doc@ == JsonV::Array(fields_encoded(s@.fields)),
    decreases s, 0nat,
{
    let mut out: Vec<Json> = Vec::new();
    let mut i: usize = 0;
    proof {
        lemma_struct_view(*s);
    }
    while i < s.fields.len()
        invariant
            i <= s.fields.len(),
            out.len() == i,
            forall|k: int| 0 <= k < i ==> (#[trigger] out[k])@ == field_encoded(s.fields[k]@),
        decreases s.fields.len() - i,
    {
        out.push(encode_field(&s.fields[i]));
        i += 1;
    }
    assert(items_view(out@) =~= fields_encoded(s@.fields));
    array(out)
}

/// Encodes a struct type.
pub fn encode_struct(s: &StructType) -> (doc: Json)
    ensures
        doc@ == struct_encoded(s@),
    decreases s, 1nat,
{
    let mut entries = no_entries();
    put(&mut entries, "type", Json::text("struct"));
    put(&mut entries, "fields", encode_fields(s));
    object(entries)
}

/// Encodes a field of a struct type.
pub fn encode_field(f: &StructField) -> (doc: Json)
    ensures
        doc@ == field_encoded(f@),
    decreases f, 0nat,
{
    let mut entries = no_entries();
    put(&mut entries, "id", Json::short(f.id));
    put(&mut entries, "name", Json::Text(f.name.clone()));
    put(&mut entries, "required", Json::flag(f.required));
    put(&mut entries, "type", encode_type(&f.field_type));
    put_some(&mut entries, "doc", text_json(&f.doc));
    put_some(&mut entries, "initial-default", text_json(&f.initial_default));
    put_some(&mut entries, "write-default", text_json(&f.write_default));
    object(entries)
}

/// Encodes a list type.
pub fn encode_list(l: &ListType) -> (doc: Json)
    ensures
        doc@ == list_encoded(l@),
    decreases l, 0nat,
{
    let mut entries = no_entries();
    put(&mut entries, "type", Json::text("list"));
    put(&mut entries, "element-id", Json::short(l.element_id));
    put(&mut entries, "element-required", Json::flag(l.element_required));
    put(&mut entries, "element", encode_type(&*l.element));
    object(entries)
}

/// Encodes a map type.
pub fn encode_map(m: &MapType) -> (doc: Json)
    ensures
        doc@ == map_encoded(m@),
    decreases m, 0nat,
{
    let mut entries = no_entries();
    put(&mut entries, "type", Json::text("map"));
    put(&mut entries, "key-id", Json::short(m.key_id));
    put(&mut entries, "key", encode_type(&*m.key));
    put(&mut entries, "value-id", Json::short(m.value_id));
    put(&mut entries, "value-required", Json::flag(m.value_required));
    put(&mut entries, "value", encode_type(&*m.value));
    object(entries)
}

/// The keys and tags of this file: their lengths and as much of their
/// characters as tells them apart.
proof fn lemma_keys()
    ensures
        "type"@.len() == 4,
        "type"@[0] == 't',
        "fields"@.len() == 6,
        "struct"@.len() == 6,
        "list"@.len() == 4,
        "map"@.len() == 3,
        "id"@.len() == 2,
        "name"@.len() == 4,
        "name"@[0] == 'n',
        "required"@.len() == 8,
        "doc"@.len() == 3,
        "initial-default"@.len() == 15,
        "write-default"@.len() == 13,
        "element-id"@.len() == 10,
        "element-required"@.len() == 16,
        "element"@.len() == 7,
        "key-id"@.len() == 6,
        "key"@.len() == 3,
        "value-id"@.len() == 8,
        "value-required"@.len() == 14,
        "value"@.len() == 5,
        "schema-id"@.len() == 9,
        "identifier-field-ids"@.len() == 20,
{
    reveal_strlit("type");
    reveal_strlit("fields");
    reveal_strlit("struct");
    reveal_strlit("list");
    reveal_strlit("map");
    reveal_strlit("id");
    reveal_strlit("name");
    reveal_strlit("required");
    reveal_strlit("doc");
    reveal_strlit("initial-default");
    reveal_strlit("write-default");
    reveal_strlit("element-id");
    reveal_strlit("element-required");
    reveal_strlit("element");
    reveal_strlit("key-id");
    reveal_strlit("key");
    reveal_strlit("value-id");
    reveal_strlit("value-required");
    reveal_strlit("value");
    reveal_strlit("schema-id");
    reveal_strlit("identifier-field-ids");
}

/// Whatever decodes as a type is valid.
pub proof fn lemma_type_decoded_valid(doc: JsonV)
    ensures
        type_decoded(doc) matches Ok(v) ==> type_valid(v),
    decreases doc, 1nat,
{
    match doc {
        JsonV::Object(_) => {
            lemma_struct_decoded_valid(doc);
            lemma_get_decreases(doc, "element"@);
            lemma_get_decreases(doc, "key"@);
            lemma_get_decreases(doc, "value"@);
            if let Some(t) = doc.get("element"@) {
                lemma_type_decoded_valid(t);
            }
            if let Some(t) = doc.get("key"@) {
                lemma_type_decoded_valid(t);
            }
            if let Some(t) = doc.get("value"@) {
                lemma_type_decoded_valid(t);
            }
        },
        _ => {},
    }
}

/// Whatever decodes as a struct type is valid.
pub proof fn lemma_struct_decoded_valid(doc: JsonV)
    ensures
        struct_decoded(doc) matches Ok(s) ==> struct_valid(s),
    decreases doc, 0nat,
{
    if doc is Object {
        if let Ok(items) = doc.items_at("fields"@) {
            lemma_get_decreases(doc, "fields"@);
            lemma_fields_decoded_valid(items);
        }
    }
}

/// The types of the fields that decode from a list are valid, and there
/// are as many fields as items.
pub proof fn lemma_fields_decoded_valid(items: Seq<JsonV>)
    ensures
        fields_decoded(items) matches Ok(fields) ==> fields.len() == items.len() && forall|i: int|
            0 <= i < fields.len() ==> type_valid((#[trigger] fields[i]).field_type),
    decreases items, 0nat,
{
    if items.len() > 0 {
        lemma_fields_decoded_valid(items.drop_last());
        let last = items.last();
        if last is Object {
            lemma_get_decreases(last, "type"@);
            if let Some(t) = last.get("type"@) {
                lemma_type_decoded_valid(t);
            }
        }
        if let Ok(fields) = fields_decoded(items) {
            let front = fields_decoded(items.drop_last())->Ok_0;
            let f = field_decoded(last)->Ok_0;
            assert(fields == front.push(f));
            assert forall|i: int| 0 <= i < fields.len() implies type_valid(
                (#[trigger] fields[i]).field_type,
            ) by {
                if i < front.len() {
                    assert(fields[i] == front[i]);
                } else {
                    assert(fields[i] == f);
                }
            }
        }
    }
}

/// Decoding the tree that encodes a valid type gives the type back.
pub proof fn lemma_type_round_trip(v: IcebergTypeV)
    requires
        type_valid(v),
    ensures
        type_decoded(type_encoded(v)) == Ok::<IcebergTypeV, CodecErrorV>(v),
    decreases v, 1nat,
{
    broadcast use group_lookup;

    lemma_keys();
    match v {
        IcebergTypeV::Primitive(p) => {
            lemma_primitive_text(p);
        },
        IcebergTypeV::Struct(s) => {
            lemma_struct_round_trip(s);
        },
        IcebergTypeV::List(l) => {
            lemma_type_round_trip(*l.element);
        },
        IcebergTypeV::Mapping(m) => {
            lemma_type_round_trip(*m.key);
            lemma_type_round_trip(*m.value);
        },
    }
}

/// Decoding the tree that encodes a valid struct type gives it back.
pub proof fn lemma_struct_round_trip(s: StructTypeV)
    requires
        struct_valid(s),
    ensures
        struct_decoded(struct_encoded(s)) == Ok::<StructTypeV, CodecErrorV>(s),
    decreases s, 0nat,
{
    broadcast use group_lookup;

    lemma_keys();
    lemma_fields_round_trip(s.fields);
}

/// Decoding the trees that encode fields of valid types gives the fields
/// back.
pub proof fn lemma_fields_round_trip(fields: Seq<StructFieldV>)
    requires
        forall|i: int| 0 <= i < fields.len() ==> type_valid((#[trigger] fields[i]).field_type),
    ensures
        fields_decoded(fields_encoded(fields)) == Ok::<Seq<StructFieldV>, CodecErrorV>(fields),
    decreases fields, 0nat,
{
    let items = fields_encoded(fields);
    if fields.len() == 0 {
        assert(fields =~= Seq::empty());
    } else {
        let front = fields.drop_last();
        assert forall|i: int| 0 <= i < front.len() implies type_valid(
            (#[trigger] front[i]).field_type,
        ) by {
            assert(front[i] == fields[i]);
        }
        lemma_fields_round_trip(front);
        assert(items.drop_last() =~= fields_encoded(front));
        assert(items.last() == field_encoded(fields.last()));
        lemma_field_round_trip(fields.last());
        assert(front.push(fields.last()) =~= fields);
    }
}

/// Decoding the tree that encodes a field of a valid type gives the field
/// back.
pub proof fn lemma_field_round_trip(f: StructFieldV)
    requires
        type_valid(f.field_type),
    ensures
        field_decoded(field_encoded(f)) == Ok::<StructFieldV, CodecErrorV>(f),
    decreases f, 0nat,
{
    broadcast use group_lookup;

    lemma_keys();
    lemma_type_round_trip(f.field_type);
}

/// The tree that encodes a type holds no `null`.
pub proof fn lemma_type_tidy(v: IcebergTypeV)
    ensures
        is_tidy(type_encoded(v)),
    decreases v, 1nat,
{
    broadcast use group_tidy;

    match v {
        IcebergTypeV::Primitive(_) => {},
        IcebergTypeV::Struct(s) => {
            lemma_struct_tidy(s);
        },
        IcebergTypeV::List(l) => {
            lemma_type_tidy(*l.element);
        },
        IcebergTypeV::Mapping(m) => {
            lemma_type_tidy(*m.key);
            lemma_type_tidy(*m.value);
        },
    }
}

/// The tree that encodes a struct type holds no `null`.
pub proof fn lemma_struct_tidy(s: StructTypeV)
    ensures
        is_tidy(struct_encoded(s)),
    decreases s, 0nat,
{
    broadcast use group_tidy;

    lemma_fields_tidy(s.fields);
}

/// The trees that encode the fields of a struct type hold no `null`.
pub proof fn lemma_fields_tidy(fields: Seq<StructFieldV>)
    ensures
        all_tidy(fields_encoded(fields)),
        is_tidy(JsonV::Array(fields_encoded(fields))),
    decreases fields, 0nat,
{
    broadcast use group_tidy;

    let items = fields_encoded(fields);
    if fields.len() > 0 {
        lemma_fields_tidy(fields.drop_last());
        assert(items.drop_last() =~= fields_encoded(fields.drop_last()));
        assert(items.last() == field_encoded(fields.last()));
        lemma_field_tidy(fields.last());
    }
}

/// The tree that encodes a field holds no `null`.
pub proof fn lemma_field_tidy(f: StructFieldV)
    ensures
        is_tidy(field_encoded(f)),
    decreases f, 0nat,
{
    broadcast use group_tidy;

    lemma_type_tidy(f.field_type);
}

impl Codec for IcebergType {
    open spec fn valid(v: IcebergTypeV) -> bool {
        type_valid(v)
    }

    open spec fn decoded(doc: JsonV) -> Result<IcebergTypeV, CodecErrorV> {
        type_decoded(doc)
    }

    open spec fn encoded(v: IcebergTypeV) -> JsonV {
        type_encoded(v)
    }

    fn deserialize(doc: &Json) -> (r: Result<IcebergType, CodecError>) {
        decode_type(doc)
    }

    fn serialize(&self) -> (doc: Json) {
        encode_type(self)
    }

    proof fn decoded_is_valid(doc: JsonV) {
        lemma_type_decoded_valid(doc);
    }

    proof fn round_trip(v: IcebergTypeV) {
        lemma_type_round_trip(v);
    }

    proof fn encoded_is_tidy(v: IcebergTypeV) {
        lemma_type_tidy(v);
    }
}

impl Codec for StructType {
    open spec fn valid(v: StructTypeV) -> bool {
        struct_valid(v)
    }

    open spec fn decoded(doc: JsonV) -> Result<StructTypeV, CodecErrorV> {
        struct_decoded(doc)
    }

    open spec fn encoded(v: StructTypeV) -> JsonV {
        struct_encoded(v)
    }

    fn deserialize(doc: &Json) -> (r: Result<StructType, CodecError>) {
        decode_struct(doc)
    }

    fn serialize(&self) -> (doc: Json) {
        encode_struct(self)
    }

    proof fn decoded_is_valid(doc: JsonV) {
        lemma_struct_decoded_valid(doc);
    }

    proof fn round_trip(v: StructTypeV) {
        lemma_struct_round_trip(v);
    }

    proof fn encoded_is_tidy(v: StructTypeV) {
        lemma_struct_tidy(v);
    }
}

impl Codec for StructField {
    open spec fn valid(v: StructFieldV) -> bool {
        type_valid(v.field_type)
    }

    open spec fn decoded(doc: JsonV) -> Result<StructFieldV, CodecErrorV> {
        field_decoded(doc)
    }

    open spec fn encoded(v: StructFieldV) -> JsonV {
        field_encoded(v)
    }

    fn deserialize(doc: &Json) -> (r: Result<StructField, CodecError>) {
        decode_field(doc)
    }

    fn serialize(&self) -> (doc: Json) {
        encode_field(self)
    }

    proof fn decoded_is_valid(doc: JsonV) {
        if doc is Object {
            if let Some(t) = doc.get("type"@) {
                lemma_type_decoded_valid(t);
            }
        }
    }

    proof fn round_trip(v: StructFieldV) {
        lemma_field_round_trip(v);
    }

    proof fn encoded_is_tidy(v: StructFieldV) {
        lemma_field_tidy(v);
    }
}

impl Codec for ListType {
    open spec fn valid(v: ListTypeV) -> bool {
        type_valid(*v.element)
    }

    open spec fn decoded(doc: JsonV) -> Result<ListTypeV, CodecErrorV> {
        list_decoded(doc)
    }

    open spec fn encoded(v: ListTypeV) -> JsonV {
        list_encoded(v)
    }

    fn deserialize(doc: &Json) -> (r: Result<ListType, CodecError>) {
        decode_list(doc)
    }

    fn serialize(&self) -> (doc: Json) {
        encode_list(self)
    }

    proof fn decoded_is_valid(doc: JsonV) {
        if doc is Object {
            if let Some(t) = doc.get("element"@) {
                lemma_type_decoded_valid(t);
            }
        }
    }

    proof fn round_trip(v: ListTypeV) {
        broadcast use group_lookup;

        lemma_keys();
        lemma_type_round_trip(*v.element);
    }

    proof fn encoded_is_tidy(v: ListTypeV) {
        broadcast use group_tidy;

        lemma_type_tidy(*v.element);
    }
}

impl Codec for MapType {
    open spec fn valid(v: MapTypeV) -> bool {
        type_valid(*v.key) && type_valid(*v.value)
    }

    open spec fn decoded(doc: JsonV) -> Result<MapTypeV, CodecErrorV> {
        map_decoded(doc)
    }

    open spec fn encoded(v: MapTypeV) -> JsonV {
        map_encoded(v)
    }

    fn deserialize(doc: &Json) -> (r: Result<MapType, CodecError>) {
        decode_map(doc)
    }

    fn serialize(&self) -> (doc: Json) {
        encode_map(self)
    }

    proof fn decoded_is_valid(doc: JsonV) {
        if doc is Object {
            if let Some(t) = doc.get("key"@) {
                lemma_type_decoded_valid(t);
            }
            if let Some(t) = doc.get("value"@) {
                lemma_type_decoded_valid(t);
            }
        }
    }

    proof fn round_trip(v: MapTypeV) {
        broadcast use group_lookup;

        lemma_keys();
        lemma_type_round_trip(*v.key);
        lemma_type_round_trip(*v.value);
    }

    proof fn encoded_is_tidy(v: MapTypeV) {
        broadcast use group_tidy;

        lemma_type_tidy(*v.key);
        lemma_type_tidy(*v.value);
    }
}

/// A schema of format version 2: a struct type with an id.
#[derive(Debug, PartialEq, Eq)]
pub struct IcebergSchemaV2 {
    pub schema_id: i32,
    pub identifier_field_ids: Option<Vec<i32>>,
    pub schema: StructType,
}

/// A schema of format version 1: a struct type that may have an id.
#[derive(Debug, PartialEq, Eq)]
pub struct IcebergSchemaV1 {
    pub schema_id: Option<i32>,
    pub identifier_field_ids: Option<Vec<i32>>,
    pub schema: StructType,
}

/// The mathematical value of an [`IcebergSchemaV2`].
pub ghost struct IcebergSchemaV2V {
    pub schema_id: i32,
    pub identifier_field_ids: Option<Seq<i32>>,
    pub schema: StructTypeV,
}

/// The mathematical value of an [`IcebergSchemaV1`].
pub ghost struct IcebergSchemaV1V {
    pub schema_id: Option<i32>,
    pub identifier_field_ids: Option<Seq<i32>>,
    pub schema: StructTypeV,
}

impl View for IcebergSchemaV2 {
    type V = IcebergSchemaV2V;

    open spec fn view(&self) -> IcebergSchemaV2V {
        IcebergSchemaV2V {
            schema_id: self.schema_id,
            identifier_field_ids: list_opt_view(self.identifier_field_ids),
            schema: self.schema@,
        }
    }
}

impl View for IcebergSchemaV1 {
    type V = IcebergSchemaV1V;

    open spec fn view(&self) -> IcebergSchemaV1V {
        IcebergSchemaV1V {
            schema_id: self.schema_id,
            identifier_field_ids: list_opt_view(self.identifier_field_ids),
            schema: self.schema@,
        }
    }
}

impl Codec for IcebergSchemaV2 {
    open spec fn valid(v: IcebergSchemaV2V) -> bool {
        struct_valid(v.schema)
    }

    open spec fn decoded(doc: JsonV) -> Result<IcebergSchemaV2V, CodecErrorV> {
        if !(doc is Object) {
            Err(fail_bare(Fault::NotAnObject))
        } else {
            match doc.int_at("schema-id"@) {
                Err(e) => Err(e),
                Ok(schema_id) => match decoded_array_opt::<i32>(doc, "identifier-field-ids"@) {
                    Err(e) => Err(e),
                    Ok(identifier_field_ids) => match struct_decoded(doc) {
                        Err(e) => Err(e),
                        Ok(schema) => Ok(
                            IcebergSchemaV2V { schema_id, identifier_field_ids, schema },
                        ),
                    },
                },
            }
        }
    }

    open spec fn encoded(v: IcebergSchemaV2V) -> JsonV {
        JsonV::Object(
            push_some(
                Seq::empty().push(("schema-id"@, JsonV::Number(NumberV::Int(v.schema_id as i64)))),
                "identifier-field-ids"@,
                encoded_list_opt::<i32>(v.identifier_field_ids),
            ).push(("type"@, JsonV::Text("struct"@))).push(
                ("fields"@, JsonV::Array(fields_encoded(v.schema.fields))),
            ),
        )
    }

    fn deserialize(doc: &Json) -> (r: Result<IcebergSchemaV2, CodecError>) {
        let _ = doc.as_entries()?;
        let schema_id = doc.int_at("schema-id")?;
        let identifier_field_ids = deserialize_array_opt::<i32>(doc, "identifier-field-ids")?;
        let schema = decode_struct(doc)?;
        Ok(IcebergSchemaV2 { schema_id, identifier_field_ids, schema })
    }

    fn serialize(&self) -> (doc: Json) {
        let mut entries = no_entries();
        put(&mut entries, "schema-id", Json::short(self.schema_id));
        put_some(
            &mut entries,
            "identifier-field-ids",
            serialize_list_opt::<i32>(&self.identifier_field_ids),
        );
        put(&mut entries, "type", Json::text("struct"));
        put(&mut entries, "fields", encode_fields(&self.schema));
        object(entries)
    }

    proof fn decoded_is_valid(doc: JsonV) {
        lemma_struct_decoded_valid(doc);
    }

    proof fn round_trip(v: IcebergSchemaV2V) {
        broadcast use group_lookup;

        lemma_keys();
        lemma_fields_round_trip(v.schema.fields);
        if let Some(ids) = v.identifier_field_ids {
            lemma_list_round_trip::<i32>(ids);
        }
    }

    proof fn encoded_is_tidy(v: IcebergSchemaV2V) {
        broadcast use group_tidy;

        lemma_fields_tidy(v.schema.fields);
        if let Some(ids) = v.identifier_field_ids {
            lemma_list_tidy::<i32>(ids);
        }
    }
}

impl Codec for IcebergSchemaV1 {
    open spec fn valid(v: IcebergSchemaV1V) -> bool {
        struct_valid(v.schema)
    }

    open spec fn decoded(doc: JsonV) -> Result<IcebergSchemaV1V, CodecErrorV> {
        if !(doc is Object) {
            Err(fail_bare(Fault::NotAnObject))
        } else {
            match doc.int_opt("schema-id"@) {
                Err(e) => Err(e),
                Ok(schema_id) => match decoded_array_opt::<i32>(doc, "identifier-field-ids"@) {
                    Err(e) => Err(e),
                    Ok(identifier_field_ids) => match struct_decoded(doc) {
                        Err(e) => Err(e),
                        Ok(schema) => Ok(
                            IcebergSchemaV1V { schema_id, identifier_field_ids, schema },
                        ),
                    },
                },
            }
        }
    }

    open spec fn encoded(v: IcebergSchemaV1V) -> JsonV {
        JsonV::Object(
            push_some(
                push_some(Seq::empty(), "schema-id"@, int_some(v.schema_id)),
                "identifier-field-ids"@,
                encoded_list_opt::<i32>(v.identifier_field_ids),
            ).push(("type"@, JsonV::Text("struct"@))).push(
                ("fields"@, JsonV::Array(fields_encoded(v.schema.fields))),
            ),
        )
    }

    fn deserialize(doc: &Json) -> (r: Result<IcebergSchemaV1, CodecError>) {
        let _ = doc.as_entries()?;
        let schema_id = doc.int_opt("schema-id")?;
        let identifier_field_ids = deserialize_array_opt::<i32>(doc, "identifier-field-ids")?;
        let schema = decode_struct(doc)?;
        Ok(IcebergSchemaV1 { schema_id, identifier_field_ids, schema })
    }

    fn serialize(&self) -> (doc: Json) {
        let mut entries = no_entries();
        put_some(&mut entries, "schema-id", int_json(&self.schema_id));
        put_some(
            &mut entries,
            "identifier-field-ids",
            serialize_list_opt::<i32>(&self.identifier_field_ids),
        );
        put(&mut entries, "type", Json::text("struct"));
        put(&mut entries, "fields", encode_fields(&self.schema));
        object(entries)
    }

    proof fn decoded_is_valid(doc: JsonV) {
        lemma_struct_decoded_valid(doc);
    }

    proof fn round_trip(v: IcebergSchemaV1V) {
        broadcast use group_lookup;

        lemma_keys();
        lemma_fields_round_trip(v.schema.fields);
        if let Some(ids) = v.identifier_field_ids {
            lemma_list_round_trip::<i32>(ids);
        }
    }

    proof fn encoded_is_tidy(v: IcebergSchemaV1V) {
        broadcast use group_tidy;

        lemma_fields_tidy(v.schema.fields);
        if let Some(ids) = v.identifier_field_ids {
            lemma_list_tidy::<i32>(ids);
        }
    }
}

/// A decimal type whose precision is 0 or above 38 is refused as outside
/// the domain, whatever its scale.
pub proof fn lemma_decimal_precision_limit(s: Seq<char>, precision: Seq<char>, scale: Seq<char>)
    requires
        decimal_parts(s) == Some((precision, scale)),
        numeral_value(precision) < 1 || numeral_value(precision) > 38,
    ensures
        decimal_of(s) is Err,
        decimal_of(s)->Err_0.kind() == ErrorKind::Domain,
        decimal_of(s)->Err_0.subject == s,
{
}

/// The precision of a decimal type that is read lies between 1 and 38.
pub proof fn lemma_decimal_precision_domain(s: Seq<char>)
    ensures
        decimal_of(s) matches Ok(PrimitiveType::Decimal { precision, scale }) ==> 1 <= precision
            <= 38,
{
}

/// A string that starts with `fixed` and is not `fixed[N]` is refused as
/// ill-formed.
pub proof fn lemma_fixed_format(s: Seq<char>)
    requires
        has_prefix_at(s, 0, "fixed"@),
        bracketed(s, "fixed"@) is None,
    ensures
        primitive_of(s) == Err::<PrimitiveType, CodecErrorV>(fail(Fault::FixedFormat, s)),
        Fault::FixedFormat.spec_kind() == ErrorKind::FormatString,
{
}

/// A string that starts with `decimal`, does not start with `fixed`, and
/// is not `decimal(P,S)` is refused as ill-formed.
pub proof fn lemma_decimal_format(s: Seq<char>)
    requires
        has_prefix_at(s, 0, "decimal"@),
        decimal_parts(s) is None,
    ensures
        primitive_of(s) == Err::<PrimitiveType, CodecErrorV>(fail(Fault::DecimalFormat, s)),
        Fault::DecimalFormat.spec_kind() == ErrorKind::FormatString,
{
    lemma_names();
    if has_prefix_at(s, 0, "fixed"@) {
        assert(s.subrange(0, 5)[0] == 'f');
        assert(s.subrange(0, 7)[0] == 'd');
    }
}

} // verus!
