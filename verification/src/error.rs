//! The errors that decoding reports.

use vstd::prelude::*;

verus! {

/// The five classes of decoding failure.
#[derive(Clone, Copy, Debug, PartialEq, Eq, Structural)]
pub enum ErrorKind {
    /// The input is no document, or no container file, at all.
    Malformed,
    /// The format version is missing, is no integer, or is not supported.
    Version,
    /// A required key is missing, a value has the wrong type, or two keys
    /// that exclude each other are both present.
    Shape,
    /// A value is outside its domain.
    Domain,
    /// A parametric string does not follow its grammar.
    FormatString,
}

/// What exactly went wrong.
#[derive(Clone, Copy, Debug, PartialEq, Eq, Structural)]
pub enum Fault {
    /// The text is no document.
    Syntax,
    /// The bytes are no container file.
    Container,
    /// The records do not fit the container's schema.
    Unwritable,
    /// The text is no schema of a container file.
    InvalidSchema,
    /// `format-version` is absent or is no integer.
    MissingOrBadFormatVersion,
    /// `format-version` is an integer other than 1 and 2.
    UnsupportedVersion(i64),
    /// An object or a record was expected.
    NotAnObject,
    /// A type was expected: the name of a primitive type or an object.
    NotAType,
    /// A required key is absent; the subject is the key.
    MissingField,
    /// The value is no string; the subject is the key, if there is one.
    NotAString,
    /// The value is no integer; the subject is the key, if there is one.
    NotAnInteger,
    /// The value is no boolean; the subject is the key, if there is one.
    NotABoolean,
    /// The value is no array; the subject is the key, if there is one.
    NotAnArray,
    /// The value is no byte string; the subject is the key.
    NotBytes,
    /// A version 1 snapshot names both a manifest list and its manifests.
    ManifestListAndManifests,
    /// An object that is read as a list of named values has a key twice.
    DuplicateKey,
    /// The integer does not fit the field; the subject is the key.
    IntegerOutOfRange,
    /// The precision of a decimal type is 0 or above 38.
    DecimalPrecisionOutOfRange,
    /// The string names no primitive type.
    UnknownPrimitiveType,
    /// The `type` of an object is none of `struct`, `list` and `map`.
    UnknownTypeTag,
    /// The string names no transform.
    UnknownTransform,
    /// The string is neither `asc` nor `desc`.
    UnknownDirection,
    /// The string is neither `nulls-first` nor `nulls-last`.
    UnknownNullOrder,
    /// The string names no snapshot operation.
    UnknownOperation,
    /// The `type` of a reference is neither `branch` nor `tag`.
    UnknownRefType,
    /// The content of a manifest is neither 0 nor 1.
    UnknownContent,
    /// The string is no UUID.
    InvalidUuid,
    /// The length of a fixed type does not fit 32 bits.
    FixedLength,
    /// The precision of a decimal type does not fit 8 bits.
    DecimalPrecision,
    /// The scale of a decimal type does not fit 32 bits.
    DecimalScale,
    /// The number of buckets does not fit 32 bits.
    BucketNumber,
    /// The width of a truncation does not fit 32 bits.
    TruncateNumber,
    /// The string starts like a fixed type and is not `fixed[N]`.
    FixedFormat,
    /// The string starts like a decimal type and is not `decimal(P, S)`.
    DecimalFormat,
    /// The string starts like a bucket transform and is not `bucket[N]`.
    BucketFormat,
    /// The string starts like a truncate transform and is not `truncate[N]`.
    TruncateFormat,
}

impl Fault {
    /// The class that a fault belongs to.
    pub open spec fn spec_kind(self) -> ErrorKind {
        match self {
            Fault::Syntax | Fault::Container | Fault::Unwritable | Fault::InvalidSchema =>
                ErrorKind::Malformed,
            Fault::MissingOrBadFormatVersion | Fault::UnsupportedVersion(_) => ErrorKind::Version,
            Fault::NotAnObject
            | Fault::NotAType
            | Fault::MissingField
            | Fault::NotAString
            | Fault::NotAnInteger
            | Fault::NotABoolean
            | Fault::NotAnArray
            | Fault::NotBytes
            | Fault::ManifestListAndManifests
            | Fault::DuplicateKey => ErrorKind::Shape,
            Fault::IntegerOutOfRange
            | Fault::DecimalPrecisionOutOfRange
            | Fault::UnknownPrimitiveType
            | Fault::UnknownTypeTag
            | Fault::UnknownTransform
            | Fault::UnknownDirection
            | Fault::UnknownNullOrder
            | Fault::UnknownOperation
            | Fault::UnknownRefType
            | Fault::UnknownContent
            | Fault::InvalidUuid
            | Fault::FixedLength
            | Fault::DecimalPrecision
            | Fault::DecimalScale
            | Fault::BucketNumber
            | Fault::TruncateNumber => ErrorKind::Domain,
            Fault::FixedFormat
            | Fault::DecimalFormat
            | Fault::BucketFormat
            | Fault::TruncateFormat => ErrorKind::FormatString,
        }
    }

    /// The class that a fault belongs to.
    #[verifier::when_used_as_spec(spec_kind)]
    pub fn kind(self) -> (k: ErrorKind)
        ensures
            k == self.spec_kind(),
    {
        match self {
            Fault::Syntax | Fault::Container | Fault::Unwritable | Fault::InvalidSchema =>
                ErrorKind::Malformed,
            Fault::MissingOrBadFormatVersion | Fault::UnsupportedVersion(_) => ErrorKind::Version,
            Fault::NotAnObject
            | Fault::NotAType
            | Fault::MissingField
            | Fault::NotAString
            | Fault::NotAnInteger
            | Fault::NotABoolean
            | Fault::NotAnArray
            | Fault::NotBytes
            | Fault::ManifestListAndManifests
            | Fault::DuplicateKey => ErrorKind::Shape,
            Fault::IntegerOutOfRange
            | Fault::DecimalPrecisionOutOfRange
            | Fault::UnknownPrimitiveType
            | Fault::UnknownTypeTag
            | Fault::UnknownTransform
            | Fault::UnknownDirection
            | Fault::UnknownNullOrder
            | Fault::UnknownOperation
            | Fault::UnknownRefType
            | Fault::UnknownContent
            | Fault::InvalidUuid
            | Fault::FixedLength
            | Fault::DecimalPrecision
            | Fault::DecimalScale
            | Fault::BucketNumber
            | Fault::TruncateNumber => ErrorKind::Domain,
            Fault::FixedFormat
            | Fault::DecimalFormat
            | Fault::BucketFormat
            | Fault::TruncateFormat => ErrorKind::FormatString,
        }
    }

    /// A few words that say what the fault is.
    pub open spec fn spec_words(self) -> Seq<char> {
        match self {
            Fault::Syntax => "the text is no document"@,
            Fault::Container => "the bytes are no container file"@,
            Fault::Unwritable => "the records do not fit the schema"@,
            Fault::InvalidSchema => "the text is no schema"@,
            Fault::MissingOrBadFormatVersion => "format-version is missing or is no integer"@,
            Fault::UnsupportedVersion(_) => "unsupported format-version"@,
            Fault::NotAnObject => "not an object"@,
            Fault::NotAType => "neither the name of a type nor an object"@,
            Fault::MissingField => "missing field"@,
            Fault::NotAString => "not a string"@,
            Fault::NotAnInteger => "not an integer"@,
            Fault::NotABoolean => "not a boolean"@,
            Fault::NotAnArray => "not an array"@,
            Fault::NotBytes => "not a byte string"@,
            Fault::ManifestListAndManifests =>
                "both manifests and manifest-list are present in a snapshot"@,
            Fault::DuplicateKey => "a key occurs twice"@,
            Fault::IntegerOutOfRange => "integer out of range"@,
            Fault::DecimalPrecisionOutOfRange => "decimal precision is not between 1 and 38"@,
            Fault::UnknownPrimitiveType => "unknown primitive type"@,
            Fault::UnknownTypeTag => "unknown type tag"@,
            Fault::UnknownTransform => "unknown transform"@,
            Fault::UnknownDirection => "unknown sort direction"@,
            Fault::UnknownNullOrder => "unknown null order"@,
            Fault::UnknownOperation => "unknown snapshot operation"@,
            Fault::UnknownRefType => "unknown reference type"@,
            Fault::UnknownContent => "unknown manifest content"@,
            Fault::InvalidUuid => "invalid uuid"@,
            Fault::FixedLength => "invalid fixed type length"@,
            Fault::DecimalPrecision => "wrong decimal precision"@,
            Fault::DecimalScale => "wrong decimal scale"@,
            Fault::BucketNumber => "invalid bucket number"@,
            Fault::TruncateNumber => "invalid truncate number"@,
            Fault::FixedFormat => "wrong fixed type format"@,
            Fault::DecimalFormat => "wrong decimal type format"@,
            Fault::BucketFormat => "wrong bucket format"@,
            Fault::TruncateFormat => "wrong truncate format"@,
        }
    }

    /// A few words that say what the fault is.
    pub fn words(self) -> (w: &'static str)
        ensures
            w@ == self.spec_words(),
    {
        match self {
            Fault::Syntax => "the text is no document",
            Fault::Container => "the bytes are no container file",
            Fault::Unwritable => "the records do not fit the schema",
            Fault::InvalidSchema => "the text is no schema",
            Fault::MissingOrBadFormatVersion => "format-version is missing or is no integer",
            Fault::UnsupportedVersion(_) => "unsupported format-version",
            Fault::NotAnObject => "not an object",
            Fault::NotAType => "neither the name of a type nor an object",
            Fault::MissingField => "missing field",
            Fault::NotAString => "not a string",
            Fault::NotAnInteger => "not an integer",
            Fault::NotABoolean => "not a boolean",
            Fault::NotAnArray => "not an array",
            Fault::NotBytes => "not a byte string",
            Fault::ManifestListAndManifests =>
                "both manifests and manifest-list are present in a snapshot",
            Fault::DuplicateKey => "a key occurs twice",
            Fault::IntegerOutOfRange => "integer out of range",
            Fault::DecimalPrecisionOutOfRange => "decimal precision is not between 1 and 38",
            Fault::UnknownPrimitiveType => "unknown primitive type",
            Fault::UnknownTypeTag => "unknown type tag",
            Fault::UnknownTransform => "unknown transform",
            Fault::UnknownDirection => "unknown sort direction",
            Fault::UnknownNullOrder => "unknown null order",
            Fault::UnknownOperation => "unknown snapshot operation",
            Fault::UnknownRefType => "unknown reference type",
            Fault::UnknownContent => "unknown manifest content",
            Fault::InvalidUuid => "invalid uuid",
            Fault::FixedLength => "invalid fixed type length",
            Fault::DecimalPrecision => "wrong decimal precision",
            Fault::DecimalScale => "wrong decimal scale",
            Fault::BucketNumber => "invalid bucket number",
            Fault::TruncateNumber => "invalid truncate number",
            Fault::FixedFormat => "wrong fixed type format",
            Fault::DecimalFormat => "wrong decimal type format",
            Fault::BucketFormat => "wrong bucket format",
            Fault::TruncateFormat => "wrong truncate format",
        }
    }
}

/// A decoding failure: the fault, the key or the text that it is about
/// (empty where there is none), and the format version of the document in
/// which it was found, where a version-specific decoder found it.
#[derive(Clone, Debug, PartialEq, Eq)]
pub struct CodecError {
    pub fault: Fault,
    pub subject: String,
    pub version: Option<i32>,
}

/// The mathematical value of a [`CodecError`].
pub ghost struct CodecErrorV {
    pub fault: Fault,
    pub subject: Seq<char>,
    pub version: Option<i32>,
}

impl View for CodecError {
    type V = CodecErrorV;

    open spec fn view(&self) -> CodecErrorV {
        CodecErrorV { fault: self.fault, subject: self.subject@, version: self.version }
    }
}

/// The error with this fault and subject, outside any version.
pub open spec fn fail(fault: Fault, subject: Seq<char>) -> CodecErrorV {
    CodecErrorV { fault, subject, version: None }
}

/// The error with this fault and no subject.
pub open spec fn fail_bare(fault: Fault) -> CodecErrorV {
    CodecErrorV { fault, subject: Seq::empty(), version: None }
}

impl CodecErrorV {
    /// The same error, found by the decoder of the given format version.
    pub open spec fn in_version(self, version: i32) -> CodecErrorV {
        CodecErrorV { fault: self.fault, subject: self.subject, version: Some(version) }
    }

    /// The class of the error.
    pub open spec fn kind(self) -> ErrorKind {
        self.fault.spec_kind()
    }

    /// The message: the fault's words, then a colon, a space and the subject.
    pub open spec fn message(self) -> Seq<char> {
        self.fault.spec_words() + ": "@ + self.subject
    }
}

impl CodecError {
    /// The error with this fault and subject, outside any version.
    pub fn new(fault: Fault, subject: &str) -> (e: CodecError)
        ensures
            e@ == fail(fault, subject@),
    {
        CodecError { fault, subject: String::from_str(subject), version: None }
    }

    /// The error with this fault and no subject.
    pub fn bare(fault: Fault) -> (e: CodecError)
        ensures
            e@ == fail_bare(fault),
    {
        CodecError { fault, subject: String::new(), version: None }
    }

    /// The same error, found by the decoder of the given format version.
    pub fn in_version(self, version: i32) -> (e: CodecError)
        ensures
            e@ == self@.in_version(version),
    {
        CodecError { fault: self.fault, subject: self.subject, version: Some(version) }
    }

    /// The class of the error.
    pub fn kind(&self) -> (k: ErrorKind)
        ensures
            k == self@.kind(),
    {
        self.fault.kind()
    }

    /// A message for a human reader.
    pub fn message(&self) -> (m: String)
        ensures
            m@ == self@.message(),
    {
        let mut m = String::from_str(self.fault.words());
        m.append(": ");
        m.append(self.subject.as_str());
        m
    }
}

/// The view of a result: the view of what it holds.
pub open spec fn result_view<T: View, E: View>(r: Result<T, E>) -> Result<T::V, E::V> {
    match r {
        Ok(t) => Ok(t@),
        Err(e) => Err(e@),
    }
}

/// The view of an option: the view of what it holds.
pub open spec fn option_view<T: View>(o: Option<T>) -> Option<T::V> {
    match o {
        Some(t) => Some(t@),
        None => None,
    }
}

/// The view of a sequence: the views of its items.
pub open spec fn seq_view<T: View>(s: Seq<T>) -> Seq<T::V> {
    Seq::new(s.len(), |i: int| s[i]@)
}

/// The error of a result, where it is one.
pub open spec fn error_of<T>(r: Result<T, CodecErrorV>) -> Option<CodecErrorV> {
    match r {
        Ok(_) => None,
        Err(e) => Some(e),
    }
}

/// The first error of a list, where it holds one.
pub open spec fn first_error(errors: Seq<Option<CodecErrorV>>) -> Option<CodecErrorV>
    decreases errors.len(),
{
    if errors.len() == 0 {
        None
    } else {
        match first_error(errors.drop_last()) {
            Some(e) => Some(e),
            None => errors.last(),
        }
    }
}

/// The first error of a list with one more item.
pub broadcast proof fn lemma_first_error_push(
    errors: Seq<Option<CodecErrorV>>,
    next: Option<CodecErrorV>,
)
    ensures
        #[trigger] first_error(errors.push(next)) == match first_error(errors) {
            Some(e) => Some(e),
            None => next,
        },
{
    assert(errors.push(next).drop_last() =~= errors);
    assert(errors.push(next).last() == next);
}

/// The empty list holds no error.
pub broadcast proof fn lemma_first_error_empty()
    ensures
        #[trigger] first_error(Seq::<Option<CodecErrorV>>::empty()) is None,
{
}

/// The two facts by which the first error of a list is found.
pub broadcast group group_first_error {
    lemma_first_error_push,
    lemma_first_error_empty,
}

} // verus!
