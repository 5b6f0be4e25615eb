//! Failures of a generation pass.

use crate::dynamo::attribute_value::AttributeValueType;
use vstd::prelude::*;
use vstd::string::*;

verus! {

/// Why a structure definition cannot be turned into conversions and table
/// metadata. Every variant is fatal: nothing is emitted.
#[derive(Debug, Clone, Copy, PartialEq, Eq, Structural)]
pub enum GenError {
    /// The type is not a path (a tuple, a reference, an array, ...).
    UnsupportedType,
    /// A type path without any segment.
    SegmentNotFound,
    /// `Vec` or `HashMap` written without `<...>`.
    NotAngleBracketed,
    /// `Vec<>`: no element type.
    ArgumentNotFound,
    /// The last argument of `Vec<...>` is not a type.
    TypeExpected,
    /// `HashMap<>`: no key type.
    KeyTypeNotFound,
    /// The key type of a `HashMap` is a path without any segment.
    KeySegmentNotFound,
    /// The key type of a `HashMap` is not `String`.
    MapKeyNotString,
    /// The last argument of `HashMap<...>` is not a type.
    ValueTypeNotFound,
    /// A key marker on a field whose wire tag is not a scalar one.
    InvalidScalarType(AttributeValueType),
    /// A key group without a partition key.
    HashKeyNotFound,
    /// A key group with two or more partition keys.
    MultipleHashKeys,
    /// A key group with two or more sort keys.
    MultipleRangeKeys,
    /// `index_name` is not followed by a quoted literal.
    InvalidIndexName,
    /// A secondary-index marker names no index before its first argument is
    /// handled.
    EmptyIndexName,
    /// Two key fields share a wire attribute name and disagree on its type.
    ConflictingAttributeType,
    /// A marker is not written in the form that its keyword asks for.
    MalformedMarker,
    /// A key marker with an argument list that is not one string literal.
    InvalidKeyTypeFormat,
    /// A key marker names a scalar type other than `B`, `N` and `S`.
    InvalidScalarAttributeType,
    /// A key marker names a scalar type that the field does not have.
    ScalarTypeMismatch,
    /// A field of a record type whose fields are not known.
    UnknownRecord,
    /// A field without a name.
    FieldIdentNotFound,
    /// The definition is not a struct.
    OnlyStruct,
}

impl GenError {
    /// The diagnostic text of the failure.
    pub open spec fn message(self) -> Seq<char> {
        match self {
            GenError::UnsupportedType => "unsupported type"@,
            GenError::SegmentNotFound => "segment not found"@,
            GenError::NotAngleBracketed => "Vec should be angle bracketed"@,
            GenError::ArgumentNotFound => "argument no found"@,
            GenError::TypeExpected => "type expected"@,
            GenError::KeyTypeNotFound => "key type not found"@,
            GenError::KeySegmentNotFound => "argument not found"@,
            GenError::MapKeyNotString => "key type of HashMap must be String"@,
            GenError::ValueTypeNotFound => "value type not found"@,
            GenError::InvalidScalarType(tag) => "invalid type for ScalarAttributeType: "@
                + tag.name(),
            GenError::HashKeyNotFound => "HashKey not found"@,
            GenError::MultipleHashKeys => "only one HashKey is allowed"@,
            GenError::MultipleRangeKeys => "at most one RangeKey is allowed"@,
            GenError::InvalidIndexName => "invalid index name"@,
            GenError::EmptyIndexName => "empty index name"@,
            GenError::ConflictingAttributeType => "conflicting attribute type"@,
            GenError::MalformedMarker => "malformed marker"@,
            GenError::InvalidKeyTypeFormat => "invalid key type format"@,
            GenError::InvalidScalarAttributeType => "invalid ScalarAttributeType"@,
            GenError::ScalarTypeMismatch => "scalar type does not match the field"@,
            GenError::UnknownRecord => "unknown record type"@,
            GenError::FieldIdentNotFound => "field ident not found"@,
            GenError::OnlyStruct => "only struct type available"@,
        }
    }

    /// Renders the diagnostic text.
    pub fn to_string(&self) -> (text: String)
        ensures
            text@ == self.message(),
    {
        match self {
            GenError::UnsupportedType => String::from_str("unsupported type"),
            GenError::SegmentNotFound => String::from_str("segment not found"),
            GenError::NotAngleBracketed => String::from_str("Vec should be angle bracketed"),
            GenError::ArgumentNotFound => String::from_str("argument no found"),
            GenError::TypeExpected => String::from_str("type expected"),
            GenError::KeyTypeNotFound => String::from_str("key type not found"),
            GenError::KeySegmentNotFound => String::from_str("argument not found"),
            GenError::MapKeyNotString => String::from_str("key type of HashMap must be String"),
            GenError::ValueTypeNotFound => String::from_str("value type not found"),
            GenError::InvalidScalarType(tag) => {
                String::from_str("invalid type for ScalarAttributeType: ").concat(tag.as_str())
            },
            GenError::HashKeyNotFound => String::from_str("HashKey not found"),
            GenError::MultipleHashKeys => String::from_str("only one HashKey is allowed"),
            GenError::MultipleRangeKeys => String::from_str("at most one RangeKey is allowed"),
            GenError::InvalidIndexName => String::from_str("invalid index name"),
            GenError::EmptyIndexName => String::from_str("empty index name"),
            GenError::ConflictingAttributeType => String::from_str("conflicting attribute type"),
            GenError::MalformedMarker => String::from_str("malformed marker"),
            GenError::InvalidKeyTypeFormat => String::from_str("invalid key type format"),
            GenError::InvalidScalarAttributeType => String::from_str("invalid ScalarAttributeType"),
            GenError::ScalarTypeMismatch => String::from_str(
                "scalar type does not match the field",
            ),
            GenError::UnknownRecord => String::from_str("unknown record type"),
            GenError::FieldIdentNotFound => String::from_str("field ident not found"),
            GenError::OnlyStruct => String::from_str("only struct type available"),
        }
    }
}

} // verus!
