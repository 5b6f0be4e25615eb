//! Markers: the attributes above a structure and its fields.

use vstd::prelude::*;
use vstd::string::*;

verus! {

/// A literal, by its source text.
#[derive(Debug, PartialEq, Eq)]
pub struct Literal {
    /// The literal as it was written, quotes included.
    pub tokens: String,
    /// Whether it is a string literal.
    pub is_str: bool,
}

/// A marker: `path`, `path = literal` or `path(item, ...)`.
#[derive(Debug, PartialEq, Eq)]
pub struct Meta {
    pub path: String,
    pub value: MetaValue,
}

/// What follows the path of a marker.
#[derive(Debug, PartialEq, Eq)]
pub enum MetaValue {
    /// Nothing: the marker is a bare word.
    Word,
    /// `= literal`
    NameValue(Literal),
    /// `(item, ...)`
    List(Vec<NestedMeta>),
    /// `= ...` where what follows is no literal.
    Other,
}

/// One item between the parentheses of a marker.
#[derive(Debug, PartialEq, Eq)]
pub enum NestedMeta {
    Meta(Meta),
    Literal(Literal),
    /// Anything else.
    Other,
}

} // verus!
