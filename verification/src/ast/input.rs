//! The definition that a generation pass starts from.

use crate::ast::meta::Meta;
use crate::ast::ty::FieldType;
use vstd::prelude::*;
use vstd::string::*;

verus! {

/// One field of a structure.
#[derive(Debug, PartialEq, Eq)]
pub struct Field {
    /// The field's name; a field of a tuple structure has none.
    pub ident: Option<String>,
    pub ty: FieldType,
    /// The attributes above the field, from top to bottom.
    pub attrs: Vec<Meta>,
}

/// The body of a definition.
#[derive(Debug, PartialEq, Eq)]
pub enum Data {
    /// A structure, with its fields in the order of their declaration.
    Struct(Vec<Field>),
    /// An enumeration or a union.
    Other,
}

/// A type definition with the attributes above it.
#[derive(Debug, PartialEq, Eq)]
pub struct DeriveInput {
    /// The attributes above the definition, from top to bottom.
    pub attrs: Vec<Meta>,
    /// The visibility as it was written; empty for a private definition.
    pub vis: String,
    /// The name of the type.
    pub ident: String,
    /// The generic parameters as they were written, angle brackets included;
    /// empty where there are none.
    pub generics: String,
    pub data: Data,
}

} // verus!
