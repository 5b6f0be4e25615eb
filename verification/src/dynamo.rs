//! The wire-level vocabulary of the document store: value tags, scalar
//! attribute types and key schemas.

pub mod attribute_definition;
pub mod attribute_value;
pub mod key_schema;
pub mod key_scheme;
