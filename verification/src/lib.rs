//! Schema and conversion-code generation for records stored in a
//! DynamoDB-style document table.
//!
//! A structure definition with markers on its fields is read as plain
//! values ([`ast`]). From it the library works out the wire tag of every
//! field ([`ast::ty`]), the table's primary key, secondary indexes and
//! attribute definitions ([`table`], [`table::attr`]), and emits the source
//! text of the conversions between the structure and a wire map and of the
//! table's items ([`dynamo`], [`container`], [`item`], [`table`]).
//!
//! What the emitted conversions compute is also there to be run: values are
//! encoded and decoded under a layout ([`codec`], [`layout`], [`value`],
//! [`number`]).

pub mod ast;
pub mod code;
pub mod codec;
pub mod container;
pub mod dynamo;
pub mod error;
pub mod groups;
pub mod item;
pub mod layout;
pub mod number;
pub mod table;
pub mod util;
pub mod value;
