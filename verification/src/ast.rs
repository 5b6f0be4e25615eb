//! The structure definition as the generator reads it: types and markers as
//! plain values.

pub mod ext_field;
pub mod input;
pub mod meta;
pub mod ty;
