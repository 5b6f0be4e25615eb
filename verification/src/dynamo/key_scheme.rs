//! Key roles by their short name, and the key-schema element with the
//! role spelled from the root of the SDK crate.

use crate::code::{join5, literal_string, string_literal};
use crate::dynamo::key_schema::KeySchemaType;
use crate::util::{pascal_case, to_pascal_case};
use vstd::prelude::*;
use vstd::string::*;

verus! {

/// The role of a field in a key group.
#[derive(Copy, Clone, Debug, Eq, PartialEq, Structural)]
pub enum Type {
    HashKey,
    RangeKey,
}

impl Type {
    /// The role, as a key schema names it.
    pub open spec fn role(self) -> KeySchemaType {
        match self {
            Type::HashKey => KeySchemaType::HashKey,
            Type::RangeKey => KeySchemaType::RangeKey,
        }
    }

    /// The store's own name for the role.
    pub open spec fn key_type_path(self) -> Seq<char> {
        match self {
            Type::HashKey => "aws_sdk_dynamodb::types::KeyType::Hash"@,
            Type::RangeKey => "aws_sdk_dynamodb::types::KeyType::Range"@,
        }
    }

    /// The role, as a key schema names it.
    pub fn to_key_schema_type(&self) -> (role: KeySchemaType)
        ensures
            role == self.role(),
    {
        match self {
            Type::HashKey => KeySchemaType::HashKey,
            Type::RangeKey => KeySchemaType::RangeKey,
        }
    }

    /// The marker keyword that gives a field this role.
    pub fn to_string(&self) -> (keyword: String)
        ensures
            keyword@ == self.role().keyword(),
    {
        self.to_key_schema_type().to_string()
    }
}

/// The emitted expression that builds the key-schema element of the
/// attribute `name` with the given role.
pub open spec fn key_scheme_code(name: Seq<char>, key_type: Type) -> Seq<char> {
    "aws_sdk_dynamodb::types::KeySchemaElement::builder().attribute_name("@ + string_literal(name)
        + ".to_string()).key_type("@ + key_type.key_type_path() + ").build().unwrap()"@
}

/// Emits the expression that builds the key-schema element of the field
/// `id`, under the field's wire attribute name.
pub fn get_key_scheme(id: &str, key_type: Type) -> (code: String)
    ensures
        code@ == key_scheme_code(pascal_case(id@), key_type),
{
    let ident = literal_string(to_pascal_case(id).as_str());
    let key_type = match key_type {
        Type::HashKey => "aws_sdk_dynamodb::types::KeyType::Hash",
        Type::RangeKey => "aws_sdk_dynamodb::types::KeyType::Range",
    };
    join5(
        "aws_sdk_dynamodb::types::KeySchemaElement::builder().attribute_name(",
        ident.as_str(),
        ".to_string()).key_type(",
        key_type,
        ").build().unwrap()",
    )
}

} // verus!
