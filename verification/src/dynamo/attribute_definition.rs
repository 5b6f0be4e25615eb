//! Scalar attribute types: what a key field may hold.

use crate::code::{join5, literal_string, string_literal};
use crate::dynamo::attribute_value::AttributeValueType;
use crate::error::GenError;
use crate::util::{pascal_case, to_pascal_case};
use vstd::prelude::*;
use vstd::string::*;

verus! {

/// The type of a key attribute.
#[derive(Debug, Copy, Clone, Eq, PartialEq, Structural)]
pub enum ScalarAttributeType {
    B,
    N,
    S,
}

/// The scalar attribute type that a wire tag narrows to, or the refusal of a
/// tag that no key can have.
pub open spec fn scalar_type_of(tag: AttributeValueType) -> Result<ScalarAttributeType, GenError> {
    match tag {
        AttributeValueType::B => Ok(ScalarAttributeType::B),
        AttributeValueType::S => Ok(ScalarAttributeType::S),
        AttributeValueType::N => Ok(ScalarAttributeType::N),
        _ => Err(GenError::InvalidScalarType(tag)),
    }
}

/// The emitted expression that builds the definition of the attribute
/// `name` with the given type.
pub open spec fn attribute_definition_code(
    scalar: ScalarAttributeType,
    name: Seq<char>,
) -> Seq<char> {
    "aws_sdk_dynamodb::types::AttributeDefinition::builder().attribute_name("@ + string_literal(
        name,
    ) + ").attribute_type(::aws_sdk_dynamodb::types::ScalarAttributeType::"@ + scalar.name()
        + ").build().unwrap()"@
}

impl ScalarAttributeType {
    /// The name of the type, as the store spells it.
    pub open spec fn name(self) -> Seq<char> {
        match self {
            ScalarAttributeType::B => "B"@,
            ScalarAttributeType::N => "N"@,
            ScalarAttributeType::S => "S"@,
        }
    }

    /// The wire tag of a value of this type.
    pub open spec fn tag(self) -> AttributeValueType {
        match self {
            ScalarAttributeType::B => AttributeValueType::B,
            ScalarAttributeType::N => AttributeValueType::N,
            ScalarAttributeType::S => AttributeValueType::S,
        }
    }

    /// The name of the type, as the store spells it.
    pub fn as_str(&self) -> (name: &'static str)
        ensures
            name@ == self.name(),
    {
        match self {
            ScalarAttributeType::B => "B",
            ScalarAttributeType::N => "N",
            ScalarAttributeType::S => "S",
        }
    }

    /// Narrows a wire tag to the type of a key attribute. Only the three
    /// scalar tags have one.
    pub fn from_attribute_value_type(attr_value_ty: AttributeValueType) -> (res: Result<
        Self,
        GenError,
    >)
        ensures
            res == scalar_type_of(attr_value_ty),
    {
        match attr_value_ty {
            AttributeValueType::B => Ok(ScalarAttributeType::B),
            AttributeValueType::S => Ok(ScalarAttributeType::S),
            AttributeValueType::N => Ok(ScalarAttributeType::N),
            _ => Err(GenError::InvalidScalarType(attr_value_ty)),
        }
    }

    /// Emits the expression that builds the attribute definition of the
    /// field `ident`, under the field's wire attribute name.
    pub fn expand_attribute_definition(&self, ident: &str) -> (code: String)
        ensures
            code@ == attribute_definition_code(*self, pascal_case(ident@)),
    {
        let name = literal_string(to_pascal_case(ident).as_str());
        join5(
            "aws_sdk_dynamodb::types::AttributeDefinition::builder().attribute_name(",
            name.as_str(),
            ").attribute_type(::aws_sdk_dynamodb::types::ScalarAttributeType::",
            self.as_str(),
            ").build().unwrap()",
        )
    }
}

/// Emits the expression that builds the attribute definition of the field
/// `id` with the type `attr_type`, under the field's wire attribute name.
pub fn expand_attribute_definition(id: &str, attr_type: &ScalarAttributeType) -> (code: String)
    ensures
        code@ == attribute_definition_code(*attr_type, pascal_case(id@)),
{
    attr_type.expand_attribute_definition(id)
}

/// A scalar type narrows from its own tag and from no other.
pub proof fn lemma_scalar_type_of_tag(tag: AttributeValueType)
    ensures
        scalar_type_of(tag) is Ok <==> tag.is_scalar(),
        scalar_type_of(tag) matches Ok(scalar) ==> scalar.tag() == tag,
{
}

} // verus!
