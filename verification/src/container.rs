//! What the generator gathers about one field.

use crate::ast::ty::FieldType;
use crate::code::{
    concat_map, join3, join5, join7, join_map, lemma_concat_map_step, lemma_join_map_step,
    literal_string, string_literal,
};
use crate::error::GenError;
use crate::util::{pascal_case, to_pascal_case};
use crate::dynamo::attribute_definition::ScalarAttributeType;
use crate::dynamo::key_schema::KeySchemaType;
use crate::groups::NamedGroups;
use vstd::prelude::*;
use vstd::string::*;

verus! {

/// One field of the structure, with what has been derived for it so far.
#[derive(Debug)]
pub struct Container<'a> {
    /// The field's name.
    pub field_ident: &'a str,
    /// The field's type.
    pub ty: &'a FieldType,
    /// The roles the field has in the table's primary key.
    pub key_schemas: Vec<KeySchemaType>,
    /// The scalar attribute types the field's key markers ask for.
    pub attribute_definitions: Vec<ScalarAttributeType>,
    /// The roles the field has in local secondary indexes, by index name.
    pub local_secondary_index_key_schemas: NamedGroups<KeySchemaType>,
    /// The roles the field has in global secondary indexes, by index name.
    pub global_secondary_index_key_schemas: NamedGroups<KeySchemaType>,
    /// The expression that holds the record in the emitted encoder.
    pub to_attribute_target_ident: &'a str,
    /// The emitted expression that encodes the field.
    pub to_attribute_token_stream: String,
    /// The emitted expression that decodes the field.
    pub from_attribute_token_stream: String,
}

/// What the markers above a field declare.
pub struct Declarations {
    pub key_schemas: Seq<KeySchemaType>,
    pub attribute_definitions: Seq<ScalarAttributeType>,
    pub local_secondary_indexes: Seq<(Seq<char>, Seq<KeySchemaType>)>,
    pub global_secondary_indexes: Seq<(Seq<char>, Seq<KeySchemaType>)>,
}

/// A container as the emitted text depends on it.
pub struct ContainerView {
    pub field_ident: Seq<char>,
    pub ty: FieldType,
    pub declared: Declarations,
    /// The expression that holds the record in the encoder.
    pub target: Seq<char>,
    /// The expression that encodes the field.
    pub encoder: Seq<char>,
    /// The expression that decodes the field.
    pub decoder: Seq<char>,
}

impl<'a> View for Container<'a> {
    type V = ContainerView;

    open spec fn view(&self) -> ContainerView {
        ContainerView {
            field_ident: self.field_ident@,
            ty: *self.ty,
            declared: self.declarations(),
            target: self.to_attribute_target_ident@,
            encoder: self.to_attribute_token_stream@,
            decoder: self.from_attribute_token_stream@,
        }
    }
}

/// The views of `containers`, in their order.
pub open spec fn views(containers: Seq<Container>) -> Seq<ContainerView> {
    Seq::new(containers.len(), |i: int| containers[i]@)
}

impl<'a> Container<'a> {
    /// No index is named twice.
    pub open spec fn wf(self) -> bool {
        self.local_secondary_index_key_schemas.wf()
            && self.global_secondary_index_key_schemas.wf()
    }

    /// What has been declared for the field.
    pub open spec fn declarations(self) -> Declarations {
        Declarations {
            key_schemas: self.key_schemas@,
            attribute_definitions: self.attribute_definitions@,
            local_secondary_indexes: self.local_secondary_index_key_schemas@,
            global_secondary_indexes: self.global_secondary_index_key_schemas@,
        }
    }

    /// Whether `self` differs from `other` in what has been declared for
    /// the field at most.
    pub open spec fn same_expansion(self, other: Container<'a>) -> bool {
        &&& self.field_ident == other.field_ident
        &&& self.ty == other.ty
        &&& self.to_attribute_target_ident == other.to_attribute_target_ident
        &&& self.to_attribute_token_stream == other.to_attribute_token_stream
        &&& self.from_attribute_token_stream == other.from_attribute_token_stream
    }

    /// Whether `self` says of the field's declaration what `other` says:
    /// everything but the two emitted expressions and the type.
    pub open spec fn same_declarations(self, other: Container<'a>) -> bool {
        &&& self.field_ident == other.field_ident
        &&& self.key_schemas == other.key_schemas
        &&& self.attribute_definitions == other.attribute_definitions
        &&& self.local_secondary_index_key_schemas == other.local_secondary_index_key_schemas
        &&& self.global_secondary_index_key_schemas == other.global_secondary_index_key_schemas
        &&& self.to_attribute_target_ident == other.to_attribute_target_ident
    }

    /// Tells whether no index is named twice.
    pub fn is_wf(&self) -> (wf: bool)
        ensures
            wf == self.wf(),
    {
        self.local_secondary_index_key_schemas.is_wf()
            && self.global_secondary_index_key_schemas.is_wf()
    }

    /// The container of a field for which nothing has been derived yet.
    pub fn new(ident: &'a str, ty: &'a FieldType, to_attribute_target_ident: &'a str) -> (container:
        Self)
        ensures
            container.field_ident == ident,
            container.ty == ty,
            container.key_schemas@ == Seq::<KeySchemaType>::empty(),
            container.attribute_definitions@ == Seq::<ScalarAttributeType>::empty(),
            container.local_secondary_index_key_schemas@ == Seq::<
                (Seq<char>, Seq<KeySchemaType>),
            >::empty(),
            container.global_secondary_index_key_schemas@ == Seq::<
                (Seq<char>, Seq<KeySchemaType>),
            >::empty(),
            container.wf(),
            container.to_attribute_target_ident == to_attribute_target_ident,
            container.to_attribute_token_stream@ == Seq::<char>::empty(),
            container.from_attribute_token_stream@ == Seq::<char>::empty(),
    {
        Container {
            field_ident: ident,
            ty,
            key_schemas: Vec::new(),
            attribute_definitions: Vec::new(),
            local_secondary_index_key_schemas: NamedGroups::new(),
            global_secondary_index_key_schemas: NamedGroups::new(),
            to_attribute_target_ident,
            to_attribute_token_stream: String::new(),
            from_attribute_token_stream: String::new(),
        }
    }
}

/// The emitted field of the record that is decoded from the wire map.
pub open spec fn field_initializer() -> spec_fn(ContainerView) -> Seq<char> {
    |view: ContainerView| view.field_ident + ": "@ + view.decoder
}


#[verifier::loop_isolation(false)]
pub fn field_initializers(containers: &Vec<Container>) -> (code: String)
    ensures
        code@ == join_map(views(containers@), field_initializer(), ", "@),
{
    let ghost all = views(containers@);
    let ghost part = field_initializer();
    let mut code = String::new();
    let mut i: usize = 0;
    assert(all.take(0) =~= Seq::empty());
    while i < containers.len()
        invariant
            i <= containers@.len(),
            code@ == join_map(all.take(i as int), part, ", "@),
        decreases containers@.len() - i,
    {
        let c = &containers[i];
        proof {
            lemma_join_map_step(all, part, ", "@, i as int);
        }
        let field = join3(c.field_ident, ": ", c.from_attribute_token_stream.as_str());
        if i == 0 {
            assert(code@ + field@ =~= field@);
            code.append(field.as_str());
        } else {
            code.append(", ");
            code.append(field.as_str());
        }
        i += 1;
    }
    assert(all.take(containers@.len() as int) =~= all);
    code
}


/// The emitted statement that puts the wire item of one field into the wire
/// map.
pub open spec fn map_insert() -> spec_fn(ContainerView) -> Seq<char> {
    |view: ContainerView|
        "map.insert("@ + string_literal(pascal_case(view.field_ident)) + ".to_string(), "@
            + view.encoder + "); "@
}

/// The type of a wire map, as the emitted text spells it.
pub open spec fn wire_map_type() -> Seq<char> {
    "::std::collections::HashMap<::std::string::String, ::aws_sdk_dynamodb::types::AttributeValue>"@
}

/// The emitted conversion of a record into a wire map, by value: it goes
/// through the one by reference.
pub open spec fn impl_from_value(ident: Seq<char>) -> Seq<char> {
    "impl From<"@ + ident + "> for "@ + wire_map_type() + " { fn from(value: "@ + ident
        + ") -> Self { (&value).into() } }"@
}

/// The emitted conversion of a record into a wire map, by reference: one
/// entry for every field, under the field's wire attribute name.
pub open spec fn impl_from_reference(ident: Seq<char>, views: Seq<ContainerView>) -> Seq<char> {
    "impl From<&"@ + ident + "> for "@ + wire_map_type() + " { fn from(value: &"@ + ident
        + ") -> Self { let mut map = ::std::collections::HashMap::new(); "@ + concat_map(
        views,
        map_insert(),
    ) + "map } }"@
}

/// The emitted conversion of a wire map into a record, by value: it goes
/// through the one by reference.
pub open spec fn impl_try_from_value(ident: Seq<char>) -> Seq<char> {
    "impl TryFrom<"@ + wire_map_type() + "> for "@ + ident
        + " { type Error = ::aws_sdk_dynamodb::types::AttributeValue; fn try_from(value: "@
        + wire_map_type() + ") -> Result<Self, Self::Error> { (&value).try_into() } }"@
}

/// The emitted conversion of a wire map into a record, by reference: every
/// field is decoded, and the first wire value that does not fit is the
/// failure.
pub open spec fn impl_try_from_reference(ident: Seq<char>, views: Seq<ContainerView>) -> Seq<
    char,
> {
    "impl TryFrom<&"@ + wire_map_type() + "> for "@ + ident
        + " { type Error = ::aws_sdk_dynamodb::types::AttributeValue; fn try_from(value: &"@
        + wire_map_type() + ") -> Result<Self, Self::Error> { Ok(Self { "@ + join_map(
        views,
        field_initializer(),
        ", "@,
    ) + " }) } }"@
}

/// The four emitted conversions between a record and a wire map.
pub open spec fn impl_conversions(ident: Seq<char>, views: Seq<ContainerView>) -> Seq<Seq<char>> {
    seq![
        impl_from_value(ident),
        impl_from_reference(ident, views),
        impl_try_from_value(ident),
        impl_try_from_reference(ident, views),
    ]
}

/// An emitted item under the attribute that silences the lint against `?`
/// in its last expression.
pub open spec fn allow_question_mark() -> spec_fn(Seq<char>) -> Seq<char> {
    |code: Seq<char>| "#[allow(clippy::needless_question_mark)] "@ + code + " "@
}

/// The emitted items, each under the attribute that silences the lint.
pub open spec fn allowed(impls: Seq<Seq<char>>) -> Seq<char> {
    concat_map(impls, allow_question_mark())
}

/// The views of emitted pieces of text.
pub open spec fn texts(pieces: Seq<String>) -> Seq<Seq<char>> {
    Seq::new(pieces.len(), |i: int| pieces[i]@)
}

/// Emits the conversions between the record `ident` and a wire map, in both
/// directions, by value and by reference.
#[verifier::loop_isolation(false)]
pub fn expand_impl_conversions(ident: &str, containers: &Vec<Container>) -> (res: Result<
    Vec<String>,
    GenError,
>)
    ensures
        res matches Ok(impls) && texts(impls@) == impl_conversions(ident@, views(containers@)),
{
    let ghost all = views(containers@);
    let ghost part = map_insert();
    let map_type =
        "::std::collections::HashMap<::std::string::String, ::aws_sdk_dynamodb::types::AttributeValue>";
    let mut map_inserts = String::new();
    let mut i: usize = 0;
    assert(all.take(0) =~= Seq::empty());
    while i < containers.len()
        invariant
            i <= containers@.len(),
            map_inserts@ == concat_map(all.take(i as int), part),
        decreases containers@.len() - i,
    {
        let c = &containers[i];
        proof {
            lemma_concat_map_step(all, part, i as int);
        }
        let ident_key = literal_string(to_pascal_case(c.field_ident).as_str());
        let insert = join5(
            "map.insert(",
            ident_key.as_str(),
            ".to_string(), ",
            c.to_attribute_token_stream.as_str(),
            "); ",
        );
        map_inserts.append(insert.as_str());
        i += 1;
    }
    assert(all.take(containers@.len() as int) =~= all);
    let from_attr_fields = field_initializers(containers);
    let mut impls: Vec<String> = Vec::new();
    impls.push(
        join7(
            "impl From<",
            ident,
            "> for ",
            map_type,
            " { fn from(value: ",
            ident,
            ") -> Self { (&value).into() } }",
        ),
    );
    impls.push(
        join7(
            "impl From<&",
            ident,
            "> for ",
            map_type,
            " { fn from(value: &",
            ident,
            ") -> Self { let mut map = ::std::collections::HashMap::new(); ",
        ).concat(map_inserts.as_str()).concat("map } }"),
    );
    impls.push(
        join7(
            "impl TryFrom<",
            map_type,
            "> for ",
            ident,
            " { type Error = ::aws_sdk_dynamodb::types::AttributeValue; fn try_from(value: ",
            map_type,
            ") -> Result<Self, Self::Error> { (&value).try_into() } }",
        ),
    );
    impls.push(
        join7(
            "impl TryFrom<&",
            map_type,
            "> for ",
            ident,
            " { type Error = ::aws_sdk_dynamodb::types::AttributeValue; fn try_from(value: &",
            map_type,
            ") -> Result<Self, Self::Error> { Ok(Self { ",
        ).concat(from_attr_fields.as_str()).concat(" }) } }"),
    );
    assert(texts(impls@) =~= impl_conversions(ident@, all));
    Ok(impls)
}

/// Puts every emitted item under the attribute that silences the lint, one
/// after the other.
#[verifier::loop_isolation(false)]
pub fn allow_all(impls: &Vec<String>) -> (code: String)
    ensures
        code@ == allowed(texts(impls@)),
{
    let ghost all = texts(impls@);
    let ghost part = allow_question_mark();
    let mut code = String::new();
    let mut i: usize = 0;
    assert(all.take(0) =~= Seq::empty());
    while i < impls.len()
        invariant
            i <= impls@.len(),
            code@ == concat_map(all.take(i as int), part),
        decreases impls@.len() - i,
    {
        proof {
            lemma_concat_map_step(all, part, i as int);
        }
        let item = join3("#[allow(clippy::needless_question_mark)] ", impls[i].as_str(), " ");
        code.append(item.as_str());
        i += 1;
    }
    assert(all.take(impls@.len() as int) =~= all);
    code
}

} // verus!
