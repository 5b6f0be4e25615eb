//! Wire tags and the promotion rule for lists.

use crate::ast::ty::{
    check_map_key, resolve_leaf, shape_of, FieldType, GenericArgument, PathArguments, PathSegment,
    Shape, TypeExpr,
};
use crate::code::{join2, join3, join4, join5, join6, join7, literal_string, same_text, string_literal};
use crate::container::Container;
use crate::error::GenError;
use crate::util::{pascal_case, to_pascal_case};
use vstd::prelude::*;
use vstd::string::*;

verus! {

/// The tag of a wire value.
#[derive(Debug, Copy, Clone, Eq, PartialEq, Structural)]
pub enum AttributeValueType {
    B,
    Bs,
    Bool,
    L,
    M,
    N,
    Ns,
    Null,
    S,
    Ss,
}

impl AttributeValueType {
    /// The name of the tag, as the store's own value type spells its variant.
    pub open spec fn name(self) -> Seq<char> {
        match self {
            AttributeValueType::B => "B"@,
            AttributeValueType::Bs => "Bs"@,
            AttributeValueType::Bool => "Bool"@,
            AttributeValueType::L => "L"@,
            AttributeValueType::M => "M"@,
            AttributeValueType::N => "N"@,
            AttributeValueType::Ns => "Ns"@,
            AttributeValueType::Null => "Null"@,
            AttributeValueType::S => "S"@,
            AttributeValueType::Ss => "Ss"@,
        }
    }

    /// The name of the method of the store's value type that hands out the
    /// payload of a value with this tag, and the value itself as the failure
    /// when it carries another tag.
    pub open spec fn accessor(self) -> Seq<char> {
        match self {
            AttributeValueType::B => "as_b"@,
            AttributeValueType::Bs => "as_bs"@,
            AttributeValueType::Bool => "as_bool"@,
            AttributeValueType::L => "as_l"@,
            AttributeValueType::M => "as_m"@,
            AttributeValueType::N => "as_n"@,
            AttributeValueType::Ns => "as_ns"@,
            AttributeValueType::Null => "as_null"@,
            AttributeValueType::S => "as_s"@,
            AttributeValueType::Ss => "as_ss"@,
        }
    }

    /// Whether the tag is one of the three scalar ones that a list promotes
    /// to a set.
    pub open spec fn is_scalar(self) -> bool {
        self == AttributeValueType::B || self == AttributeValueType::N || self
            == AttributeValueType::S
    }

    /// The tag of a list whose elements carry the tag `self`: a scalar tag
    /// promotes to its set, anything else is wrapped in the generic list.
    pub open spec fn plural(self) -> AttributeValueType {
        match self {
            AttributeValueType::B => AttributeValueType::Bs,
            AttributeValueType::S => AttributeValueType::Ss,
            AttributeValueType::N => AttributeValueType::Ns,
            _ => AttributeValueType::L,
        }
    }

    /// The name of the tag, as the store's own value type spells its variant.
    pub fn as_str(&self) -> (name: &'static str)
        ensures
            name@ == self.name(),
    {
        match self {
            AttributeValueType::B => "B",
            AttributeValueType::Bs => "Bs",
            AttributeValueType::Bool => "Bool",
            AttributeValueType::L => "L",
            AttributeValueType::M => "M",
            AttributeValueType::N => "N",
            AttributeValueType::Ns => "Ns",
            AttributeValueType::Null => "Null",
            AttributeValueType::S => "S",
            AttributeValueType::Ss => "Ss",
        }
    }

    /// The name of the method that hands out the payload of a value with
    /// this tag.
    pub fn accessor_str(&self) -> (name: &'static str)
        ensures
            name@ == self.accessor(),
    {
        match self {
            AttributeValueType::B => "as_b",
            AttributeValueType::Bs => "as_bs",
            AttributeValueType::Bool => "as_bool",
            AttributeValueType::L => "as_l",
            AttributeValueType::M => "as_m",
            AttributeValueType::N => "as_n",
            AttributeValueType::Ns => "as_ns",
            AttributeValueType::Null => "as_null",
            AttributeValueType::S => "as_s",
            AttributeValueType::Ss => "as_ss",
        }
    }

    /// The tag of a list whose elements carry this tag.
    pub fn to_plural(&self) -> (tag: AttributeValueType)
        ensures
            tag == self.plural(),
    {
        match self {
            AttributeValueType::B => AttributeValueType::Bs,
            AttributeValueType::S => AttributeValueType::Ss,
            AttributeValueType::N => AttributeValueType::Ns,
            _ => AttributeValueType::L,
        }
    }
}

/// Promotion happens once: the plural of a plural is always the generic
/// list, whatever the element tag was.
pub proof fn lemma_promotion_is_single_level(tag: AttributeValueType)
    ensures
        !tag.plural().is_scalar(),
        tag.plural().plural() == AttributeValueType::L,
        tag.is_scalar() <==> tag.plural() != AttributeValueType::L,
{
}


/// The names that the emitted expressions of one field are written over.
pub struct Names {
    /// The field's name, from which its wire attribute name derives.
    pub field: Seq<char>,
    /// The member that the encoder reads.
    pub member: Seq<char>,
    /// The expression that holds the record in the encoder.
    pub target: Seq<char>,
    /// The expression that holds the wire map in the decoder.
    pub source: Seq<char>,
}

/// `depth` underscores.
pub open spec fn underscores(depth: nat) -> Seq<char> {
    Seq::new(depth, |i: int| '_')
}

/// The variable that is bound to one element at nesting level `depth`. The
/// level is spelled in the name, so no level shadows another.
pub open spec fn iterator_name(depth: nat) -> Seq<char> {
    underscores(depth) + "private_iterator"@
}

/// The expression that the encoder reads at nesting level `depth`: the
/// field itself at the top, the element variable below.
pub open spec fn to_collection(names: Names, depth: nat) -> Seq<char> {
    if depth == 0 {
        names.target + "."@ + names.member
    } else {
        iterator_name(depth)
    }
}

/// The expression that the decoder reads at nesting level `depth`: at the
/// top the entry of the wire map under the field's attribute name, with a
/// null value as the failure when there is none; the element variable below.
pub open spec fn from_collection(names: Names, depth: nat) -> Seq<char> {
    if depth == 0 {
        names.source + ".get("@ + string_literal(pascal_case(names.field))
            + ").ok_or(::aws_sdk_dynamodb::types::AttributeValue::Null(true))?"@
    } else {
        iterator_name(depth)
    }
}

/// The constructor of a wire value with the given tag around `payload`.
pub open spec fn attribute_value(tag: AttributeValueType, payload: Seq<char>) -> Seq<char> {
    "::aws_sdk_dynamodb::types::AttributeValue::"@ + tag.name() + "("@ + payload + ")"@
}

/// The payload of `value` under the given tag; a value with another tag
/// leaves the decoder as its failure.
pub open spec fn payload_of(value: Seq<char>, tag: AttributeValueType) -> Seq<char> {
    value + "."@ + tag.accessor() + "().map_err(|e| e.clone())?"@
}

/// `text` parsed into a native number, with a null value as the failure.
pub open spec fn parsed(text: Seq<char>) -> Seq<char> {
    text + ".parse().map_err(|_| ::aws_sdk_dynamodb::types::AttributeValue::Null(true))"@
}

/// The encoder of a value that is no list and no map.
pub open spec fn leaf_encoder(shape: Shape, value: Seq<char>) -> Seq<char> {
    match shape {
        Shape::Number(_) | Shape::Text => attribute_value(shape.tag(), value + ".to_string()"@),
        Shape::Binary | Shape::Bool => attribute_value(shape.tag(), value + ".clone()"@),
        Shape::Null => attribute_value(shape.tag(), value + ".is_none()"@),
        _ => attribute_value(AttributeValueType::M, "(&"@ + value + ".clone()).into()"@),
    }
}

/// The decoder of a value that is no list and no map.
pub open spec fn leaf_decoder(shape: Shape, value: Seq<char>) -> Seq<char> {
    match shape {
        Shape::Number(_) => parsed(payload_of(value, AttributeValueType::N)) + "?"@,
        Shape::Text => payload_of(value, AttributeValueType::S) + ".to_string()"@,
        Shape::Binary => payload_of(value, AttributeValueType::B) + ".clone()"@,
        Shape::Bool => "*"@ + payload_of(value, AttributeValueType::Bool),
        Shape::Null => "if *"@ + payload_of(value, AttributeValueType::Null)
            + " { None } else { Some(()) }"@,
        _ => payload_of(value, AttributeValueType::M)
            + ".try_into().map_err(|_| ::aws_sdk_dynamodb::types::AttributeValue::Null(true))?"@,
    }
}

/// How one element of a list is encoded: a scalar goes into its set as it
/// is, anything else by its own encoder.
pub open spec fn element_encoder(
    element: AttributeValueType,
    iterator: Seq<char>,
    nested: Seq<char>,
) -> Seq<char> {
    match element {
        AttributeValueType::B => iterator + ".clone()"@,
        AttributeValueType::S | AttributeValueType::N => iterator + ".to_string()"@,
        _ => nested,
    }
}

/// How one element of a list is decoded.
pub open spec fn element_decoder(
    element: AttributeValueType,
    iterator: Seq<char>,
    nested: Seq<char>,
) -> Seq<char> {
    match element {
        AttributeValueType::B => "Ok("@ + iterator + ".clone())"@,
        AttributeValueType::S => "Ok("@ + iterator + ".to_string())"@,
        AttributeValueType::N => parsed(iterator),
        _ => "Ok("@ + nested + ")"@,
    }
}

/// The encoder of a list whose elements carry the tag `element`.
pub open spec fn list_encoder(
    collection: Seq<char>,
    iterator: Seq<char>,
    element: AttributeValueType,
    nested: Seq<char>,
) -> Seq<char> {
    attribute_value(
        element.plural(),
        collection + ".iter().map(|"@ + iterator + "| "@ + element_encoder(
            element,
            iterator,
            nested,
        ) + ").collect()"@,
    )
}

/// The decoder of a list whose elements carry the tag `element`: the first
/// element that fails is the failure of the whole list.
pub open spec fn list_decoder(
    collection: Seq<char>,
    iterator: Seq<char>,
    element: AttributeValueType,
    nested: Seq<char>,
) -> Seq<char> {
    payload_of(collection, element.plural()) + ".iter().map(|"@ + iterator + "| "@
        + element_decoder(element, iterator, nested) + ").collect::<Result<Vec<_>, _>>()?"@
}

/// The encoder of a map with text keys.
pub open spec fn map_encoder(
    collection: Seq<char>,
    iterator: Seq<char>,
    nested: Seq<char>,
) -> Seq<char> {
    "{ let mut __private_tobe_map = HashMap::new(); "@ + collection
        + ".iter().for_each(|(__private_key, "@ + iterator + ")| { let __nested_value = "@ + nested
        + "; __private_tobe_map.insert(__private_key.to_string(), __nested_value); }); "@
        + attribute_value(AttributeValueType::M, "__private_tobe_map"@) + " }"@
}

/// The decoder of a map with text keys: the first entry that fails is the
/// failure of the whole map.
pub open spec fn map_decoder(
    collection: Seq<char>,
    iterator: Seq<char>,
    nested: Seq<char>,
) -> Seq<char> {
    "{ let mut __private_tobe_map = HashMap::new(); "@ + payload_of(
        collection,
        AttributeValueType::M,
    ) + ".iter().try_for_each(|(__private_key, "@ + iterator + ")| { let __nested_value = "@
        + nested
        + "; __private_tobe_map.insert(__private_key.to_string(), __nested_value); Ok(()) })?; Ok(__private_tobe_map) }?"@
}

/// The emitted expression that encodes a value of the given shape found at
/// nesting level `depth`.
pub open spec fn encoder(names: Names, shape: Shape, depth: nat) -> Seq<char>
    decreases shape,
{
    match shape {
        Shape::List(element) => list_encoder(
            to_collection(names, depth),
            iterator_name(depth + 1),
            element.tag(),
            encoder(names, *element, depth + 1),
        ),
        Shape::Mapping(value) => map_encoder(
            to_collection(names, depth),
            iterator_name(depth + 1),
            encoder(names, *value, depth + 1),
        ),
        _ => leaf_encoder(shape, to_collection(names, depth)),
    }
}

/// The emitted expression that decodes a value of the given shape found at
/// nesting level `depth`.
pub open spec fn decoder(names: Names, shape: Shape, depth: nat) -> Seq<char>
    decreases shape,
{
    match shape {
        Shape::List(element) => list_decoder(
            from_collection(names, depth),
            iterator_name(depth + 1),
            element.tag(),
            decoder(names, *element, depth + 1),
        ),
        Shape::Mapping(value) => map_decoder(
            from_collection(names, depth),
            iterator_name(depth + 1),
            decoder(names, *value, depth + 1),
        ),
        _ => leaf_decoder(shape, from_collection(names, depth)),
    }
}

/// The expressions that one nesting level is written over.
#[derive(Debug)]
pub struct IterVariants {
    /// What the encoder reads at this level.
    pub to_attribute_collection: String,
    /// What the decoder reads at this level.
    pub from_attribute_collection: String,
    /// The variable bound to one element of this level.
    pub iterator: String,
}

impl IterVariants {
    /// Whether these are the expressions of nesting level `depth`.
    pub open spec fn at(self, names: Names, depth: nat) -> bool {
        &&& self.to_attribute_collection@ == to_collection(names, depth)
        &&& self.from_attribute_collection@ == from_collection(names, depth)
        &&& self.iterator@ == iterator_name(depth + 1)
    }
}

/// A run of `depth` underscores.
fn underscore_run(depth: usize) -> (run: String)
    ensures
        run@ == underscores(depth as nat),
{
    let mut run = String::new();
    let mut i: usize = 0;
    while i < depth
        invariant
            i <= depth,
            run@ == underscores(i as nat),
        decreases depth - i,
    {
        run.push('_');
        i += 1;
        assert(run@ =~= underscores(i as nat));
    }
    assert(run@ =~= underscores(depth as nat));
    run
}

/// The expressions of nesting level `depth` of one field.
pub fn get_iter_variants(
    field_id: &str,
    to_attribute_ident: &str,
    to_attribute_target_ident: &str,
    from_attribute_ident: &str,
    depth: usize,
) -> (variants: IterVariants)
    ensures
        variants.at(
            Names {
                field: field_id@,
                member: to_attribute_ident@,
                target: to_attribute_target_ident@,
                source: from_attribute_ident@,
            },
            depth as nat,
        ),
{
    let run = underscore_run(depth);
    let mut deeper = run.clone();
    deeper.push('_');
    assert(deeper@ =~= underscores((depth + 1) as nat));
    let iterator = deeper.concat("private_iterator");
    if depth == 0 {
        let field_id_as_key = literal_string(to_pascal_case(field_id).as_str());
        IterVariants {
            to_attribute_collection: join3(to_attribute_target_ident, ".", to_attribute_ident),
            from_attribute_collection: join4(
                from_attribute_ident,
                ".get(",
                field_id_as_key.as_str(),
                ").ok_or(::aws_sdk_dynamodb::types::AttributeValue::Null(true))?",
            ),
            iterator,
        }
    } else {
        let here = run.concat("private_iterator");
        IterVariants {
            to_attribute_collection: here.clone(),
            from_attribute_collection: here,
            iterator,
        }
    }
}

/// Emits the constructor of a wire value around `payload`.
fn attribute_value_code(tag: AttributeValueType, payload: &str) -> (code: String)
    ensures
        code@ == attribute_value(tag, payload@),
{
    join5("::aws_sdk_dynamodb::types::AttributeValue::", tag.as_str(), "(", payload, ")")
}

/// Emits the read of the payload of `value` under `tag`.
fn payload_of_code(value: &str, tag: AttributeValueType) -> (code: String)
    ensures
        code@ == payload_of(value@, tag),
{
    join4(value, ".", tag.accessor_str(), "().map_err(|e| e.clone())?")
}

/// Emits the parse of `text` into a native number.
fn parsed_code(text: &str) -> (code: String)
    ensures
        code@ == parsed(text@),
{
    join2(text, ".parse().map_err(|_| ::aws_sdk_dynamodb::types::AttributeValue::Null(true))")
}

/// Emits the two expressions of a value that is no list and no map.
fn expand_leaf<'a>(mut container: Container<'a>, shape: &Shape, iter_variants: &IterVariants) -> (res:
    (Container<'a>, AttributeValueType))
    requires
        !(shape is List),
        !(shape is Mapping),
    ensures
        res.1 == shape.tag(),
        res.0.to_attribute_token_stream@ == leaf_encoder(
            *shape,
            iter_variants.to_attribute_collection@,
        ),
        res.0.from_attribute_token_stream@ == leaf_decoder(
            *shape,
            iter_variants.from_attribute_collection@,
        ),
        res.0.same_declarations(container),
        res.0.ty == container.ty,
{
    let to = iter_variants.to_attribute_collection.as_str();
    let from = iter_variants.from_attribute_collection.as_str();
    let tag = match shape {
        Shape::Number(_) => {
            container.to_attribute_token_stream = attribute_value_code(
                AttributeValueType::N,
                join2(to, ".to_string()").as_str(),
            );
            container.from_attribute_token_stream = join2(
                parsed_code(payload_of_code(from, AttributeValueType::N).as_str()).as_str(),
                "?",
            );
            AttributeValueType::N
        },
        Shape::Text => {
            container.to_attribute_token_stream = attribute_value_code(
                AttributeValueType::S,
                join2(to, ".to_string()").as_str(),
            );
            container.from_attribute_token_stream = join2(
                payload_of_code(from, AttributeValueType::S).as_str(),
                ".to_string()",
            );
            AttributeValueType::S
        },
        Shape::Binary => {
            container.to_attribute_token_stream = attribute_value_code(
                AttributeValueType::B,
                join2(to, ".clone()").as_str(),
            );
            container.from_attribute_token_stream = join2(
                payload_of_code(from, AttributeValueType::B).as_str(),
                ".clone()",
            );
            AttributeValueType::B
        },
        Shape::Bool => {
            container.to_attribute_token_stream = attribute_value_code(
                AttributeValueType::Bool,
                join2(to, ".clone()").as_str(),
            );
            container.from_attribute_token_stream = join2(
                "*",
                payload_of_code(from, AttributeValueType::Bool).as_str(),
            );
            AttributeValueType::Bool
        },
        Shape::Null => {
            container.to_attribute_token_stream = attribute_value_code(
                AttributeValueType::Null,
                join2(to, ".is_none()").as_str(),
            );
            container.from_attribute_token_stream = join3(
                "if *",
                payload_of_code(from, AttributeValueType::Null).as_str(),
                " { None } else { Some(()) }",
            );
            AttributeValueType::Null
        },
        _ => {
            container.to_attribute_token_stream = attribute_value_code(
                AttributeValueType::M,
                join3("(&", to, ".clone()).into()").as_str(),
            );
            container.from_attribute_token_stream = join2(
                payload_of_code(from, AttributeValueType::M).as_str(),
                ".try_into().map_err(|_| ::aws_sdk_dynamodb::types::AttributeValue::Null(true))?",
            );
            AttributeValueType::M
        },
    };
    (container, tag)
}

/// Wraps the two expressions of an element into those of the list of such
/// elements. A scalar element promotes the list to the scalar's set; the
/// set's expressions do not go through the element's own.
pub fn expand_plural_nested<'a>(
    mut container: Container<'a>,
    nested_type: AttributeValueType,
    iter_variants: &IterVariants,
) -> (res: (Container<'a>, AttributeValueType))
    ensures
        res.1 == nested_type.plural(),
        res.0.to_attribute_token_stream@ == list_encoder(
            iter_variants.to_attribute_collection@,
            iter_variants.iterator@,
            nested_type,
            container.to_attribute_token_stream@,
        ),
        res.0.from_attribute_token_stream@ == list_decoder(
            iter_variants.from_attribute_collection@,
            iter_variants.iterator@,
            nested_type,
            container.from_attribute_token_stream@,
        ),
        res.0.same_declarations(container),
        res.0.ty == container.ty,
{
    let to = iter_variants.to_attribute_collection.as_str();
    let from = iter_variants.from_attribute_collection.as_str();
    let iterator = iter_variants.iterator.as_str();
    let attribute_value_type = nested_type.to_plural();
    let (element_to, element_from) = match nested_type {
        AttributeValueType::B => (
            join2(iterator, ".clone()"),
            join3("Ok(", iterator, ".clone())"),
        ),
        AttributeValueType::S => (
            join2(iterator, ".to_string()"),
            join3("Ok(", iterator, ".to_string())"),
        ),
        AttributeValueType::N => (join2(iterator, ".to_string()"), parsed_code(iterator)),
        _ => (
            container.to_attribute_token_stream.clone(),
            join3("Ok(", container.from_attribute_token_stream.as_str(), ")"),
        ),
    };
    container.to_attribute_token_stream = attribute_value_code(
        attribute_value_type,
        join6(to, ".iter().map(|", iterator, "| ", element_to.as_str(), ").collect()").as_str(),
    );
    container.from_attribute_token_stream = join6(
        payload_of_code(from, attribute_value_type).as_str(),
        ".iter().map(|",
        iterator,
        "| ",
        element_from.as_str(),
        ").collect::<Result<Vec<_>, _>>()?",
    );
    (container, attribute_value_type)
}


/// Wraps the two expressions of a value into those of the map of such
/// values. Keys stay as they are.
fn expand_map_nested<'a>(mut container: Container<'a>, iter_variants: &IterVariants) -> (res: (
    Container<'a>,
    AttributeValueType,
))
    ensures
        res.1 == AttributeValueType::M,
        res.0.to_attribute_token_stream@ == map_encoder(
            iter_variants.to_attribute_collection@,
            iter_variants.iterator@,
            container.to_attribute_token_stream@,
        ),
        res.0.from_attribute_token_stream@ == map_decoder(
            iter_variants.from_attribute_collection@,
            iter_variants.iterator@,
            container.from_attribute_token_stream@,
        ),
        res.0.same_declarations(container),
        res.0.ty == container.ty,
{
    let to = iter_variants.to_attribute_collection.as_str();
    let from = iter_variants.from_attribute_collection.as_str();
    let iterator = iter_variants.iterator.as_str();
    let entries = join7(
        "{ let mut __private_tobe_map = HashMap::new(); ",
        to,
        ".iter().for_each(|(__private_key, ",
        iterator,
        ")| { let __nested_value = ",
        container.to_attribute_token_stream.as_str(),
        "; __private_tobe_map.insert(__private_key.to_string(), __nested_value); }); ",
    );
    let expanded_to = join3(
        entries.as_str(),
        attribute_value_code(AttributeValueType::M, "__private_tobe_map").as_str(),
        " }",
    );
    let expanded_from = join7(
        "{ let mut __private_tobe_map = HashMap::new(); ",
        payload_of_code(from, AttributeValueType::M).as_str(),
        ".iter().try_for_each(|(__private_key, ",
        iterator,
        ")| { let __nested_value = ",
        container.from_attribute_token_stream.as_str(),
        "; __private_tobe_map.insert(__private_key.to_string(), __nested_value); Ok(()) })?; Ok(__private_tobe_map) }?",
    );
    container.to_attribute_token_stream = expanded_to;
    container.from_attribute_token_stream = expanded_from;
    (container, AttributeValueType::M)
}

/// The names that the expressions of `container` are written over, given
/// the member to read and the wire map to decode from.
pub open spec fn names_of(container: Container, member: Seq<char>, source: Seq<char>) -> Names {
    Names {
        field: container.field_ident@,
        member,
        target: container.to_attribute_target_ident@,
        source,
    }
}

/// What an expansion owes: the refusal of a type that has no shape, with its
/// reason; for a type that has one, its wire tag and the two expressions of
/// that shape, in a container that says of the field what `before` said.
pub open spec fn expanded<'a>(
    res: Result<(Container<'a>, AttributeValueType), GenError>,
    names: Names,
    shape: Result<Shape, GenError>,
    depth: nat,
    before: Container<'a>,
) -> bool {
    match shape {
        Err(e) => res matches Err(err) && err == e,
        Ok(shape) => {
            &&& res matches Ok((container, tag))
            &&& tag == shape.tag()
            &&& container.to_attribute_token_stream@ == encoder(names, shape, depth)
            &&& container.from_attribute_token_stream@ == decoder(names, shape, depth)
            &&& container.same_declarations(before)
            &&& container.ty == before.ty
        },
    }
}

/// Expands a type expression found at nesting level `depth`.
fn expand_type<'a>(
    to_attribute_ident: &str,
    from_attribute_ident: &str,
    ty: &TypeExpr,
    depth: usize,
    container: Container<'a>,
) -> (res: Result<(Container<'a>, AttributeValueType), GenError>)
    ensures
        expanded(
            res,
            names_of(container, to_attribute_ident@, from_attribute_ident@),
            shape_of(*ty),
            depth as nat,
            container,
        ),
    decreases ty,
{
    match ty {
        TypeExpr::Path(path) => expand_path(
            to_attribute_ident,
            from_attribute_ident,
            path,
            depth,
            container,
        ),
        _ => Err(GenError::UnsupportedType),
    }
}

/// Expands a type path found at nesting level `depth`, by its last segment:
/// `Vec` and `HashMap` go down into their last argument and wrap what comes
/// back, every other name is a leaf.
pub fn expand_path<'a>(
    to_attribute_ident: &str,
    from_attribute_ident: &str,
    path: &Vec<PathSegment>,
    depth: usize,
    container: Container<'a>,
) -> (res: Result<(Container<'a>, AttributeValueType), GenError>)
    ensures
        expanded(
            res,
            names_of(container, to_attribute_ident@, from_attribute_ident@),
            shape_of(TypeExpr::Path(*path)),
            depth as nat,
            container,
        ),
    decreases path,
{
    let iter_variants = get_iter_variants(
        container.field_ident,
        to_attribute_ident,
        container.to_attribute_target_ident,
        from_attribute_ident,
        depth,
    );
    // The name of the element variable holds `depth + 1` underscores, so
    // that number fits.
    let spelled = iter_variants.iterator.as_str().unicode_len();
    assert(depth + 1 <= spelled);
    if path.len() == 0 {
        return Err(GenError::SegmentNotFound);
    }
    let path_segment = &path[path.len() - 1];
    let name = path_segment.ident.as_str();
    if same_text(name, "Vec") {
        let args = match &path_segment.arguments {
            PathArguments::AngleBracketed(args) => args,
            _ => {
                return Err(GenError::NotAngleBracketed);
            },
        };
        if args.len() == 0 {
            return Err(GenError::ArgumentNotFound);
        }
        match &args[args.len() - 1] {
            GenericArgument::Type(element) => {
                let (container, nested_type) = expand_type(
                    to_attribute_ident,
                    from_attribute_ident,
                    element,
                    depth + 1,
                    container,
                )?;
                Ok(expand_plural_nested(container, nested_type, &iter_variants))
            },
            _ => Err(GenError::TypeExpected),
        }
    } else if same_text(name, "HashMap") {
        let args = match &path_segment.arguments {
            PathArguments::AngleBracketed(args) => args,
            _ => {
                return Err(GenError::NotAngleBracketed);
            },
        };
        if args.len() == 0 {
            return Err(GenError::KeyTypeNotFound);
        }
        check_map_key(&args[0])?;
        match &args[args.len() - 1] {
            GenericArgument::Type(value) => {
                let (container, _) = expand_type(
                    to_attribute_ident,
                    from_attribute_ident,
                    value,
                    depth + 1,
                    container,
                )?;
                Ok(expand_map_nested(container, &iter_variants))
            },
            _ => Err(GenError::ValueTypeNotFound),
        }
    } else {
        let shape = resolve_leaf(&path_segment.ident);
        Ok(expand_leaf(container, &shape, &iter_variants))
    }
}

/// Expands the type of a field: classifies it and emits the expression that
/// encodes the field and the one that decodes it. `depth` is the nesting
/// level the field stands at, 0 for a field of the record itself.
pub fn expand_attribute_value<'a>(
    to_attribute_ident: &str,
    from_attribute_ident: &str,
    ty: &'a FieldType,
    depth: usize,
    container: Container<'a>,
) -> (res: Result<(Container<'a>, AttributeValueType), GenError>)
    ensures
        expanded(
            res,
            names_of(container, to_attribute_ident@, from_attribute_ident@),
            shape_of(ty.expr),
            depth as nat,
            Container { ty, ..container },
        ),
{
    let (mut container, nested_type) = expand_type(
        to_attribute_ident,
        from_attribute_ident,
        &ty.expr,
        depth,
        container,
    )?;
    container.ty = ty;
    Ok((container, nested_type))
}

} // verus!
