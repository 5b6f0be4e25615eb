//! Native type expressions and the shapes they resolve to.

use crate::code::same_text;
use crate::dynamo::attribute_value::AttributeValueType;
use crate::error::GenError;
use vstd::prelude::*;
use vstd::string::*;

verus! {

/// A type expression, as far as its syntax matters here.
#[derive(Debug, PartialEq, Eq)]
pub enum TypeExpr {
    /// A path such as `u32`, `Vec<String>` or `std::collections::HashMap<K, V>`.
    Path(Vec<PathSegment>),
    /// Anything else: a tuple, a reference, an array, ...
    Other,
}

/// One segment of a type path.
#[derive(Debug, PartialEq, Eq)]
pub struct PathSegment {
    pub ident: String,
    pub arguments: PathArguments,
}

/// What follows the name of a path segment.
#[derive(Debug, PartialEq, Eq)]
pub enum PathArguments {
    Empty,
    /// `<A, B>`
    AngleBracketed(Vec<GenericArgument>),
    /// `(A, B) -> C`
    Parenthesized,
}

/// One argument between angle brackets.
#[derive(Debug, PartialEq, Eq)]
pub enum GenericArgument {
    Type(TypeExpr),
    /// A lifetime, a constant, a binding, ...
    Other,
}

/// The type of a field: its source text and what the generator reads in it.
#[derive(Debug, PartialEq, Eq)]
pub struct FieldType {
    /// The type as it was written.
    pub tokens: String,
    pub expr: TypeExpr,
}

/// The integer types that travel as numbers.
#[derive(Debug, Copy, Clone, Eq, PartialEq, Structural)]
pub enum IntKind {
    I8,
    U8,
    I16,
    U16,
    I32,
    U32,
    I64,
    U64,
    I128,
    U128,
}

/// What a supported type expression describes.
#[derive(Debug, PartialEq, Eq)]
pub enum Shape {
    Number(IntKind),
    Text,
    Binary,
    Bool,
    /// `Option<()>`: a flag that is present or absent.
    Null,
    /// An embedded record, known by the name of its type.
    Record(String),
    List(Box<Shape>),
    /// A map with text keys.
    Mapping(Box<Shape>),
}

impl Shape {
    /// The wire tag of a value of this shape. A list of scalars is promoted
    /// to the scalar's set; every other list is the generic list.
    pub open spec fn tag(self) -> AttributeValueType
        decreases self,
    {
        match self {
            Shape::Number(_) => AttributeValueType::N,
            Shape::Text => AttributeValueType::S,
            Shape::Binary => AttributeValueType::B,
            Shape::Bool => AttributeValueType::Bool,
            Shape::Null => AttributeValueType::Null,
            Shape::Record(_) => AttributeValueType::M,
            Shape::List(element) => element.tag().plural(),
            Shape::Mapping(_) => AttributeValueType::M,
        }
    }
}

/// The integer type that `ident` names, if any.
pub open spec fn int_kind(ident: Seq<char>) -> Option<IntKind> {
    if ident == "i8"@ {
        Some(IntKind::I8)
    } else if ident == "u8"@ {
        Some(IntKind::U8)
    } else if ident == "i16"@ {
        Some(IntKind::I16)
    } else if ident == "u16"@ {
        Some(IntKind::U16)
    } else if ident == "i32"@ {
        Some(IntKind::I32)
    } else if ident == "u32"@ {
        Some(IntKind::U32)
    } else if ident == "i64"@ {
        Some(IntKind::I64)
    } else if ident == "u64"@ {
        Some(IntKind::U64)
    } else if ident == "i128"@ {
        Some(IntKind::I128)
    } else if ident == "u128"@ {
        Some(IntKind::U128)
    } else {
        None
    }
}

/// The shape of a type that is neither `Vec` nor `HashMap`, by its name
/// alone. A name that is not built in is taken for an embedded record.
pub open spec fn leaf_shape(ident: String) -> Shape {
    if int_kind(ident@) is Some {
        Shape::Number(int_kind(ident@).unwrap())
    } else if ident@ == "String"@ {
        Shape::Text
    } else if ident@ == "Blob"@ {
        Shape::Binary
    } else if ident@ == "bool"@ {
        Shape::Bool
    } else if ident@ == "Option"@ {
        Shape::Null
    } else {
        Shape::Record(ident)
    }
}

/// What is wrong with the key type of a map, if anything: it has to be a
/// path that ends in `String`.
pub open spec fn map_key_error(key: GenericArgument) -> Option<GenError> {
    match key {
        GenericArgument::Type(TypeExpr::Path(segments)) => {
            if segments@.len() == 0 {
                Some(GenError::KeySegmentNotFound)
            } else if segments@.last().ident@ != "String"@ {
                Some(GenError::MapKeyNotString)
            } else {
                None
            }
        },
        _ => Some(GenError::MapKeyNotString),
    }
}

/// The shape that a type expression describes, or the first reason why it
/// describes none.
pub open spec fn shape_of(ty: TypeExpr) -> Result<Shape, GenError>
    decreases ty,
{
    match ty {
        TypeExpr::Other => Err(GenError::UnsupportedType),
        TypeExpr::Path(segments) => {
            if segments@.len() == 0 {
                Err(GenError::SegmentNotFound)
            } else {
                shape_of_segment(segments@.last())
            }
        },
    }
}

/// The shape that the last segment of a type path describes.
pub open spec fn shape_of_segment(segment: PathSegment) -> Result<Shape, GenError>
    decreases segment,
{
    if segment.ident@ == "Vec"@ {
        match segment.arguments {
            PathArguments::AngleBracketed(args) => {
                if args@.len() == 0 {
                    Err(GenError::ArgumentNotFound)
                } else {
                    match args@.last() {
                        GenericArgument::Type(element) => match shape_of(element) {
                            Ok(shape) => Ok(Shape::List(Box::new(shape))),
                            Err(e) => Err(e),
                        },
                        _ => Err(GenError::TypeExpected),
                    }
                }
            },
            _ => Err(GenError::NotAngleBracketed),
        }
    } else if segment.ident@ == "HashMap"@ {
        match segment.arguments {
            PathArguments::AngleBracketed(args) => {
                if args@.len() == 0 {
                    Err(GenError::KeyTypeNotFound)
                } else if map_key_error(args@[0]) is Some {
                    Err(map_key_error(args@[0]).unwrap())
                } else {
                    match args@.last() {
                        GenericArgument::Type(value) => match shape_of(value) {
                            Ok(shape) => Ok(Shape::Mapping(Box::new(shape))),
                            Err(e) => Err(e),
                        },
                        _ => Err(GenError::ValueTypeNotFound),
                    }
                }
            },
            _ => Err(GenError::NotAngleBracketed),
        }
    } else {
        Ok(leaf_shape(segment.ident))
    }
}

/// The wire tag of a type expression, or the first reason why it has none.
pub open spec fn classify(ty: TypeExpr) -> Result<AttributeValueType, GenError> {
    match shape_of(ty) {
        Ok(shape) => Ok(shape.tag()),
        Err(e) => Err(e),
    }
}


impl Shape {
    /// Computes the wire tag of a value of this shape.
    pub fn wire_tag(&self) -> (tag: AttributeValueType)
        ensures
            tag == self.tag(),
        decreases self,
    {
        match self {
            Shape::Number(_) => AttributeValueType::N,
            Shape::Text => AttributeValueType::S,
            Shape::Binary => AttributeValueType::B,
            Shape::Bool => AttributeValueType::Bool,
            Shape::Null => AttributeValueType::Null,
            Shape::Record(_) => AttributeValueType::M,
            Shape::List(element) => element.wire_tag().to_plural(),
            Shape::Mapping(_) => AttributeValueType::M,
        }
    }
}

/// The shape that the name of a type stands for when it is neither `Vec`
/// nor `HashMap`.
pub fn resolve_leaf(ident: &String) -> (shape: Shape)
    ensures
        shape == leaf_shape(*ident),
{
    let name = ident.as_str();
    if same_text(name, "i8") {
        Shape::Number(IntKind::I8)
    } else if same_text(name, "u8") {
        Shape::Number(IntKind::U8)
    } else if same_text(name, "i16") {
        Shape::Number(IntKind::I16)
    } else if same_text(name, "u16") {
        Shape::Number(IntKind::U16)
    } else if same_text(name, "i32") {
        Shape::Number(IntKind::I32)
    } else if same_text(name, "u32") {
        Shape::Number(IntKind::U32)
    } else if same_text(name, "i64") {
        Shape::Number(IntKind::I64)
    } else if same_text(name, "u64") {
        Shape::Number(IntKind::U64)
    } else if same_text(name, "i128") {
        Shape::Number(IntKind::I128)
    } else if same_text(name, "u128") {
        Shape::Number(IntKind::U128)
    } else if same_text(name, "String") {
        Shape::Text
    } else if same_text(name, "Blob") {
        Shape::Binary
    } else if same_text(name, "bool") {
        Shape::Bool
    } else if same_text(name, "Option") {
        Shape::Null
    } else {
        Shape::Record(ident.clone())
    }
}

/// Checks the key type of a map.
pub fn check_map_key(key: &GenericArgument) -> (res: Result<(), GenError>)
    ensures
        match map_key_error(*key) {
            Some(e) => res == Err::<(), GenError>(e),
            None => res is Ok,
        },
{
    match key {
        GenericArgument::Type(TypeExpr::Path(segments)) => {
            if segments.len() == 0 {
                Err(GenError::KeySegmentNotFound)
            } else if !same_text(segments[segments.len() - 1].ident.as_str(), "String") {
                Err(GenError::MapKeyNotString)
            } else {
                Ok(())
            }
        },
        _ => Err(GenError::MapKeyNotString),
    }
}

/// Resolves a type expression to the shape it describes.
pub fn resolve(ty: &TypeExpr) -> (res: Result<Shape, GenError>)
    ensures
        res == shape_of(*ty),
    decreases ty,
{
    let path = match ty {
        TypeExpr::Path(path) => path,
        _ => {
            return Err(GenError::UnsupportedType);
        },
    };
    if path.len() == 0 {
        return Err(GenError::SegmentNotFound);
    }
    let segment = &path[path.len() - 1];
    let name = segment.ident.as_str();
    if same_text(name, "Vec") {
        let args = match &segment.arguments {
            PathArguments::AngleBracketed(args) => args,
            _ => {
                return Err(GenError::NotAngleBracketed);
            },
        };
        if args.len() == 0 {
            return Err(GenError::ArgumentNotFound);
        }
        match &args[args.len() - 1] {
            GenericArgument::Type(element) => {
                let shape = resolve(element)?;
                Ok(Shape::List(Box::new(shape)))
            },
            _ => Err(GenError::TypeExpected),
        }
    } else if same_text(name, "HashMap") {
        let args = match &segment.arguments {
            PathArguments::AngleBracketed(args) => args,
            _ => {
                return Err(GenError::NotAngleBracketed);
            },
        };
        if args.len() == 0 {
            return Err(GenError::KeyTypeNotFound);
        }
        check_map_key(&args[0])?;
        match &args[args.len() - 1] {
            GenericArgument::Type(value) => {
                let shape = resolve(value)?;
                Ok(Shape::Mapping(Box::new(shape)))
            },
            _ => Err(GenError::ValueTypeNotFound),
        }
    } else {
        Ok(resolve_leaf(&segment.ident))
    }
}

/// Classifies a type expression: the wire tag of its values, or the reason
/// why it is not supported.
pub fn classify_type(ty: &TypeExpr) -> (res: Result<AttributeValueType, GenError>)
    ensures
        res == classify(*ty),
{
    let shape = resolve(ty)?;
    Ok(shape.wire_tag())
}

/// A list of scalars is promoted to the scalar's set, and promotion stops
/// there: the list of any list is the generic list around the inner one's
/// own tag.
pub proof fn lemma_list_promotion(element: Shape)
    ensures
        element.tag() == AttributeValueType::N ==> Shape::List(Box::new(element)).tag()
            == AttributeValueType::Ns,
        element.tag() == AttributeValueType::S ==> Shape::List(Box::new(element)).tag()
            == AttributeValueType::Ss,
        element.tag() == AttributeValueType::B ==> Shape::List(Box::new(element)).tag()
            == AttributeValueType::Bs,
        !element.tag().is_scalar() ==> Shape::List(Box::new(element)).tag()
            == AttributeValueType::L,
        Shape::List(Box::new(Shape::List(Box::new(element)))).tag() == AttributeValueType::L,
        Shape::List(Box::new(Shape::List(Box::new(Shape::List(Box::new(element)))))).tag()
            == AttributeValueType::L,
{
    reveal_with_fuel(Shape::tag, 4);
}

/// `Vec<T>` has the shape of a list of what `T` has the shape of, and is
/// refused exactly where `T` is, for the same reason.
pub proof fn lemma_vec_is_list(segment: PathSegment, element: TypeExpr)
    requires
        segment.ident@ == "Vec"@,
        segment.arguments matches PathArguments::AngleBracketed(args) && args@.len() > 0
            && args@.last() == GenericArgument::Type(element),
    ensures
        shape_of_segment(segment) == match shape_of(element) {
            Ok(shape) => Ok::<Shape, GenError>(Shape::List(Box::new(shape))),
            Err(e) => Err(e),
        },
{
}

} // verus!
