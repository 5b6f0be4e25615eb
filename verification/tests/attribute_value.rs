use aws_dynamo_derive::ast::ty::{
    classify_type, resolve, FieldType, GenericArgument, IntKind, PathArguments, PathSegment,
    Shape, TypeExpr,
};
use aws_dynamo_derive::container::Container;
use aws_dynamo_derive::dynamo::attribute_value::{
    expand_attribute_value, expand_path, expand_plural_nested, get_iter_variants,
    AttributeValueType,
};
use aws_dynamo_derive::error::GenError;

fn tokens(text: &str) -> Vec<String> {
    fn walk(stream: proc_macro2::TokenStream, out: &mut Vec<String>) {
        for tree in stream {
            match tree {
                proc_macro2::TokenTree::Group(group) => {
                    let (open, close) = match group.delimiter() {
                        proc_macro2::Delimiter::Parenthesis => ("(", ")"),
                        proc_macro2::Delimiter::Brace => ("{", "}"),
                        proc_macro2::Delimiter::Bracket => ("[", "]"),
                        proc_macro2::Delimiter::None => ("", ""),
                    };
                    out.push(open.to_string());
                    walk(group.stream(), out);
                    out.push(close.to_string());
                }
                other => out.push(other.to_string()),
            }
        }
    }
    let stream: proc_macro2::TokenStream = text.parse().unwrap();
    let mut out = Vec::new();
    walk(stream, &mut out);
    out
}

fn type_expr(ty: &syn::Type) -> TypeExpr {
    match ty {
        syn::Type::Path(path) => TypeExpr::Path(
            path.path
                .segments
                .iter()
                .map(|segment| PathSegment {
                    ident: segment.ident.to_string(),
                    arguments: match &segment.arguments {
                        syn::PathArguments::None => PathArguments::Empty,
                        syn::PathArguments::AngleBracketed(args) => PathArguments::AngleBracketed(
                            args.args
                                .iter()
                                .map(|arg| match arg {
                                    syn::GenericArgument::Type(ty) => {
                                        GenericArgument::Type(type_expr(ty))
                                    }
                                    _ => GenericArgument::Other,
                                })
                                .collect(),
                        ),
                        syn::PathArguments::Parenthesized(_) => PathArguments::Parenthesized,
                    },
                })
                .collect(),
        ),
        _ => TypeExpr::Other,
    }
}

fn field_type(text: &str) -> FieldType {
    let ty: syn::Type = match syn::parse_str(text) {
        Ok(ty) => ty,
        Err(e) => panic!("{text}: {e}"),
    };
    FieldType {
        tokens: quote::ToTokens::to_token_stream(&ty).to_string(),
        expr: type_expr(&ty),
    }
}

struct AttrValueCtx {
    to_attribute_ident: String,
    to_attribute_target_ident: String,
    from_attribute_ident: String,
    ty: FieldType,
}

fn setup() -> AttrValueCtx {
    AttrValueCtx {
        to_attribute_ident: "foo".to_string(),
        to_attribute_target_ident: "self".to_string(),
        from_attribute_ident: "__private_from_attribute_value".to_string(),
        ty: field_type("i32"),
    }
}

fn expand(ctx: &AttrValueCtx, ty: &FieldType) -> Result<(String, String, AttributeValueType), GenError> {
    let container = Container::new(
        &ctx.to_attribute_ident,
        &ctx.ty,
        &ctx.to_attribute_target_ident,
    );
    let (container, root_ty) = expand_attribute_value(
        &ctx.to_attribute_ident,
        &ctx.from_attribute_ident,
        ty,
        0,
        container,
    )?;
    assert_eq!(container.ty.tokens, ty.tokens);
    assert_eq!(container.field_ident, "foo");
    assert!(container.key_schemas.is_empty());
    Ok((
        container.to_attribute_token_stream,
        container.from_attribute_token_stream,
        root_ty,
    ))
}

fn simple_types(ctx: &AttrValueCtx) -> Result<(), GenError> {
    let string_type = field_type("String");
    let expected = "::aws_sdk_dynamodb::types::AttributeValue::S(self.foo.to_string())";
    let (to, _, root_ty) = expand(ctx, &string_type)?;
    assert_eq!(tokens(&to), tokens(expected));
    assert_eq!(root_ty, AttributeValueType::S);

    let number_types = ["i8", "u8", "i16", "u16", "i32", "i64", "u64", "i128", "u128"];
    let expected = "::aws_sdk_dynamodb::types::AttributeValue::N(self.foo.to_string())";
    for t in number_types {
        let (to, _, root_ty) = expand(ctx, &field_type(t))?;
        assert_eq!(tokens(&to), tokens(expected));
        assert_eq!(root_ty, AttributeValueType::N);
    }

    let blob_type = field_type("Blob");
    let (to, _, root_ty) = expand(ctx, &blob_type)?;
    let expected = "::aws_sdk_dynamodb::types::AttributeValue::B(self.foo.clone())";
    assert_eq!(tokens(&to), tokens(expected));
    assert_eq!(root_ty, AttributeValueType::B);

    let bool_type = field_type("bool");
    let expected = "::aws_sdk_dynamodb::types::AttributeValue::Bool(self.foo.clone())";
    let (to, _, root_ty) = expand(ctx, &bool_type)?;
    assert_eq!(tokens(&to), tokens(expected));
    assert_eq!(root_ty, AttributeValueType::Bool);

    let null_type = field_type("Option<()>");
    let expected = "::aws_sdk_dynamodb::types::AttributeValue::Null(self.foo.is_none())";
    let (to, _, root_ty) = expand(ctx, &null_type)?;
    assert_eq!(tokens(&to), tokens(expected));
    assert_eq!(root_ty, AttributeValueType::Null);

    Ok(())
}

fn list_types(ctx: &AttrValueCtx) -> Result<(), GenError> {
    let string_list_type = field_type("Vec<String>");
    let expected = "
        ::aws_sdk_dynamodb::types::AttributeValue::Ss(
            self.foo
                .iter()
                .map(|_private_iterator| _private_iterator.to_string())
                .collect()
        )";
    let (to, _, root_ty) = expand(ctx, &string_list_type)?;
    assert_eq!(tokens(&to), tokens(expected));
    assert_eq!(root_ty, AttributeValueType::Ss);

    let number_list_types = ["Vec<i8>", "Vec<u8>", "Vec<i16>", "Vec<i32>", "Vec<i128>", "Vec<u128>"];
    let expected = "
        ::aws_sdk_dynamodb::types::AttributeValue::Ns(
            self.foo
                .iter()
                .map(|_private_iterator| _private_iterator.to_string())
                .collect()
        )";
    for t in number_list_types {
        let (to, _, root_ty) = expand(ctx, &field_type(t))?;
        assert_eq!(tokens(&to), tokens(expected));
        assert_eq!(root_ty, AttributeValueType::Ns);
    }

    let blob_list_type = field_type("Vec<Blob>");
    let expected = "
        ::aws_sdk_dynamodb::types::AttributeValue::Bs(
            self.foo
                .iter()
                .map(|_private_iterator| _private_iterator.clone())
                .collect()
        )";
    let (to, _, root_ty) = expand(ctx, &blob_list_type)?;
    assert_eq!(tokens(&to), tokens(expected));
    assert_eq!(root_ty, AttributeValueType::Bs);

    let nested_number_list_types = ["Vec<Vec<u8>>", "Vec<Vec<i32>>", "Vec<Vec<u128>>"];
    let expected = "
        ::aws_sdk_dynamodb::types::AttributeValue::L(
            self.foo
                .iter()
                .map(|_private_iterator|
                    ::aws_sdk_dynamodb::types::AttributeValue::Ns(
                        _private_iterator
                            .iter()
                            .map(|__private_iterator| __private_iterator.to_string())
                            .collect()
                    )
                )
                .collect()
        )";
    for t in nested_number_list_types {
        let (to, _, root_ty) = expand(ctx, &field_type(t))?;
        assert_eq!(tokens(&to), tokens(expected));
        assert_eq!(root_ty, AttributeValueType::L);
    }

    Ok(())
}

fn map_not_string_key_fail(ctx: &AttrValueCtx) {
    let map = field_type("HashMap<i32, String>");
    let err = expand(ctx, &map);
    assert_eq!(
        err.err().unwrap().to_string(),
        "key type of HashMap must be String"
    );
}

fn map_types(ctx: &AttrValueCtx) -> Result<(), GenError> {
    let number_map_types = ["HashMap<String, u8>", "HashMap<String, u64>", "HashMap<String, i128>"];
    let expected = "
        {
            let mut __private_tobe_map = HashMap::new();
            self.foo
                .iter()
                .for_each(|(__private_key, _private_iterator)| {
                    let __nested_value =
                        ::aws_sdk_dynamodb::types::AttributeValue::N(_private_iterator.to_string());
                    __private_tobe_map.insert(__private_key.to_string(), __nested_value);
                });
            ::aws_sdk_dynamodb::types::AttributeValue::M(__private_tobe_map)
        }";
    for t in number_map_types {
        let (to, _, root_ty) = expand(ctx, &field_type(t))?;
        assert_eq!(tokens(&to), tokens(expected));
        assert_eq!(root_ty, AttributeValueType::M);
    }

    let nested_map_type = field_type("HashMap<String, Vec<HashMap<String, String>>>");
    let expected = "
        {
            let mut __private_tobe_map = HashMap::new();
            self.foo
                .iter()
                .for_each(|(__private_key, _private_iterator)| {
                    let __nested_value = ::aws_sdk_dynamodb::types::AttributeValue::L(
                        _private_iterator
                            .iter()
                            .map(|__private_iterator| {
                                let mut __private_tobe_map = HashMap::new();
                                __private_iterator.iter().for_each(
                                    |(__private_key, ___private_iterator)| {
                                        let __nested_value = ::aws_sdk_dynamodb::types::AttributeValue::S(
                                            ___private_iterator.to_string()
                                        );
                                        __private_tobe_map
                                            .insert(__private_key.to_string(), __nested_value);
                                    }
                                );
                                ::aws_sdk_dynamodb::types::AttributeValue::M(__private_tobe_map)
                            })
                            .collect()
                    );
                    __private_tobe_map.insert(__private_key.to_string(), __nested_value);
                });
            ::aws_sdk_dynamodb::types::AttributeValue::M(__private_tobe_map)
        }";
    let (to, _, root_ty) = expand(ctx, &nested_map_type)?;
    assert_eq!(tokens(&to), tokens(expected));
    assert_eq!(root_ty, AttributeValueType::M);

    Ok(())
}

#[test]
fn test_simple_types() -> Result<(), GenError> {
    simple_types(&setup())
}

#[test]
fn attribute_value_test_simple_types() -> Result<(), GenError> {
    simple_types(&setup())
}

#[test]
fn test_list_types() -> Result<(), GenError> {
    list_types(&setup())
}

#[test]
fn attribute_value_test_list_types() -> Result<(), GenError> {
    list_types(&setup())
}

#[test]
fn test_map_not_string_key_fail() {
    map_not_string_key_fail(&setup())
}

#[test]
fn attribute_value_test_map_not_string_key_fail() {
    map_not_string_key_fail(&setup())
}

#[test]
fn test_map() -> Result<(), GenError> {
    map_types(&setup())
}

#[test]
fn attribute_value_test_map() -> Result<(), GenError> {
    map_types(&setup())
}

#[test]
fn decoders_of_simple_types() -> Result<(), GenError> {
    let ctx = setup();
    let source = "__private_from_attribute_value.get(\"Foo\").ok_or(::aws_sdk_dynamodb::types::AttributeValue::Null(true))?";
    let (_, from, _) = expand(&ctx, &field_type("u32"))?;
    assert_eq!(
        tokens(&from),
        tokens(&format!(
            "{source}.as_n()
                .map_err(|e| e.clone())?
                .parse()
                .map_err(|_| ::aws_sdk_dynamodb::types::AttributeValue::Null(true))?"
        ))
    );
    let (_, from, _) = expand(&ctx, &field_type("String"))?;
    assert_eq!(
        tokens(&from),
        tokens(&format!("{source}.as_s().map_err(|e| e.clone())?.to_string()"))
    );
    let (_, from, _) = expand(&ctx, &field_type("Blob"))?;
    assert_eq!(
        tokens(&from),
        tokens(&format!("{source}.as_b().map_err(|e| e.clone())?.clone()"))
    );
    let (_, from, _) = expand(&ctx, &field_type("bool"))?;
    assert_eq!(
        tokens(&from),
        tokens(&format!("*{source}.as_bool().map_err(|e| e.clone())?"))
    );
    let (_, from, _) = expand(&ctx, &field_type("Option<()>"))?;
    assert_eq!(
        tokens(&from),
        tokens(&format!(
            "if *{source}.as_null().map_err(|e| e.clone())? {{
                None
            }} else {{
                Some(())
            }}"
        ))
    );
    Ok(())
}

#[test]
fn an_unknown_name_is_an_embedded_record() -> Result<(), GenError> {
    let ctx = setup();
    let source = "__private_from_attribute_value.get(\"Foo\").ok_or(::aws_sdk_dynamodb::types::AttributeValue::Null(true))?";
    let (to, from, tag) = expand(&ctx, &field_type("Values"))?;
    assert_eq!(tag, AttributeValueType::M);
    assert_eq!(
        tokens(&to),
        tokens("::aws_sdk_dynamodb::types::AttributeValue::M(( &self.foo.clone() ).into())")
    );
    assert_eq!(
        tokens(&from),
        tokens(&format!(
            "{source}
                .as_m()
                .map_err(|e| e.clone())?.try_into()
                .map_err(|_| ::aws_sdk_dynamodb::types::AttributeValue::Null(true))?"
        ))
    );
    let (to, _, tag) = expand(&ctx, &field_type("Vec<Inner>"))?;
    assert_eq!(tag, AttributeValueType::L);
    assert_eq!(
        tokens(&to),
        tokens(
            "::aws_sdk_dynamodb::types::AttributeValue::L(
                self.foo
                    .iter()
                    .map(|_private_iterator| ::aws_sdk_dynamodb::types::AttributeValue::M(( &_private_iterator.clone() ).into()))
                    .collect()
            )"
        )
    );
    Ok(())
}

#[test]
fn decoders_of_lists_and_maps() -> Result<(), GenError> {
    let ctx = setup();
    let source = "__private_from_attribute_value.get(\"Foo\").ok_or(::aws_sdk_dynamodb::types::AttributeValue::Null(true))?";
    let (_, from, _) = expand(&ctx, &field_type("Vec<u8>"))?;
    assert_eq!(
        tokens(&from),
        tokens(&format!(
            "{source}
                .as_ns()
                .map_err(|e| e.clone())?
                .iter()
                .map(|_private_iterator| _private_iterator.parse().map_err(|_| ::aws_sdk_dynamodb::types::AttributeValue::Null(true)))
                .collect::<Result<Vec<_>, _>>()?"
        ))
    );
    let (_, from, _) = expand(&ctx, &field_type("Vec<String>"))?;
    assert_eq!(
        tokens(&from),
        tokens(&format!(
            "{source}
                .as_ss()
                .map_err(|e| e.clone())?
                .iter()
                .map(|_private_iterator| Ok(_private_iterator.to_string()))
                .collect::<Result<Vec<_>, _>>()?"
        ))
    );
    let (_, from, _) = expand(&ctx, &field_type("Vec<Blob>"))?;
    assert_eq!(
        tokens(&from),
        tokens(&format!(
            "{source}
                .as_bs()
                .map_err(|e| e.clone())?
                .iter()
                .map(|_private_iterator| Ok(_private_iterator.clone()))
                .collect::<Result<Vec<_>, _>>()?"
        ))
    );
    let (_, from, _) = expand(&ctx, &field_type("Vec<Vec<bool>>"))?;
    assert_eq!(
        tokens(&from),
        tokens(&format!(
            "{source}
                .as_l()
                .map_err(|e| e.clone())?
                .iter()
                .map(|_private_iterator| Ok(_private_iterator
                    .as_l()
                    .map_err(|e| e.clone())?
                    .iter()
                    .map(|__private_iterator| Ok(*__private_iterator.as_bool().map_err(|e| e.clone())?))
                    .collect::<Result<Vec<_>, _>>()?))
                .collect::<Result<Vec<_>, _>>()?"
        ))
    );
    let (_, from, _) = expand(&ctx, &field_type("HashMap<String, u8>"))?;
    assert_eq!(
        tokens(&from),
        tokens(&format!(
            "{{
                let mut __private_tobe_map = HashMap::new();
                {source}.as_m().map_err(|e| e.clone())?
                    .iter()
                    .try_for_each(|(__private_key, _private_iterator)| {{
                        let __nested_value = _private_iterator.as_n()
                            .map_err(|e| e.clone())?
                            .parse()
                            .map_err(|_| ::aws_sdk_dynamodb::types::AttributeValue::Null(true))?;
                        __private_tobe_map.insert(__private_key.to_string(), __nested_value);
                        Ok(())
                }})?;
                Ok(__private_tobe_map)
            }}?"
        ))
    );
    Ok(())
}

#[test]
fn list_nesting_promotes_once() {
    let scalars = [
        ("u32", AttributeValueType::N, AttributeValueType::Ns),
        ("String", AttributeValueType::S, AttributeValueType::Ss),
        ("Blob", AttributeValueType::B, AttributeValueType::Bs),
    ];
    for (name, tag, set) in scalars {
        assert_eq!(classify_type(&field_type(name).expr), Ok(tag));
        assert_eq!(classify_type(&field_type(&format!("Vec<{name}>")).expr), Ok(set));
        assert_eq!(
            classify_type(&field_type(&format!("Vec<Vec<{name}>>")).expr),
            Ok(AttributeValueType::L)
        );
        assert_eq!(
            classify_type(&field_type(&format!("Vec<Vec<Vec<{name}>>>")).expr),
            Ok(AttributeValueType::L)
        );
    }
    for name in ["bool", "Option<()>", "HashMap<String, u8>", "Inner"] {
        assert_eq!(
            classify_type(&field_type(&format!("Vec<{name}>")).expr),
            Ok(AttributeValueType::L)
        );
    }
    assert_eq!(AttributeValueType::N.to_plural(), AttributeValueType::Ns);
    assert_eq!(AttributeValueType::Ns.to_plural(), AttributeValueType::L);
    assert_eq!(AttributeValueType::Bool.to_plural(), AttributeValueType::L);
    assert_eq!(AttributeValueType::Null.to_plural(), AttributeValueType::L);
    assert_eq!(AttributeValueType::M.to_plural(), AttributeValueType::L);
    assert_eq!(AttributeValueType::L.to_plural(), AttributeValueType::L);
}

#[test]
fn shapes_are_resolved_by_the_last_segment() {
    assert!(matches!(
        resolve(&field_type("std::string::String").expr),
        Ok(Shape::Text)
    ));
    assert!(matches!(
        resolve(&field_type("u16").expr),
        Ok(Shape::Number(IntKind::U16))
    ));
    assert!(matches!(
        resolve(&field_type("aws_sdk_dynamodb::primitives::Blob").expr),
        Ok(Shape::Binary)
    ));
    match resolve(&field_type("std::collections::HashMap<String, Vec<i64>>").expr) {
        Ok(Shape::Mapping(value)) => match *value {
            Shape::List(element) => assert!(matches!(*element, Shape::Number(IntKind::I64))),
            _ => panic!("a list was expected"),
        },
        _ => panic!("a map was expected"),
    }
    match resolve(&field_type("Values").expr) {
        Ok(Shape::Record(name)) => assert_eq!(name, "Values"),
        _ => panic!("a record was expected"),
    }
    // the argument of `Option` is not looked at
    assert!(matches!(resolve(&field_type("Option<String>").expr), Ok(Shape::Null)));
    // one argument is both the key and the value of a map
    assert_eq!(
        classify_type(&field_type("HashMap<String>").expr),
        Ok(AttributeValueType::M)
    );
}

#[test]
fn unsupported_types_are_refused() {
    let cases = [
        ("(u8, u8)", GenError::UnsupportedType, "unsupported type"),
        ("&str", GenError::UnsupportedType, "unsupported type"),
        ("[u8; 4]", GenError::UnsupportedType, "unsupported type"),
        ("Vec", GenError::NotAngleBracketed, "Vec should be angle bracketed"),
        ("HashMap", GenError::NotAngleBracketed, "Vec should be angle bracketed"),
        ("HashMap<i32, String>", GenError::MapKeyNotString, "key type of HashMap must be String"),
        ("HashMap<(), String>", GenError::MapKeyNotString, "key type of HashMap must be String"),
        ("Vec<(u8, u8)>", GenError::UnsupportedType, "unsupported type"),
        ("Vec<Vec<HashMap<u8, u8>>>", GenError::MapKeyNotString, "key type of HashMap must be String"),
        ("HashMap<String, Vec<&str>>", GenError::UnsupportedType, "unsupported type"),
    ];
    let ctx = setup();
    for (text, error, message) in cases {
        let ty = field_type(text);
        assert_eq!(classify_type(&ty.expr), Err(error), "{text}");
        assert_eq!(expand(&ctx, &ty).err(), Some(error), "{text}");
        assert_eq!(error.to_string(), message);
    }
    let generic = |name: &str, arguments: Vec<GenericArgument>| {
        TypeExpr::Path(vec![PathSegment {
            ident: name.to_string(),
            arguments: PathArguments::AngleBracketed(arguments),
        }])
    };
    let text = || GenericArgument::Type(field_type("String").expr);
    let built = [
        (generic("Vec", vec![]), GenError::ArgumentNotFound, "argument no found"),
        (generic("Vec", vec![GenericArgument::Other]), GenError::TypeExpected, "type expected"),
        (generic("Vec", vec![text(), GenericArgument::Other]), GenError::TypeExpected, "type expected"),
        (generic("HashMap", vec![]), GenError::KeyTypeNotFound, "key type not found"),
        (
            generic("HashMap", vec![GenericArgument::Other, text()]),
            GenError::MapKeyNotString,
            "key type of HashMap must be String",
        ),
        (
            generic("HashMap", vec![text(), GenericArgument::Other]),
            GenError::ValueTypeNotFound,
            "value type not found",
        ),
    ];
    for (expr, error, message) in built {
        assert_eq!(classify_type(&expr), Err(error));
        let ty = FieldType { tokens: String::new(), expr };
        assert_eq!(expand(&ctx, &ty).err(), Some(error));
        assert_eq!(error.to_string(), message);
    }
    // the last argument is the element, whatever stands before it
    assert_eq!(
        classify_type(&generic("Vec", vec![GenericArgument::Other, text()])),
        Ok(AttributeValueType::Ss)
    );
    let empty = TypeExpr::Path(vec![]);
    assert_eq!(classify_type(&empty), Err(GenError::SegmentNotFound));
    assert_eq!(GenError::SegmentNotFound.to_string(), "segment not found");
    let keyless = TypeExpr::Path(vec![PathSegment {
        ident: "HashMap".to_string(),
        arguments: PathArguments::AngleBracketed(vec![
            GenericArgument::Type(TypeExpr::Path(vec![])),
            GenericArgument::Type(field_type("u8").expr),
        ]),
    }]);
    assert_eq!(classify_type(&keyless), Err(GenError::KeySegmentNotFound));
    assert_eq!(GenError::KeySegmentNotFound.to_string(), "argument not found");
    let fn_like = TypeExpr::Path(vec![PathSegment {
        ident: "Fn".to_string(),
        arguments: PathArguments::Parenthesized,
    }]);
    assert_eq!(classify_type(&fn_like), Ok(AttributeValueType::M));
    let vec_fn_like = TypeExpr::Path(vec![PathSegment {
        ident: "Vec".to_string(),
        arguments: PathArguments::Parenthesized,
    }]);
    assert_eq!(classify_type(&vec_fn_like), Err(GenError::NotAngleBracketed));
}

#[test]
fn iteration_variables_spell_their_depth() {
    let top = get_iter_variants("hash_key", "member", "value", "source", 0);
    assert_eq!(top.to_attribute_collection, "value.member");
    assert_eq!(
        tokens(&top.from_attribute_collection),
        tokens("source.get(\"HashKey\").ok_or(::aws_sdk_dynamodb::types::AttributeValue::Null(true))?")
    );
    assert_eq!(top.iterator, "_private_iterator");
    let deeper = get_iter_variants("hash_key", "member", "value", "source", 3);
    assert_eq!(deeper.to_attribute_collection, "___private_iterator");
    assert_eq!(deeper.from_attribute_collection, "___private_iterator");
    assert_eq!(deeper.iterator, "____private_iterator");
}

#[test]
fn expansion_below_the_top_reads_the_iteration_variable() -> Result<(), GenError> {
    let ctx = setup();
    let ty = field_type("Vec<u8>");
    let container = Container::new(&ctx.to_attribute_ident, &ctx.ty, &ctx.to_attribute_target_ident);
    let (container, tag) = expand_attribute_value("foo", "value", &ty, 2, container)?;
    assert_eq!(tag, AttributeValueType::Ns);
    assert_eq!(
        tokens(&container.to_attribute_token_stream),
        tokens(
            "::aws_sdk_dynamodb::types::AttributeValue::Ns(
                __private_iterator.iter().map(|___private_iterator| ___private_iterator.to_string()).collect()
            )"
        )
    );
    let path = match &ty.expr {
        TypeExpr::Path(path) => path,
        _ => panic!("a path was expected"),
    };
    let again = Container::new(&ctx.to_attribute_ident, &ctx.ty, &ctx.to_attribute_target_ident);
    let (again, tag) = expand_path("foo", "value", path, 2, again)?;
    assert_eq!(tag, AttributeValueType::Ns);
    assert_eq!(again.to_attribute_token_stream, container.to_attribute_token_stream);
    assert_eq!(again.from_attribute_token_stream, container.from_attribute_token_stream);
    Ok(())
}

#[test]
fn plural_wraps_the_nested_expressions() {
    let ctx = setup();
    let variants = get_iter_variants("foo", "foo", "self", "value", 0);
    let mut container = Container::new(&ctx.to_attribute_ident, &ctx.ty, &ctx.to_attribute_target_ident);
    container.to_attribute_token_stream = "INNER_TO".to_string();
    container.from_attribute_token_stream = "INNER_FROM".to_string();
    let (wrapped, tag) = expand_plural_nested(container, AttributeValueType::Bool, &variants);
    assert_eq!(tag, AttributeValueType::L);
    assert_eq!(
        tokens(&wrapped.to_attribute_token_stream),
        tokens("::aws_sdk_dynamodb::types::AttributeValue::L(self.foo.iter().map(|_private_iterator| INNER_TO).collect())")
    );
    assert!(wrapped.from_attribute_token_stream.contains("Ok(INNER_FROM)"));
    let mut container = Container::new(&ctx.to_attribute_ident, &ctx.ty, &ctx.to_attribute_target_ident);
    container.to_attribute_token_stream = "INNER_TO".to_string();
    let (wrapped, tag) = expand_plural_nested(container, AttributeValueType::N, &variants);
    assert_eq!(tag, AttributeValueType::Ns);
    assert!(!wrapped.to_attribute_token_stream.contains("INNER_TO"));
}

#[test]
fn tag_names() {
    let tags = [
        (AttributeValueType::B, "B", "as_b"),
        (AttributeValueType::Bs, "Bs", "as_bs"),
        (AttributeValueType::Bool, "Bool", "as_bool"),
        (AttributeValueType::L, "L", "as_l"),
        (AttributeValueType::M, "M", "as_m"),
        (AttributeValueType::N, "N", "as_n"),
        (AttributeValueType::Ns, "Ns", "as_ns"),
        (AttributeValueType::Null, "Null", "as_null"),
        (AttributeValueType::S, "S", "as_s"),
        (AttributeValueType::Ss, "Ss", "as_ss"),
    ];
    for (tag, name, accessor) in tags {
        assert_eq!(tag.as_str(), name);
        assert_eq!(format!("{:?}", tag), name);
        assert_eq!(tag.accessor_str(), accessor);
    }
}
