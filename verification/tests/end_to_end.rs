use aws_dynamo_derive::ast::ext_field::ExtField;
use aws_dynamo_derive::ast::input::{Data, DeriveInput, Field};
use aws_dynamo_derive::ast::meta::{Literal, Meta, MetaValue, NestedMeta};
use aws_dynamo_derive::ast::ty::{
    classify_type, resolve, FieldType, GenericArgument, IntKind, PathArguments, PathSegment,
    TypeExpr,
};
use aws_dynamo_derive::codec::{decode_record, encode_record, Layout};
use aws_dynamo_derive::dynamo::attribute_definition::{
    expand_attribute_definition, ScalarAttributeType,
};
use aws_dynamo_derive::dynamo::attribute_value::AttributeValueType;
use aws_dynamo_derive::dynamo::key_schema::{expand_key_schema, KeySchemaType};
use aws_dynamo_derive::dynamo::key_scheme::{get_key_scheme, Type};
use aws_dynamo_derive::error::GenError;
use aws_dynamo_derive::layout::{layout_of, record_layout, Records};
use aws_dynamo_derive::number::Number;
use aws_dynamo_derive::table::attr::Attrs;
use aws_dynamo_derive::table::{expand_table, get_table_name};
use aws_dynamo_derive::value::{AttributeValue, Value};

fn tokens(text: &str) -> Vec<String> {
    fn walk(stream: proc_macro2::TokenStream, out: &mut Vec<String>) {
        for tree in stream {
            match tree {
                proc_macro2::TokenTree::Group(group) => {
                    let (open, close) = match group.delimiter() {
                        proc_macro2::Delimiter::Parenthesis => ("(", ")"),
                        proc_macro2::Delimiter::Brace => ("{", "}"),
                        proc_macro2::Delimiter::Bracket => ("[", "]"),
                        proc_macro2::Delimiter::None => ("", ""),
                    };
                    out.push(open.to_string());
                    walk(group.stream(), out);
                    out.push(close.to_string());
                }
                other => out.push(other.to_string()),
            }
        }
    }
    let stream: proc_macro2::TokenStream = text.parse().unwrap();
    let mut out = Vec::new();
    walk(stream, &mut out);
    out
}

fn type_expr(ty: &syn::Type) -> TypeExpr {
    match ty {
        syn::Type::Path(path) => TypeExpr::Path(
            path.path
                .segments
                .iter()
                .map(|segment| PathSegment {
                    ident: segment.ident.to_string(),
                    arguments: match &segment.arguments {
                        syn::PathArguments::None => PathArguments::Empty,
                        syn::PathArguments::AngleBracketed(args) => PathArguments::AngleBracketed(
                            args.args
                                .iter()
                                .map(|arg| match arg {
                                    syn::GenericArgument::Type(ty) => {
                                        GenericArgument::Type(type_expr(ty))
                                    }
                                    _ => GenericArgument::Other,
                                })
                                .collect(),
                        ),
                        syn::PathArguments::Parenthesized(_) => PathArguments::Parenthesized,
                    },
                })
                .collect(),
        ),
        _ => TypeExpr::Other,
    }
}

fn field_type(text: &str) -> FieldType {
    let ty: syn::Type = match syn::parse_str(text) {
        Ok(ty) => ty,
        Err(e) => panic!("{text}: {e}"),
    };
    FieldType {
        tokens: quote::ToTokens::to_token_stream(&ty).to_string(),
        expr: type_expr(&ty),
    }
}

fn literal(lit: &syn::Lit) -> Literal {
    Literal {
        tokens: quote::ToTokens::to_token_stream(lit).to_string(),
        is_str: matches!(lit, syn::Lit::Str(_)),
    }
}

fn path_text(path: &syn::Path) -> String {
    path.segments
        .iter()
        .map(|segment| segment.ident.to_string())
        .collect::<Vec<_>>()
        .join("::")
}

struct Nested(NestedMeta);

impl syn::parse::Parse for Nested {
    fn parse(input: syn::parse::ParseStream) -> syn::Result<Self> {
        let fork = input.fork();
        if fork.parse::<syn::Lit>().is_ok() {
            let lit: syn::Lit = input.parse()?;
            return Ok(Nested(NestedMeta::Literal(literal(&lit))));
        }
        let found: syn::Meta = input.parse()?;
        Ok(Nested(NestedMeta::Meta(meta(&found))))
    }
}

fn nested(tokens: &proc_macro2::TokenStream) -> Vec<NestedMeta> {
    let parser =
        syn::punctuated::Punctuated::<Nested, syn::token::Comma>::parse_terminated;
    match syn::parse::Parser::parse2(parser, tokens.clone()) {
        Ok(items) => items.into_iter().map(|item| item.0).collect(),
        Err(_) => vec![NestedMeta::Other],
    }
}

fn meta(found: &syn::Meta) -> Meta {
    match found {
        syn::Meta::Path(path) => Meta {
            path: path_text(path),
            value: MetaValue::Word,
        },
        syn::Meta::NameValue(pair) => Meta {
            path: path_text(&pair.path),
            value: match &pair.value {
                syn::Expr::Lit(lit) if lit.attrs.is_empty() => {
                    MetaValue::NameValue(literal(&lit.lit))
                }
                _ => MetaValue::Other,
            },
        },
        syn::Meta::List(list) => Meta {
            path: path_text(&list.path),
            value: MetaValue::List(nested(&list.tokens)),
        },
    }
}

fn field(found: &syn::Field) -> Field {
    Field {
        ident: found.ident.as_ref().map(|ident| ident.to_string()),
        ty: FieldType {
            tokens: quote::ToTokens::to_token_stream(&found.ty).to_string(),
            expr: type_expr(&found.ty),
        },
        attrs: found.attrs.iter().map(|attr| meta(&attr.meta)).collect(),
    }
}

fn derive_input(text: &str) -> DeriveInput {
    let input: syn::DeriveInput = match syn::parse_str(text) {
        Ok(input) => input,
        Err(e) => panic!("{text}: {e}"),
    };
    DeriveInput {
        attrs: input.attrs.iter().map(|attr| meta(&attr.meta)).collect(),
        vis: quote::ToTokens::to_token_stream(&input.vis).to_string(),
        ident: input.ident.to_string(),
        generics: quote::ToTokens::to_token_stream(&input.generics).to_string(),
        data: match &input.data {
            syn::Data::Struct(data) => Data::Struct(data.fields.iter().map(field).collect()),
            _ => Data::Other,
        },
    }
}

fn fields(text: &str) -> Vec<Field> {
    match derive_input(&format!("struct Fields {text}")).data {
        Data::Struct(fields) => fields,
        Data::Other => panic!("a structure was expected"),
    }
}

fn structure(text: &str) -> (DeriveInput, Vec<Field>) {
    let input = derive_input(text);
    let all = match derive_input(text).data {
        Data::Struct(all) => all,
        Data::Other => panic!("a structure was expected"),
    };
    (input, all)
}

#[test]
fn a_structure_is_registered_encoded_and_decoded() {
    let (input, all) = structure(
        r#"
        struct Record {
            #[aws_dynamo(hash_key)]
            hash_key: String,
            #[aws_dynamo(range_key)]
            range_key: u32,
            tags: Vec<String>,
        }"#,
    );
    assert_eq!(get_table_name(&input.ident, &input.attrs).unwrap(), "\"Record\"");
    let schema = Attrs::parse_table_fields(&all).unwrap();
    assert_eq!(
        schema.key_schemas,
        vec![
            ("HashKey".to_string(), KeySchemaType::HashKey),
            ("RangeKey".to_string(), KeySchemaType::RangeKey)
        ]
    );
    assert_eq!(
        schema.attribute_definitions,
        vec![
            ("HashKey".to_string(), ScalarAttributeType::S),
            ("RangeKey".to_string(), ScalarAttributeType::N)
        ]
    );
    assert!(syn::parse_file(&expand_table(&input).unwrap()).is_ok());

    let layout = record_layout(&all, &vec![]).unwrap();
    assert_eq!(
        layout,
        vec![
            ("hash_key".to_string(), Layout::Text),
            ("range_key".to_string(), Layout::Number(IntKind::U32)),
            ("tags".to_string(), Layout::List(Box::new(Layout::Text))),
        ]
    );
    let record = vec![
        Value::Text("abc".to_string()),
        Value::Number(Number::unsigned(7)),
        Value::List(vec![Value::Text("x".to_string()), Value::Text("y".to_string())]),
    ];
    let wire = encode_record(&layout, &record).unwrap();
    assert_eq!(
        wire,
        vec![
            ("HashKey".to_string(), AttributeValue::S("abc".to_string())),
            ("RangeKey".to_string(), AttributeValue::N("7".to_string())),
            (
                "Tags".to_string(),
                AttributeValue::Ss(vec!["x".to_string(), "y".to_string()])
            ),
        ]
    );
    assert_eq!(decode_record(&layout, &wire).unwrap(), record);
    // the tags of the wire values are those that the types are classified with
    for (field, (_, value)) in all.iter().zip(wire.iter()) {
        assert_eq!(classify_type(&field.ty.expr), Ok(value.wire_tag()));
    }
}

#[test]
fn embedded_records_are_laid_out_from_the_known_ones() {
    let (_, inner) = structure("struct Inner { name: String, value: u32 }");
    let (_, outer) = structure("struct Outer { #[table(hash_key)] hk: String, inner: Vec<Inner> }");
    assert_eq!(record_layout(&outer, &vec![]), Err(GenError::UnknownRecord));
    assert_eq!(GenError::UnknownRecord.to_string(), "unknown record type");

    let mut records: Records = vec![];
    records.push(("Inner".to_string(), record_layout(&inner, &records).unwrap()));
    let layout = record_layout(&outer, &records).unwrap();
    assert_eq!(
        layout[1].1,
        Layout::List(Box::new(Layout::Record(vec![
            ("name".to_string(), Layout::Text),
            ("value".to_string(), Layout::Number(IntKind::U32)),
        ])))
    );
    assert_eq!(layout[1].1.wire_tag(), AttributeValueType::L);
    assert_eq!(layout[1].1.duplicate(), layout[1].1);

    let shape = resolve(&outer[1].ty.expr).unwrap();
    assert_eq!(layout_of(&shape, &records), Some(layout[1].1.duplicate()));
    assert_eq!(layout_of(&shape, &vec![]), None);
    // the first of two known records with one name is taken
    records.push(("Inner".to_string(), vec![]));
    assert_eq!(layout_of(&shape, &records), Some(layout[1].1.duplicate()));

    let (_, unnamed) = structure("struct Pair(u8, u8);");
    assert_eq!(record_layout(&unnamed, &records), Err(GenError::FieldIdentNotFound));
    let (_, unsupported) = structure("struct Bad { a: u8, b: (u8, u8) }");
    assert_eq!(record_layout(&unsupported, &records), Err(GenError::UnsupportedType));
    let (_, empty) = structure("struct Empty {}");
    assert_eq!(record_layout(&empty, &records), Ok(vec![]));
}

#[test]
fn key_roles_by_their_short_name() {
    assert_eq!(Type::HashKey.to_string(), "hash_key");
    assert_eq!(Type::RangeKey.to_string(), "range_key");
    assert_eq!(Type::HashKey.to_key_schema_type(), KeySchemaType::HashKey);
    assert_eq!(Type::RangeKey.to_key_schema_type(), KeySchemaType::RangeKey);
    assert_eq!(
        tokens(&get_key_scheme("hash_key", Type::HashKey)),
        tokens(
            "aws_sdk_dynamodb::types::KeySchemaElement::builder()
                .attribute_name(\"HashKey\".to_string())
                .key_type(aws_sdk_dynamodb::types::KeyType::Hash)
                .build()
                .unwrap()"
        )
    );
    assert_eq!(
        tokens(&get_key_scheme("range_key", Type::RangeKey)),
        tokens(
            "aws_sdk_dynamodb::types::KeySchemaElement::builder()
                .attribute_name(\"RangeKey\".to_string())
                .key_type(aws_sdk_dynamodb::types::KeyType::Range)
                .build()
                .unwrap()"
        )
    );
    // the two spellings differ in the path of the role alone
    assert_eq!(
        get_key_scheme("a", Type::HashKey).replace("key_type(", "key_type(::"),
        expand_key_schema("a", KeySchemaType::HashKey)
    );
}

#[test]
fn attribute_definitions_are_emitted_under_the_attribute_name() {
    let expected = |name: &str, scalar: &str| {
        tokens(&format!(
            "aws_sdk_dynamodb::types::AttributeDefinition::builder()
                .attribute_name(\"{name}\")
                .attribute_type(::aws_sdk_dynamodb::types::ScalarAttributeType::{scalar})
                .build()
                .unwrap()"
        ))
    };
    assert_eq!(
        tokens(&ScalarAttributeType::S.expand_attribute_definition("hash_key")),
        expected("HashKey", "S")
    );
    assert_eq!(
        tokens(&expand_attribute_definition("range_key", &ScalarAttributeType::N)),
        expected("RangeKey", "N")
    );
    assert_eq!(
        tokens(&expand_attribute_definition("b", &ScalarAttributeType::B)),
        expected("B", "B")
    );
    assert_eq!(ScalarAttributeType::B.as_str(), "B");
    assert_eq!(
        ScalarAttributeType::from_attribute_value_type(AttributeValueType::B),
        Ok(ScalarAttributeType::B)
    );
    assert_eq!(
        ScalarAttributeType::from_attribute_value_type(AttributeValueType::N),
        Ok(ScalarAttributeType::N)
    );
    assert_eq!(
        ScalarAttributeType::from_attribute_value_type(AttributeValueType::S),
        Ok(ScalarAttributeType::S)
    );
    for tag in [
        AttributeValueType::Bs,
        AttributeValueType::Bool,
        AttributeValueType::L,
        AttributeValueType::M,
        AttributeValueType::Ns,
        AttributeValueType::Null,
        AttributeValueType::Ss,
    ] {
        let err = ScalarAttributeType::from_attribute_value_type(tag).err().unwrap();
        assert_eq!(err, GenError::InvalidScalarType(tag));
        assert_eq!(
            err.to_string(),
            format!("invalid type for ScalarAttributeType: {:?}", tag)
        );
    }
}

#[test]
fn fields_are_picked_by_the_argument_list_of_a_marker() {
    let (_, all) = structure(
        r#"
        struct T {
            #[table(hash_key("S"))]
            name: String,
            plain: u8,
            #[table(range_key)]
            bare: u8,
            #[table(hash_key("N"), range_key("N"))]
            two: u8,
            #[doc = "x"]
            #[table(range_key("N"))]
            #[other(range_key("B", "S"))]
            number: u32,
        }"#,
    );
    let hash = ExtField::get_paren_kv(&all, "hash_key");
    assert_eq!(hash.len(), 1);
    assert_eq!(hash[0].ident, &Some("name".to_string()));
    assert_eq!(hash[0]._ty.tokens, "String");
    assert_eq!(
        hash[0].ext,
        &vec![NestedMeta::Literal(Literal { tokens: "\"S\"".to_string(), is_str: true })]
    );
    let range = ExtField::get_paren_kv(&all, "range_key");
    assert_eq!(range.len(), 1);
    assert_eq!(range[0].ident, &Some("number".to_string()));
    assert_eq!(range[0].ext.len(), 1);
    assert_eq!(ExtField::get_paren_kv(&all, "table").len(), 0);
    assert_eq!(ExtField::get_paren_kv(&vec![], "hash_key").len(), 0);
}
