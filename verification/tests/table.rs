use aws_dynamo_derive::ast::input::{Data, DeriveInput, Field};
use aws_dynamo_derive::ast::meta::{Literal, Meta, MetaValue, NestedMeta};
use aws_dynamo_derive::ast::ty::{
    FieldType, GenericArgument, PathArguments, PathSegment, TypeExpr,
};
use aws_dynamo_derive::container::{expand_impl_conversions, Container};
use aws_dynamo_derive::dynamo::attribute_definition::ScalarAttributeType;
use aws_dynamo_derive::dynamo::attribute_value::AttributeValueType;
use aws_dynamo_derive::dynamo::key_schema::KeySchemaType;
use aws_dynamo_derive::error::GenError;
use aws_dynamo_derive::groups::NamedGroups;
use aws_dynamo_derive::item::expand_item;
use aws_dynamo_derive::table::attr::Attrs;
use aws_dynamo_derive::table::parser::{
    parse_from_dynamo_attrs, parse_global_secondary_index_key_schemas, parse_key_schemas,
    parse_keys, parse_local_secondary_index_key_schemas,
};
use aws_dynamo_derive::table::{
    attribute_definitions, collect_key_schemas, collect_secondary_indexes,
    expand_create_table_fn, expand_from_attribute_value_fn,
    expand_get_primary_keys_fn, expand_get_table_name_fn,
    expand_global_secondary_index_key_schemas_fn, expand_local_secondary_index_key_schemas_fn,
    expand_prelude_structs, expand_put_item_fn, expand_table, get_attribute_types_containers,
    get_table_name, locate_invalid_index, locate_refused_field, primary_key_schema,
    secondary_index_key_schemas,
};

fn tokens(text: &str) -> Vec<String> {
    fn walk(stream: proc_macro2::TokenStream, out: &mut Vec<String>) {
        for tree in stream {
            match tree {
                proc_macro2::TokenTree::Group(group) => {
                    let (open, close) = match group.delimiter() {
                        proc_macro2::Delimiter::Parenthesis => ("(", ")"),
                        proc_macro2::Delimiter::Brace => ("{", "}"),
                        proc_macro2::Delimiter::Bracket => ("[", "]"),
                        proc_macro2::Delimiter::None => ("", ""),
                    };
                    out.push(open.to_string());
                    walk(group.stream(), out);
                    out.push(close.to_string());
                }
                other => out.push(other.to_string()),
            }
        }
    }
    let stream: proc_macro2::TokenStream = text.parse().unwrap();
    let mut out = Vec::new();
    walk(stream, &mut out);
    out
}

fn type_expr(ty: &syn::Type) -> TypeExpr {
    match ty {
        syn::Type::Path(path) => TypeExpr::Path(
            path.path
                .segments
                .iter()
                .map(|segment| PathSegment {
                    ident: segment.ident.to_string(),
                    arguments: match &segment.arguments {
                        syn::PathArguments::None => PathArguments::Empty,
                        syn::PathArguments::AngleBracketed(args) => PathArguments::AngleBracketed(
                            args.args
                                .iter()
                                .map(|arg| match arg {
                                    syn::GenericArgument::Type(ty) => {
                                        GenericArgument::Type(type_expr(ty))
                                    }
                                    _ => GenericArgument::Other,
                                })
                                .collect(),
                        ),
                        syn::PathArguments::Parenthesized(_) => PathArguments::Parenthesized,
                    },
                })
                .collect(),
        ),
        _ => TypeExpr::Other,
    }
}

fn field_type(text: &str) -> FieldType {
    let ty: syn::Type = match syn::parse_str(text) {
        Ok(ty) => ty,
        Err(e) => panic!("{text}: {e}"),
    };
    FieldType {
        tokens: quote::ToTokens::to_token_stream(&ty).to_string(),
        expr: type_expr(&ty),
    }
}

fn literal(lit: &syn::Lit) -> Literal {
    Literal {
        tokens: quote::ToTokens::to_token_stream(lit).to_string(),
        is_str: matches!(lit, syn::Lit::Str(_)),
    }
}

fn path_text(path: &syn::Path) -> String {
    path.segments
        .iter()
        .map(|segment| segment.ident.to_string())
        .collect::<Vec<_>>()
        .join("::")
}

struct Nested(NestedMeta);

impl syn::parse::Parse for Nested {
    fn parse(input: syn::parse::ParseStream) -> syn::Result<Self> {
        let fork = input.fork();
        if fork.parse::<syn::Lit>().is_ok() {
            let lit: syn::Lit = input.parse()?;
            return Ok(Nested(NestedMeta::Literal(literal(&lit))));
        }
        let found: syn::Meta = input.parse()?;
        Ok(Nested(NestedMeta::Meta(meta(&found))))
    }
}

fn nested(tokens: &proc_macro2::TokenStream) -> Vec<NestedMeta> {
    let parser =
        syn::punctuated::Punctuated::<Nested, syn::token::Comma>::parse_terminated;
    match syn::parse::Parser::parse2(parser, tokens.clone()) {
        Ok(items) => items.into_iter().map(|item| item.0).collect(),
        Err(_) => vec![NestedMeta::Other],
    }
}

fn meta(found: &syn::Meta) -> Meta {
    match found {
        syn::Meta::Path(path) => Meta {
            path: path_text(path),
            value: MetaValue::Word,
        },
        syn::Meta::NameValue(pair) => Meta {
            path: path_text(&pair.path),
            value: match &pair.value {
                syn::Expr::Lit(lit) if lit.attrs.is_empty() => {
                    MetaValue::NameValue(literal(&lit.lit))
                }
                _ => MetaValue::Other,
            },
        },
        syn::Meta::List(list) => Meta {
            path: path_text(&list.path),
            value: MetaValue::List(nested(&list.tokens)),
        },
    }
}

fn field(found: &syn::Field) -> Field {
    Field {
        ident: found.ident.as_ref().map(|ident| ident.to_string()),
        ty: FieldType {
            tokens: quote::ToTokens::to_token_stream(&found.ty).to_string(),
            expr: type_expr(&found.ty),
        },
        attrs: found.attrs.iter().map(|attr| meta(&attr.meta)).collect(),
    }
}

fn derive_input(text: &str) -> DeriveInput {
    let input: syn::DeriveInput = match syn::parse_str(text) {
        Ok(input) => input,
        Err(e) => panic!("{text}: {e}"),
    };
    DeriveInput {
        attrs: input.attrs.iter().map(|attr| meta(&attr.meta)).collect(),
        vis: quote::ToTokens::to_token_stream(&input.vis).to_string(),
        ident: input.ident.to_string(),
        generics: quote::ToTokens::to_token_stream(&input.generics).to_string(),
        data: match &input.data {
            syn::Data::Struct(data) => Data::Struct(data.fields.iter().map(field).collect()),
            _ => Data::Other,
        },
    }
}

fn fields(text: &str) -> Vec<Field> {
    match derive_input(&format!("struct Fields {text}")).data {
        Data::Struct(fields) => fields,
        Data::Other => panic!("a structure was expected"),
    }
}

const FOO_TABLE: &str = r#"
    #[aws_dynamo(table_name = "AwesomeFooTable")]
    pub struct FooTable {
        #[aws_dynamo(range_key)]
        #[aws_dynamo(global_secondary_index(index_name = "gsi1", range_key))]
        range_key: u32,
        #[aws_dynamo(hash_key)]
        #[aws_dynamo(local_secondary_index(index_name = "lsi1", hash_key))]
        primary: String,
        #[aws_dynamo(global_secondary_index(index_name = "gsi1", hash_key))]
        hash_key: String,
        #[aws_dynamo(global_secondary_index(index_name = "gsi2", hash_key))]
        #[aws_dynamo(local_secondary_index(index_name = "lsi1", range_key))]
        gsi_idx: String,
        a: Vec<Vec<Vec<String>>>,
        bool: bool,
        blob: Vec<Vec<Blob>>,
        null: Option<()>,
        nulls: Vec<Option<()>>,
        map: HashMap<String, Vec<HashMap<String, String>>>,
    }
"#;

fn names(entries: &[(String, KeySchemaType)]) -> Vec<(&str, KeySchemaType)> {
    entries.iter().map(|(name, role)| (name.as_str(), *role)).collect()
}

fn group<'a>(groups: &'a NamedGroups<(String, KeySchemaType)>, name: &str) -> Vec<(&'a str, KeySchemaType)> {
    names(groups.get(name).unwrap())
}

#[test]
fn test_invalid_key_attrs() {
    let fields_named = fields(
        r#"{
            #[table(hash_key("S"))]
            hk: String,
            #[table(hash_key("S"))]
            hk2: String
        }"#,
    );
    assert_eq!(
        Attrs::parse_table_fields(&fields_named)
            .err()
            .unwrap()
            .to_string(),
        "only one HashKey is allowed"
    );

    let fields_named = fields(
        r#"{
            #[table(hash_key("S"))]
            hk: String,
            #[table(range_key("N"))]
            rk: i32,
            #[table(range_key("N"))]
            rk2: u128
        }"#,
    );
    assert_eq!(
        Attrs::parse_table_fields(&fields_named)
            .err()
            .unwrap()
            .to_string(),
        "at most one RangeKey is allowed"
    );
}

#[test]
fn test_valid_key_attrs() {
    let fields_named = fields(
        r#"{
            #[table(hash_key("S"))]
            hk: String,
            #[table(range_key("N"))]
            rk: u32,
            #[table(global_secondary_index(index_name="test_idx", hash_key("S")))]
            gsi_hk: String,
            #[table(global_secondary_index(index_name="test_idx2", hash_key("S")))]
            gsi_hk2: String
        }"#,
    );
    let attr = Attrs::parse_table_fields(&fields_named).unwrap();

    let hk = attr
        .key_schemas
        .iter()
        .find(|(_, k)| k.eq(&KeySchemaType::HashKey))
        .unwrap();
    let rk = attr
        .key_schemas
        .iter()
        .find(|(_, k)| k.eq(&KeySchemaType::RangeKey))
        .unwrap();

    assert_eq!(hk.0.to_string(), "Hk");
    assert_eq!(rk.0, "Rk");
    assert_eq!(
        attr.attribute_definitions,
        vec![
            (hk.0.clone(), ScalarAttributeType::S),
            (rk.0.clone(), ScalarAttributeType::N),
            (
                attr.global_secondary_indexes
                    .get("test_idx")
                    .unwrap()
                    .first()
                    .unwrap()
                    .0
                    .clone(),
                ScalarAttributeType::S
            ),
            (
                attr.global_secondary_indexes
                    .get("test_idx2")
                    .unwrap()
                    .first()
                    .unwrap()
                    .0
                    .clone(),
                ScalarAttributeType::S
            ),
        ]
    );
    assert_eq!(
        attr.global_secondary_indexes.get("test_idx").unwrap().len(),
        1
    );
    assert_eq!(
        attr.global_secondary_indexes
            .get("test_idx2")
            .unwrap()
            .len(),
        1
    );
    assert_eq!(attr.global_secondary_indexes.len(), 2);
    assert_eq!(attr.local_secondary_indexes.len(), 0);
    assert!(attr.global_secondary_indexes.get("test_idx3").is_none());
}

#[test]
fn table_test_create_table_and_put_item() {
    let input = derive_input(FOO_TABLE);
    let table_name = get_table_name(&input.ident, &input.attrs).unwrap();
    assert_eq!(table_name, "\"AwesomeFooTable\"");

    let all = match &input.data {
        Data::Struct(all) => all,
        Data::Other => panic!("a structure was expected"),
    };
    let attrs = Attrs::parse_table_fields(all).unwrap();
    // tests HashKey always prior to RangeKey
    assert_eq!(
        names(&attrs.key_schemas),
        vec![("Primary", KeySchemaType::HashKey), ("RangeKey", KeySchemaType::RangeKey)]
    );
    assert_eq!(
        attrs.attribute_definitions,
        vec![
            ("RangeKey".to_string(), ScalarAttributeType::N),
            ("Primary".to_string(), ScalarAttributeType::S),
            ("HashKey".to_string(), ScalarAttributeType::S),
            ("GsiIdx".to_string(), ScalarAttributeType::S),
        ]
    );
    assert_eq!(
        group(&attrs.local_secondary_indexes, "lsi1"),
        vec![("Primary", KeySchemaType::HashKey), ("GsiIdx", KeySchemaType::RangeKey)]
    );
    assert_eq!(
        group(&attrs.global_secondary_indexes, "gsi1"),
        vec![("HashKey", KeySchemaType::HashKey), ("RangeKey", KeySchemaType::RangeKey)]
    );
    assert_eq!(
        group(&attrs.global_secondary_indexes, "gsi2"),
        vec![("GsiIdx", KeySchemaType::HashKey)]
    );
    assert_eq!(attrs.global_secondary_indexes.len(), 2);
    assert_eq!(attrs.local_secondary_indexes.len(), 1);

    let code = expand_table(&input).unwrap();
    let file = match syn::parse_file(&code) {
        Ok(file) => file,
        Err(e) => panic!("{e}: {code}"),
    };
    // the primary-key structure, four conversions and the record's own items
    assert_eq!(file.items.len(), 6);
    match &file.items[0] {
        syn::Item::Struct(key) => {
            assert_eq!(key.ident, "FooTablePrimaryKey");
            let members: Vec<String> = key
                .fields
                .iter()
                .map(|f| f.ident.as_ref().unwrap().to_string())
                .collect();
            assert_eq!(members, vec!["range_key", "primary"]);
        }
        _ => panic!("the primary-key structure was expected first"),
    }
    match &file.items[5] {
        syn::Item::Impl(own) => {
            let functions: Vec<String> = own
                .items
                .iter()
                .map(|item| match item {
                    syn::ImplItem::Fn(f) => f.sig.ident.to_string(),
                    _ => panic!("a function was expected"),
                })
                .collect();
            assert_eq!(
                functions,
                vec![
                    "get_table_name",
                    "create_table",
                    "get_local_secondary_index_key_schemas",
                    "get_global_secondary_index_key_schemas",
                    "from_attribute_value",
                    "put_item",
                    "get_primary_keys",
                ]
            );
        }
        _ => panic!("the record's own items were expected last"),
    }
}

#[test]
fn main_test_create_table_and_put_item() {
    let input = derive_input(
        r#"
        #[table(table_name = "AwesomeFooTable")]
        pub struct FooTable {
            #[table(range_key)]
            range_key: u32,
            #[table(hash_key)]
            hash_key: String,
            a: Vec<Vec<Vec<String>>>,
            bool: bool,
            blob: Vec<Vec<Blob>>,
            null: Option<()>,
            nulls: Vec<Option<()>>,
            map: HashMap<String, Vec<HashMap<String, String>>>,
        }"#,
    );
    assert_eq!(
        get_table_name(&input.ident, &input.attrs).unwrap(),
        "\"AwesomeFooTable\""
    );
    let all = match &input.data {
        Data::Struct(all) => all,
        Data::Other => panic!("a structure was expected"),
    };
    let attrs = Attrs::parse_table_fields(all).unwrap();
    assert_eq!(
        names(&attrs.key_schemas),
        vec![("HashKey", KeySchemaType::HashKey), ("RangeKey", KeySchemaType::RangeKey)]
    );
    assert_eq!(
        attrs.attribute_definitions,
        vec![
            ("RangeKey".to_string(), ScalarAttributeType::N),
            ("HashKey".to_string(), ScalarAttributeType::S),
        ]
    );
    assert!(syn::parse_file(&expand_table(&input).unwrap()).is_ok());
}

#[test]
fn table_test_get_primary_keys() {
    let all = fields(
        r#"{
            #[aws_dynamo(range_key)]
            range_key: u32,
            #[aws_dynamo(hash_key)]
            hash_key: String,
            other: bool,
        }"#,
    );
    let containers = get_attribute_types_containers(&all, "self", "value").unwrap();
    let code = expand_get_primary_keys_fn("FooTable", &containers).unwrap();
    assert_eq!(
        tokens(&code),
        tokens(
            r#"fn get_primary_keys(input: FooTablePrimaryKey)
            -> ::std::collections::HashMap<
                ::std::string::String, ::aws_sdk_dynamodb::types::AttributeValue>
            {
                let mut primary_keys = ::std::collections::HashMap::new();
                primary_keys.insert(
                    "RangeKey".to_string(),
                    ::aws_sdk_dynamodb::types::AttributeValue::N(input.range_key.to_string())
                );
                primary_keys.insert(
                    "HashKey".to_string(),
                    ::aws_sdk_dynamodb::types::AttributeValue::S(input.hash_key.to_string())
                );
                primary_keys
            }"#
        )
    );
    let structs = expand_prelude_structs("pub", "FooTable", &containers);
    assert_eq!(structs.len(), 1);
    assert_eq!(
        tokens(&structs[0]),
        tokens(
            "#[derive(Debug, Clone, Eq, PartialEq, Ord, PartialOrd)]
            pub struct FooTablePrimaryKey {
                pub range_key: u32,
                pub hash_key: String,
            }"
        )
    );
}

#[test]
fn table_functions_are_emitted_from_their_templates() {
    let all = fields(
        r#"{
            #[aws_dynamo(range_key)]
            range_key: u32,
            #[aws_dynamo(hash_key)]
            hash_key: String,
        }"#,
    );
    let containers = get_attribute_types_containers(&all, "self", "value").unwrap();
    assert_eq!(
        tokens(&expand_get_table_name_fn("\"FooTable\"")),
        tokens("fn get_table_name() -> &'static ::std::primitive::str { \"FooTable\" }")
    );
    assert_eq!(
        tokens(&expand_create_table_fn(&containers, "\"FooTable\"").unwrap()),
        tokens(
            r#"fn create_table(
                mut builder: ::aws_sdk_dynamodb::operation::create_table::builders::CreateTableFluentBuilder
            ) -> ::aws_sdk_dynamodb::operation::create_table::builders::CreateTableFluentBuilder {
                builder
                    .table_name("FooTable")
                    .attribute_definitions(aws_sdk_dynamodb::types::AttributeDefinition::builder()
                        .attribute_name("RangeKey")
                        .attribute_type(::aws_sdk_dynamodb::types::ScalarAttributeType::N)
                        .build()
                        .unwrap())
                    .attribute_definitions(aws_sdk_dynamodb::types::AttributeDefinition::builder()
                        .attribute_name("HashKey")
                        .attribute_type(::aws_sdk_dynamodb::types::ScalarAttributeType::S)
                        .build()
                        .unwrap())
                    .key_schema(aws_sdk_dynamodb::types::KeySchemaElement::builder()
                        .attribute_name("HashKey".to_string())
                        .key_type(::aws_sdk_dynamodb::types::KeyType::Hash)
                        .build()
                        .unwrap())
                    .key_schema(aws_sdk_dynamodb::types::KeySchemaElement::builder()
                        .attribute_name("RangeKey".to_string())
                        .key_type(::aws_sdk_dynamodb::types::KeyType::Range)
                        .build()
                        .unwrap())
            }"#
        )
    );
    assert_eq!(
        tokens(&expand_put_item_fn(&containers, "\"FooTable\"")),
        tokens(
            r#"fn put_item(
                &self,
                mut builder: ::aws_sdk_dynamodb::operation::put_item::builders::PutItemFluentBuilder
            ) -> aws_sdk_dynamodb::operation::put_item::builders::PutItemFluentBuilder {
                builder
                    .table_name("FooTable")
                    .item("RangeKey".to_string(), ::aws_sdk_dynamodb::types::AttributeValue::N(self.range_key.to_string()))
                    .item("HashKey".to_string(), ::aws_sdk_dynamodb::types::AttributeValue::S(self.hash_key.to_string()))
            }"#
        )
    );
    assert_eq!(
        tokens(&expand_from_attribute_value_fn(&containers, "value")),
        tokens(
            r#"fn from_attribute_value(
                value: &::std::collections::HashMap<
                ::std::string::String,
                ::aws_sdk_dynamodb::types::AttributeValue>
            ) -> Result<Self, ::aws_sdk_dynamodb::types::AttributeValue> {
                Ok(Self {
                    range_key: value.get("RangeKey").ok_or(::aws_sdk_dynamodb::types::AttributeValue::Null(true))?.as_n()
                        .map_err(|e| e.clone())?
                        .parse()
                        .map_err(|_| ::aws_sdk_dynamodb::types::AttributeValue::Null(true))?,
                    hash_key: value.get("HashKey").ok_or(::aws_sdk_dynamodb::types::AttributeValue::Null(true))?.as_s().map_err(|e| e.clone())?.to_string()
                })
            }"#
        )
    );
}

#[test]
fn secondary_index_accessors_are_emitted_partition_key_first() {
    let all = fields(
        r#"{
            #[aws_dynamo(hash_key)]
            id: String,
            #[aws_dynamo(global_secondary_index(index_name = "idx", range_key))]
            created: u64,
            #[aws_dynamo(global_secondary_index(index_name = "idx", hash_key))]
            owner: String,
        }"#,
    );
    let containers = get_attribute_types_containers(&all, "self", "value").unwrap();
    let indexes = secondary_index_key_schemas(&containers, true).unwrap();
    assert_eq!(indexes.len(), 1);
    assert_eq!(
        indexes.get("idx").unwrap(),
        &vec![(2usize, KeySchemaType::HashKey), (1usize, KeySchemaType::RangeKey)]
    );
    let declared = collect_secondary_indexes(&containers, true);
    assert_eq!(
        declared.get("idx").unwrap(),
        &vec![(1usize, KeySchemaType::RangeKey), (2usize, KeySchemaType::HashKey)]
    );
    assert_eq!(secondary_index_key_schemas(&containers, false).unwrap().len(), 0);
    assert_eq!(
        tokens(&expand_global_secondary_index_key_schemas_fn(&containers).unwrap()),
        tokens(
            r#"fn get_global_secondary_index_key_schemas()
                -> ::std::collections::HashMap<::std::string::String, Vec<::aws_sdk_dynamodb::types::KeySchemaElement>> {
                let mut gsi_key_schemas: std::collections::HashMap<
                    String, Vec<aws_sdk_dynamodb::types::KeySchemaElement>
                > = std::collections::HashMap::new();
                gsi_key_schemas.entry("idx".to_string()).or_default().push(aws_sdk_dynamodb::types::KeySchemaElement::builder()
                    .attribute_name("Owner".to_string())
                    .key_type(::aws_sdk_dynamodb::types::KeyType::Hash)
                    .build()
                    .unwrap());
                gsi_key_schemas.entry("idx".to_string()).or_default().push(aws_sdk_dynamodb::types::KeySchemaElement::builder()
                    .attribute_name("Created".to_string())
                    .key_type(::aws_sdk_dynamodb::types::KeyType::Range)
                    .build()
                    .unwrap());
                ;
                gsi_key_schemas
            }"#
        )
    );
    assert_eq!(
        tokens(&expand_local_secondary_index_key_schemas_fn(&containers).unwrap()),
        tokens(
            r#"fn get_local_secondary_index_key_schemas()
                -> ::std::collections::HashMap<::std::string::String, Vec<::aws_sdk_dynamodb::types::KeySchemaElement>> {
                let mut lsi_key_schemas: std::collections::HashMap<
                    String, Vec<aws_sdk_dynamodb::types::KeySchemaElement>
                > = std::collections::HashMap::new();
                ;
                lsi_key_schemas
            }"#
        )
    );
}

#[test]
fn primary_key_is_ordered_whatever_the_declaration_order() {
    for text in [
        r#"{ #[aws_dynamo(range_key)] n: u8, #[aws_dynamo(hash_key)] s: String }"#,
        r#"{ #[aws_dynamo(hash_key)] s: String, #[aws_dynamo(range_key)] n: u8 }"#,
        r#"{ #[aws_dynamo(range_key, hash_key)] s: String }"#,
    ] {
        let all = fields(text);
        let containers = get_attribute_types_containers(&all, "self", "value").unwrap();
        let keys = primary_key_schema(&containers).unwrap();
        assert_eq!(keys.len(), 2);
        assert_eq!(keys[0].1, KeySchemaType::HashKey);
        assert_eq!(keys[1].1, KeySchemaType::RangeKey);
        assert_eq!(containers[keys[0].0].field_ident, "s");
    }
    let all = fields(r#"{ #[aws_dynamo(range_key)] n: u8, #[aws_dynamo(hash_key)] s: String }"#);
    let containers = get_attribute_types_containers(&all, "self", "value").unwrap();
    assert_eq!(
        collect_key_schemas(&containers),
        vec![(0usize, KeySchemaType::RangeKey), (1usize, KeySchemaType::HashKey)]
    );
}

#[test]
fn broken_key_groups_refuse_the_table() {
    let cases = [
        (
            r#"struct T { #[aws_dynamo(hash_key)] a: String, #[aws_dynamo(hash_key)] b: String }"#,
            GenError::MultipleHashKeys,
            "only one HashKey is allowed",
        ),
        (
            r#"struct T { #[aws_dynamo(hash_key)] a: String, #[aws_dynamo(range_key)] b: u32, #[aws_dynamo(range_key)] c: u32 }"#,
            GenError::MultipleRangeKeys,
            "at most one RangeKey is allowed",
        ),
        (r#"struct T { a: String }"#, GenError::HashKeyNotFound, "HashKey not found"),
        (
            r#"struct T { #[aws_dynamo(hash_key)] a: String, #[aws_dynamo(global_secondary_index(index_name = "g", range_key))] b: u32 }"#,
            GenError::HashKeyNotFound,
            "HashKey not found",
        ),
        (
            r#"struct T { #[aws_dynamo(hash_key)] a: String, #[aws_dynamo(local_secondary_index(index_name = "l", hash_key, hash_key))] b: u32 }"#,
            GenError::MultipleHashKeys,
            "only one HashKey is allowed",
        ),
        (
            r#"struct T { #[aws_dynamo(hash_key)] a: String, #[aws_dynamo(global_secondary_index(index_name = "g"))] b: u32 }"#,
            GenError::HashKeyNotFound,
            "HashKey not found",
        ),
        (
            r#"struct T { #[aws_dynamo(hash_key)] a: bool }"#,
            GenError::InvalidScalarType(AttributeValueType::Bool),
            "invalid type for ScalarAttributeType: Bool",
        ),
        (
            r#"struct T { #[aws_dynamo(hash_key)] a: Vec<String> }"#,
            GenError::InvalidScalarType(AttributeValueType::Ss),
            "invalid type for ScalarAttributeType: Ss",
        ),
        (
            r#"struct T { #[aws_dynamo(hash_key)] a: String, #[aws_dynamo(global_secondary_index(hash_key, index_name = "g"))] b: u32 }"#,
            GenError::EmptyIndexName,
            "empty index name",
        ),
        (
            r#"struct T { #[aws_dynamo(hash_key)] a: String, #[aws_dynamo(global_secondary_index(index_name = "", hash_key))] b: u32 }"#,
            GenError::EmptyIndexName,
            "empty index name",
        ),
        (
            r#"struct T { #[aws_dynamo(hash_key)] a: String, #[aws_dynamo(global_secondary_index(index_name = 5, hash_key))] b: u32 }"#,
            GenError::InvalidIndexName,
            "invalid index name",
        ),
        (
            r#"struct T { #[aws_dynamo(hash_key)] a: String, #[aws_dynamo(global_secondary_index(index_name, hash_key))] b: u32 }"#,
            GenError::MalformedMarker,
            "malformed marker",
        ),
        (
            r#"struct T { #[aws_dynamo(hash_key)] a: String, #[aws_dynamo(global_secondary_index)] b: u32 }"#,
            GenError::MalformedMarker,
            "malformed marker",
        ),
        (
            r#"struct T { #[aws_dynamo(hash_key = "S")] a: String }"#,
            GenError::MalformedMarker,
            "malformed marker",
        ),
        (
            r#"struct T { #[aws_dynamo(something = "S")] a: String }"#,
            GenError::MalformedMarker,
            "malformed marker",
        ),
        (
            r#"struct T { #[aws_dynamo] a: String }"#,
            GenError::MalformedMarker,
            "malformed marker",
        ),
        (
            r#"struct T { #[aws_dynamo(hash_key("S", "N"))] a: String }"#,
            GenError::InvalidKeyTypeFormat,
            "invalid key type format",
        ),
        (
            r#"struct T { #[aws_dynamo(hash_key(5))] a: String }"#,
            GenError::InvalidKeyTypeFormat,
            "invalid key type format",
        ),
        (
            r#"struct T { #[aws_dynamo(hash_key("X"))] a: String }"#,
            GenError::InvalidScalarAttributeType,
            "invalid ScalarAttributeType",
        ),
        (
            r#"struct T { #[aws_dynamo(hash_key("N"))] a: String }"#,
            GenError::ScalarTypeMismatch,
            "scalar type does not match the field",
        ),
        (
            r#"struct T { #[aws_dynamo(hash_key)] foo_bar: String, #[aws_dynamo(global_secondary_index(index_name = "g", hash_key))] fooBar: u32 }"#,
            GenError::ConflictingAttributeType,
            "conflicting attribute type",
        ),
        (
            r#"struct T { #[aws_dynamo(hash_key)] a: (u8, u8) }"#,
            GenError::UnsupportedType,
            "unsupported type",
        ),
        (r#"struct T(String);"#, GenError::FieldIdentNotFound, "field ident not found"),
        (r#"enum T { A }"#, GenError::OnlyStruct, "only struct type available"),
        (
            r#"#[aws_dynamo(table_name = 5)] struct T { #[aws_dynamo(hash_key)] a: String }"#,
            GenError::MalformedMarker,
            "malformed marker",
        ),
        (
            r#"#[aws_dynamo(table_name)] struct T { #[aws_dynamo(hash_key)] a: String }"#,
            GenError::MalformedMarker,
            "malformed marker",
        ),
    ];
    for (text, error, message) in cases {
        let input = derive_input(text);
        assert_eq!(expand_table(&input).err(), Some(error), "{text}");
        assert_eq!(error.to_string(), message);
    }
}

#[test]
fn attribute_names_are_defined_once() {
    let all = fields(
        r#"{
            #[aws_dynamo(hash_key)]
            #[aws_dynamo(global_secondary_index(index_name = "g", range_key))]
            #[aws_dynamo(local_secondary_index(index_name = "l", hash_key))]
            foo_bar: String,
            #[aws_dynamo(global_secondary_index(index_name = "g", hash_key))]
            fooBar: String,
            #[aws_dynamo(local_secondary_index(index_name = "l", range_key))]
            n: i64,
            plain: bool,
        }"#,
    );
    let containers = get_attribute_types_containers(&all, "self", "value").unwrap();
    assert_eq!(
        attribute_definitions(&containers).unwrap(),
        vec![(0usize, ScalarAttributeType::S), (2usize, ScalarAttributeType::N)]
    );
    assert_eq!(containers[0].attribute_definitions, vec![ScalarAttributeType::S]);
    assert_eq!(containers[3].attribute_definitions, vec![]);
    assert_eq!(containers[0].key_schemas, vec![KeySchemaType::HashKey]);
    assert_eq!(
        containers[0].global_secondary_index_key_schemas.get("g").unwrap(),
        &vec![KeySchemaType::RangeKey]
    );
}

#[test]
fn table_name_defaults_to_the_name_of_the_structure() {
    assert_eq!(get_table_name("foo_table", &vec![]).unwrap(), "\"FooTable\"");
    assert_eq!(get_table_name("FooTable", &vec![]).unwrap(), "\"FooTable\"");
    let input = derive_input(
        r#"#[derive(Debug)] #[aws_dynamo(other)] #[aws_dynamo(table_name = "First", table_name = "Second")] struct T { a: u8 }"#,
    );
    assert_eq!(get_table_name(&input.ident, &input.attrs).unwrap(), "\"Second\"");
    let input = derive_input(r#"#[doc = "text"] struct T { a: u8 }"#);
    assert_eq!(get_table_name(&input.ident, &input.attrs).unwrap(), "\"T\"");
}

#[test]
fn markers_are_read_one_by_one() {
    let ty = field_type("String");
    let mut container = Container::new("name", &ty, "self");
    let all = fields(
        r#"{
            #[serde(rename = "x")]
            #[aws_dynamo(unknown, hash_key, global_secondary_index(index_name = "a", hash_key, index_name = "b", range_key, range_key))]
            name: String,
        }"#,
    );
    parse_from_dynamo_attrs(&all[0].attrs, AttributeValueType::S, &mut container).unwrap();
    assert_eq!(container.key_schemas, vec![KeySchemaType::HashKey]);
    assert_eq!(container.attribute_definitions, vec![ScalarAttributeType::S]);
    assert_eq!(container.global_secondary_index_key_schemas.len(), 2);
    assert_eq!(
        container.global_secondary_index_key_schemas.get("a").unwrap(),
        &vec![KeySchemaType::HashKey]
    );
    assert_eq!(
        container.global_secondary_index_key_schemas.get("b").unwrap(),
        &vec![KeySchemaType::RangeKey, KeySchemaType::RangeKey]
    );
    assert_eq!(container.local_secondary_index_key_schemas.len(), 0);
    assert_eq!(container.global_secondary_index_key_schemas.position("b"), Some(1));
    assert_eq!(container.global_secondary_index_key_schemas.position("c"), None);

    let marker = Meta { path: "range_key".to_string(), value: MetaValue::Word };
    let mut keys = vec![];
    let mut definitions = vec![ScalarAttributeType::N];
    parse_key_schemas(&marker, AttributeValueType::N, &mut keys, &mut definitions).unwrap();
    parse_key_schemas(&marker, AttributeValueType::N, &mut keys, &mut definitions).unwrap();
    assert_eq!(keys, vec![KeySchemaType::RangeKey, KeySchemaType::RangeKey]);
    assert_eq!(definitions, vec![ScalarAttributeType::N]);
    assert_eq!(
        parse_key_schemas(&marker, AttributeValueType::L, &mut keys, &mut definitions),
        Err(GenError::InvalidScalarType(AttributeValueType::L))
    );
    assert_eq!(keys.len(), 2);

    let index = Meta {
        path: "local_secondary_index".to_string(),
        value: MetaValue::List(vec![
            NestedMeta::Meta(Meta {
                path: "index_name".to_string(),
                value: MetaValue::NameValue(Literal { tokens: "\"l\"".to_string(), is_str: true }),
            }),
            NestedMeta::Meta(Meta { path: "hash_key".to_string(), value: MetaValue::Word }),
        ]),
    };
    let mut groups = NamedGroups::new();
    parse_global_secondary_index_key_schemas(&index, AttributeValueType::N, &mut definitions, &mut groups)
        .unwrap();
    assert_eq!(groups.len(), 0);
    parse_local_secondary_index_key_schemas(&index, AttributeValueType::N, &mut definitions, &mut groups)
        .unwrap();
    assert_eq!(groups.get("l").unwrap(), &vec![KeySchemaType::HashKey]);
}

#[test]
fn conversions_of_an_embedded_record() {
    let input = derive_input("struct Values { count: u32, count2: u64 }");
    let code = expand_item(&input).unwrap();
    let file = match syn::parse_file(&code) {
        Ok(file) => file,
        Err(e) => panic!("{e}: {code}"),
    };
    assert_eq!(file.items.len(), 4);

    let ty = field_type("u32");
    let mut container = Container::new("count", &ty, "value");
    container.to_attribute_token_stream = "TO".to_string();
    container.from_attribute_token_stream = "FROM".to_string();
    let impls = expand_impl_conversions("Values", &vec![container]).unwrap();
    assert_eq!(impls.len(), 4);
    assert_eq!(
        tokens(&impls[0]),
        tokens(
            "impl From<Values> for ::std::collections::HashMap<
                ::std::string::String,
                ::aws_sdk_dynamodb::types::AttributeValue> {
                fn from(value: Values) -> Self {
                    (&value).into()
                }
            }"
        )
    );
    assert_eq!(
        tokens(&impls[1]),
        tokens(
            r#"impl From<&Values> for ::std::collections::HashMap<
                ::std::string::String,
                ::aws_sdk_dynamodb::types::AttributeValue> {
                fn from(value: &Values) -> Self {
                    let mut map = ::std::collections::HashMap::new();
                    map.insert("Count".to_string(), TO);
                    map
                }
            }"#
        )
    );
    assert_eq!(
        tokens(&impls[2]),
        tokens(
            "impl TryFrom<::std::collections::HashMap<
                ::std::string::String,
                ::aws_sdk_dynamodb::types::AttributeValue>>
            for Values {
                type Error = ::aws_sdk_dynamodb::types::AttributeValue;
                fn try_from(value: ::std::collections::HashMap<
                    ::std::string::String,
                    ::aws_sdk_dynamodb::types::AttributeValue>
                ) -> Result<Self, Self::Error> {
                    (&value).try_into()
                }
            }"
        )
    );
    assert_eq!(
        tokens(&impls[3]),
        tokens(
            "impl TryFrom<&::std::collections::HashMap<
                ::std::string::String,
                ::aws_sdk_dynamodb::types::AttributeValue>>
            for Values {
                type Error = ::aws_sdk_dynamodb::types::AttributeValue;
                fn try_from(value: &::std::collections::HashMap<
                    ::std::string::String,
                    ::aws_sdk_dynamodb::types::AttributeValue>
                ) -> Result<Self, Self::Error> {
                    Ok(Self { count: FROM })
                }
            }"
        )
    );
    assert_eq!(expand_item(&derive_input("enum E { A }")).err(), Some(GenError::OnlyStruct));
    assert_eq!(
        expand_item(&derive_input("struct T(u8);")).err(),
        Some(GenError::FieldIdentNotFound)
    );
    assert_eq!(
        expand_item(&derive_input("struct T { a: &'static str }")).err(),
        Some(GenError::UnsupportedType)
    );
    // markers are not read for an embedded record
    assert!(expand_item(&derive_input("struct T { #[aws_dynamo(hash_key)] a: bool }")).is_ok());
    assert!(syn::parse_file(&expand_item(&derive_input("struct Empty {}")).unwrap()).is_ok());
}

#[test]
fn generic_and_private_tables_are_emitted() {
    let input = derive_input(
        r#"struct Plain<'a, T> { #[aws_dynamo(hash_key)] id: String, extra: Payload }"#,
    );
    let code = expand_table(&input).unwrap();
    assert!(syn::parse_file(&code).is_ok(), "{code}");
    let input = derive_input(r#"pub(crate) struct Plain { #[aws_dynamo(hash_key)] id: u128 }"#);
    let code = expand_table(&input).unwrap();
    assert!(syn::parse_file(&code).is_ok(), "{code}");
    assert!(code.contains("\"Plain\""));
    assert!(code.contains("PlainPrimaryKey"));
}

#[test]
fn failures_are_located() {
    let all = fields(
        r#"{
            #[aws_dynamo(hash_key)]
            a: String,
            b: (u8, u8),
            #[aws_dynamo(range_key)]
            c: bool,
        }"#,
    );
    assert_eq!(locate_refused_field(&all, true), Some(1));
    assert_eq!(locate_refused_field(&all, false), Some(1));
    let all = fields(
        r#"{
            #[aws_dynamo(hash_key)]
            a: String,
            #[aws_dynamo(range_key)]
            c: bool,
        }"#,
    );
    assert_eq!(locate_refused_field(&all, true), Some(1));
    // a marker is no reason where markers are not read
    assert_eq!(locate_refused_field(&all, false), None);
    assert_eq!(locate_refused_field(&vec![], true), None);

    let all = fields(
        r#"{
            #[aws_dynamo(hash_key)]
            #[aws_dynamo(global_secondary_index(index_name = "good", hash_key))]
            #[aws_dynamo(global_secondary_index(index_name = "bad", range_key))]
            #[aws_dynamo(local_secondary_index(index_name = "worse", hash_key, hash_key))]
            a: String,
        }"#,
    );
    assert_eq!(locate_refused_field(&all, true), None);
    let containers = get_attribute_types_containers(&all, "self", "value").unwrap();
    assert_eq!(locate_invalid_index(&containers, true), Some("bad".to_string()));
    assert_eq!(locate_invalid_index(&containers, false), Some("worse".to_string()));
    assert_eq!(
        secondary_index_key_schemas(&containers, true).err(),
        Some(GenError::HashKeyNotFound)
    );
    assert_eq!(
        secondary_index_key_schemas(&containers, false).err(),
        Some(GenError::MultipleHashKeys)
    );
    assert_eq!(locate_invalid_index(&vec![], true), None);
}

#[test]
fn keys_are_read_without_local_indexes() {
    let all = fields(
        r#"{
            #[table(hash_key("S"))]
            #[table(global_secondary_index(index_name = "g", range_key("S")), something)]
            name: String,
        }"#,
    );
    let mut keys = vec![];
    let mut definitions = vec![];
    let mut global = NamedGroups::new();
    parse_keys(&all[0].attrs, AttributeValueType::S, &mut keys, &mut definitions, &mut global).unwrap();
    assert_eq!(keys, vec![KeySchemaType::HashKey]);
    assert_eq!(definitions, vec![ScalarAttributeType::S]);
    assert_eq!(global.get("g").unwrap(), &vec![KeySchemaType::RangeKey]);

    let all = fields(
        r#"{
            #[table(local_secondary_index(index_name = "l", hash_key))]
            name: String,
        }"#,
    );
    assert_eq!(
        parse_keys(&all[0].attrs, AttributeValueType::S, &mut keys, &mut definitions, &mut global),
        Err(GenError::MalformedMarker)
    );
    assert_eq!(
        parse_keys(&all[0].attrs, AttributeValueType::Bool, &mut keys, &mut definitions, &mut global),
        Err(GenError::MalformedMarker)
    );
    let all = fields(r#"{ #[table(range_key)] name: bool }"#);
    assert_eq!(
        parse_keys(&all[0].attrs, AttributeValueType::Bool, &mut keys, &mut definitions, &mut global),
        Err(GenError::InvalidScalarType(AttributeValueType::Bool))
    );
    assert_eq!(keys.len(), 1);
}

#[test]
fn index_names_are_emitted_as_string_literals() {
    let all = fields(
        r#"{
            #[aws_dynamo(hash_key)]
            #[aws_dynamo(global_secondary_index(index_name = "by owner", hash_key))]
            #[aws_dynamo(local_secondary_index(index_name = "a\"b", hash_key))]
            id: String,
        }"#,
    );
    let containers = get_attribute_types_containers(&all, "self", "value").unwrap();
    let global = expand_global_secondary_index_key_schemas_fn(&containers).unwrap();
    assert!(global.contains(r#"gsi_key_schemas.entry("by owner".to_string())"#), "{global}");
    assert!(syn::parse_str::<syn::ItemFn>(&global).is_ok());
    // the name is the text between the quotes as it was written, and is written
    // out as a literal again
    let indexes = secondary_index_key_schemas(&containers, false).unwrap();
    assert_eq!(indexes.entries[0].0, r#"a\"b"#);
    let local = expand_local_secondary_index_key_schemas_fn(&containers).unwrap();
    assert!(local.contains(r#"lsi_key_schemas.entry("a\\\"b".to_string())"#), "{local}");
    assert!(syn::parse_str::<syn::ItemFn>(&local).is_ok());
    assert_eq!(get_table_name("say_\u{e9}", &vec![]).unwrap(), "\"Say\u{e9}\"");
}
