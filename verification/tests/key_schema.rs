use aws_dynamo_derive::dynamo::key_schema::{
    count_role, expand_key_schema, sort_by_role, validate_and_sort_key_schemas,
    validate_key_schemas, KeySchemaType,
};
use aws_dynamo_derive::error::GenError;

fn tokens(text: &str) -> Vec<String> {
    fn walk(stream: proc_macro2::TokenStream, out: &mut Vec<String>) {
        for tree in stream {
            match tree {
                proc_macro2::TokenTree::Group(group) => {
                    let (open, close) = match group.delimiter() {
                        proc_macro2::Delimiter::Parenthesis => ("(", ")"),
                        proc_macro2::Delimiter::Brace => ("{", "}"),
                        proc_macro2::Delimiter::Bracket => ("[", "]"),
                        proc_macro2::Delimiter::None => ("", ""),
                    };
                    out.push(open.to_string());
                    walk(group.stream(), out);
                    out.push(close.to_string());
                }
                other => out.push(other.to_string()),
            }
        }
    }
    let stream: proc_macro2::TokenStream = text.parse().unwrap();
    let mut out = Vec::new();
    walk(stream, &mut out);
    out
}

#[test]
fn sort_key_schema() {
    let mut key_schemas = vec![
        KeySchemaType::HashKey,
        KeySchemaType::RangeKey,
        KeySchemaType::HashKey,
        KeySchemaType::RangeKey,
    ];

    key_schemas.sort();
    assert_eq!(
        key_schemas,
        vec![
            KeySchemaType::HashKey,
            KeySchemaType::HashKey,
            KeySchemaType::RangeKey,
            KeySchemaType::RangeKey,
        ]
    );
}

#[test]
fn key_schema_sort_key_schema() {
    let mut key_schemas = vec![
        KeySchemaType::HashKey,
        KeySchemaType::RangeKey,
        KeySchemaType::HashKey,
        KeySchemaType::RangeKey,
    ];

    key_schemas.sort();
    assert_eq!(
        key_schemas,
        vec![
            KeySchemaType::HashKey,
            KeySchemaType::HashKey,
            KeySchemaType::RangeKey,
            KeySchemaType::RangeKey,
        ]
    );
}

#[test]
fn sort_by_role_is_stable() {
    let group = vec![
        ("a", KeySchemaType::RangeKey),
        ("b", KeySchemaType::HashKey),
        ("c", KeySchemaType::RangeKey),
        ("d", KeySchemaType::HashKey),
    ];
    assert_eq!(
        sort_by_role(&group),
        vec![
            ("b", KeySchemaType::HashKey),
            ("d", KeySchemaType::HashKey),
            ("a", KeySchemaType::RangeKey),
            ("c", KeySchemaType::RangeKey),
        ]
    );
    assert_eq!(count_role(&group, KeySchemaType::HashKey), 2);
    assert_eq!(count_role(&group, KeySchemaType::RangeKey), 2);
    let empty: Vec<(u8, KeySchemaType)> = vec![];
    assert_eq!(sort_by_role(&empty), vec![]);
}

#[test]
fn partition_key_comes_first_whatever_the_order() {
    let mut group = vec![("range_key", KeySchemaType::RangeKey), ("hash_key", KeySchemaType::HashKey)];
    assert_eq!(validate_and_sort_key_schemas(&mut group), Ok(()));
    assert_eq!(
        group,
        vec![("hash_key", KeySchemaType::HashKey), ("range_key", KeySchemaType::RangeKey)]
    );

    let mut sorted = vec![("hash_key", KeySchemaType::HashKey), ("range_key", KeySchemaType::RangeKey)];
    assert_eq!(validate_and_sort_key_schemas(&mut sorted), Ok(()));
    assert_eq!(sorted, group);

    let mut alone = vec![(7usize, KeySchemaType::HashKey)];
    assert_eq!(validate_and_sort_key_schemas(&mut alone), Ok(()));
    assert_eq!(alone, vec![(7usize, KeySchemaType::HashKey)]);
}

#[test]
fn two_partition_keys_are_refused() {
    let mut group = vec![("hk", KeySchemaType::HashKey), ("hk2", KeySchemaType::HashKey)];
    let err = validate_and_sort_key_schemas(&mut group).err().unwrap();
    assert_eq!(err, GenError::MultipleHashKeys);
    assert_eq!(err.to_string(), "only one HashKey is allowed");
    assert_eq!(
        group,
        vec![("hk", KeySchemaType::HashKey), ("hk2", KeySchemaType::HashKey)]
    );
}

#[test]
fn two_sort_keys_are_refused() {
    let group = vec![
        ("hk", KeySchemaType::HashKey),
        ("rk", KeySchemaType::RangeKey),
        ("rk2", KeySchemaType::RangeKey),
    ];
    let err = validate_key_schemas(&group).err().unwrap();
    assert_eq!(err, GenError::MultipleRangeKeys);
    assert_eq!(err.to_string(), "at most one RangeKey is allowed");
}

#[test]
fn a_missing_partition_key_is_refused() {
    let group = vec![("rk", KeySchemaType::RangeKey)];
    let err = validate_key_schemas(&group).err().unwrap();
    assert_eq!(err, GenError::HashKeyNotFound);
    assert_eq!(err.to_string(), "HashKey not found");
    let empty: Vec<(u8, KeySchemaType)> = vec![];
    assert_eq!(validate_key_schemas(&empty), Err(GenError::HashKeyNotFound));
    // the missing partition key is reported before the surplus of sort keys
    let group = vec![("rk", KeySchemaType::RangeKey), ("rk2", KeySchemaType::RangeKey)];
    assert_eq!(validate_key_schemas(&group), Err(GenError::HashKeyNotFound));
}

#[test]
fn key_schema_keywords() {
    assert_eq!(KeySchemaType::HashKey.to_string(), "hash_key");
    assert_eq!(KeySchemaType::RangeKey.to_string(), "range_key");
    assert_eq!(KeySchemaType::HashKey.as_str(), "hash_key");
    assert!(KeySchemaType::HashKey < KeySchemaType::RangeKey);
}

#[test]
fn key_schema_element_is_emitted_under_the_attribute_name() {
    let code = expand_key_schema("range_key", KeySchemaType::RangeKey);
    assert_eq!(
        tokens(&code),
        tokens(
            "aws_sdk_dynamodb::types::KeySchemaElement::builder()
                .attribute_name(\"RangeKey\".to_string())
                .key_type(::aws_sdk_dynamodb::types::KeyType::Range)
                .build()
                .unwrap()"
        )
    );
    let code = expand_key_schema("id", KeySchemaType::HashKey);
    assert_eq!(
        tokens(&code),
        tokens(
            "aws_sdk_dynamodb::types::KeySchemaElement::builder()
                .attribute_name(\"Id\".to_string())
                .key_type(::aws_sdk_dynamodb::types::KeyType::Hash)
                .build()
                .unwrap()"
        )
    );
}
