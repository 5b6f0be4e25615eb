use aws_dynamo_derive::code::same_text;
use aws_dynamo_derive::util::{strip_quote_mark, to_pascal_case};

#[test]
fn pascal_case_capitalises_every_word() {
    assert_eq!(to_pascal_case("hash_key"), "HashKey");
    assert_eq!(to_pascal_case("range_key"), "RangeKey");
    assert_eq!(to_pascal_case("gsi_idx"), "GsiIdx");
    assert_eq!(to_pascal_case("a"), "A");
    assert_eq!(to_pascal_case("foo_table"), "FooTable");
    assert_eq!(to_pascal_case("FooTable"), "FooTable");
    assert_eq!(to_pascal_case("fooBar"), "FooBar");
    assert_eq!(to_pascal_case("nested_vec_of_num"), "NestedVecOfNum");
}

#[test]
fn pascal_case_edge_cases() {
    assert_eq!(to_pascal_case(""), "");
    assert_eq!(to_pascal_case("_"), "");
    assert_eq!(to_pascal_case("__"), "");
    assert_eq!(to_pascal_case("_x"), "X");
    assert_eq!(to_pascal_case("x_"), "X");
    assert_eq!(to_pascal_case("a__b"), "AB");
    assert_eq!(to_pascal_case("a_1b"), "A1b");
    assert_eq!(to_pascal_case("key2"), "Key2");
    // only ASCII letters are capitalised
    assert_eq!(to_pascal_case("é_ü"), "éü");
    assert_eq!(to_pascal_case("z_{"), "Z{");
}

#[test]
fn quote_marks_are_stripped_from_both_ends() {
    assert_eq!(strip_quote_mark("\"test_idx\""), Some("test_idx"));
    assert_eq!(strip_quote_mark("\"\""), Some(""));
    assert_eq!(strip_quote_mark("\"a\"b\""), Some("a\"b"));
    assert_eq!(strip_quote_mark("\"é\""), Some("é"));
}

#[test]
fn text_without_both_quote_marks_is_refused() {
    assert_eq!(strip_quote_mark(""), None);
    assert_eq!(strip_quote_mark("\""), None);
    assert_eq!(strip_quote_mark("abc"), None);
    assert_eq!(strip_quote_mark("\"abc"), None);
    assert_eq!(strip_quote_mark("abc\""), None);
    assert_eq!(strip_quote_mark("5"), None);
    assert_eq!(strip_quote_mark("r\"abc\""), None);
}

#[test]
fn same_text_compares_whole_texts() {
    assert!(same_text("Vec", "Vec"));
    assert!(same_text("", ""));
    assert!(!same_text("Vec", "vec"));
    assert!(!same_text("Vec", "Vecs"));
}
