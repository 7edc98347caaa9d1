use squawk::ide::hover::{merge_hovers, ColumnHover, Hover};
use squawk::ide::infer::{infer_int_type, Type};
use squawk::ide::literals::{binary_digits_to_hex, hex_digits_to_binary, normalize_integer_literal, IntegerRadix};
use squawk::ide::location::LocationKind;
use squawk::ide::name::{Name, Schema};
use squawk::ide::semantic_tokens::SemanticTokenType;

#[test]
fn hover_markdown_with_and_without_comment() {
    let h = Hover::snippet("table public.t".to_string());
    assert_eq!(h.markdown(), "\n```sql\ntable public.t\n```\n");
    let h = Hover::new("column t.a int".to_string(), "the a column".to_string());
    assert_eq!(h.markdown(), "\n```sql\ncolumn t.a int\n```\n---\nthe a column\n");
}

#[test]
fn merging_hovers_joins_their_snippets() {
    assert_eq!(merge_hovers(vec![]), None);
    let merged = merge_hovers(vec![
        Hover::snippet("a".to_string()),
        Hover::new("b".to_string(), "dropped".to_string()),
        Hover::snippet("c".to_string()),
    ])
    .unwrap();
    assert_eq!(merged.snippet, "a\nb\nc");
    assert_eq!(merged.comment, None);
}

#[test]
fn column_hover_snippets() {
    assert_eq!(ColumnHover::table_column("t", "a"), "column t.a");
    assert_eq!(ColumnHover::table_column_type("t", "a", "int"), "column t.a int");
    assert_eq!(ColumnHover::schema_table_column_type("s", "t", "a", "int"), "column s.t.a int");
    assert_eq!(ColumnHover::schema_table_column("s", "t", "a"), "column s.t.a");
    assert_eq!(ColumnHover::anon_column("a"), "column a");
    assert_eq!(ColumnHover::anon_column_type("a", "int"), "column a int");
}

#[test]
fn normalizing_integer_literals() {
    assert_eq!(normalize_integer_literal("0b_1010_1"), (IntegerRadix::Binary, "10101".to_string()));
    assert_eq!(normalize_integer_literal("0X_FF_FF"), (IntegerRadix::Hexadecimal, "FFFF".to_string()));
    assert_eq!(normalize_integer_literal("0o17"), (IntegerRadix::Octal, "17".to_string()));
    assert_eq!(normalize_integer_literal("1_000_000"), (IntegerRadix::Decimal, "1000000".to_string()));
    assert_eq!(normalize_integer_literal("_1"), (IntegerRadix::Decimal, "1".to_string()));
    assert_eq!(IntegerRadix::Binary.base(), 2);
    assert_eq!(IntegerRadix::Octal.base(), 8);
    assert_eq!(IntegerRadix::Decimal.base(), 10);
    assert_eq!(IntegerRadix::Hexadecimal.base(), 16);
}

#[test]
fn binary_to_hex_digits() {
    assert_eq!(binary_digits_to_hex(""), Some(String::new()));
    assert_eq!(binary_digits_to_hex("101010"), Some("2A".to_string()));
    assert_eq!(binary_digits_to_hex("11111111"), Some("FF".to_string()));
    assert_eq!(binary_digits_to_hex("1"), Some("1".to_string()));
    assert_eq!(binary_digits_to_hex("12"), None);
}

#[test]
fn hex_to_binary_digits() {
    assert_eq!(hex_digits_to_binary(""), Some(String::new()));
    assert_eq!(hex_digits_to_binary("2a"), Some("00101010".to_string()));
    assert_eq!(hex_digits_to_binary("F0"), Some("11110000".to_string()));
    assert_eq!(hex_digits_to_binary("g"), None);
    // back and forth gives the digits again, in uppercase
    assert_eq!(binary_digits_to_hex(&hex_digits_to_binary("c0ffee").unwrap()), Some("C0FFEE".to_string()));
}

#[test]
fn integer_literal_types() {
    assert_eq!(infer_int_type("42"), Type::Integer);
    assert_eq!(infer_int_type("2147483647"), Type::Integer);
    assert_eq!(infer_int_type("2147483648"), Type::Bigint);
    assert_eq!(infer_int_type("9223372036854775807"), Type::Bigint);
    assert_eq!(infer_int_type("9223372036854775808"), Type::Numeric);
    assert_eq!(infer_int_type("0x7FFF_FFFF"), Type::Integer);
    assert_eq!(infer_int_type("0X80000000"), Type::Bigint);
    assert_eq!(infer_int_type("0b101"), Type::Integer);
    assert_eq!(infer_int_type("0o777"), Type::Integer);
    assert_eq!(infer_int_type("0b"), Type::Numeric);
    assert_eq!(infer_int_type("99999999999999999999999"), Type::Numeric);
}

#[test]
fn type_names() {
    assert_eq!(Type::Integer.to_string(), "integer");
    assert_eq!(Type::Array(Box::new(Type::Array(Box::new(Type::Text)))).to_string(), "text[][]");
    assert_eq!(Type::Other("jsonb".to_string()).to_string(), "jsonb");
}

#[test]
fn semantic_token_types_of_locations() {
    assert_eq!(SemanticTokenType::try_from(LocationKind::Function), Ok(SemanticTokenType::Function));
    assert_eq!(SemanticTokenType::try_from(LocationKind::Aggregate), Ok(SemanticTokenType::Function));
    assert_eq!(SemanticTokenType::try_from(LocationKind::Column), Ok(SemanticTokenType::Column));
    assert_eq!(SemanticTokenType::try_from(LocationKind::View), Ok(SemanticTokenType::Table));
    assert_eq!(SemanticTokenType::try_from(LocationKind::Index), Err(LocationKind::Index));
}

#[test]
fn name_case_insensitive_compare() {
    assert_eq!(Name::from_string("foo"), Name::from_string("FOO"));
}

#[test]
fn name_quote_comparing() {
    assert_eq!(Name::from_string(r#""foo""#), Name::from_string("foo"));
}

#[test]
fn quoted_names_keep_their_case() {
    assert_ne!(Name::from_string(r#""Foo""#), Name::from_string("Foo"));
    assert_eq!(Name::from_string("Foo").to_string(), "foo");
    assert_eq!(Schema::new("Public").to_string(), "public");
}
