use squawk::ide::quote::{needs_quoting, normalize_identifier, quote_column_alias};

#[test]
fn quote_column_alias_handles_embedded_quotes() {
    assert_eq!(quote_column_alias(r#"foo"bar"#), r#""foo""bar""#);
}

#[test]
fn quote_column_alias_doesnt_quote_reserved_words() {
    // Keywords are allowed as column labels in AS clauses
    assert_eq!(quote_column_alias("case"), "case");
    assert_eq!(quote_column_alias("array"), "array");
}

#[test]
fn quote_column_alias_doesnt_quote_simple_identifiers() {
    assert_eq!(quote_column_alias("col_name"), "col_name");
}

#[test]
fn quote_column_alias_handles_special_column_name() {
    assert_eq!(quote_column_alias("?column?"), r#""?column?""#);
}

#[test]
fn quoting_edge_cases() {
    assert!(needs_quoting(""));
    assert_eq!(quote_column_alias(""), r#""""#);
    assert!(needs_quoting("Foo"));
    assert!(needs_quoting("1abc"));
    assert!(!needs_quoting("_a1$"));
    assert!(!needs_quoting("é"));
    assert_eq!(quote_column_alias("Foo"), r#""Foo""#);
}

#[test]
fn normalize_identifier_strips_quotes_or_lowercases() {
    assert_eq!(normalize_identifier(r#""Foo""#), "Foo");
    assert_eq!(normalize_identifier("FooBar"), "foobar");
    assert_eq!(normalize_identifier(r#"""#), r#"""#);
    assert_eq!(normalize_identifier(r#""""#), "");
    assert_eq!(normalize_identifier("ÀB"), "àb");
}

#[test]
fn quoting_then_normalizing_gives_the_name_back() {
    for name in ["Foo", "?column?", "my table", "", "1st"] {
        assert_eq!(normalize_identifier(&quote_column_alias(name)), name);
    }
}
