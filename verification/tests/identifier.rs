use squawk::identifier::Identifier;

#[test]
fn case_folds_correctly() {
    // For example, the identifiers FOO, foo, and "foo" are considered the
    // same by PostgreSQL, but "Foo" and "FOO" are different from these
    // three and each other.
    assert_eq!(Identifier::new("FOO"), Identifier::new("foo"));
    assert_eq!(Identifier::new(r#""foo""#), Identifier::new("foo"));
    assert_eq!(Identifier::new(r#""foo""#), Identifier::new("FOO"));
}

#[test]
fn quoted_identifiers_keep_their_case() {
    assert_ne!(Identifier::new(r#""Foo""#), Identifier::new("foo"));
    assert_ne!(Identifier::new(r#""FOO""#), Identifier::new(r#""Foo""#));
    assert_eq!(Identifier::new(r#""Foo""#).as_str(), "Foo");
    assert_eq!(Identifier::new("MiXeD").as_str(), "mixed");
    assert_eq!(Identifier::new(r#""""#).as_str(), "");
}
