use squawk::identifier::Identifier;
use squawk::lint::{Linter, LinterSettings};
use squawk::linter::{Rule, TextRange, Violation};
use squawk::syntax::{AlterColumnOption, AlterTableAction, Constraint, DefaultExpr, SourceFile, Stmt};

const MESSAGE: &str = "Adding a generated column requires a table rewrite with an `ACCESS EXCLUSIVE` lock. In Postgres versions 11+, non-VOLATILE DEFAULTs can be added without a rewrite.";
const HELP: &str = "Add the column as nullable, backfill existing rows, and add a trigger to update the column on write instead.";

fn at(sql: &str, needle: &str) -> TextRange {
    let start = sql.find(needle).expect("needle in sql");
    TextRange::new(start as u32, (start + needle.len()) as u32)
}

fn file(sql: &str, stmts: Vec<Stmt>) -> SourceFile {
    SourceFile { stmts, names: vec![], column_types: vec![], column_assignments: vec![], text_range: TextRange::new(0, sql.len() as u32) }
}

/// A few of the functions Postgres marks as not volatile.
fn non_volatile() -> Vec<Identifier> {
    ["now", "lower", "upper", "abs", "length"].iter().map(|n| Identifier::new(n)).collect()
}

fn settings(version: &str) -> LinterSettings {
    LinterSettings {
        pg_version: version.parse().expect("Invalid PostgreSQL version"),
        non_volatile_functions: non_volatile(),
        ..Default::default()
    }
}

fn lint_with(sql: &str, f: &SourceFile, settings: LinterSettings) -> Vec<Violation> {
    let mut linter = Linter::from(vec![Rule::AddingFieldWithDefault]);
    linter.settings = settings;
    linter.lint(f, sql)
}

fn lint(sql: &str, f: &SourceFile) -> Vec<Violation> {
    lint_with(sql, f, settings("15"))
}

fn violation(range: TextRange) -> Violation {
    Violation::new(Rule::AddingFieldWithDefault, MESSAGE.to_string(), range, Some(HELP.to_string()))
}

/// `ALTER TABLE "core_recipe" ADD COLUMN "foo" <ty> DEFAULT <expr>` with
/// `expr` given.
fn add_column_with_default(sql: &str, default: &str, expr: DefaultExpr) -> SourceFile {
    let stmt = sql.trim().lines().filter(|l| !l.trim_start().starts_with("--")).collect::<Vec<_>>().join("\n");
    let stmt = stmt.trim_end_matches(';');
    let action = &stmt[stmt.find("ADD COLUMN").expect("ADD COLUMN")..];
    file(
        sql,
        vec![Stmt::AlterTable {
            range: at(sql, stmt),
            table: Some(r#""core_recipe""#.to_string()),
            actions: vec![AlterTableAction::AddColumn {
                range: at(sql, action),
                if_not_exists: false,
                column_token: Some(at(sql, "COLUMN")),
                constraints: vec![Constraint::Default { range: at(sql, default), expr: Some(expr) }],
            }],
        }],
    )
}

fn literal(sql: &str, text: &str) -> DefaultExpr {
    DefaultExpr::Literal { range: at(sql, text) }
}

fn call(sql: &str, text: &str, callee: &str, args: usize) -> DefaultExpr {
    DefaultExpr::Call { range: at(sql, text), callee: Some(callee.to_string()), args: Some(args) }
}

#[test]
fn docs_example_ok_post_pg_11() {
    let sql = r#"
-- instead of
ALTER TABLE "core_recipe" ADD COLUMN "foo" integer DEFAULT 10;
        "#;
    let f = add_column_with_default(sql, "DEFAULT 10", literal(sql, "10"));
    let errors = lint(sql, &f);
    assert!(errors.is_empty());
}

#[test]
fn docs_example_ok() {
    let sql = r#"
-- use
ALTER TABLE "core_recipe" ADD COLUMN "foo" integer;
ALTER TABLE "core_recipe" ALTER COLUMN "foo" SET DEFAULT 10;
-- backfill
-- remove nullability
            "#;
    let f = file(
        sql,
        vec![
            Stmt::AlterTable {
                range: at(sql, r#"ALTER TABLE "core_recipe" ADD COLUMN "foo" integer"#),
                table: Some(r#""core_recipe""#.to_string()),
                actions: vec![AlterTableAction::AddColumn {
                    range: at(sql, r#"ADD COLUMN "foo" integer"#),
                    if_not_exists: false,
                    column_token: Some(at(sql, "COLUMN")),
                    constraints: vec![],
                }],
            },
            Stmt::AlterTable {
                range: at(sql, r#"ALTER TABLE "core_recipe" ALTER COLUMN "foo" SET DEFAULT 10"#),
                table: Some(r#""core_recipe""#.to_string()),
                actions: vec![AlterTableAction::AlterColumn {
                    range: at(sql, r#"ALTER COLUMN "foo" SET DEFAULT 10"#),
                    column: Some(r#""foo""#.to_string()),
                    option: Some(AlterColumnOption::Other { range: at(sql, "SET DEFAULT 10") }),
                }],
            },
        ],
    );
    let errors = lint(sql, &f);
    assert!(errors.is_empty());
}

#[test]
fn default_uuid_error_multi_stmt() {
    let sql = r#"
alter table t set logged, add column c integer default uuid();
        "#;
    let f = file(
        sql,
        vec![Stmt::AlterTable {
            range: at(sql, "alter table t set logged, add column c integer default uuid()"),
            table: Some("t".to_string()),
            actions: vec![
                AlterTableAction::Other { range: at(sql, "set logged") },
                AlterTableAction::AddColumn {
                    range: at(sql, "add column c integer default uuid()"),
                    if_not_exists: false,
                    column_token: Some(at(sql, "column")),
                    constraints: vec![Constraint::Default {
                        range: at(sql, "default uuid()"),
                        expr: Some(call(sql, "uuid()", "uuid", 0)),
                    }],
                },
            ],
        }],
    );
    let errors = lint(sql, &f);
    assert!(!errors.is_empty());
    assert_eq!(errors, vec![violation(at(sql, "uuid()"))]);
}

#[test]
fn default_uuid_error() {
    let sql = r#"
ALTER TABLE "core_recipe" ADD COLUMN "foo" integer DEFAULT uuid();
        "#;
    let f = add_column_with_default(sql, "DEFAULT uuid()", call(sql, "uuid()", "uuid", 0));
    let errors = lint(sql, &f);
    assert!(!errors.is_empty());
    assert_eq!(errors, vec![violation(at(sql, "uuid()"))]);
}

#[test]
fn default_volatile_func_err() {
    let sql = r#"
    -- VOLATILE
ALTER TABLE "core_recipe" ADD COLUMN "foo" boolean DEFAULT random();
            "#;
    let f = add_column_with_default(sql, "DEFAULT random()", call(sql, "random()", "random", 0));
    let errors = lint(sql, &f);
    assert!(!errors.is_empty());
    assert_eq!(errors, vec![violation(at(sql, "random()"))]);
}

#[test]
fn default_bool_ok() {
    let sql = r#"
    -- NON-VOLATILE
ALTER TABLE "core_recipe" ADD COLUMN "foo" boolean DEFAULT true;
            "#;
    let f = add_column_with_default(sql, "DEFAULT true", literal(sql, "true"));
    let errors = lint(sql, &f);
    assert!(errors.is_empty());
}

#[test]
fn default_str_ok() {
    let sql = r#"
-- NON-VOLATILE
ALTER TABLE "core_recipe" ADD COLUMN "foo" text DEFAULT 'some-str';
            "#;
    let f = add_column_with_default(sql, "DEFAULT 'some-str'", literal(sql, "'some-str'"));
    let errors = lint(sql, &f);
    assert!(errors.is_empty());
}

#[test]
fn default_enum_ok() {
    let sql = r#"
-- NON-VOLATILE
ALTER TABLE "core_recipe" ADD COLUMN "foo" some_enum_type DEFAULT 'my-enum-variant';
        "#;
    let f = add_column_with_default(sql, "DEFAULT 'my-enum-variant'", literal(sql, "'my-enum-variant'"));
    let errors = lint(sql, &f);
    assert!(errors.is_empty());
}

#[test]
fn default_jsonb_ok() {
    let sql = r#"
-- NON-VOLATILE
ALTER TABLE "core_recipe" ADD COLUMN "foo" jsonb DEFAULT '{}'::jsonb;
        "#;
    let f = add_column_with_default(
        sql,
        "DEFAULT '{}'::jsonb",
        DefaultExpr::Cast { range: at(sql, "'{}'::jsonb"), of_literal: true },
    );
    let errors = lint(sql, &f);
    assert!(errors.is_empty());
}

#[test]
fn arbitrary_func_err() {
    let sql = r#"
-- NON-VOLATILE
ALTER TABLE "core_recipe" ADD COLUMN "foo" jsonb DEFAULT myjsonb();
        "#;
    let f = add_column_with_default(sql, "DEFAULT myjsonb()", call(sql, "myjsonb()", "myjsonb", 0));
    let errors = lint(sql, &f);
    assert!(!errors.is_empty());
    assert_eq!(errors, vec![violation(at(sql, "myjsonb()"))]);
}

#[test]
fn default_random_with_args_err() {
    let sql = r#"
-- NON-VOLATILE
ALTER TABLE "core_recipe" ADD COLUMN "foo" timestamptz DEFAULT now(123);
        "#;
    let f = add_column_with_default(sql, "DEFAULT now(123)", call(sql, "now(123)", "now", 1));
    let errors = lint(sql, &f);
    assert!(!errors.is_empty());
    assert_eq!(errors, vec![violation(at(sql, "now(123)"))]);
}

#[test]
fn default_func_now_ok() {
    let sql = r#"
-- NON-VOLATILE
ALTER TABLE "core_recipe" ADD COLUMN "foo" timestamptz DEFAULT now();
        "#;
    let f = add_column_with_default(sql, "DEFAULT now()", call(sql, "now()", "now", 0));
    let errors = lint(sql, &f);
    assert!(errors.is_empty());
}

#[test]
fn add_numbers_ok() {
    // This should be okay, but expressions like this are not looked into.
    let sql = r#"
alter table account_metadata add column blah integer default 2 + 2;
        "#;
    let f = file(
        sql,
        vec![Stmt::AlterTable {
            range: at(sql, "alter table account_metadata add column blah integer default 2 + 2"),
            table: Some("account_metadata".to_string()),
            actions: vec![AlterTableAction::AddColumn {
                range: at(sql, "add column blah integer default 2 + 2"),
                if_not_exists: false,
                column_token: Some(at(sql, "column")),
                constraints: vec![Constraint::Default {
                    range: at(sql, "default 2 + 2"),
                    expr: Some(DefaultExpr::Other { range: at(sql, "2 + 2") }),
                }],
            }],
        }],
    );
    let errors = lint(sql, &f);
    assert_eq!(errors, vec![violation(at(sql, "2 + 2"))]);
}

#[test]
fn generated_stored_err() {
    let sql = r#"
ALTER TABLE foo
ADD COLUMN bar numeric GENERATED ALWAYS AS (bar + baz) STORED;
        "#;
    let f = file(
        sql,
        vec![Stmt::AlterTable {
            range: at(sql, "ALTER TABLE foo\nADD COLUMN bar numeric GENERATED ALWAYS AS (bar + baz) STORED"),
            table: Some("foo".to_string()),
            actions: vec![AlterTableAction::AddColumn {
                range: at(sql, "ADD COLUMN bar numeric GENERATED ALWAYS AS (bar + baz) STORED"),
                if_not_exists: false,
                column_token: Some(at(sql, "COLUMN")),
                constraints: vec![Constraint::Generated { range: at(sql, "GENERATED ALWAYS AS (bar + baz) STORED") }],
            }],
        }],
    );
    let errors = lint(sql, &f);
    assert!(!errors.is_empty());
    assert_eq!(errors, vec![violation(at(sql, "GENERATED ALWAYS AS (bar + baz) STORED"))]);
}

#[test]
fn docs_example_error_on_pg_11() {
    let sql = r#"
-- instead of
ALTER TABLE "core_recipe" ADD COLUMN "foo" integer DEFAULT 10;
        "#;
    let f = add_column_with_default(sql, "DEFAULT 10", literal(sql, "10"));
    let errors = lint_with(sql, &f, settings("11"));
    assert!(!errors.is_empty());
    assert_eq!(errors, vec![violation(at(sql, "10"))]);
}

#[test]
fn field_default_non_volatile_name_is_case_insensitive() {
    let sql = r#"
ALTER TABLE "core_recipe" ADD COLUMN "foo" timestamptz DEFAULT NOW();
        "#;
    let f = add_column_with_default(sql, "DEFAULT NOW()", call(sql, "NOW()", "NOW", 0));
    assert!(lint(sql, &f).is_empty());
}

#[test]
fn field_default_qualified_call_err() {
    let sql = r#"
ALTER TABLE "core_recipe" ADD COLUMN "foo" timestamptz DEFAULT pg_catalog.now();
        "#;
    let f = add_column_with_default(
        sql,
        "DEFAULT pg_catalog.now()",
        DefaultExpr::Call { range: at(sql, "pg_catalog.now()"), callee: None, args: Some(0) },
    );
    assert_eq!(lint(sql, &f), vec![violation(at(sql, "pg_catalog.now()"))]);
}

#[test]
fn field_default_without_table_of_functions_err() {
    let sql = r#"
ALTER TABLE "core_recipe" ADD COLUMN "foo" timestamptz DEFAULT now();
        "#;
    let f = add_column_with_default(sql, "DEFAULT now()", call(sql, "now()", "now", 0));
    let errors = lint_with(sql, &f, LinterSettings::default());
    assert_eq!(errors, vec![violation(at(sql, "now()"))]);
}

#[test]
fn field_default_on_pg_10_const_err() {
    let sql = r#"
ALTER TABLE "core_recipe" ADD COLUMN "foo" boolean DEFAULT true;
        "#;
    let f = add_column_with_default(sql, "DEFAULT true", literal(sql, "true"));
    assert_eq!(lint_with(sql, &f, settings("10")), vec![violation(at(sql, "true"))]);
}
