use squawk::lint::{Linter, LinterSettings};
use squawk::linter::{Rule, TextRange, Violation};
use squawk::syntax::{AlterColumnOption, AlterTableAction, Constraint, DefaultExpr, NameLike, SourceFile, Stmt};

/// The range of the `n`th (from 0) occurrence of `needle` in `sql`.
fn nth(sql: &str, needle: &str, n: usize) -> TextRange {
    let start = sql.match_indices(needle).nth(n).expect("needle in sql").0;
    TextRange::new(start as u32, (start + needle.len()) as u32)
}

fn at(sql: &str, needle: &str) -> TextRange {
    nth(sql, needle, 0)
}

fn file(sql: &str, stmts: Vec<Stmt>) -> SourceFile {
    file_with_names(sql, stmts, vec![])
}

fn file_with_names(sql: &str, stmts: Vec<Stmt>, names: Vec<NameLike>) -> SourceFile {
    SourceFile { stmts, names, column_types: vec![], column_assignments: vec![], text_range: TextRange::new(0, sql.len() as u32) }
}

fn name(sql: &str, text: &str) -> NameLike {
    NameLike { text: text.to_string(), raw: text.to_string(), range: at(sql, text) }
}

fn lint_with(sql: &str, f: &SourceFile, settings: LinterSettings, rule: Rule) -> Vec<Violation> {
    let mut linter = Linter::from(vec![rule]);
    linter.settings = settings;
    linter.lint(f, sql)
}

fn lint(sql: &str, f: &SourceFile, rule: Rule) -> Vec<Violation> {
    lint_with(sql, f, LinterSettings::default(), rule)
}

fn lint_ok(sql: &str, f: &SourceFile, rule: Rule) {
    assert_eq!(lint(sql, f, rule), vec![]);
}

fn lint_ok_with(sql: &str, f: &SourceFile, settings: LinterSettings, rule: Rule) {
    assert_eq!(lint_with(sql, f, settings, rule), vec![]);
}

fn lint_with_assume_in_transaction(sql: &str, f: &SourceFile, rule: Rule) -> Vec<Violation> {
    let settings = LinterSettings { assume_in_transaction: true, ..Default::default() };
    lint_with(sql, f, settings, rule)
}

fn pg(version: &str) -> LinterSettings {
    LinterSettings { pg_version: version.parse().expect("Invalid PostgreSQL version"), ..Default::default() }
}

fn create_table(sql: &str, stmt: &str, table_name: &str) -> Stmt {
    Stmt::CreateTable {
        range: at(sql, stmt),
        if_not_exists: false,
        table_token: Some(if sql.contains("TABLE") { at(sql, "TABLE") } else { at(sql, "table") }),
        name: Some(table_name.to_string()),
    }
}

fn alter_table(sql: &str, stmt: &str, table: &str, actions: Vec<AlterTableAction>) -> Stmt {
    Stmt::AlterTable { range: at(sql, stmt), table: Some(table.to_string()), actions }
}

// ban-uncommitted-transaction

#[test]
fn committed_transaction_ok() {
    let sql = r#"
BEGIN;
CREATE TABLE users (id bigint);
COMMIT;
        "#;
    let f = file(
        sql,
        vec![
            Stmt::Begin { range: at(sql, "BEGIN") },
            create_table(sql, "CREATE TABLE users (id bigint)", "users"),
            Stmt::Commit { range: at(sql, "COMMIT") },
        ],
    );
    lint_ok(sql, &f, Rule::BanUncommittedTransaction);
}

#[test]
fn rolled_back_transaction_ok() {
    let sql = r#"
BEGIN;
CREATE TABLE users (id bigint);
ROLLBACK;
        "#;
    let f = file(
        sql,
        vec![
            Stmt::Begin { range: at(sql, "BEGIN") },
            create_table(sql, "CREATE TABLE users (id bigint)", "users"),
            Stmt::Rollback { range: at(sql, "ROLLBACK") },
        ],
    );
    lint_ok(sql, &f, Rule::BanUncommittedTransaction);
}

#[test]
fn no_transaction_ok() {
    let sql = r#"
CREATE TABLE users (id bigint);
        "#;
    let f = file(sql, vec![create_table(sql, "CREATE TABLE users (id bigint)", "users")]);
    lint_ok(sql, &f, Rule::BanUncommittedTransaction);
}

#[test]
fn nested_begin_only_last_uncommitted_err() {
    let sql = r#"
BEGIN;
BEGIN;
COMMIT;
        "#;
    let f = file(
        sql,
        vec![
            Stmt::Begin { range: nth(sql, "BEGIN", 0) },
            Stmt::Begin { range: nth(sql, "BEGIN", 1) },
            Stmt::Commit { range: at(sql, "COMMIT") },
        ],
    );
    lint_ok(sql, &f, Rule::BanUncommittedTransaction);
}

#[test]
fn uncommitted_transaction_err() {
    let sql = r#"
BEGIN;
CREATE TABLE users (id bigint);
        "#;
    let f = file(
        sql,
        vec![
            Stmt::Begin { range: at(sql, "BEGIN") },
            create_table(sql, "CREATE TABLE users (id bigint)", "users"),
        ],
    );
    let errors = lint(sql, &f, Rule::BanUncommittedTransaction);
    assert_eq!(errors.len(), 1);
    let e = &errors[0];
    assert_eq!(e.code, Rule::BanUncommittedTransaction);
    assert_eq!(e.message, "Transaction never committed or rolled back.");
    assert_eq!(e.text_range, at(sql, "BEGIN"));
    assert_eq!(e.help.as_deref(), Some("Add a `COMMIT` or `ROLLBACK` statement to complete the transaction."));
    let fix = e.fix.as_ref().expect("a fix");
    assert_eq!(fix.title, "Add COMMIT");
    assert_eq!(fix.edits.len(), 1);
    assert_eq!(fix.edits[0].text_range, TextRange::new(sql.len() as u32, sql.len() as u32));
    assert_eq!(fix.edits[0].text.as_deref(), Some("\nCOMMIT;\n"));
}

#[test]
fn multiple_transactions_last_uncommitted_err() {
    let sql = r#"
BEGIN;
CREATE TABLE users (id bigint);
COMMIT;

BEGIN;
CREATE TABLE posts (id bigint);
        "#;
    let f = file(
        sql,
        vec![
            Stmt::Begin { range: nth(sql, "BEGIN", 0) },
            create_table(sql, "CREATE TABLE users (id bigint)", "users"),
            Stmt::Commit { range: at(sql, "COMMIT") },
            Stmt::Begin { range: nth(sql, "BEGIN", 1) },
            create_table(sql, "CREATE TABLE posts (id bigint)", "posts"),
        ],
    );
    let errors = lint(sql, &f, Rule::BanUncommittedTransaction);
    assert_eq!(errors.len(), 1);
    assert_eq!(errors[0].text_range, nth(sql, "BEGIN", 1));
}

// ban-truncate-cascade

#[test]
fn ban_truncate_cascade_ok() {
    let sql = r#"
        truncate a, b, c;
        truncate a;
        "#;
    let f = file(
        sql,
        vec![
            Stmt::Truncate { range: at(sql, "truncate a, b, c"), cascade: None },
            Stmt::Truncate { range: nth(sql, "truncate a", 1), cascade: None },
        ],
    );
    lint_ok(sql, &f, Rule::BanTruncateCascade);
}

#[test]
fn ban_truncate_cascade_err() {
    let sql = r#"
        truncate a, b, c cascade;
        "#;
    let f = file(sql, vec![Stmt::Truncate { range: at(sql, "truncate a, b, c cascade"), cascade: Some(at(sql, "cascade")) }]);
    let errors = lint(sql, &f, Rule::BanTruncateCascade);
    assert_eq!(errors.len(), 1);
    assert_eq!(errors[0].text_range, at(sql, "cascade"));
    assert_eq!(
        errors[0].help.as_deref(),
        Some("Remove the `CASCADE` and specify exactly which tables you want to truncate.")
    );
    assert!(errors[0].message.starts_with("Using `CASCADE` will recursively truncate"));
}

// prefer-repack

#[test]
fn vacuum_full_false_option_list_ok() {
    let sql = "VACUUM (FULL FALSE) foo;";
    let f = file(sql, vec![Stmt::Vacuum { range: at(sql, "VACUUM (FULL FALSE) foo"), full: false, tables: Some("foo".to_string()) }]);
    lint_ok_with(sql, &f, pg("19"), Rule::PreferRepack);
}

#[test]
fn cluster_below_pg19_ok() {
    let sql = "CLUSTER foo;";
    let f = file(
        sql,
        vec![Stmt::Cluster {
            range: at(sql, "CLUSTER foo"),
            path: Some("foo".to_string()),
            has_on: false,
            on_path: None,
            using_index: None,
        }],
    );
    lint_ok(sql, &f, Rule::PreferRepack);
}

#[test]
fn vacuum_full_below_pg19_ok() {
    let sql = "VACUUM FULL foo;";
    let f = file(sql, vec![Stmt::Vacuum { range: at(sql, "VACUUM FULL foo"), full: true, tables: Some("foo".to_string()) }]);
    lint_ok(sql, &f, Rule::PreferRepack);
}

#[test]
fn vacuum_no_full_ok() {
    let sql = "VACUUM foo;";
    let f = file(sql, vec![Stmt::Vacuum { range: at(sql, "VACUUM foo"), full: false, tables: Some("foo".to_string()) }]);
    lint_ok_with(sql, &f, pg("19"), Rule::PreferRepack);
}

#[test]
fn vacuum_analyze_ok() {
    let sql = "VACUUM ANALYZE foo;";
    let f = file(sql, vec![Stmt::Vacuum { range: at(sql, "VACUUM ANALYZE foo"), full: false, tables: Some("foo".to_string()) }]);
    lint_ok_with(sql, &f, pg("19"), Rule::PreferRepack);
}

#[test]
fn vacuum_freeze_ok() {
    let sql = "VACUUM FREEZE foo;";
    let f = file(sql, vec![Stmt::Vacuum { range: at(sql, "VACUUM FREEZE foo"), full: false, tables: Some("foo".to_string()) }]);
    lint_ok_with(sql, &f, pg("19"), Rule::PreferRepack);
}

#[test]
fn cluster_err() {
    let sql = "CLUSTER foo;";
    let f = file(
        sql,
        vec![Stmt::Cluster {
            range: at(sql, "CLUSTER foo"),
            path: Some("foo".to_string()),
            has_on: false,
            on_path: None,
            using_index: None,
        }],
    );
    let errors = lint_with(sql, &f, pg("19"), Rule::PreferRepack);
    assert_eq!(errors.len(), 1);
    assert_eq!(
        errors[0].message,
        "`cluster` requires an `ACCESS EXCLUSIVE` lock which blocks reads and writes to the table."
    );
    let fix = errors[0].fix.as_ref().expect("a fix");
    assert_eq!(fix.title, "Replace with `repack (concurrently)`");
    assert_eq!(fix.edits[0].text.as_deref(), Some("repack (concurrently) foo"));
    assert_eq!(fix.edits[0].text_range, at(sql, "CLUSTER foo"));
}

#[test]
fn cluster_no_path_and_legacy_forms_fix() {
    let sql = "CLUSTER; CLUSTER idx ON tbl; CLUSTER tbl USING idx; CLUSTER ON tbl;";
    let f = file(
        sql,
        vec![
            Stmt::Cluster { range: TextRange::new(0, 7), path: None, has_on: false, on_path: None, using_index: None },
            Stmt::Cluster {
                range: at(sql, "CLUSTER idx ON tbl"),
                path: Some("idx".to_string()),
                has_on: true,
                on_path: Some("tbl".to_string()),
                using_index: None,
            },
            Stmt::Cluster {
                range: at(sql, "CLUSTER tbl USING idx"),
                path: Some("tbl".to_string()),
                has_on: false,
                on_path: None,
                using_index: Some("idx".to_string()),
            },
            Stmt::Cluster {
                range: at(sql, "CLUSTER ON tbl"),
                path: None,
                has_on: true,
                on_path: Some("tbl".to_string()),
                using_index: None,
            },
        ],
    );
    let errors = lint_with(sql, &f, pg("19"), Rule::PreferRepack);
    assert_eq!(errors.len(), 4);
    let fix_text = |k: usize| errors[k].fix.as_ref().map(|f| f.edits[0].text.clone().unwrap());
    assert_eq!(fix_text(0).as_deref(), Some("repack (concurrently)"));
    assert_eq!(fix_text(1).as_deref(), Some("repack (concurrently) tbl using index idx"));
    assert_eq!(fix_text(2).as_deref(), Some("repack (concurrently) tbl using index idx"));
    assert_eq!(fix_text(3), None);
}

#[test]
fn vacuum_full_err() {
    let sql = "VACUUM FULL foo; VACUUM FULL;";
    let f = file(
        sql,
        vec![
            Stmt::Vacuum { range: at(sql, "VACUUM FULL foo"), full: true, tables: Some("foo".to_string()) },
            Stmt::Vacuum { range: TextRange::new(17, 28), full: true, tables: None },
        ],
    );
    let errors = lint_with(sql, &f, pg("19"), Rule::PreferRepack);
    assert_eq!(errors.len(), 2);
    assert_eq!(
        errors[0].message,
        "`vacuum full` requires an `ACCESS EXCLUSIVE` lock which blocks reads and writes to the table."
    );
    assert_eq!(errors[0].help.as_deref(), Some("Use `repack` to rewrite the table without blocking reads and writes."));
    assert_eq!(errors[0].fix.as_ref().unwrap().edits[0].text.as_deref(), Some("repack (concurrently) foo"));
    assert!(errors[1].fix.is_none());
}

// identifier-too-long

#[test]
fn create_table_ok() {
    let sql = r#"
create table short_name (col bigint);
        "#;
    let f = file_with_names(
        sql,
        vec![create_table(sql, "create table short_name (col bigint)", "short_name")],
        vec![name(sql, "short_name"), name(sql, "col"), name(sql, "bigint")],
    );
    lint_ok(sql, &f, Rule::IdentifierTooLong);
}

#[test]
fn exactly_63_bytes_ok() {
    // exactly 63 bytes -- should not trigger
    let sql = r#"
create table table_very_long_very_long_very_long_very_long_very_long_very_lo (id bigint);
-- ^ exactly 63 bytes
        "#;
    let table = "table_very_long_very_long_very_long_very_long_very_long_very_lo";
    assert_eq!(table.len(), 63);
    let f = file_with_names(
        sql,
        vec![],
        vec![name(sql, table), name(sql, "id"), name(sql, "bigint")],
    );
    lint_ok(sql, &f, Rule::IdentifierTooLong);
}

#[test]
fn create_table_long_name_err() {
    let sql = "create table table_very_long_very_long_very_long_very_long_very_long_very_long (id bigint);";
    let table = "table_very_long_very_long_very_long_very_long_very_long_very_long";
    let f = file_with_names(sql, vec![], vec![name(sql, table), name(sql, "id")]);
    let errors = lint(sql, &f, Rule::IdentifierTooLong);
    assert_eq!(errors.len(), 1);
    assert_eq!(
        errors[0].message,
        format!("`{table}` is too long and will be truncated to 63 bytes.")
    );
    let fix = errors[0].fix.as_ref().expect("a fix");
    assert_eq!(fix.title, "Rename to `table_very_long_very_long_very_long_very_long_very_long_very_lo`");
    assert_eq!(fix.edits[0].text.as_deref(), Some("table_very_long_very_long_very_long_very_long_very_long_very_lo"));
}

#[test]
fn quoted_and_escaped_long_names() {
    let long = "a".repeat(70);
    let quoted = format!("\"{long}\"");
    let escaped = format!("\"{}\"\"b\"", "a".repeat(63));
    let sql = format!("create table {quoted} (x bigint); create table {escaped} (x bigint);");
    let n1 = NameLike { text: long.clone(), raw: quoted.clone(), range: at(&sql, &quoted) };
    let n2 = NameLike { text: format!("{}\"b", "a".repeat(63)), raw: escaped.clone(), range: at(&sql, &escaped) };
    let f = file_with_names(&sql, vec![], vec![n1, n2]);
    let errors = lint(&sql, &f, Rule::IdentifierTooLong);
    assert_eq!(errors.len(), 2);
    // a quoted name stays quoted
    assert_eq!(errors[0].fix.as_ref().unwrap().edits[0].text.clone().unwrap(), format!("\"{}\"", "a".repeat(63)));
    // a name with an escaped quote gets no fix
    assert!(errors[1].fix.is_none());
}

#[test]
fn multibyte_emoji_truncates_at_char_boundary() {
    let text = "👨".repeat(20);
    let raw = format!("\"{text}\"");
    let sql = format!("create table {raw} (id bigint);");
    let f = file_with_names(&sql, vec![], vec![NameLike { text: text.clone(), raw: raw.clone(), range: at(&sql, &raw) }]);
    let errors = lint(&sql, &f, Rule::IdentifierTooLong);
    assert_eq!(errors.len(), 1);
    // 15 emoji of 4 bytes each fit in 63 bytes
    assert_eq!(errors[0].fix.as_ref().unwrap().edits[0].text.clone().unwrap(), format!("\"{}\"", "👨".repeat(15)));
}

// prefer-robust-stmts

#[test]
fn assume_in_transaction_add_column_ok() {
    let sql = r#"
select 1; -- so we don't skip checking
ALTER TABLE "core_foo" ADD COLUMN "answer_id" integer NULL;
        "#;
    let f = file(
        sql,
        vec![
            Stmt::Other { range: at(sql, "select 1") },
            alter_table(
                sql,
                r#"ALTER TABLE "core_foo" ADD COLUMN "answer_id" integer NULL"#,
                r#""core_foo""#,
                vec![AlterTableAction::AddColumn {
                    range: at(sql, r#"ADD COLUMN "answer_id" integer NULL"#),
                    if_not_exists: false,
                    column_token: Some(at(sql, "COLUMN")),
                    constraints: vec![Constraint::Other { range: at(sql, "NULL") }],
                }],
            ),
        ],
    );
    let errors = lint_with_assume_in_transaction(sql, &f, Rule::PreferRobustStmts);
    assert_eq!(errors.len(), 0);
}

#[test]
fn assume_in_transaction_drop_table_ok() {
    let sql = r#"
DROP INDEX "core_bar_foo_id_idx";
DROP TABLE "core_bar";
DROP TYPE foo;
        "#;
    let f = file(
        sql,
        vec![
            Stmt::DropIndex {
                range: at(sql, r#"DROP INDEX "core_bar_foo_id_idx""#),
                if_exists: false,
                first_index: Some(at(sql, r#""core_bar_foo_id_idx""#)),
            },
            Stmt::DropTable { range: at(sql, r#"DROP TABLE "core_bar""#), if_exists: false, table_token: Some(at(sql, "TABLE")) },
            Stmt::DropType { range: at(sql, "DROP TYPE foo"), if_exists: false, type_token: Some(at(sql, "TYPE")) },
        ],
    );
    let errors = lint_with_assume_in_transaction(sql, &f, Rule::PreferRobustStmts);
    assert_eq!(errors.len(), 0);
}

#[test]
fn assume_in_transaction_create_table_ok() {
    let sql = r#"
CREATE TABLE "core_bar" (
    "id" serial NOT NULL PRIMARY KEY,
    "bravo" text NOT NULL
);
        "#;
    let f = file(sql, vec![create_table(sql, "CREATE TABLE \"core_bar\" (", "\"core_bar\"")]);
    let errors = lint_with_assume_in_transaction(sql, &f, Rule::PreferRobustStmts);
    assert_eq!(errors.len(), 0);
}

fn create_index_concurrently_without_name(sql: &str, n: usize) -> Stmt {
    Stmt::CreateIndex {
        range: nth(sql, r#"CREATE INDEX CONCURRENTLY ON "table_name" ("field_name")"#, n),
        if_not_exists: false,
        name: None,
        concurrently: Some(nth(sql, "CONCURRENTLY", n)),
    }
}

#[test]
fn ignore_single_stmts_ok() {
    // we don't include a placeholder stmt because we're actually checking
    // for the single stmt behavior here
    let sql = r#"
CREATE INDEX CONCURRENTLY ON "table_name" ("field_name");
        "#;
    let f = file(sql, vec![create_index_concurrently_without_name(sql, 0)]);
    let errors = lint_with_assume_in_transaction(sql, &f, Rule::PreferRobustStmts);
    assert_eq!(errors.len(), 0);
}

#[test]
fn create_index_concurrently_without_name_ok() {
    let sql = r#"
CREATE INDEX CONCURRENTLY ON "table_name" ("field_name");
CREATE INDEX CONCURRENTLY ON "table_name" ("field_name");
        "#;
    let f = file(
        sql,
        vec![create_index_concurrently_without_name(sql, 0), create_index_concurrently_without_name(sql, 1)],
    );
    let errors = lint_with_assume_in_transaction(sql, &f, Rule::PreferRobustStmts);
    assert_eq!(errors.len(), 0);
}

#[test]
fn start_transaction_ok() {
    let sql = r#"
START TRANSACTION;

ALTER TABLE "A" DROP CONSTRAINT "UQ_c4fb579a038211909ee524ccf29";

ALTER TABLE "B" DROP CONSTRAINT "UQ_791c01fe9438d66a94490d0da28";

ALTER TABLE "C" DROP CONSTRAINT "UQ_23fbf20e8ab4e806941359f4f79";

ALTER TABLE "D" DROP CONSTRAINT "UQ_468cad3743146a81c94b0b114ac";

COMMIT;
        "#;
    let drop = |table: &str, constraint: &str, n: usize| {
        let stmt = format!(r#"ALTER TABLE "{table}" DROP CONSTRAINT "{constraint}""#);
        alter_table(
            sql,
            &stmt,
            &format!("\"{table}\""),
            vec![AlterTableAction::DropConstraint {
                range: at(sql, &format!(r#"DROP CONSTRAINT "{constraint}""#)),
                name: Some(format!("\"{constraint}\"")),
                if_exists: false,
                constraint_token: Some(nth(sql, "CONSTRAINT", n)),
            }],
        )
    };
    let f = file(
        sql,
        vec![
            Stmt::Begin { range: at(sql, "START TRANSACTION") },
            drop("A", "UQ_c4fb579a038211909ee524ccf29", 0),
            drop("B", "UQ_791c01fe9438d66a94490d0da28", 1),
            drop("C", "UQ_23fbf20e8ab4e806941359f4f79", 2),
            drop("D", "UQ_468cad3743146a81c94b0b114ac", 3),
            Stmt::Commit { range: at(sql, "COMMIT") },
        ],
    );
    let errors = lint_with_assume_in_transaction(sql, &f, Rule::PreferRobustStmts);
    assert_eq!(errors.len(), 0);
}

#[test]
fn prefer_robust_stmts_reports_and_fixes() {
    let sql = "drop table t; drop index i; alter table t add column c int; alter table t drop constraint k; alter table t add constraint k check (c > 0);";
    let f = file(
        sql,
        vec![
            Stmt::DropTable { range: at(sql, "drop table t"), if_exists: false, table_token: Some(at(sql, "table")) },
            Stmt::DropIndex { range: at(sql, "drop index i"), if_exists: false, first_index: Some(at(sql, "i;")) },
            alter_table(
                sql,
                "alter table t add column c int",
                "t",
                vec![AlterTableAction::AddColumn {
                    range: at(sql, "add column c int"),
                    if_not_exists: false,
                    column_token: Some(at(sql, "column")),
                    constraints: vec![],
                }],
            ),
            alter_table(
                sql,
                "alter table t drop constraint k",
                "t",
                vec![AlterTableAction::DropConstraint {
                    range: at(sql, "drop constraint k"),
                    name: Some("k".to_string()),
                    if_exists: false,
                    constraint_token: Some(at(sql, "constraint k;")),
                }],
            ),
            alter_table(
                sql,
                "alter table t add constraint k check (c > 0)",
                "t",
                vec![AlterTableAction::AddConstraint {
                    range: at(sql, "add constraint k check (c > 0)"),
                    name: Some("K".to_string()),
                    not_valid: false,
                    constraint: Some(Constraint::Check { range: at(sql, "check (c > 0)"), not_null_column: None }),
                }],
            ),
        ],
    );
    let errors = lint(sql, &f, Rule::PreferRobustStmts);
    // the constraint re-added after being dropped is fine
    assert_eq!(errors.len(), 4);
    assert_eq!(
        errors[0].message,
        "Missing `IF EXISTS`, the migration can't be rerun if it fails part way through."
    );
    assert_eq!(errors[0].fix.as_ref().unwrap().edits[0].text.as_deref(), Some(" if exists"));
    assert_eq!(errors[1].fix.as_ref().unwrap().edits[0].text.as_deref(), Some("if exists "));
    assert_eq!(errors[1].fix.as_ref().unwrap().edits[0].text_range.start, at(sql, "i;").start);
    assert_eq!(
        errors[2].message,
        "Missing `IF NOT EXISTS`, the migration can't be rerun if it fails part way through."
    );
    assert_eq!(errors[2].fix.as_ref().unwrap().title, "Insert `if not exists`");
    assert_eq!(errors[3].text_range, at(sql, "drop constraint k"));
}

// adding-not-nullable-field

fn add_column(sql: &str, action: &str, constraints: Vec<Constraint>) -> AlterTableAction {
    AlterTableAction::AddColumn { range: at(sql, action), if_not_exists: false, column_token: None, constraints }
}

#[test]
fn adding_field_that_is_not_nullable() {
    let sql = r#"
BEGIN;
-- This will cause a table rewrite for Postgres versions before 11, but that is handled by
-- adding-field-with-default.
ALTER TABLE "core_recipe" ADD COLUMN "foo" integer DEFAULT 10 NOT NULL;
ALTER TABLE "core_recipe" ALTER COLUMN "foo" DROP DEFAULT;
COMMIT;
        "#;
    let f = file(
        sql,
        vec![
            Stmt::Begin { range: at(sql, "BEGIN") },
            alter_table(
                sql,
                r#"ALTER TABLE "core_recipe" ADD COLUMN"#,
                r#""core_recipe""#,
                vec![add_column(
                    sql,
                    r#"ADD COLUMN "foo" integer DEFAULT 10 NOT NULL"#,
                    vec![Constraint::Default { range: at(sql, "DEFAULT 10"), expr: Some(DefaultExpr::Literal { range: at(sql, "10") }) }, Constraint::NotNull { range: at(sql, "NOT NULL") }],
                )],
            ),
            alter_table(
                sql,
                r#"ALTER TABLE "core_recipe" ALTER COLUMN"#,
                r#""core_recipe""#,
                vec![AlterTableAction::AlterColumn {
                    range: at(sql, r#"ALTER COLUMN "foo" DROP DEFAULT"#),
                    column: Some(r#""foo""#.to_string()),
                    option: Some(AlterColumnOption::Other { range: at(sql, "DROP DEFAULT") }),
                }],
            ),
            Stmt::Commit { range: at(sql, "COMMIT") },
        ],
    );
    lint_ok(sql, &f, Rule::AddingNotNullableField);
}

#[test]
fn adding_field_that_is_not_nullable_without_default() {
    let sql = r#"
-- This won't work if the table is populated, but that error is caught by adding-required-field.
ALTER TABLE "core_recipe" ADD COLUMN "foo" integer NOT NULL;
        "#;
    let f = file(
        sql,
        vec![alter_table(
            sql,
            r#"ALTER TABLE "core_recipe" ADD COLUMN "foo" integer NOT NULL"#,
            r#""core_recipe""#,
            vec![add_column(sql, r#"ADD COLUMN "foo" integer NOT NULL"#, vec![Constraint::NotNull { range: at(sql, "NOT NULL") }])],
        )],
    );
    lint_ok(sql, &f, Rule::AddingNotNullableField);
}

#[test]
fn adding_field_that_is_not_nullable_in_version_11() {
    let sql = r#"
BEGIN;
--
-- Add field foo to recipe
--
ALTER TABLE "core_recipe" ADD COLUMN "foo" integer NOT NULL DEFAULT 10;
COMMIT;
        "#;
    let f = file(
        sql,
        vec![
            Stmt::Begin { range: at(sql, "BEGIN") },
            alter_table(
                sql,
                r#"ALTER TABLE "core_recipe" ADD COLUMN"#,
                r#""core_recipe""#,
                vec![add_column(
                    sql,
                    r#"ADD COLUMN "foo" integer NOT NULL DEFAULT 10"#,
                    vec![Constraint::NotNull { range: at(sql, "NOT NULL") }, Constraint::Default { range: at(sql, "DEFAULT 10"), expr: Some(DefaultExpr::Literal { range: at(sql, "10") }) }],
                )],
            ),
            Stmt::Commit { range: at(sql, "COMMIT") },
        ],
    );
    lint_ok(sql, &f, Rule::AddingNotNullableField);
}

fn validate(sql: &str, name: &str) -> AlterTableAction {
    AlterTableAction::ValidateConstraint {
        range: at(sql, &format!("VALIDATE CONSTRAINT {name}")),
        name: Some(name.to_string()),
    }
}

fn drop_constraint(sql: &str, name: &str) -> AlterTableAction {
    AlterTableAction::DropConstraint {
        range: at(sql, &format!("DROP CONSTRAINT {name}")),
        name: Some(name.to_string()),
        if_exists: false,
        constraint_token: None,
    }
}

fn set_not_null(sql: &str, action: &str, column: &str) -> AlterTableAction {
    AlterTableAction::AlterColumn {
        range: at(sql, action),
        column: Some(column.to_string()),
        option: Some(AlterColumnOption::SetNotNull { range: at(sql, "SET NOT NULL") }),
    }
}

fn gh_issue_628_file(sql: &str) -> SourceFile {
    file(
        sql,
        vec![
            Stmt::Begin { range: nth(sql, "BEGIN", 0) },
            alter_table(sql, "ALTER TABLE foo ADD COLUMN bar BIGINT", "foo", vec![add_column(sql, "ADD COLUMN bar BIGINT", vec![])]),
            alter_table(
                sql,
                "ALTER TABLE foo ADD CONSTRAINT bar_not_null",
                "foo",
                vec![AlterTableAction::AddConstraint {
                    range: at(sql, "ADD CONSTRAINT bar_not_null CHECK (bar IS NOT NULL) NOT VALID"),
                    name: Some("bar_not_null".to_string()),
                    not_valid: true,
                    constraint: Some(Constraint::Check {
                        range: at(sql, "CHECK (bar IS NOT NULL)"),
                        not_null_column: Some("bar".to_string()),
                    }),
                }],
            ),
            Stmt::Commit { range: nth(sql, "COMMIT", 0) },
            Stmt::Begin { range: nth(sql, "BEGIN", 1) },
            alter_table(sql, "ALTER TABLE foo VALIDATE", "foo", vec![validate(sql, "bar_not_null")]),
            alter_table(sql, "ALTER TABLE foo ALTER COLUMN", "foo", vec![set_not_null(sql, "ALTER COLUMN bar SET NOT NULL", "bar")]),
            alter_table(sql, "ALTER TABLE foo DROP", "foo", vec![drop_constraint(sql, "bar_not_null")]),
            Stmt::Commit { range: nth(sql, "COMMIT", 1) },
        ],
    )
}

#[test]
fn regression_gh_issue_628_pg16_with_validated_check_ok() {
    let sql = r#"
BEGIN;
ALTER TABLE foo ADD COLUMN bar BIGINT;
ALTER TABLE foo ADD CONSTRAINT bar_not_null CHECK (bar IS NOT NULL) NOT VALID;
COMMIT;

BEGIN;
ALTER TABLE foo VALIDATE CONSTRAINT bar_not_null;
ALTER TABLE foo ALTER COLUMN bar SET NOT NULL;
ALTER TABLE foo DROP CONSTRAINT bar_not_null;
COMMIT;
        "#;
    lint_ok_with(sql, &gh_issue_628_file(sql), pg("16"), Rule::AddingNotNullableField);
}

#[test]
fn regression_gh_issue_628_pg12_with_validated_check_ok() {
    let sql = r#"
BEGIN;
ALTER TABLE foo ADD COLUMN bar BIGINT;
ALTER TABLE foo ADD CONSTRAINT bar_not_null CHECK (bar IS NOT NULL) NOT VALID;
COMMIT;

BEGIN;
ALTER TABLE foo VALIDATE CONSTRAINT bar_not_null;
ALTER TABLE foo ALTER COLUMN bar SET NOT NULL;
ALTER TABLE foo DROP CONSTRAINT bar_not_null;
COMMIT;
        "#;
    lint_ok_with(sql, &gh_issue_628_file(sql), pg("12"), Rule::AddingNotNullableField);
}

#[test]
fn regression_gh_issue_628_pg11_with_validated_check_err() {
    // PostgreSQL 11 doesn't support using CHECK constraint to skip table scan
    let sql = r#"
BEGIN;
ALTER TABLE foo ADD COLUMN bar BIGINT;
ALTER TABLE foo ADD CONSTRAINT bar_not_null CHECK (bar IS NOT NULL) NOT VALID;
COMMIT;

BEGIN;
ALTER TABLE foo VALIDATE CONSTRAINT bar_not_null;
ALTER TABLE foo ALTER COLUMN bar SET NOT NULL;
ALTER TABLE foo DROP CONSTRAINT bar_not_null;
COMMIT;
        "#;
    let errors = lint_with(sql, &gh_issue_628_file(sql), pg("11"), Rule::AddingNotNullableField);
    assert_eq!(errors.len(), 1);
    assert_eq!(errors[0].text_range, at(sql, "SET NOT NULL"));
    assert_eq!(errors[0].message, "Setting a column `NOT NULL` blocks reads while the table is scanned.");
    assert_eq!(errors[0].help.as_deref(), Some("Make the field nullable and use a `CHECK` constraint instead."));
}

fn cross_migration_file(sql: &str) -> SourceFile {
    file(
        sql,
        vec![
            alter_table(sql, "ALTER TABLE foo VALIDATE", "foo", vec![validate(sql, "foo_bar_not_null")]),
            alter_table(sql, "ALTER TABLE foo\nALTER COLUMN", "foo", vec![set_not_null(sql, "ALTER COLUMN bar\nSET NOT NULL", "bar")]),
            alter_table(sql, "ALTER TABLE foo\nDROP", "foo", vec![drop_constraint(sql, "foo_bar_not_null")]),
        ],
    )
}

#[test]
fn pg16_cross_migration_validate_then_set_not_null_ok() {
    let sql = r#"
ALTER TABLE foo VALIDATE CONSTRAINT foo_bar_not_null;

ALTER TABLE foo
ALTER COLUMN bar
SET NOT NULL;

ALTER TABLE foo
DROP CONSTRAINT foo_bar_not_null;
        "#;
    lint_ok_with(sql, &cross_migration_file(sql), pg("16"), Rule::AddingNotNullableField);
}

#[test]
fn pg12_cross_migration_validate_then_set_not_null_ok() {
    let sql = r#"
ALTER TABLE foo VALIDATE CONSTRAINT foo_bar_not_null;
ALTER TABLE foo ALTER COLUMN bar SET NOT NULL;
ALTER TABLE foo DROP CONSTRAINT foo_bar_not_null;
        "#;
    let f = file(
        sql,
        vec![
            alter_table(sql, "ALTER TABLE foo VALIDATE", "foo", vec![validate(sql, "foo_bar_not_null")]),
            alter_table(sql, "ALTER TABLE foo ALTER COLUMN", "foo", vec![set_not_null(sql, "ALTER COLUMN bar SET NOT NULL", "bar")]),
            alter_table(sql, "ALTER TABLE foo DROP", "foo", vec![drop_constraint(sql, "foo_bar_not_null")]),
        ],
    );
    lint_ok_with(sql, &f, pg("12"), Rule::AddingNotNullableField);
}

#[test]
fn pg12_cross_migration_validate_no_drop_err() {
    let sql = r#"
ALTER TABLE foo VALIDATE CONSTRAINT bar_not_null;
ALTER TABLE foo ALTER COLUMN bar SET NOT NULL;
        "#;
    let f = file(
        sql,
        vec![
            alter_table(sql, "ALTER TABLE foo VALIDATE", "foo", vec![validate(sql, "bar_not_null")]),
            alter_table(sql, "ALTER TABLE foo ALTER COLUMN", "foo", vec![set_not_null(sql, "ALTER COLUMN bar SET NOT NULL", "bar")]),
        ],
    );
    let errors = lint_with(sql, &f, pg("12"), Rule::AddingNotNullableField);
    assert_eq!(errors.len(), 1);
    assert_eq!(errors[0].text_range, at(sql, "SET NOT NULL"));
}

#[test]
fn set_not_null_err() {
    let sql = r#"
ALTER TABLE "core_recipe" ALTER COLUMN "foo" SET NOT NULL;
        "#;
    let f = file(
        sql,
        vec![alter_table(
            sql,
            r#"ALTER TABLE "core_recipe""#,
            r#""core_recipe""#,
            vec![set_not_null(sql, r#"ALTER COLUMN "foo" SET NOT NULL"#, r#""foo""#)],
        )],
    );
    let errors = lint(sql, &f, Rule::AddingNotNullableField);
    assert_eq!(errors.len(), 1);
}

// adding-foreign-key-constraint

#[test]
fn alter_table_foreign_key_assume_transaction() {
    let sql = r#"
CREATE TABLE "emails" ("id" UUID NOT NULL, "user_id" UUID NOT NULL);
ALTER TABLE "emails" ADD CONSTRAINT "fk_user" FOREIGN KEY ("user_id") REFERENCES "users" ("id");
        "#;
    let f = file(
        sql,
        vec![
            create_table(sql, r#"CREATE TABLE "emails""#, r#""emails""#),
            alter_table(
                sql,
                r#"ALTER TABLE "emails" ADD CONSTRAINT"#,
                r#""emails""#,
                vec![AlterTableAction::AddConstraint {
                    range: at(sql, r#"ADD CONSTRAINT "fk_user" FOREIGN KEY ("user_id") REFERENCES "users" ("id")"#),
                    name: Some(r#""fk_user""#.to_string()),
                    not_valid: false,
                    constraint: Some(Constraint::ForeignKey {
                        range: at(sql, r#"CONSTRAINT "fk_user" FOREIGN KEY ("user_id") REFERENCES "users" ("id")"#),
                    }),
                }],
            ),
        ],
    );
    let errors = lint_with_assume_in_transaction(sql, &f, Rule::AddingForeignKeyConstraint);
    assert!(errors.is_empty());
}

#[test]
fn alter_table_foreign_key_outside_transaction_err() {
    let sql = r#"ALTER TABLE "emails" ADD CONSTRAINT "fk_user" FOREIGN KEY ("user_id") REFERENCES "users" ("id");"#;
    let fk = r#"CONSTRAINT "fk_user" FOREIGN KEY ("user_id") REFERENCES "users" ("id")"#;
    let f = file(
        sql,
        vec![alter_table(
            sql,
            r#"ALTER TABLE "emails""#,
            r#""emails""#,
            vec![AlterTableAction::AddConstraint {
                range: at(sql, &format!("ADD {fk}")),
                name: Some(r#""fk_user""#.to_string()),
                not_valid: false,
                constraint: Some(Constraint::ForeignKey { range: at(sql, fk) }),
            }],
        )],
    );
    let errors = lint(sql, &f, Rule::AddingForeignKeyConstraint);
    assert_eq!(errors.len(), 1);
    assert_eq!(errors[0].text_range, at(sql, fk));
    assert_eq!(
        errors[0].help.as_deref(),
        Some("Add `NOT VALID` to the constraint in one transaction and then VALIDATE the constraint in a separate transaction.")
    );
}

fn add_not_null_check(sql: &str, name: &str, column: &str) -> AlterTableAction {
    let check = format!("CHECK ({column} IS NOT NULL)");
    AlterTableAction::AddConstraint {
        range: at(sql, &format!("ADD CONSTRAINT {name} {check} NOT VALID")),
        name: Some(name.to_string()),
        not_valid: true,
        constraint: Some(Constraint::Check { range: at(sql, &check), not_null_column: Some(column.to_string()) }),
    }
}

#[test]
fn regression_gh_issue_519() {
    let sql = r#"
BEGIN;
-- Running upgrade a -> b
ALTER TABLE my_table ALTER COLUMN my_column SET NOT NULL;
UPDATE alembic_version SET version_num='b' WHERE alembic_version.version_num = 'a';
COMMIT;
        "#;
    let f = file(
        sql,
        vec![
            Stmt::Begin { range: at(sql, "BEGIN") },
            alter_table(
                sql,
                "ALTER TABLE my_table ALTER COLUMN my_column SET NOT NULL",
                "my_table",
                vec![set_not_null(sql, "ALTER COLUMN my_column SET NOT NULL", "my_column")],
            ),
            Stmt::Other { range: at(sql, "UPDATE alembic_version SET version_num='b' WHERE alembic_version.version_num = 'a'") },
            Stmt::Commit { range: at(sql, "COMMIT") },
        ],
    );
    let errors = lint(sql, &f, Rule::AddingNotNullableField);
    assert_eq!(errors.len(), 1);
    assert_eq!(errors[0].text_range, at(sql, "SET NOT NULL"));
    assert_eq!(errors[0].message, "Setting a column `NOT NULL` blocks reads while the table is scanned.");
    assert_eq!(errors[0].help.as_deref(), Some("Make the field nullable and use a `CHECK` constraint instead."));
}

#[test]
fn pg12_without_validated_check_err() {
    // Without a validated CHECK constraint, SET NOT NULL is still unsafe
    let sql = r#"
ALTER TABLE foo ALTER COLUMN bar SET NOT NULL;
        "#;
    let f = file(
        sql,
        vec![alter_table(sql, "ALTER TABLE foo ALTER COLUMN", "foo", vec![set_not_null(sql, "ALTER COLUMN bar SET NOT NULL", "bar")])],
    );
    let errors = lint_with(sql, &f, pg("12"), Rule::AddingNotNullableField);
    assert_eq!(errors.len(), 1);
}

#[test]
fn pg12_with_check_but_not_validated_err() {
    // CHECK constraint exists but not validated yet
    let sql = r#"
ALTER TABLE foo ADD CONSTRAINT bar_not_null CHECK (bar IS NOT NULL) NOT VALID;
ALTER TABLE foo ALTER COLUMN bar SET NOT NULL;
        "#;
    let f = file(
        sql,
        vec![
            alter_table(sql, "ALTER TABLE foo ADD CONSTRAINT", "foo", vec![add_not_null_check(sql, "bar_not_null", "bar")]),
            alter_table(sql, "ALTER TABLE foo ALTER COLUMN", "foo", vec![set_not_null(sql, "ALTER COLUMN bar SET NOT NULL", "bar")]),
        ],
    );
    let errors = lint_with(sql, &f, pg("12"), Rule::AddingNotNullableField);
    assert_eq!(errors.len(), 1);
}

#[test]
fn pg12_cross_migration_unrelated_validate_err() {
    let sql = r#"
ALTER TABLE foo VALIDATE CONSTRAINT some_other_check;
ALTER TABLE foo ALTER COLUMN bar SET NOT NULL;
        "#;
    let f = file(
        sql,
        vec![
            alter_table(sql, "ALTER TABLE foo VALIDATE", "foo", vec![validate(sql, "some_other_check")]),
            alter_table(sql, "ALTER TABLE foo ALTER COLUMN", "foo", vec![set_not_null(sql, "ALTER COLUMN bar SET NOT NULL", "bar")]),
        ],
    );
    let errors = lint_with(sql, &f, pg("12"), Rule::AddingNotNullableField);
    assert_eq!(errors.len(), 1);
}

#[test]
fn pg11_cross_migration_validate_then_set_not_null_err() {
    // PostgreSQL 11 doesn't support using CHECK constraint to skip table scan
    let sql = r#"
ALTER TABLE foo VALIDATE CONSTRAINT foo_bar_not_null;
ALTER TABLE foo ALTER COLUMN bar SET NOT NULL;
ALTER TABLE foo DROP CONSTRAINT foo_bar_not_null;
        "#;
    let f = file(
        sql,
        vec![
            alter_table(sql, "ALTER TABLE foo VALIDATE", "foo", vec![validate(sql, "foo_bar_not_null")]),
            alter_table(sql, "ALTER TABLE foo ALTER COLUMN", "foo", vec![set_not_null(sql, "ALTER COLUMN bar SET NOT NULL", "bar")]),
            alter_table(sql, "ALTER TABLE foo DROP CONSTRAINT", "foo", vec![drop_constraint(sql, "foo_bar_not_null")]),
        ],
    );
    let errors = lint_with(sql, &f, pg("11"), Rule::AddingNotNullableField);
    assert_eq!(errors.len(), 1);
    // from 12 on, the same file is the helper pattern and is fine
    assert_eq!(lint_with(sql, &f, pg("12"), Rule::AddingNotNullableField).len(), 0);
}

#[test]
fn pg12_with_different_column_validated_err() {
    // Validated CHECK exists for a different column
    let sql = r#"
ALTER TABLE foo ADD CONSTRAINT baz_not_null CHECK (baz IS NOT NULL) NOT VALID;
ALTER TABLE foo VALIDATE CONSTRAINT baz_not_null;
ALTER TABLE foo ALTER COLUMN bar SET NOT NULL;
        "#;
    let f = file(
        sql,
        vec![
            alter_table(sql, "ALTER TABLE foo ADD CONSTRAINT", "foo", vec![add_not_null_check(sql, "baz_not_null", "baz")]),
            alter_table(sql, "ALTER TABLE foo VALIDATE", "foo", vec![validate(sql, "baz_not_null")]),
            alter_table(sql, "ALTER TABLE foo ALTER COLUMN", "foo", vec![set_not_null(sql, "ALTER COLUMN bar SET NOT NULL", "bar")]),
        ],
    );
    let errors = lint_with(sql, &f, pg("12"), Rule::AddingNotNullableField);
    assert_eq!(errors.len(), 1);
}

// identifier-too-long

fn long_name_fix(sql: &str, long: &str, kept: &str) {
    let f = file_with_names(sql, vec![], vec![name(sql, long)]);
    let errors = lint(sql, &f, Rule::IdentifierTooLong);
    assert_eq!(errors.len(), 1);
    assert_eq!(errors[0].message, format!("`{long}` is too long and will be truncated to 63 bytes."));
    assert_eq!(errors[0].text_range, at(sql, long));
    let fix = errors[0].fix.as_ref().expect("a fix");
    assert_eq!(fix.edits[0].text.as_deref(), Some(kept));
    assert_eq!(fix.edits[0].text_range, at(sql, long));
}

#[test]
fn create_index_long_name_err() {
    let sql = r#"
create index index_very_long_very_long_very_long_very_long_very_long_very_long on t (col);
        "#;
    long_name_fix(
        sql,
        "index_very_long_very_long_very_long_very_long_very_long_very_long",
        "index_very_long_very_long_very_long_very_long_very_long_very_lo",
    );
}

#[test]
fn drop_table_long_name_err() {
    let sql = r#"
drop table table_very_long_very_long_very_long_very_long_very_long_very_long;
        "#;
    long_name_fix(
        sql,
        "table_very_long_very_long_very_long_very_long_very_long_very_long",
        "table_very_long_very_long_very_long_very_long_very_long_very_lo",
    );
}

#[test]
fn alter_table_add_column_long_name_err() {
    let sql = r#"
alter table t add column column_very_long_very_long_very_long_very_long_very_long_very_long bigint;
        "#;
    long_name_fix(
        sql,
        "column_very_long_very_long_very_long_very_long_very_long_very_long",
        "column_very_long_very_long_very_long_very_long_very_long_very_l",
    );
}

#[test]
fn quoted_identifier_long_err() {
    let sql = r#"
create table "table_very_long_very_long_very_long_very_long_very_long_very_long" (id bigint);
        "#;
    let text = "table_very_long_very_long_very_long_very_long_very_long_very_long";
    let raw = format!("\"{text}\"");
    let f = file_with_names(sql, vec![], vec![NameLike { text: text.to_string(), raw: raw.clone(), range: at(sql, &raw) }]);
    let errors = lint(sql, &f, Rule::IdentifierTooLong);
    assert_eq!(errors.len(), 1);
    assert_eq!(errors[0].message, format!("`{text}` is too long and will be truncated to 63 bytes."));
    assert_eq!(
        errors[0].fix.as_ref().unwrap().edits[0].text.as_deref(),
        Some(r#""table_very_long_very_long_very_long_very_long_very_long_very_lo""#)
    );
}

#[test]
fn multibyte_emoji_err() {
    // postgres ends up slicing the emoji in two
    let sql = r#"create table "👨‍👩‍👧‍👦👨‍👩‍👧‍👦👨‍👩‍👧‍👦" (id bigint);"#;
    let text = "👨‍👩‍👧‍👦👨‍👩‍👧‍👦👨‍👩‍👧‍👦";
    let raw = format!("\"{text}\"");
    let f = file_with_names(sql, vec![], vec![NameLike { text: text.to_string(), raw: raw.clone(), range: at(sql, &raw) }]);
    let errors = lint(sql, &f, Rule::IdentifierTooLong);
    assert_eq!(errors.len(), 1);
    assert_eq!(errors[0].message, format!("`{text}` is too long and will be truncated to 63 bytes."));
    assert_eq!(errors[0].fix.as_ref().unwrap().edits[0].text.as_deref(), Some("\"👨‍👩‍👧‍👦👨‍👩‍👧‍👦👨‍👩\""));
}

#[test]
fn quoted_identifier_with_escaped_quotes_message_unescapes_quotes() {
    let identifier = format!(r#""{}""b""#, "a".repeat(63));
    //                                     ^^ escaped quote
    let sql = format!("create table {identifier} (id bigint);");
    let text = format!("{}\"b", "a".repeat(63));
    let f = file_with_names(&sql, vec![], vec![NameLike { text: text.clone(), raw: identifier.clone(), range: at(&sql, &identifier) }]);
    let errors = lint(&sql, &f, Rule::IdentifierTooLong);
    // quoting is complicated so we don't add a fix
    assert_eq!(errors.len(), 1);
    assert_eq!(errors[0].message, format!("`{text}` is too long and will be truncated to 63 bytes."));
    assert!(errors[0].fix.is_none());
}

// ban-uncommitted-transaction, continued

fn apply_fixes(sql: &str, errors: &[Violation]) -> String {
    let mut edits: Vec<(u32, u32, String)> = errors
        .iter()
        .filter_map(|e| e.fix.as_ref())
        .flat_map(|f| f.edits.iter())
        .map(|e| (e.text_range.start, e.text_range.end, e.text.clone().unwrap_or_default()))
        .collect();
    edits.sort_by(|a, b| b.0.cmp(&a.0));
    let mut out = sql.to_string();
    for (start, end, text) in edits {
        out.replace_range(start as usize..end as usize, &text);
    }
    out
}

fn uncommitted(sql: &str, begin: &str, table: &str, name: &str) -> SourceFile {
    file(sql, vec![Stmt::Begin { range: at(sql, begin) }, create_table(sql, table, name)])
}

#[test]
fn start_transaction_uncommitted_err() {
    let sql = r#"
START TRANSACTION;
CREATE TABLE users (id bigint);
        "#;
    let f = uncommitted(sql, "START TRANSACTION", "CREATE TABLE users (id bigint)", "users");
    let errors = lint(sql, &f, Rule::BanUncommittedTransaction);
    assert_eq!(errors.len(), 1);
    assert_eq!(errors[0].message, "Transaction never committed or rolled back.");
    assert_eq!(errors[0].text_range, at(sql, "START TRANSACTION"));
    assert_eq!(errors[0].help.as_deref(), Some("Add a `COMMIT` or `ROLLBACK` statement to complete the transaction."));
}

#[test]
fn begin_work_uncommitted_err() {
    let sql = r#"
BEGIN WORK;
CREATE TABLE users (id bigint);
        "#;
    let f = uncommitted(sql, "BEGIN WORK", "CREATE TABLE users (id bigint)", "users");
    let errors = lint(sql, &f, Rule::BanUncommittedTransaction);
    assert_eq!(errors.len(), 1);
    assert_eq!(errors[0].text_range, at(sql, "BEGIN WORK"));
}

#[test]
fn fix_adds_commit() {
    let sql = "
BEGIN;
CREATE TABLE users (id bigint);
        ";
    let f = uncommitted(sql, "BEGIN", "CREATE TABLE users (id bigint)", "users");
    let errors = lint(sql, &f, Rule::BanUncommittedTransaction);
    assert_eq!(apply_fixes(sql, &errors), "\nBEGIN;\nCREATE TABLE users (id bigint);\n        \nCOMMIT;\n");
}

#[test]
fn fix_adds_commit_to_start_transaction() {
    let sql = "START TRANSACTION;
CREATE TABLE posts (id bigint);";
    let f = uncommitted(sql, "START TRANSACTION", "CREATE TABLE posts (id bigint)", "posts");
    let errors = lint(sql, &f, Rule::BanUncommittedTransaction);
    assert_eq!(apply_fixes(sql, &errors), "START TRANSACTION;\nCREATE TABLE posts (id bigint);\nCOMMIT;\n");
}
