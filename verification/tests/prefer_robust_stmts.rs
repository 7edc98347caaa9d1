use squawk::lint::{Linter, LinterSettings};
use squawk::linter::{Rule, TextRange, Violation};
use squawk::syntax::{AlterColumnOption, AlterTableAction, Constraint, SourceFile, Stmt};

fn nth(sql: &str, needle: &str, n: usize) -> TextRange {
    let start = sql.match_indices(needle).nth(n).expect("needle in sql").0;
    TextRange::new(start as u32, (start + needle.len()) as u32)
}

fn at(sql: &str, needle: &str) -> TextRange {
    nth(sql, needle, 0)
}

fn file(sql: &str, stmts: Vec<Stmt>) -> SourceFile {
    SourceFile { stmts, names: vec![], column_types: vec![], column_assignments: vec![], text_range: TextRange::new(0, sql.len() as u32) }
}

fn lint_with(sql: &str, stmts: Vec<Stmt>, assume_in_transaction: bool) -> Vec<Violation> {
    let mut linter = Linter::from(vec![Rule::PreferRobustStmts]);
    linter.settings = LinterSettings { assume_in_transaction, ..Default::default() };
    linter.lint(&file(sql, stmts), sql)
}

fn lint(sql: &str, stmts: Vec<Stmt>) -> Vec<Violation> {
    lint_with(sql, stmts, false)
}

/// `sql` with the edits of every fix applied.
fn fix(sql: &str, stmts: Vec<Stmt>) -> String {
    let errors = lint(sql, stmts);
    let mut edits: Vec<(u32, u32, String)> = errors
        .iter()
        .filter_map(|e| e.fix.as_ref())
        .flat_map(|f| f.edits.iter())
        .map(|e| (e.text_range.start, e.text_range.end, e.text.clone().unwrap_or_default()))
        .collect();
    edits.sort_by(|a, b| b.0.cmp(&a.0));
    let mut out = sql.to_string();
    for (start, end, text) in edits {
        out.replace_range(start as usize..end as usize, &text);
    }
    out.trim().to_string()
}

fn select_1(sql: &str) -> Stmt {
    Stmt::Other { range: at(sql, "select 1") }
}

fn alter_table(sql: &str, n: usize, stmt: &str, table: &str, actions: Vec<AlterTableAction>) -> Stmt {
    Stmt::AlterTable { range: nth(sql, stmt, n), table: Some(table.to_string()), actions }
}

fn add_column(sql: &str, action: &str, column: &str, if_not_exists: bool) -> AlterTableAction {
    AlterTableAction::AddColumn { range: at(sql, action), if_not_exists, column_token: Some(at(sql, column)), constraints: vec![] }
}

fn drop_constraint(sql: &str, n: usize, action: &str, keyword: &str, name: &str, if_exists: bool) -> AlterTableAction {
    AlterTableAction::DropConstraint {
        range: nth(sql, action, n),
        name: Some(name.to_string()),
        if_exists,
        constraint_token: Some(nth(sql, keyword, n)),
    }
}

fn add_unique(sql: &str, n: usize, action: &str, name: &str) -> AlterTableAction {
    AlterTableAction::AddConstraint {
        range: nth(sql, action, n),
        name: Some(name.to_string()),
        not_valid: false,
        constraint: Some(Constraint::Unique { range: nth(sql, "UNIQUE", n), using_index: true }),
    }
}

fn create_table(sql: &str, stmt: &str, keyword: &str, name: &str, if_not_exists: bool) -> Stmt {
    Stmt::CreateTable { range: at(sql, stmt), if_not_exists, table_token: Some(at(sql, keyword)), name: Some(name.to_string()) }
}

#[test]
fn fix_drop_type_if_exists() {
    let sql = "
drop type t;
DROP TYPE f;
";
    let stmts = vec![
        Stmt::DropType { range: at(sql, "drop type t"), if_exists: false, type_token: Some(at(sql, "type")) },
        Stmt::DropType { range: at(sql, "DROP TYPE f"), if_exists: false, type_token: Some(at(sql, "TYPE")) },
    ];
    assert_eq!(fix(sql, stmts), "drop type if exists t;\nDROP TYPE if exists f;");
}

#[test]
fn fix_drop_index_if_exists() {
    let sql = "
drop index i;
DROP INDEX CONCURRENTLY idx;
";
    let stmts = vec![
        Stmt::DropIndex { range: at(sql, "drop index i"), if_exists: false, first_index: Some(at(sql, "i;")) },
        Stmt::DropIndex {
            range: at(sql, "DROP INDEX CONCURRENTLY idx"),
            if_exists: false,
            first_index: Some(at(sql, "idx")),
        },
    ];
    assert_eq!(fix(sql, stmts), "drop index if exists i;\nDROP INDEX CONCURRENTLY if exists idx;");
}

#[test]
fn fix_drop_table_if_exists() {
    let sql = "
drop table t;
DROP TABLE users;
";
    let stmts = vec![
        Stmt::DropTable { range: at(sql, "drop table t"), if_exists: false, table_token: Some(at(sql, "table")) },
        Stmt::DropTable { range: at(sql, "DROP TABLE users"), if_exists: false, table_token: Some(at(sql, "TABLE")) },
    ];
    assert_eq!(fix(sql, stmts), "drop table if exists t;\nDROP TABLE if exists users;");
}

#[test]
fn fix_create_index_if_not_exists() {
    let sql = "
create index idx on table (col);
CREATE INDEX CONCURRENTLY idx2 ON users (email);
";
    let stmts = vec![
        Stmt::CreateIndex {
            range: at(sql, "create index idx on table (col)"),
            if_not_exists: false,
            name: Some(at(sql, "idx ")),
            concurrently: None,
        },
        Stmt::CreateIndex {
            range: at(sql, "CREATE INDEX CONCURRENTLY idx2 ON users (email)"),
            if_not_exists: false,
            name: Some(at(sql, "idx2")),
            concurrently: Some(at(sql, "CONCURRENTLY")),
        },
    ];
    assert_eq!(
        fix(sql, stmts),
        "create index if not exists idx on table (col);\nCREATE INDEX CONCURRENTLY if not exists idx2 ON users (email);"
    );
}

#[test]
fn fix_create_table_if_not_exists() {
    let sql = "
create table t (id int);
CREATE TABLE users (id serial, name text);
";
    let stmts = vec![
        create_table(sql, "create table t (id int)", "table", "t", false),
        create_table(sql, "CREATE TABLE users (id serial, name text)", "TABLE", "users", false),
    ];
    assert_eq!(
        fix(sql, stmts),
        "create table if not exists t (id int);\nCREATE TABLE if not exists users (id serial, name text);"
    );
}

#[test]
fn fix_alter_table_add_column_if_not_exists() {
    let sql = "
alter table t add column c text;
ALTER TABLE users ADD COLUMN email text;
";
    let stmts = vec![
        alter_table(sql, 0, "alter table t add column c text", "t", vec![add_column(sql, "add column c text", "column", false)]),
        alter_table(
            sql,
            0,
            "ALTER TABLE users ADD COLUMN email text",
            "users",
            vec![add_column(sql, "ADD COLUMN email text", "COLUMN", false)],
        ),
    ];
    assert_eq!(
        fix(sql, stmts),
        "alter table t add column if not exists c text;\nALTER TABLE users ADD COLUMN if not exists email text;"
    );
}

#[test]
fn fix_alter_table_drop_column_if_exists() {
    let sql = "
alter table t drop column c;
ALTER TABLE users DROP COLUMN email;
";
    let stmts = vec![
        alter_table(
            sql,
            0,
            "alter table t drop column c",
            "t",
            vec![AlterTableAction::DropColumn { range: at(sql, "drop column c"), if_exists: false, column_token: Some(at(sql, "column")) }],
        ),
        alter_table(
            sql,
            0,
            "ALTER TABLE users DROP COLUMN email",
            "users",
            vec![AlterTableAction::DropColumn {
                range: at(sql, "DROP COLUMN email"),
                if_exists: false,
                column_token: Some(at(sql, "COLUMN")),
            }],
        ),
    ];
    assert_eq!(fix(sql, stmts), "alter table t drop column if exists c;\nALTER TABLE users DROP COLUMN if exists email;");
}

#[test]
fn fix_alter_table_drop_constraint_if_exists() {
    let sql = "
alter table t drop constraint c;
ALTER TABLE users DROP CONSTRAINT pk_users;
";
    let stmts = vec![
        alter_table(sql, 0, "alter table t drop constraint c", "t", vec![drop_constraint(sql, 0, "drop constraint c", "constraint", "c", false)]),
        alter_table(
            sql,
            0,
            "ALTER TABLE users DROP CONSTRAINT pk_users",
            "users",
            vec![drop_constraint(sql, 0, "DROP CONSTRAINT pk_users", "CONSTRAINT", "pk_users", false)],
        ),
    ];
    assert_eq!(
        fix(sql, stmts),
        "alter table t drop constraint if exists c;\nALTER TABLE users DROP CONSTRAINT if exists pk_users;"
    );
}

#[test]
fn drop_before_end_ok() {
    let sql = r#"
ALTER TABLE "app_email" DROP CONSTRAINT IF EXISTS "email_uniq";
ALTER TABLE "app_email" ADD CONSTRAINT "email_uniq" UNIQUE USING INDEX "email_idx";
        "#;
    let stmts = vec![
        alter_table(
            sql,
            0,
            r#"ALTER TABLE "app_email" DROP CONSTRAINT IF EXISTS "email_uniq""#,
            r#""app_email""#,
            vec![drop_constraint(sql, 0, r#"DROP CONSTRAINT IF EXISTS "email_uniq""#, "CONSTRAINT", r#""email_uniq""#, true)],
        ),
        alter_table(
            sql,
            0,
            r#"ALTER TABLE "app_email" ADD CONSTRAINT "email_uniq" UNIQUE USING INDEX "email_idx""#,
            r#""app_email""#,
            vec![add_unique(sql, 0, r#"ADD CONSTRAINT "email_uniq" UNIQUE USING INDEX "email_idx""#, r#""email_uniq""#)],
        ),
    ];
    let errors = lint(sql, stmts);
    assert_eq!(errors.len(), 0);
}

#[test]
fn drop_index_if_exists_ok() {
    let sql = r#"
select 1; -- so we don't skip checking
DROP INDEX CONCURRENTLY IF EXISTS "email_idx";
        "#;
    let stmts = vec![
        select_1(sql),
        Stmt::DropIndex {
            range: at(sql, r#"DROP INDEX CONCURRENTLY IF EXISTS "email_idx""#),
            if_exists: true,
            first_index: Some(at(sql, r#""email_idx""#)),
        },
    ];
    let errors = lint(sql, stmts);
    assert_eq!(errors.len(), 0);
}

#[test]
fn drop_before_add_foreign_key_ok() {
    let sql = r#"
ALTER TABLE "app_email" DROP CONSTRAINT IF EXISTS "fk_user";
ALTER TABLE "app_email" ADD CONSTRAINT "fk_user" FOREIGN KEY ("user_id") REFERENCES "app_user" ("id") DEFERRABLE INITIALLY DEFERRED NOT VALID;
ALTER TABLE "app_email" VALIDATE CONSTRAINT "fk_user";
        "#;
    let add = r#"ADD CONSTRAINT "fk_user" FOREIGN KEY ("user_id") REFERENCES "app_user" ("id") DEFERRABLE INITIALLY DEFERRED NOT VALID"#;
    let stmts = vec![
        alter_table(
            sql,
            0,
            r#"ALTER TABLE "app_email" DROP CONSTRAINT IF EXISTS "fk_user""#,
            r#""app_email""#,
            vec![drop_constraint(sql, 0, r#"DROP CONSTRAINT IF EXISTS "fk_user""#, "CONSTRAINT", r#""fk_user""#, true)],
        ),
        alter_table(
            sql,
            0,
            &format!(r#"ALTER TABLE "app_email" {add}"#),
            r#""app_email""#,
            vec![AlterTableAction::AddConstraint {
                range: at(sql, add),
                name: Some(r#""fk_user""#.to_string()),
                not_valid: true,
                constraint: Some(Constraint::ForeignKey {
                    range: at(sql, r#"FOREIGN KEY ("user_id") REFERENCES "app_user" ("id") DEFERRABLE INITIALLY DEFERRED"#),
                }),
            }],
        ),
        alter_table(
            sql,
            0,
            r#"ALTER TABLE "app_email" VALIDATE CONSTRAINT "fk_user""#,
            r#""app_email""#,
            vec![AlterTableAction::ValidateConstraint {
                range: at(sql, r#"VALIDATE CONSTRAINT "fk_user""#),
                name: Some(r#""fk_user""#.to_string()),
            }],
        ),
    ];
    let errors = lint(sql, stmts);
    assert_eq!(errors.len(), 0);
}

#[test]
fn prefer_robust_stmt_ok() {
    let sql = r#"
BEGIN;
ALTER TABLE "core_foo" ADD COLUMN "answer_id" integer NULL;
COMMIT;
        "#;
    let stmts = vec![
        Stmt::Begin { range: at(sql, "BEGIN") },
        alter_table(
            sql,
            0,
            r#"ALTER TABLE "core_foo" ADD COLUMN "answer_id" integer NULL"#,
            r#""core_foo""#,
            vec![add_column(sql, r#"ADD COLUMN "answer_id" integer NULL"#, "COLUMN", false)],
        ),
        Stmt::Commit { range: at(sql, "COMMIT") },
    ];
    let errors = lint(sql, stmts);
    assert_eq!(errors.len(), 0);
}

#[test]
fn prefer_robust_stmt_part_2_ok() {
    let sql = r#"
select 1; -- so we don't skip checking
ALTER TABLE "core_foo" ADD COLUMN IF NOT EXISTS "answer_id" integer NULL;
        "#;
    let stmts = vec![
        select_1(sql),
        alter_table(
            sql,
            0,
            r#"ALTER TABLE "core_foo" ADD COLUMN IF NOT EXISTS "answer_id" integer NULL"#,
            r#""core_foo""#,
            vec![add_column(sql, r#"ADD COLUMN IF NOT EXISTS "answer_id" integer NULL"#, "COLUMN", true)],
        ),
    ];
    let errors = lint(sql, stmts);
    assert_eq!(errors.len(), 0);
}

#[test]
fn prefer_robust_stmt_part_3_ok() {
    let sql = r#"
select 1; -- so we don't skip checking
CREATE INDEX CONCURRENTLY IF NOT EXISTS "core_foo_idx" ON "core_foo" ("answer_id");
        "#;
    let stmts = vec![
        select_1(sql),
        Stmt::CreateIndex {
            range: at(sql, r#"CREATE INDEX CONCURRENTLY IF NOT EXISTS "core_foo_idx" ON "core_foo" ("answer_id")"#),
            if_not_exists: true,
            name: Some(at(sql, r#""core_foo_idx""#)),
            concurrently: Some(at(sql, "CONCURRENTLY")),
        },
    ];
    let errors = lint(sql, stmts);
    assert_eq!(errors.len(), 0);
}

const CORE_BAR: &str = r#"CREATE TABLE "core_bar" (
    "id" serial NOT NULL PRIMARY KEY,
    "bravo" text NOT NULL
)"#;

#[test]
fn prefer_robust_stmt_part_4_ok() {
    let sql = r#"
BEGIN;
CREATE TABLE "core_bar" (
    "id" serial NOT NULL PRIMARY KEY,
    "bravo" text NOT NULL
);
COMMIT;
        "#;
    let stmts = vec![
        Stmt::Begin { range: at(sql, "BEGIN") },
        create_table(sql, CORE_BAR, "TABLE", r#""core_bar""#, false),
        Stmt::Commit { range: at(sql, "COMMIT") },
    ];
    let errors = lint(sql, stmts);
    assert_eq!(errors.len(), 0);
}

#[test]
fn prefer_robust_stmt_part_5_ok() {
    let sql = r#"
CREATE TABLE IF NOT EXISTS "core_bar" (
    "id" serial NOT NULL PRIMARY KEY,
    "bravo" text NOT NULL
);
        "#;
    let stmts = vec![create_table(
        sql,
        "CREATE TABLE IF NOT EXISTS \"core_bar\" (\n    \"id\" serial NOT NULL PRIMARY KEY,\n    \"bravo\" text NOT NULL\n)",
        "TABLE",
        r#""core_bar""#,
        true,
    )];
    let errors = lint(sql, stmts);
    assert_eq!(errors.len(), 0);
}

fn drops(sql: &str) -> Vec<Stmt> {
    vec![
        Stmt::DropIndex {
            range: at(sql, r#"DROP INDEX "core_bar_foo_id_idx""#),
            if_exists: false,
            first_index: Some(at(sql, r#""core_bar_foo_id_idx""#)),
        },
        Stmt::DropTable { range: at(sql, r#"DROP TABLE "core_bar""#), if_exists: false, table_token: Some(at(sql, "TABLE")) },
        Stmt::DropType { range: at(sql, "DROP TYPE foo"), if_exists: false, type_token: Some(at(sql, "TYPE")) },
    ]
}

#[test]
fn prefer_robust_stmt_part_6_ok() {
    // If done in a transaction, most forms of drop are fine
    let sql = r#"
BEGIN;
DROP INDEX "core_bar_foo_id_idx";
DROP TABLE "core_bar";
DROP TYPE foo;
COMMIT;
        "#;
    let mut stmts = vec![Stmt::Begin { range: at(sql, "BEGIN") }];
    stmts.extend(drops(sql));
    stmts.push(Stmt::Commit { range: at(sql, "COMMIT") });
    let errors = lint(sql, stmts);
    assert_eq!(errors.len(), 0);
}

#[test]
fn select_ok() {
    // select is fine, we're only interested in modifications to the tables
    let sql = r#"
select 1; -- so we don't skip checking
SELECT 1;
        "#;
    let stmts = vec![select_1(sql), Stmt::Other { range: at(sql, "SELECT 1") }];
    let errors = lint(sql, stmts);
    assert_eq!(errors.len(), 0);
}

#[test]
fn insert_ok() {
    // select is fine, we're only interested in modifications to the tables
    let sql = r#"
select 1; -- so we don't skip checking
INSERT INTO tbl VALUES (a);
        "#;
    let stmts = vec![select_1(sql), Stmt::Other { range: at(sql, "INSERT INTO tbl VALUES (a)") }];
    let errors = lint(sql, stmts);
    assert_eq!(errors.len(), 0);
}

#[test]
fn alter_table_ok() {
    // select is fine, we're only interested in modifications to the tables
    let sql = r#"
select 1; -- so we don't skip checking
ALTER TABLE "core_foo" DROP CONSTRAINT IF EXISTS "core_foo_idx";
        "#;
    let stmts = vec![
        select_1(sql),
        alter_table(
            sql,
            0,
            r#"ALTER TABLE "core_foo" DROP CONSTRAINT IF EXISTS "core_foo_idx""#,
            r#""core_foo""#,
            vec![drop_constraint(sql, 0, r#"DROP CONSTRAINT IF EXISTS "core_foo_idx""#, "CONSTRAINT", r#""core_foo_idx""#, true)],
        ),
    ];
    let errors = lint(sql, stmts);
    assert_eq!(errors.len(), 0);
}

#[test]
fn prefer_robust_stmts_alter_table_err() {
    let sql = r#"
select 1; -- so we don't skip checking
ALTER TABLE "core_foo" ADD COLUMN "answer_id" integer NULL;
        "#;
    let stmts = vec![
        select_1(sql),
        alter_table(
            sql,
            0,
            r#"ALTER TABLE "core_foo" ADD COLUMN "answer_id" integer NULL"#,
            r#""core_foo""#,
            vec![add_column(sql, r#"ADD COLUMN "answer_id" integer NULL"#, "COLUMN", false)],
        ),
    ];
    let errors = lint(sql, stmts);
    assert_ne!(errors.len(), 0);
    assert_eq!(errors.len(), 1);
    assert_eq!(errors[0].code, Rule::PreferRobustStmts);
    assert_eq!(errors[0].text_range, at(sql, r#"ADD COLUMN "answer_id" integer NULL"#));
    assert_eq!(errors[0].message, "Missing `IF NOT EXISTS`, the migration can't be rerun if it fails part way through.");
}

#[test]
fn create_index_concurrently_err() {
    let sql = r#"
select 1; -- so we don't skip checking
CREATE INDEX CONCURRENTLY "core_foo_idx" ON "core_foo" ("answer_id");
        "#;
    let stmts = vec![
        select_1(sql),
        Stmt::CreateIndex {
            range: at(sql, r#"CREATE INDEX CONCURRENTLY "core_foo_idx" ON "core_foo" ("answer_id")"#),
            if_not_exists: false,
            name: Some(at(sql, r#""core_foo_idx""#)),
            concurrently: Some(at(sql, "CONCURRENTLY")),
        },
    ];
    let errors = lint(sql, stmts);
    assert_ne!(errors.len(), 0);
    assert_eq!(errors.len(), 1);
    assert_eq!(errors[0].help.as_deref(), Some("Use an explicit name for a concurrently created index"));
}

#[test]
fn alter_table_drop_column_err() {
    let sql = r#"
select 1; -- so we don't skip checking
alter table t drop column c cascade;
        "#;
    let stmts = vec![
        select_1(sql),
        alter_table(
            sql,
            0,
            "alter table t drop column c cascade",
            "t",
            vec![AlterTableAction::DropColumn {
                range: at(sql, "drop column c cascade"),
                if_exists: false,
                column_token: Some(at(sql, "column")),
            }],
        ),
    ];
    let errors = lint(sql, stmts);
    assert_ne!(errors.len(), 0);
    assert_eq!(errors.len(), 1);
    assert_eq!(errors[0].message, "Missing `IF EXISTS`, the migration can't be rerun if it fails part way through.");
}

#[test]
fn alter_table_drop_column_ok() {
    let sql = r#"
select 1; -- so we don't skip checking
alter table t drop column if exists c cascade;
        "#;
    let stmts = vec![
        select_1(sql),
        alter_table(
            sql,
            0,
            "alter table t drop column if exists c cascade",
            "t",
            vec![AlterTableAction::DropColumn {
                range: at(sql, "drop column if exists c cascade"),
                if_exists: true,
                column_token: Some(at(sql, "column")),
            }],
        ),
    ];
    let errors = lint(sql, stmts);
    assert_eq!(errors.len(), 0);
}

#[test]
fn create_table_err() {
    let sql = r#"
select 1; -- so we don't skip checking
CREATE TABLE "core_bar" ( "id" serial NOT NULL PRIMARY KEY, "bravo" text NOT NULL);
        "#;
    let stmts = vec![
        select_1(sql),
        create_table(
            sql,
            r#"CREATE TABLE "core_bar" ( "id" serial NOT NULL PRIMARY KEY, "bravo" text NOT NULL)"#,
            "TABLE",
            r#""core_bar""#,
            false,
        ),
    ];
    let errors = lint(sql, stmts);
    assert_ne!(errors.len(), 0);
    assert_eq!(errors.len(), 1);
    assert_eq!(errors[0].fix.as_ref().unwrap().edits[0].text.as_deref(), Some(" if not exists"));
}

#[test]
fn alter_table_drop_constraint_err() {
    let sql = r#"
select 1; -- so we don't skip checking
ALTER TABLE "core_foo" DROP CONSTRAINT "core_foo_idx";
        "#;
    let stmts = vec![
        select_1(sql),
        alter_table(
            sql,
            0,
            r#"ALTER TABLE "core_foo" DROP CONSTRAINT "core_foo_idx""#,
            r#""core_foo""#,
            vec![drop_constraint(sql, 0, r#"DROP CONSTRAINT "core_foo_idx""#, "CONSTRAINT", r#""core_foo_idx""#, false)],
        ),
    ];
    let errors = lint(sql, stmts);
    assert_ne!(errors.len(), 0);
    assert_eq!(errors.len(), 1);
    assert_eq!(errors[0].text_range, at(sql, r#"DROP CONSTRAINT "core_foo_idx""#));
}

#[test]
fn create_index_concurrently_unnamed_ok() {
    let sql = r#"
select 1; -- so we don't skip checking
CREATE INDEX CONCURRENTLY ON "table_name" ("field_name");
        "#;
    let stmts = vec![
        select_1(sql),
        Stmt::CreateIndex {
            range: at(sql, r#"CREATE INDEX CONCURRENTLY ON "table_name" ("field_name")"#),
            if_not_exists: false,
            name: None,
            concurrently: Some(at(sql, "CONCURRENTLY")),
        },
    ];
    let errors = lint(sql, stmts);
    assert_eq!(errors.len(), 0);
}

fn row_level_security(sql: &str, stmt: &str, action: &str) -> Vec<Stmt> {
    vec![
        create_table(sql, "CREATE TABLE IF NOT EXISTS test()", "TABLE", "test", true),
        alter_table(sql, 0, stmt, "test", vec![AlterTableAction::Other { range: at(sql, action) }]),
    ]
}

#[test]
fn enable_row_level_security_err() {
    let sql = r#"
CREATE TABLE IF NOT EXISTS test();
ALTER TABLE IF EXISTS test ENABLE ROW LEVEL SECURITY;
        "#;
    let stmts = row_level_security(sql, "ALTER TABLE IF EXISTS test ENABLE ROW LEVEL SECURITY", "ENABLE ROW LEVEL SECURITY");
    let errors = lint(sql, stmts);
    assert_ne!(errors.len(), 0);
    assert_eq!(errors.len(), 1);
    assert_eq!(errors[0].message, "Missing transaction, the migration can't be rerun if it fails part way through.");
}

#[test]
fn enable_row_level_security_without_exists_check_err() {
    let sql = r#"
CREATE TABLE IF NOT EXISTS test();
ALTER TABLE test ENABLE ROW LEVEL SECURITY;
        "#;
    let stmts = row_level_security(sql, "ALTER TABLE test ENABLE ROW LEVEL SECURITY", "ENABLE ROW LEVEL SECURITY");
    let errors = lint(sql, stmts);
    assert_ne!(errors.len(), 0);
    assert_eq!(errors.len(), 1);
    assert_eq!(errors[0].text_range, at(sql, "ENABLE ROW LEVEL SECURITY"));
}

#[test]
fn disable_row_level_security_err() {
    let sql = r#"
CREATE TABLE IF NOT EXISTS test();
ALTER TABLE IF EXISTS test DISABLE ROW LEVEL SECURITY;
        "#;
    let stmts = row_level_security(sql, "ALTER TABLE IF EXISTS test DISABLE ROW LEVEL SECURITY", "DISABLE ROW LEVEL SECURITY");
    let errors = lint(sql, stmts);
    assert_ne!(errors.len(), 0);
    assert_eq!(errors.len(), 1);
}

#[test]
fn double_add_after_drop_err() {
    let sql = r#"
ALTER TABLE "app_email" DROP CONSTRAINT IF EXISTS "email_uniq";
ALTER TABLE "app_email" ADD CONSTRAINT "email_uniq" UNIQUE USING INDEX "email_idx";
-- this second add constraint should error because it's not robust
ALTER TABLE "app_email" ADD CONSTRAINT "email_uniq" UNIQUE USING INDEX "email_idx";
        "#;
    let add_stmt = r#"ALTER TABLE "app_email" ADD CONSTRAINT "email_uniq" UNIQUE USING INDEX "email_idx""#;
    let add = r#"ADD CONSTRAINT "email_uniq" UNIQUE USING INDEX "email_idx""#;
    let stmts = vec![
        alter_table(
            sql,
            0,
            r#"ALTER TABLE "app_email" DROP CONSTRAINT IF EXISTS "email_uniq""#,
            r#""app_email""#,
            vec![drop_constraint(sql, 0, r#"DROP CONSTRAINT IF EXISTS "email_uniq""#, "CONSTRAINT", r#""email_uniq""#, true)],
        ),
        alter_table(sql, 0, add_stmt, r#""app_email""#, vec![add_unique(sql, 0, add, r#""email_uniq""#)]),
        alter_table(sql, 1, add_stmt, r#""app_email""#, vec![add_unique(sql, 1, add, r#""email_uniq""#)]),
    ];
    let errors = lint(sql, stmts);
    assert_ne!(errors.len(), 0);
    assert_eq!(errors.len(), 1);
    assert_eq!(errors[0].text_range, nth(sql, add, 1));
}

#[test]
fn alter_column_set_not_null() {
    let sql = r#"
select 1; -- so we don't skip checking
alter table t alter column c set not null;
        "#;
    let stmts = vec![
        select_1(sql),
        alter_table(
            sql,
            0,
            "alter table t alter column c set not null",
            "t",
            vec![AlterTableAction::AlterColumn {
                range: at(sql, "alter column c set not null"),
                column: Some("c".to_string()),
                option: Some(AlterColumnOption::SetNotNull { range: at(sql, "set not null") }),
            }],
        ),
    ];
    let errors = lint(sql, stmts);
    assert_ne!(errors.len(), 0);
    assert_eq!(errors.len(), 1);
    assert_eq!(errors[0].text_range, at(sql, "alter column c set not null"));
}

#[test]
fn drop_index_err() {
    let sql = r#"
select 1; -- so we don't skip checking
DROP INDEX CONCURRENTLY "email_idx";
        "#;
    let stmts = vec![
        select_1(sql),
        Stmt::DropIndex {
            range: at(sql, r#"DROP INDEX CONCURRENTLY "email_idx""#),
            if_exists: false,
            first_index: Some(at(sql, r#""email_idx""#)),
        },
    ];
    let errors = lint(sql, stmts);
    assert_ne!(errors.len(), 0);
    assert_eq!(errors.len(), 1);
    assert_eq!(errors[0].fix.as_ref().unwrap().edits[0].text.as_deref(), Some("if exists "));
}

#[test]
fn assume_in_transaction_skips_every_statement_but_unnamed_concurrent_index() {
    let sql = r#"
DROP INDEX "core_bar_foo_id_idx";
DROP TABLE "core_bar";
DROP TYPE foo;
        "#;
    assert_eq!(lint_with(sql, drops(sql), true).len(), 0);
    assert_eq!(lint_with(sql, drops(sql), false).len(), 3);
}
