use squawk::ignore::{find_ignores, ignore_rule_info, IgnoreKind};
use squawk::lint::Linter;
use squawk::linter::{Rule, TextRange};
use squawk::syntax::{AlterTableAction, Constraint, SourceFile, SqlType, Stmt};

fn at(sql: &str, needle: &str) -> TextRange {
    let start = sql.find(needle).expect("needle in sql");
    TextRange::new(start as u32, (start + needle.len()) as u32)
}

fn file(sql: &str, stmts: Vec<Stmt>) -> SourceFile {
    SourceFile { stmts, names: vec![], column_types: vec![], column_assignments: vec![], text_range: TextRange::new(0, sql.len() as u32) }
}

fn drop_column(sql: &str, stmt: &str, table: &str, action: &str) -> Stmt {
    Stmt::AlterTable {
        range: at(sql, stmt),
        table: Some(table.to_string()),
        actions: vec![AlterTableAction::DropColumn {
            range: at(sql, action),
            if_exists: false,
            column_token: Some(TextRange::new(at(sql, action).start + 5, at(sql, action).start + 11)),
        }],
    }
}

#[test]
fn single_ignore() {
    let sql = r#"
-- squawk-ignore ban-drop-column
alter table t drop column c cascade;
        "#;
    let mut linter = Linter::from(vec![]);
    find_ignores(&mut linter, sql);

    assert_eq!(linter.ignores.len(), 1);
    let ignore = &linter.ignores[0];
    assert!(ignore.violation_names.contains(&Rule::BanDropColumn));
}

#[test]
fn multiple_sql_comments_with_ignore_is_ok() {
    let sql = "
-- fooo bar
-- buzz
-- squawk-ignore prefer-robust-stmts
create table x();

select 1;
";
    let mut linter = Linter::with_all_rules();
    find_ignores(&mut linter, sql);

    assert_eq!(linter.ignores.len(), 1);
    let ignore = &linter.ignores[0];
    assert!(ignore.violation_names.contains(&Rule::PreferRobustStmts), "Make sure we picked up the ignore");

    let f = file(
        sql,
        vec![
            Stmt::CreateTable {
                range: at(sql, "create table x()"),
                if_not_exists: false,
                table_token: Some(at(sql, "table")),
                name: Some("x".to_string()),
            },
            Stmt::Other { range: at(sql, "select 1") },
        ],
    );
    let mut linter = Linter::with_all_rules();
    let errors = linter.lint(&f, sql);

    assert_eq!(errors, vec![], "We shouldn't have any errors because we have the ignore setup");
}

#[test]
fn single_ignore_c_style_comment() {
    let sql = r#"
/* squawk-ignore ban-drop-column */
alter table t drop column c cascade;
        "#;
    let mut linter = Linter::from(vec![]);
    find_ignores(&mut linter, sql);

    assert_eq!(linter.ignores.len(), 1);
    let ignore = &linter.ignores[0];
    assert!(ignore.violation_names.contains(&Rule::BanDropColumn));
}

#[test]
fn multi_ignore() {
    let sql = r#"
-- squawk-ignore ban-drop-column, renaming-column,ban-drop-database
alter table t drop column c cascade;
        "#;
    let mut linter = Linter::from(vec![]);
    find_ignores(&mut linter, sql);

    assert_eq!(linter.ignores.len(), 1);
    let ignore = &linter.ignores[0];
    assert!(ignore.violation_names.contains(&Rule::BanDropColumn));
    assert!(ignore.violation_names.contains(&Rule::RenamingColumn));
    assert!(ignore.violation_names.contains(&Rule::BanDropDatabase));
}

#[test]
fn multi_ignore_c_style_comment() {
    let sql = r#"
/* squawk-ignore ban-drop-column, renaming-column,ban-drop-database */
alter table t drop column c cascade;
        "#;
    let mut linter = Linter::from(vec![]);
    find_ignores(&mut linter, sql);

    assert_eq!(linter.ignores.len(), 1);
    let ignore = &linter.ignores[0];
    assert!(ignore.violation_names.contains(&Rule::BanDropColumn));
    assert!(ignore.violation_names.contains(&Rule::RenamingColumn));
    assert!(ignore.violation_names.contains(&Rule::BanDropDatabase));
}

#[test]
fn ignore_multiple_stmts() {
    let sql = r#"
-- squawk-ignore ban-char-field,prefer-robust-stmts
alter table t add column c char;

ALTER TABLE foo
-- squawk-ignore adding-field-with-default,prefer-robust-stmts
ADD COLUMN bar numeric GENERATED 
  ALWAYS AS (bar + baz) STORED;

-- squawk-ignore prefer-robust-stmts
create table users (
);
"#;
    let f = file(
        sql,
        vec![
            Stmt::AlterTable {
                range: at(sql, "alter table t add column c char"),
                table: Some("t".to_string()),
                actions: vec![AlterTableAction::AddColumn {
                    range: at(sql, "add column c char"),
                    if_not_exists: false,
                    column_token: Some(at(sql, "column c")),
                    constraints: vec![],
                }],
            },
            Stmt::AlterTable {
                range: at(sql, "ALTER TABLE foo\n-- squawk-ignore adding-field-with-default,prefer-robust-stmts\nADD COLUMN bar numeric GENERATED \n  ALWAYS AS (bar + baz) STORED"),
                table: Some("foo".to_string()),
                actions: vec![AlterTableAction::AddColumn {
                    range: at(sql, "ADD COLUMN bar numeric GENERATED \n  ALWAYS AS (bar + baz) STORED"),
                    if_not_exists: false,
                    column_token: Some(at(sql, "COLUMN bar")),
                    constraints: vec![Constraint::Generated {
                        range: at(sql, "GENERATED \n  ALWAYS AS (bar + baz) STORED"),
                    }],
                }],
            },
            Stmt::CreateTable {
                range: at(sql, "create table users (\n)"),
                if_not_exists: false,
                table_token: Some(at(sql, "table users")),
                name: Some("users".to_string()),
            },
        ],
    );
    let mut f = f;
    f.column_types = vec![
        SqlType::Char {
            range: TextRange::new(at(sql, "char;").start, at(sql, "char;").start + 4),
            first_token: "char".to_string(),
            text: "char".to_string(),
            args: None,
        },
        SqlType::Other { range: at(sql, "numeric"), first_token: "numeric".to_string() },
    ];
    let mut linter = Linter::with_all_rules();
    let errors = linter.lint(&f, sql);
    assert_eq!(errors.len(), 0);
}

#[test]
fn starting_line_aka_zero() {
    let sql = r#"alter table t add column c char;"#;
    let mut f = file(
        sql,
        vec![Stmt::AlterTable {
            range: at(sql, "alter table t add column c char"),
            table: Some("t".to_string()),
            actions: vec![AlterTableAction::AddColumn {
                range: at(sql, "add column c char"),
                if_not_exists: false,
                column_token: Some(at(sql, "column")),
                constraints: vec![],
            }],
        }],
    );
    f.column_types = vec![SqlType::Char {
        range: TextRange::new(at(sql, "char;").start, at(sql, "char;").start + 4),
        first_token: "char".to_string(),
        text: "char".to_string(),
        args: None,
    }];
    let mut linter = Linter::with_all_rules();
    let errors = linter.lint(&f, sql);
    assert_eq!(errors.len(), 1);
}

#[test]
fn regression_unknown_name() {
    let sql = r#"
-- squawk-ignore prefer-robust-stmts
create table test_table (
  -- squawk-ignore prefer-timestamp-tz
  created_at timestamp default current_timestamp,
  other_field text
);
        "#;
    let f = file(
        sql,
        vec![Stmt::CreateTable {
            range: at(sql, "create table test_table (\n  -- squawk-ignore prefer-timestamp-tz\n  created_at timestamp default current_timestamp,\n  other_field text\n)"),
            if_not_exists: false,
            table_token: Some(at(sql, "table test_table")),
            name: Some("test_table".to_string()),
        }],
    );
    let mut linter = Linter::with_all_rules();
    let errors = linter.lint(&f, sql);
    assert_eq!(errors.len(), 0);
}

#[test]
fn file_single_rule() {
    let sql = r#"
-- squawk-ignore-file ban-drop-column
alter table t drop column c cascade;
        "#;
    let mut linter = Linter::from(vec![]);
    find_ignores(&mut linter, sql);

    assert_eq!(linter.ignores.len(), 1);
    let ignore = &linter.ignores[0];
    assert!(ignore.violation_names.contains(&Rule::BanDropColumn));
    assert!(matches!(ignore.kind, IgnoreKind::File));
}

#[test]
fn file_ignore_with_all_rules() {
    let sql = r#"
-- squawk-ignore-file
alter table t drop column c cascade;
        "#;
    let mut linter = Linter::from(vec![]);
    find_ignores(&mut linter, sql);

    assert_eq!(linter.ignores.len(), 1);
    let ignore = &linter.ignores[0];
    assert!(matches!(ignore.kind, IgnoreKind::File));
    assert!(ignore.violation_names.is_empty());

    let f = file(sql, vec![drop_column(sql, "alter table t drop column c cascade", "t", "drop column c cascade")]);
    let mut linter = Linter::from(vec![]);
    let errors: Vec<_> = linter.lint(&f, sql).into_iter().map(|x| x.code).collect();
    assert!(errors.is_empty());
}

#[test]
fn file_ignore_with_multiple_rules() {
    let sql = r#"
-- squawk-ignore-file ban-drop-column, renaming-column
alter table t drop column c cascade;
        "#;
    let mut linter = Linter::from(vec![]);
    find_ignores(&mut linter, sql);

    assert_eq!(linter.ignores.len(), 1);
    let ignore = &linter.ignores[0];
    assert!(ignore.violation_names.contains(&Rule::BanDropColumn));
    assert!(ignore.violation_names.contains(&Rule::RenamingColumn));
    assert!(matches!(ignore.kind, IgnoreKind::File));
}

#[test]
fn file_ignore_anywhere_works() {
    let sql = r#"
alter table t add column x int;
-- squawk-ignore-file ban-drop-column
alter table t drop column c cascade;
        "#;
    let mut linter = Linter::from(vec![]);
    find_ignores(&mut linter, sql);

    assert_eq!(linter.ignores.len(), 1);
    let ignore = &linter.ignores[0];
    assert!(ignore.violation_names.contains(&Rule::BanDropColumn));
    assert!(matches!(ignore.kind, IgnoreKind::File));
}

#[test]
fn file_ignore_c_style_comment() {
    let sql = r#"
/* squawk-ignore-file ban-drop-column */
alter table t drop column c cascade;
        "#;
    let mut linter = Linter::from(vec![]);
    find_ignores(&mut linter, sql);

    assert_eq!(linter.ignores.len(), 1);
    let ignore = &linter.ignores[0];
    assert!(ignore.violation_names.contains(&Rule::BanDropColumn));
    assert!(matches!(ignore.kind, IgnoreKind::File));
}

#[test]
fn file_level_only_ignores_specific_rules() {
    let sql = r#"
-- squawk-ignore-file ban-drop-column
alter table t drop column c cascade;
alter table t2 drop column c2 cascade;
        "#;
    let f = file(
        sql,
        vec![
            drop_column(sql, "alter table t drop column c cascade", "t", "drop column c cascade"),
            drop_column(sql, "alter table t2 drop column c2 cascade", "t2", "drop column c2 cascade"),
        ],
    );
    let mut linter = Linter::with_all_rules();
    let errors: Vec<_> = linter.lint(&f, sql).into_iter().map(|x| x.code).collect();

    assert_eq!(errors, vec![Rule::PreferRobustStmts, Rule::PreferRobustStmts]);
}

#[test]
fn file_ignore_at_end_of_file_is_fine() {
    let sql = r#"
alter table t drop column c cascade;
alter table t2 drop column c2 cascade;
-- squawk-ignore-file ban-drop-column
        "#;
    let f = file(
        sql,
        vec![
            drop_column(sql, "alter table t drop column c cascade", "t", "drop column c cascade"),
            drop_column(sql, "alter table t2 drop column c2 cascade", "t2", "drop column c2 cascade"),
        ],
    );
    let mut linter = Linter::with_all_rules();
    let errors: Vec<_> = linter.lint(&f, sql).into_iter().map(|x| x.code).collect();

    assert_eq!(errors, vec![Rule::PreferRobustStmts, Rule::PreferRobustStmts]);
}

#[test]
fn line_ignore_applies_to_its_line_and_the_next() {
    let sql = "alter table t drop column c; -- squawk-ignore ban-drop-column\nalter table t drop column d;\nalter table t drop column e;\n";
    let f = file(
        sql,
        vec![
            drop_column(sql, "alter table t drop column c", "t", "drop column c"),
            drop_column(sql, "alter table t drop column d", "t", "drop column d"),
            drop_column(sql, "alter table t drop column e", "t", "drop column e"),
        ],
    );
    let mut linter = Linter::from(vec![Rule::BanDropColumn]);
    let errors = linter.lint(&f, sql);
    assert_eq!(errors.len(), 1);
    assert_eq!(errors[0].text_range, at(sql, "drop column e"));
}

#[test]
fn unknown_rule_name_is_reported() {
    let sql = "-- squawk-ignore not-a-rule, ban-drop-column\nselect 1;\n";
    let mut linter = Linter::from(vec![]);
    find_ignores(&mut linter, sql);
    assert_eq!(linter.ignores.len(), 1);
    assert_eq!(linter.ignores[0].violation_names, vec![Rule::BanDropColumn]);
    assert_eq!(linter.errors.len(), 1);
    assert_eq!(linter.errors[0].code, Rule::UnusedIgnore);
    assert_eq!(linter.errors[0].text_range, at(sql, "not-a-rule"));
}

#[test]
fn ignore_rule_info_reads_the_marker() {
    let text = "-- squawk-ignore-file foo";
    let info = ignore_rule_info(text, TextRange::new(10, 10 + text.len() as u32));
    let (names, range, kind) = info.expect("an ignore comment");
    assert_eq!(names, " foo");
    assert_eq!(range, TextRange::new(31, 35));
    assert!(matches!(kind, IgnoreKind::File));
    assert!(ignore_rule_info("-- just a comment", TextRange::new(0, 17)).is_none());
}
