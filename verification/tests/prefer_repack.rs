use squawk::lint::{Linter, LinterSettings};
use squawk::linter::{Rule, TextRange, Violation};
use squawk::syntax::{SourceFile, Stmt};

fn pg19() -> LinterSettings {
    LinterSettings { pg_version: "19".parse().expect("Invalid PostgreSQL version"), ..Default::default() }
}

fn lint(sql: &str, stmt: Stmt) -> Vec<Violation> {
    let file = SourceFile { stmts: vec![stmt], names: vec![], column_types: vec![], column_assignments: vec![], text_range: TextRange::new(0, sql.len() as u32) };
    let mut linter = Linter::from(vec![Rule::PreferRepack]);
    linter.settings = pg19();
    linter.lint(&file, sql)
}

/// `sql` (one statement ending in `;`) with the fix applied.
fn fix(sql: &str, stmt: Stmt) -> String {
    let errors = lint(sql, stmt);
    assert_eq!(errors.len(), 1);
    let edit = &errors[0].fix.as_ref().expect("a fix").edits[0];
    let mut out = sql.to_string();
    out.replace_range(edit.text_range.start as usize..edit.text_range.end as usize, edit.text.as_deref().unwrap_or(""));
    out
}

/// The statement, without its `;`.
fn stmt_range(sql: &str) -> TextRange {
    TextRange::new(0, sql.len() as u32 - 1)
}

fn vacuum_full(sql: &str, tables: &str) -> Stmt {
    Stmt::Vacuum { range: stmt_range(sql), full: true, tables: Some(tables.to_string()) }
}

fn cluster(sql: &str, path: Option<&str>, has_on: bool, on_path: Option<&str>, using_index: Option<&str>) -> Stmt {
    Stmt::Cluster {
        range: stmt_range(sql),
        path: path.map(|s| s.to_string()),
        has_on,
        on_path: on_path.map(|s| s.to_string()),
        using_index: using_index.map(|s| s.to_string()),
    }
}

#[test]
fn cluster_no_path_err() {
    let sql = "CLUSTER;";
    let errors = lint(sql, cluster(sql, None, false, None, None));
    assert_eq!(errors.len(), 1);
    assert_eq!(errors[0].message, "`cluster` requires an `ACCESS EXCLUSIVE` lock which blocks reads and writes to the table.");
    assert_eq!(errors[0].text_range, TextRange::new(0, 7));
    assert_eq!(errors[0].help.as_deref(), Some("Use `repack` to rewrite the table without blocking reads and writes."));
    assert_eq!(fix(sql, cluster(sql, None, false, None, None)), "repack (concurrently);");
}

#[test]
fn vacuum_full_option_list_err() {
    let sql = "VACUUM (FULL) foo;";
    let errors = lint(sql, vacuum_full(sql, "foo"));
    assert_eq!(errors.len(), 1);
    assert_eq!(errors[0].message, "`vacuum full` requires an `ACCESS EXCLUSIVE` lock which blocks reads and writes to the table.");
    assert_eq!(errors[0].text_range, TextRange::new(0, 17));
    assert_eq!(fix(sql, vacuum_full(sql, "foo")), "repack (concurrently) foo;");
}

#[test]
fn fix_vacuum_full() {
    let sql = "VACUUM FULL foo;";
    assert_eq!(fix(sql, vacuum_full(sql, "foo")), "repack (concurrently) foo;");
}

#[test]
fn fix_vacuum_full_option_list() {
    let sql = "VACUUM (FULL) foo;";
    assert_eq!(fix(sql, vacuum_full(sql, "foo")), "repack (concurrently) foo;");
}

#[test]
fn fix_vacuum_full_multiple_tables() {
    let sql = "VACUUM FULL foo, bar;";
    assert_eq!(fix(sql, vacuum_full(sql, "foo, bar")), "repack (concurrently) foo, bar;");
}

#[test]
fn fix_cluster_no_index() {
    let sql = "CLUSTER foo;";
    assert_eq!(fix(sql, cluster(sql, Some("foo"), false, None, None)), "repack (concurrently) foo;");
}

#[test]
fn fix_cluster_with_index() {
    let sql = "CLUSTER foo USING foo_pkey;";
    assert_eq!(
        fix(sql, cluster(sql, Some("foo"), false, None, Some("foo_pkey"))),
        "repack (concurrently) foo using index foo_pkey;"
    );
}

#[test]
fn fix_cluster_legacy_on_syntax() {
    let sql = "CLUSTER verbose foo_pkey ON foo;";
    assert_eq!(
        fix(sql, cluster(sql, Some("foo_pkey"), true, Some("foo"), None)),
        "repack (concurrently) foo using index foo_pkey;"
    );
}

#[test]
fn fix_cluster_no_path() {
    let sql = "CLUSTER;";
    assert_eq!(fix(sql, cluster(sql, None, false, None, None)), "repack (concurrently);");
}

#[test]
fn legacy_on_syntax_without_table_has_no_fix() {
    let sql = "CLUSTER foo_pkey ON;";
    let errors = lint(sql, cluster(sql, Some("foo_pkey"), true, None, None));
    assert_eq!(errors.len(), 1);
    assert!(errors[0].fix.is_none());
}
