use squawk::lint::Linter;
use squawk::linter::{Rule, TextRange, Violation};
use squawk::syntax::{ColumnAssignments, ColumnTarget, SetColumn, SourceFile, Stmt};

fn range(start: usize, len: usize) -> TextRange {
    TextRange::new(start as u32, (start + len) as u32)
}

/// The target written as `text` at `start`: a column, or a part of one.
fn target(start: usize, text: &str) -> ColumnTarget {
    let end = if text.starts_with('"') {
        text[1..].find('"').map(|i| i + 2).unwrap_or(text.len())
    } else {
        text.find(|c: char| c == '.' || c == '[').unwrap_or(text.len())
    };
    let written = &text[..end];
    let denoted = if written.len() >= 2 && written.starts_with('"') && written.ends_with('"') {
        written[1..written.len() - 1].to_string()
    } else {
        written.to_lowercase()
    };
    ColumnTarget { name: Some((denoted, range(start, written.len()))), partial: end < text.len() }
}

/// The targets of a parenthesised list written as `text` at `start`.
fn targets(start: usize, text: &str) -> Vec<ColumnTarget> {
    let inner = &text[1..text.find(')').unwrap()];
    let mut out = vec![];
    let mut offset = start + 1;
    for part in inner.split(", ") {
        out.push(target(offset, part));
        offset += part.len() + 2;
    }
    out
}

/// The `SET` list whose assignments are written as `texts`, found in order
/// from `from`.
fn set_list(sql: &str, from: usize, texts: &[&str]) -> ColumnAssignments {
    let mut starts = vec![];
    let mut at = from;
    for t in texts {
        let start = at + sql[at..].find(t).expect("assignment in sql");
        starts.push(start);
        at = start + t.len();
    }
    let mut set_columns = vec![];
    for (i, t) in texts.iter().enumerate() {
        let start = starts[i];
        let (single, ts) = if t.starts_with('(') {
            (false, targets(start, t))
        } else {
            (true, vec![target(start, t[..t.find(" =").unwrap()].trim())])
        };
        let end = start + t.len();
        let comment_after_comma = if i + 1 < texts.len() {
            let between = &sql[end..starts[i + 1]];
            between.find(',').and_then(|c| {
                let rest = &between[c + 1..];
                let comment = [rest.find("--"), rest.find("/*")].into_iter().flatten().min();
                comment.map(|p| (end + c + 1 + p) as u32)
            })
        } else {
            None
        };
        set_columns.push(SetColumn { range: range(start, t.len()), single, targets: ts, comment_after_comma });
    }
    ColumnAssignments::Update { set_columns }
}

fn insert_list(sql: &str, text: &str) -> ColumnAssignments {
    let start = sql.find(text).expect("column list in sql");
    ColumnAssignments::Insert { targets: targets(start, text) }
}

fn lint(sql: &str, lists: Vec<ColumnAssignments>) -> Vec<Violation> {
    let file = SourceFile {
        stmts: vec![Stmt::Other { range: range(0, sql.len()) }],
        names: vec![],
        column_types: vec![],
        column_assignments: lists,
        text_range: range(0, sql.len()),
    };
    let mut linter = Linter::from(vec![Rule::BanDuplicateColumnAssignments]);
    linter.lint(&file, sql)
}

/// `sql` with the edits of every fix applied.
fn fix(sql: &str, lists: Vec<ColumnAssignments>) -> String {
    let errors = lint(sql, lists);
    let mut edits: Vec<(u32, u32, String)> = errors
        .iter()
        .filter_map(|e| e.fix.as_ref())
        .flat_map(|f| f.edits.iter())
        .map(|e| (e.text_range.start, e.text_range.end, e.text.clone().unwrap_or_default()))
        .collect();
    edits.sort_by(|a, b| b.0.cmp(&a.0));
    let mut out = sql.to_string();
    for (start, end, text) in edits {
        out.replace_range(start as usize..end as usize, &text);
    }
    out
}

fn message(name: &str) -> String {
    format!("Multiple assignments to the same column `{name}`.")
}

fn nth(sql: &str, needle: &str, n: usize) -> TextRange {
    let start = sql.match_indices(needle).nth(n).expect("needle in sql").0;
    range(start, needle.len())
}

#[test]
fn duplicate_assignment_err() {
    let sql = r#"
drop table k;
create table k (
  a int,
  b int,
  c int
);
update k
set
  a = 1,
  a = 1,
  b = 2,
  c = 3;
"#;
    let list = || vec![set_list(sql, sql.find("set").unwrap(), &["a = 1", "a = 1", "b = 2", "c = 3"])];
    let errors = lint(sql, list());
    assert_eq!(errors.len(), 2);
    assert!(errors.iter().all(|e| e.message == message("a")));
    assert_eq!(errors[0].text_range, range(nth(sql, "a = 1", 0).start as usize, 1));
    assert!(errors[0].fix.is_none());
    assert_eq!(errors[1].text_range.start, nth(sql, "a = 1", 1).start);
    assert_eq!(errors[1].fix.as_ref().unwrap().title, "Delete all but the last assignment to `a`");
    assert_eq!(fix(sql, list()), sql.replacen("  a = 1,\n  a = 1,", "  a = 1,", 1));
}

#[test]
fn fix_deletes_all_but_last_assignment() {
    let sql = r#"
update k
set
  a = 1,
  b = 2,
  a = 3,
  a = 4,
  c = 5;
"#;
    let lists = vec![set_list(sql, 0, &["a = 1", "b = 2", "a = 3", "a = 4", "c = 5"])];
    assert_eq!(fix(sql, lists), "\nupdate k\nset\n  b = 2,\n  a = 4,\n  c = 5;\n");
}

#[test]
fn fix_preserves_comments_between_assignments() {
    let sql = r#"
update k
set
  a = 1 /* some comment */,
  -- another comment
  b = 2,
  a = 3;
"#;
    let lists = vec![set_list(sql, 0, &["a = 1", "b = 2", "a = 3"])];
    assert_eq!(fix(sql, lists), "\nupdate k\nset\n  -- another comment\n  b = 2,\n  a = 3;\n");
}

#[test]
fn duplicate_multiple_column_assignment_err() {
    let sql = r#"
update k
set
  (a, b) = (1, 2),
  a = 3;
"#;
    let errors = lint(sql, vec![set_list(sql, 0, &["(a, b) = (1, 2)", "a = 3"])]);
    assert_eq!(errors.len(), 2);
    assert_eq!(errors[0].text_range, range(sql.find("(a, b)").unwrap() + 1, 1));
    assert_eq!(errors[1].text_range, range(sql.find("a = 3").unwrap(), 1));
    // the tuple assignment cannot be deleted on its own
    assert!(errors.iter().all(|e| e.fix.is_none()));
}

#[test]
fn whole_and_partial_assignment_err() {
    let sql = r#"
create type k_record as (
  x int,
  y int
);
create table k (
  a k_record,
  b int,
  c int
);
update k
set
  a = row(1, 2),
  a.x = 1;
"#;
    let from = sql.find("update").unwrap();
    let list = || vec![set_list(sql, from, &["a = row(1, 2)", "a.x = 1"])];
    let errors = lint(sql, list());
    assert_eq!(errors.len(), 2);
    assert!(errors.iter().all(|e| e.message == message("a")));
    assert!(errors[1].fix.is_some());
    assert_eq!(fix(sql, list()), sql.replacen("  a = row(1, 2),\n  a.x = 1;", "  a.x = 1;", 1));
}

#[test]
fn names_use_postgres_case_rules() {
    let sql = r#"
update k
set
  a = 1,
  A = 2;
update k
set
  "a" = 1,
  a = 2;
"#;
    let second = sql.find("\"a\"").unwrap();
    let lists = vec![set_list(sql, 0, &["a = 1", "A = 2"]), set_list(sql, second, &["\"a\" = 1", "a = 2"])];
    let errors = lint(sql, lists);
    assert_eq!(errors.len(), 4);
    assert!(errors.iter().all(|e| e.message == message("a")));
    assert_eq!(errors[2].text_range, range(second, 3));
}

#[test]
fn names_use_postgres_truncation_rules() {
    let prefix = "a".repeat(63);
    let sql = format!("update k set {prefix}x = 1, {prefix}y = 2;");
    let x = format!("{prefix}x = 1");
    let y = format!("{prefix}y = 2");
    let list = || vec![set_list(&sql, 0, &[x.as_str(), y.as_str()])];
    let errors = lint(&sql, list());
    assert_eq!(errors.len(), 2);
    assert!(errors.iter().all(|e| e.message == message(&prefix)));
    assert_eq!(fix(&sql, list()), format!("update k set {prefix}y = 2;"));
}

#[test]
fn insert_err() {
    let sql = r#"
insert into t (a, a)
values (1, 2);
"#;
    let errors = lint(sql, vec![insert_list(sql, "(a, a)")]);
    assert_eq!(errors.len(), 2);
    assert_eq!(errors[0].text_range, range(sql.find("(a, a)").unwrap() + 1, 1));
    assert_eq!(errors[1].text_range, range(sql.find("(a, a)").unwrap() + 4, 1));
    assert!(errors.iter().all(|e| e.fix.is_none()));
}

#[test]
fn merge_insert_err() {
    let sql = r#"
merge into t
using s on t.id = s.id
when not matched then
  insert (a, a)
  values (1, 2);
"#;
    let errors = lint(sql, vec![insert_list(sql, "(a, a)")]);
    assert_eq!(errors.len(), 2);
    assert!(errors.iter().all(|e| e.message == message("a")));
}

#[test]
fn conflict_update_err() {
    let sql = r#"
insert into k
values (1)
on conflict (id)
do update
set
  a = 1,
  a = 2;
"#;
    let errors = lint(sql, vec![set_list(sql, sql.find("set").unwrap(), &["a = 1", "a = 2"])]);
    assert_eq!(errors.len(), 2);
    assert!(errors[0].fix.is_none());
    assert!(errors[1].fix.is_some());
}

#[test]
fn merge_update_err() {
    let sql = r#"
merge into k
using j on k.id = j.id
when matched then
  update
  set
    a = 1,
    a = 2;
"#;
    let list = || vec![set_list(sql, sql.find("set").unwrap(), &["a = 1", "a = 2"])];
    let errors = lint(sql, list());
    assert_eq!(errors.len(), 2);
    assert_eq!(fix(sql, list()), sql.replacen("    a = 1,\n    a = 2;", "    a = 2;", 1));
}

#[test]
fn distinct_and_partial_assignments_ok() {
    let sql = r#"
update k
set
  a = 1,
  b = 2;
update k
set
  a.x = 1,
  a.y = 2;
update k
set
  a[1] = 1,
  a[2] = 2;
update k
set
  "A" = 1,
  A = 2;
insert into k (a, b)
values (1, 2);
insert into k (a.x, a.y)
values (1, 2);
merge into k
using j on k.id = j.id
when not matched then
  insert (a.x, a.y)
  values (1, 2);
"#;
    let lists = vec![
        set_list(sql, 0, &["a = 1", "b = 2"]),
        set_list(sql, sql.find("a.x = 1").unwrap(), &["a.x = 1", "a.y = 2"]),
        set_list(sql, sql.find("a[1] = 1").unwrap(), &["a[1] = 1", "a[2] = 2"]),
        set_list(sql, sql.find("\"A\" = 1").unwrap(), &["\"A\" = 1", "A = 2"]),
        insert_list(sql, "(a, b)"),
        ColumnAssignments::Insert { targets: targets(sql.find("(a.x, a.y)").unwrap(), "(a.x, a.y)") },
        ColumnAssignments::Insert { targets: targets(sql.rfind("(a.x, a.y)").unwrap(), "(a.x, a.y)") },
    ];
    assert_eq!(lint(sql, lists), vec![]);
}
