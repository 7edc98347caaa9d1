//! `prefer-repack`: from Postgres 19, `repack (concurrently)` rewrites a table
//! without the exclusive lock that `cluster` and `vacuum full` take.
use vstd::prelude::*;
use crate::lint::{Linter, LinterSettings};
use crate::linter::{opt_text, string_of, Edit, EditView, Fix, FixView, Rule, TextRange, Violation, ViolationView};
use crate::rules::{concat_map, lemma_concat_map_step, lemma_take_all, reports};
use crate::syntax::{SourceFile, Stmt};
use crate::text::push_str;
use crate::version::{version_lt, Version};

verus! {

/// Postgres 19, the first version with `repack`.
pub open spec fn pg19() -> Version {
    Version { major: 19, minor: None, patch: None }
}

/// The fix that replaces the statement at `range` by `text`.
pub open spec fn repack_fix(range: TextRange, text: Seq<char>) -> FixView {
    FixView { title: "Replace with `repack (concurrently)`"@, edits: seq![EditView { text_range: range, text: Some(text) }] }
}

/// The `repack` statement that replaces a `cluster`, if it can be written.
pub open spec fn cluster_replacement(
    path: Option<Seq<char>>,
    has_on: bool,
    on_path: Option<Seq<char>>,
    using_index: Option<Seq<char>>,
) -> Option<Seq<char>> {
    if has_on {
        match (path, on_path) {
            (Some(index), Some(table)) => Some(
                "repack (concurrently) "@ + table + " using index "@ + index,
            ),
            _ => None,
        }
    } else {
        match path {
            Some(table) => match using_index {
                Some(index) => Some("repack (concurrently) "@ + table + " using index "@ + index),
                None => Some("repack (concurrently) "@ + table),
            },
            None => Some("repack (concurrently)"@),
        }
    }
}

/// What the rule reports for one statement (from Postgres 19 on).
pub open spec fn repack_violations(s: Stmt) -> Seq<ViolationView> {
    match s {
        Stmt::Cluster { range, path, has_on, on_path, using_index } => seq![
            ViolationView {
                code: Rule::PreferRepack,
                message: "`cluster` requires an `ACCESS EXCLUSIVE` lock which blocks reads and writes to the table."@,
                text_range: range,
                help: Some("Use `repack` to rewrite the table without blocking reads and writes."@),
                fix: match cluster_replacement(opt_text(path), has_on, opt_text(on_path), opt_text(using_index)) {
                    Some(t) => Some(repack_fix(range, t)),
                    None => None,
                },
            },
        ],
        Stmt::Vacuum { range, full: true, tables } => seq![
            ViolationView {
                code: Rule::PreferRepack,
                message: "`vacuum full` requires an `ACCESS EXCLUSIVE` lock which blocks reads and writes to the table."@,
                text_range: range,
                help: Some("Use `repack` to rewrite the table without blocking reads and writes."@),
                fix: match tables {
                    Some(t) => Some(repack_fix(range, "repack (concurrently) "@ + t@)),
                    None => None,
                },
            },
        ],
        _ => seq![],
    }
}

/// What the rule reports for a file under `settings`.
pub open spec fn prefer_repack_violations(file: SourceFile, settings: LinterSettings) -> Seq<ViolationView> {
    if version_lt(settings.pg_version, pg19()) {
        seq![]
    } else {
        concat_map(file.stmts@, |s: Stmt| repack_violations(s))
    }
}

fn replace_fix(range: TextRange, text: String) -> (f: Fix)
    ensures
        f@ == repack_fix(range, text@),
{
    let mut edits: Vec<Edit> = Vec::new();
    edits.push(Edit::replace(range, text));
    let f = Fix::new("Replace with `repack (concurrently)`", edits);
    assert(f@.edits =~= repack_fix(range, text@).edits);
    f
}

fn vacuum_full_fix(range: TextRange, tables: &Option<String>) -> (f: Option<Fix>)
    ensures
        f matches Some(x) ==> tables is Some && x@ == repack_fix(range, "repack (concurrently) "@ + tables->0@),
        f is None ==> tables is None,
{
    match tables {
        Some(t) => {
            let mut r = string_of("repack (concurrently) ");
            push_str(&mut r, t.as_str());
            Some(replace_fix(range, r))
        },
        None => None,
    }
}

fn cluster_fix(
    range: TextRange,
    path: &Option<String>,
    has_on: bool,
    on_path: &Option<String>,
    using_index: &Option<String>,
) -> (f: Option<Fix>)
    ensures
        f matches Some(x) ==> cluster_replacement(opt_text(*path), has_on, opt_text(*on_path), opt_text(*using_index)) == Some(x@.edits[0].text->0) && x@ == repack_fix(range, x@.edits[0].text->0),
        f is None ==> cluster_replacement(opt_text(*path), has_on, opt_text(*on_path), opt_text(*using_index)) is None,
{
    let replacement = if has_on {
        let index = match path {
            Some(p) => p,
            None => {
                return None;
            },
        };
        let table = match on_path {
            Some(p) => p,
            None => {
                return None;
            },
        };
        let mut r = string_of("repack (concurrently) ");
        push_str(&mut r, table.as_str());
        push_str(&mut r, " using index ");
        push_str(&mut r, index.as_str());
        r
    } else if let Some(table) = path {
        if let Some(index_name) = using_index {
            let mut r = string_of("repack (concurrently) ");
            push_str(&mut r, table.as_str());
            push_str(&mut r, " using index ");
            push_str(&mut r, index_name.as_str());
            r
        } else {
            let mut r = string_of("repack (concurrently) ");
            push_str(&mut r, table.as_str());
            r
        }
    } else {
        string_of("repack (concurrently)")
    };
    Some(replace_fix(range, replacement))
}

/// From Postgres 19 on, reports each `cluster` and each `vacuum full`.
pub fn prefer_repack(ctx: &mut Linter, file: &SourceFile)
    ensures
        reports(*old(ctx), *final(ctx), prefer_repack_violations(*file, old(ctx).settings)),
{
    if ctx.settings.pg_version.precedes(&Version::new(19, None, None)) {
        proof {
            assert(ctx.reported() =~= old(ctx).reported() + Seq::<ViolationView>::empty());
        }
        return;
    }
    let ghost f = |s: Stmt| repack_violations(s);
    let mut i: usize = 0;
    while i < file.stmts.len()
        invariant
            i <= file.stmts@.len(),
            f == (|s: Stmt| repack_violations(s)),
            reports(*old(ctx), *ctx, concat_map(file.stmts@.take(i as int), f)),
        decreases file.stmts@.len() - i,
    {
        proof {
            lemma_concat_map_step(file.stmts@, f, i as int);
        }
        match &file.stmts[i] {
            Stmt::Cluster { range, path, has_on, on_path, using_index } => {
                let fix = cluster_fix(*range, path, *has_on, on_path, using_index);
                ctx.report(
                    Violation::for_range(Rule::PreferRepack, string_of("`cluster` requires an `ACCESS EXCLUSIVE` lock which blocks reads and writes to the table."), *range).help(
                        "Use `repack` to rewrite the table without blocking reads and writes.",
                    ).fix(fix),
                );
            },
            Stmt::Vacuum { range, full, tables } => {
                if *full {
                    let fix = vacuum_full_fix(*range, tables);
                    ctx.report(
                        Violation::for_range(Rule::PreferRepack, string_of("`vacuum full` requires an `ACCESS EXCLUSIVE` lock which blocks reads and writes to the table."), *range).help(
                            "Use `repack` to rewrite the table without blocking reads and writes.",
                        ).fix(fix),
                    );
                }
            },
            _ => {},
        }
        proof {
            assert(ctx.reported() =~= old(ctx).reported() + concat_map(file.stmts@.take(i + 1), f));
        }
        i = i + 1;
    }
    proof {
        lemma_take_all(file.stmts@);
    }
}

} // verus!
