//! `ban-drop-not-null`: dropping `NOT NULL` may break clients that rely on it.
use vstd::prelude::*;
use crate::lint::Linter;
use crate::linter::{plain_violation, string_of, Rule, Violation, ViolationView};
use crate::rules::{concat_map, lemma_concat_map_step, lemma_take_all, reports};
use crate::syntax::{AlterTableAction, SourceFile, Stmt, AlterColumnOption};

verus! {

/// What `ban-drop-not-null` reports for one action of `ALTER TABLE`.
pub open spec fn drop_not_null_action_violations(a: AlterTableAction) -> Seq<ViolationView> {
    match a {
        AlterTableAction::AlterColumn { option: Some(AlterColumnOption::DropNotNull { range }), .. } => seq![plain_violation(Rule::BanDropNotNull, "Dropping a `NOT NULL` constraint may break existing clients."@, range)],
        _ => seq![],
    }
}

/// What `ban-drop-not-null` reports for one statement.
pub open spec fn drop_not_null_violations(s: Stmt) -> Seq<ViolationView> {
    match s {
        Stmt::AlterTable { actions, .. } => concat_map(actions@, |a: AlterTableAction| drop_not_null_action_violations(a)),
        _ => seq![],
    }
}

fn ban_drop_not_null_in_actions(ctx: &mut Linter, actions: &Vec<AlterTableAction>)
    ensures
        reports(*old(ctx), *final(ctx), concat_map(actions@, |a: AlterTableAction| drop_not_null_action_violations(a))),
{
    let ghost g = |a: AlterTableAction| drop_not_null_action_violations(a);
    let mut j: usize = 0;
    while j < actions.len()
        invariant
            j <= actions@.len(),
            g == (|a: AlterTableAction| drop_not_null_action_violations(a)),
            reports(*old(ctx), *ctx, concat_map(actions@.take(j as int), g)),
        decreases actions@.len() - j,
    {
        proof {
            lemma_concat_map_step(actions@, g, j as int);
        }
        let ghost before = *ctx;
        match &actions[j] {
            AlterTableAction::AlterColumn { option: Some(AlterColumnOption::DropNotNull { range }), .. } => {
                ctx.report(
                    Violation::for_range(
                        Rule::BanDropNotNull,
                        string_of("Dropping a `NOT NULL` constraint may break existing clients."),
                        *range,
                    ),
                );
            },
            _ => {},
        }
        proof {
            assert(ctx.reported() =~= old(ctx).reported() + concat_map(actions@.take(j + 1), g));
        }
        j = j + 1;
    }
    proof {
        lemma_take_all(actions@);
    }
}

/// Reports the `DROP NOT NULL` option of each `ALTER COLUMN ... DROP NOT NULL`.
pub fn ban_drop_not_null(ctx: &mut Linter, file: &SourceFile)
    ensures
        reports(*old(ctx), *final(ctx), concat_map(file.stmts@, |s: Stmt| drop_not_null_violations(s))),
{
    let ghost f = |s: Stmt| drop_not_null_violations(s);
    let mut i: usize = 0;
    while i < file.stmts.len()
        invariant
            i <= file.stmts@.len(),
            f == (|s: Stmt| drop_not_null_violations(s)),
            reports(*old(ctx), *ctx, concat_map(file.stmts@.take(i as int), f)),
        decreases file.stmts@.len() - i,
    {
        proof {
            lemma_concat_map_step(file.stmts@, f, i as int);
        }
        match &file.stmts[i] {
            Stmt::AlterTable { actions, .. } => {
                ban_drop_not_null_in_actions(ctx, actions);
            },
            _ => {},
        }
        proof {
            assert(ctx.reported() =~= old(ctx).reported() + concat_map(file.stmts@.take(i + 1), f));
        }
        i = i + 1;
    }
    proof {
        lemma_take_all(file.stmts@);
    }
}

} // verus!
