//! `ban-drop-column`: dropping a column may break clients that still read it.
use vstd::prelude::*;
use crate::lint::Linter;
use crate::linter::{plain_violation, string_of, Rule, Violation, ViolationView};
use crate::rules::{concat_map, lemma_concat_map_from, lemma_concat_map_in, lemma_concat_map_step, lemma_take_all, reports};
use crate::lint::{rule_violations, LinterSettings};
use crate::linter::TextRange;
use crate::syntax::{AlterTableAction, SourceFile, Stmt};

verus! {

/// What `ban-drop-column` reports for one action of `ALTER TABLE`.
pub open spec fn drop_column_action_violations(a: AlterTableAction) -> Seq<ViolationView> {
    match a {
        AlterTableAction::DropColumn { range, .. } => seq![plain_violation(Rule::BanDropColumn, "Dropping a column may break existing clients."@, range)],
        _ => seq![],
    }
}

/// What `ban-drop-column` reports for one statement.
pub open spec fn drop_column_violations(s: Stmt) -> Seq<ViolationView> {
    match s {
        Stmt::AlterTable { actions, .. } => concat_map(actions@, |a: AlterTableAction| drop_column_action_violations(a)),
        _ => seq![],
    }
}

fn ban_drop_column_in_actions(ctx: &mut Linter, actions: &Vec<AlterTableAction>)
    ensures
        reports(*old(ctx), *final(ctx), concat_map(actions@, |a: AlterTableAction| drop_column_action_violations(a))),
{
    let ghost g = |a: AlterTableAction| drop_column_action_violations(a);
    let mut j: usize = 0;
    while j < actions.len()
        invariant
            j <= actions@.len(),
            g == (|a: AlterTableAction| drop_column_action_violations(a)),
            reports(*old(ctx), *ctx, concat_map(actions@.take(j as int), g)),
        decreases actions@.len() - j,
    {
        proof {
            lemma_concat_map_step(actions@, g, j as int);
        }
        let ghost before = *ctx;
        match &actions[j] {
            AlterTableAction::DropColumn { range, .. } => {
                ctx.report(
                    Violation::for_range(
                        Rule::BanDropColumn,
                        string_of("Dropping a column may break existing clients."),
                        *range,
                    ),
                );
            },
            _ => {},
        }
        proof {
            assert(ctx.reported() =~= old(ctx).reported() + concat_map(actions@.take(j + 1), g));
        }
        j = j + 1;
    }
    proof {
        lemma_take_all(actions@);
    }
}

/// Reports each `DROP COLUMN` action.
pub fn ban_drop_column(ctx: &mut Linter, file: &SourceFile)
    ensures
        reports(*old(ctx), *final(ctx), concat_map(file.stmts@, |s: Stmt| drop_column_violations(s))),
{
    let ghost f = |s: Stmt| drop_column_violations(s);
    let mut i: usize = 0;
    while i < file.stmts.len()
        invariant
            i <= file.stmts@.len(),
            f == (|s: Stmt| drop_column_violations(s)),
            reports(*old(ctx), *ctx, concat_map(file.stmts@.take(i as int), f)),
        decreases file.stmts@.len() - i,
    {
        proof {
            lemma_concat_map_step(file.stmts@, f, i as int);
        }
        match &file.stmts[i] {
            Stmt::AlterTable { actions, .. } => {
                ban_drop_column_in_actions(ctx, actions);
            },
            _ => {},
        }
        proof {
            assert(ctx.reported() =~= old(ctx).reported() + concat_map(file.stmts@.take(i + 1), f));
        }
        i = i + 1;
    }
    proof {
        lemma_take_all(file.stmts@);
    }
}

/// The range of action `j` of statement `i` of `file` when that action is a
/// `DROP COLUMN` (with or without `IF EXISTS`) of an `ALTER TABLE`.
pub open spec fn drop_column_at(file: SourceFile, i: int, j: int) -> Option<TextRange> {
    if 0 <= i < file.stmts@.len() {
        match file.stmts@[i] {
            Stmt::AlterTable { actions, .. } => if 0 <= j < actions@.len() {
                match actions@[j] {
                    AlterTableAction::DropColumn { range, .. } => Some(range),
                    _ => None,
                }
            } else {
                None
            },
            _ => None,
        }
    } else {
        None
    }
}

/// `ban-drop-column` reports every `DROP COLUMN` of an `ALTER TABLE`,
/// whether or not it says `IF EXISTS`, at the range of the action, and it
/// reports nothing else: each violation it gives is the one for some
/// `DROP COLUMN` action.
pub proof fn lemma_every_drop_column_reported(file: SourceFile, settings: LinterSettings)
    ensures
        forall|i: int, j: int|
            #[trigger] drop_column_at(file, i, j) is Some ==> rule_violations(Rule::BanDropColumn, file, settings).contains(
                ViolationView {
                    code: Rule::BanDropColumn,
                    message: "Dropping a column may break existing clients."@,
                    text_range: drop_column_at(file, i, j)->0,
                    help: None,
                    fix: None,
                },
            ),
        forall|v: ViolationView|
            #[trigger] rule_violations(Rule::BanDropColumn, file, settings).contains(v) ==> exists|i: int, j: int|
                #[trigger] drop_column_at(file, i, j) == Some(v.text_range) && v == (ViolationView {
                    code: Rule::BanDropColumn,
                    message: "Dropping a column may break existing clients."@,
                    text_range: v.text_range,
                    help: None,
                    fix: None,
                }),
{
    let f = |s: Stmt| drop_column_violations(s);
    let g = |a: AlterTableAction| drop_column_action_violations(a);
    assert(rule_violations(Rule::BanDropColumn, file, settings) == concat_map(file.stmts@, f));
    assert forall|i: int, j: int| #[trigger] drop_column_at(file, i, j) is Some implies rule_violations(
        Rule::BanDropColumn,
        file,
        settings,
    ).contains(
        ViolationView {
            code: Rule::BanDropColumn,
            message: "Dropping a column may break existing clients."@,
            text_range: drop_column_at(file, i, j)->0,
            help: None,
            fix: None,
        },
    ) by {
        match file.stmts@[i] {
            Stmt::AlterTable { actions, .. } => {
                lemma_concat_map_in(actions@, g, j, 0);
                assert(f(file.stmts@[i]) == concat_map(actions@, g));
                let q = choose|q: int| 0 <= q < concat_map(actions@, g).len() && concat_map(actions@, g)[q] == g(actions@[j])[0];
                lemma_concat_map_in(file.stmts@, f, i, q);
            },
            _ => {},
        }
    }
    assert forall|v: ViolationView| #[trigger] rule_violations(Rule::BanDropColumn, file, settings).contains(v)
        implies exists|i: int, j: int|
        #[trigger] drop_column_at(file, i, j) == Some(v.text_range) && v == (ViolationView {
            code: Rule::BanDropColumn,
            message: "Dropping a column may break existing clients."@,
            text_range: v.text_range,
            help: None,
            fix: None,
        }) by {
        lemma_concat_map_from(file.stmts@, f, v);
        let (i, k) = choose|i: int, k: int| 0 <= i < file.stmts@.len() && 0 <= k < f(file.stmts@[i]).len()
            && #[trigger] f(file.stmts@[i])[k] == v;
        match file.stmts@[i] {
            Stmt::AlterTable { actions, .. } => {
                assert(f(file.stmts@[i]) == concat_map(actions@, g));
                assert(concat_map(actions@, g).contains(v));
                lemma_concat_map_from(actions@, g, v);
                let (j, m) = choose|j: int, m: int| 0 <= j < actions@.len() && 0 <= m < g(actions@[j]).len()
                    && #[trigger] g(actions@[j])[m] == v;
                assert(drop_column_at(file, i, j) == Some(v.text_range));
            },
            _ => {},
        }
    }
}

/// How many of `actions` are `DROP COLUMN`.
pub open spec fn drop_columns_in(actions: Seq<AlterTableAction>) -> nat
    decreases actions.len(),
{
    if actions.len() == 0 {
        0
    } else {
        drop_columns_in(actions.drop_last()) + if actions.last() is DropColumn {
            1nat
        } else {
            0nat
        }
    }
}

/// How many `DROP COLUMN` actions the `ALTER TABLE` statements of `stmts`
/// hold.
pub open spec fn drop_columns_in_stmts(stmts: Seq<Stmt>) -> nat
    decreases stmts.len(),
{
    if stmts.len() == 0 {
        0
    } else {
        drop_columns_in_stmts(stmts.drop_last()) + match stmts.last() {
            Stmt::AlterTable { actions, .. } => drop_columns_in(actions@),
            _ => 0nat,
        }
    }
}

proof fn lemma_drop_column_action_count(actions: Seq<AlterTableAction>)
    ensures
        concat_map(actions, |a: AlterTableAction| drop_column_action_violations(a)).len() == drop_columns_in(actions),
    decreases actions.len(),
{
    if actions.len() > 0 {
        lemma_drop_column_action_count(actions.drop_last());
    }
}

/// `ban-drop-column` gives as many violations as the file has `DROP COLUMN`
/// actions: one for each.
pub proof fn lemma_one_violation_per_drop_column(file: SourceFile, settings: LinterSettings)
    ensures
        rule_violations(Rule::BanDropColumn, file, settings).len() == drop_columns_in_stmts(file.stmts@),
{
    lemma_drop_column_stmt_count(file.stmts@);
}

proof fn lemma_drop_column_stmt_count(stmts: Seq<Stmt>)
    ensures
        concat_map(stmts, |s: Stmt| drop_column_violations(s)).len() == drop_columns_in_stmts(stmts),
    decreases stmts.len(),
{
    if stmts.len() > 0 {
        lemma_drop_column_stmt_count(stmts.drop_last());
        match stmts.last() {
            Stmt::AlterTable { actions, .. } => lemma_drop_column_action_count(actions@),
            _ => {},
        }
    }
}

} // verus!
