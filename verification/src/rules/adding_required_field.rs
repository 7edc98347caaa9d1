//! `adding-required-field`: a new `NOT NULL` column without a default fails on a table that has rows.
use vstd::prelude::*;
use crate::lint::Linter;
use crate::linter::{plain_violation, string_of, Rule, Violation, ViolationView};
use crate::rules::{concat_map, helped, lemma_concat_map_step, lemma_take_all, reports};
use crate::syntax::{AlterTableAction, Constraint, SourceFile, Stmt};
use crate::linter::TextRange;

verus! {

/// Whether any of `cs` is a `GENERATED` constraint.
pub open spec fn has_generated(cs: Seq<Constraint>) -> bool {
    exists|k: int| 0 <= k < cs.len() && cs[k] is Generated
}

/// Whether `cs` holds a `NOT NULL` constraint and no `DEFAULT`.
pub open spec fn not_null_without_default(cs: Seq<Constraint>) -> bool {
    (exists|k: int| 0 <= k < cs.len() && cs[k] is NotNull) && !(exists|k: int|
        0 <= k < cs.len() && cs[k] is Default)
}

/// What the rule reports for one action of `ALTER TABLE`.
pub open spec fn required_field_action_violations(a: AlterTableAction) -> Seq<ViolationView> {
    match a {
        AlterTableAction::AddColumn { range, constraints, .. } => if !has_generated(constraints@)
            && not_null_without_default(constraints@) {
            seq![
                helped(
                    plain_violation(Rule::AddingRequiredField, "Adding a new column that is `NOT NULL` and has no default value to an existing table effectively makes it required."@, range),
                    "Make the field nullable or add a non-VOLATILE DEFAULT"@,
                ),
            ]
        } else {
            seq![]
        },
        _ => seq![],
    }
}

/// What the rule reports for one statement.
pub open spec fn required_field_violations(s: Stmt) -> Seq<ViolationView> {
    match s {
        Stmt::AlterTable { actions, .. } => concat_map(
            actions@,
            |a: AlterTableAction| required_field_action_violations(a),
        ),
        _ => seq![],
    }
}

fn has_generated_constraint(cs: &Vec<Constraint>) -> (b: bool)
    ensures
        b == has_generated(cs@),
{
    let mut k: usize = 0;
    while k < cs.len()
        invariant
            k <= cs@.len(),
            forall|m: int| 0 <= m < k ==> !(cs@[m] is Generated),
        decreases cs@.len() - k,
    {
        if let Constraint::Generated { .. } = &cs[k] {
            return true;
        }
        k = k + 1;
    }
    false
}

fn has_not_null_and_no_default_constraint(cs: &Vec<Constraint>) -> (b: bool)
    ensures
        b == not_null_without_default(cs@),
{
    let mut has_not_null = false;
    let mut has_default = false;
    let mut k: usize = 0;
    while k < cs.len()
        invariant
            k <= cs@.len(),
            has_not_null == exists|m: int| 0 <= m < k && cs@[m] is NotNull,
            has_default == exists|m: int| 0 <= m < k && cs@[m] is Default,
        decreases cs@.len() - k,
    {
        match &cs[k] {
            Constraint::NotNull { .. } => {
                has_not_null = true;
            },
            Constraint::Default { .. } => {
                has_default = true;
            },
            _ => {},
        }
        k = k + 1;
    }
    has_not_null && !has_default
}

fn required_fields_in_actions(ctx: &mut Linter, actions: &Vec<AlterTableAction>)
    ensures
        reports(*old(ctx), *final(ctx), concat_map(actions@, |a: AlterTableAction| required_field_action_violations(a))),
{
    let ghost g = |a: AlterTableAction| required_field_action_violations(a);
    let mut j: usize = 0;
    while j < actions.len()
        invariant
            j <= actions@.len(),
            g == (|a: AlterTableAction| required_field_action_violations(a)),
            reports(*old(ctx), *ctx, concat_map(actions@.take(j as int), g)),
        decreases actions@.len() - j,
    {
        proof {
            lemma_concat_map_step(actions@, g, j as int);
        }
        match &actions[j] {
            AlterTableAction::AddColumn { range, constraints, .. } => {
                if !has_generated_constraint(constraints) && has_not_null_and_no_default_constraint(
                    constraints,
                ) {
                    ctx.report(
                        Violation::new(
                            Rule::AddingRequiredField,
                            string_of("Adding a new column that is `NOT NULL` and has no default value to an existing table effectively makes it required."),
                            *range,
                            Some(string_of("Make the field nullable or add a non-VOLATILE DEFAULT")),
                        ),
                    );
                }
            },
            _ => {},
        }
        proof {
            assert(ctx.reported() =~= old(ctx).reported() + concat_map(actions@.take(j + 1), g));
        }
        j = j + 1;
    }
    proof {
        lemma_take_all(actions@);
    }
}

/// Reports each column added `NOT NULL` with no default and not generated.
pub fn adding_required_field(ctx: &mut Linter, file: &SourceFile)
    ensures
        reports(*old(ctx), *final(ctx), concat_map(file.stmts@, |s: Stmt| required_field_violations(s))),
{
    let ghost f = |s: Stmt| required_field_violations(s);
    let mut i: usize = 0;
    while i < file.stmts.len()
        invariant
            i <= file.stmts@.len(),
            f == (|s: Stmt| required_field_violations(s)),
            reports(*old(ctx), *ctx, concat_map(file.stmts@.take(i as int), f)),
        decreases file.stmts@.len() - i,
    {
        proof {
            lemma_concat_map_step(file.stmts@, f, i as int);
        }
        match &file.stmts[i] {
            Stmt::AlterTable { actions, .. } => {
                required_fields_in_actions(ctx, actions);
            },
            _ => {},
        }
        proof {
            assert(ctx.reported() =~= old(ctx).reported() + concat_map(file.stmts@.take(i + 1), f));
        }
        i = i + 1;
    }
    proof {
        lemma_take_all(file.stmts@);
    }
}

} // verus!
