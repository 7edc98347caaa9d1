//! `adding-serial-primary-key-field`: adding a primary key builds its index under an exclusive lock, unless the key uses an existing index.
use vstd::prelude::*;
use crate::lint::Linter;
use crate::linter::{plain_violation, string_of, Rule, Violation, ViolationView};
use crate::rules::{concat_map, helped, lemma_concat_map_step, lemma_take_all, reports};
use crate::syntax::{AlterTableAction, Constraint, SourceFile, Stmt};
use crate::linter::TextRange;

verus! {

/// The violation for a primary key constraint at `range`.
pub open spec fn primary_key_violation(range: TextRange) -> ViolationView {
    helped(
        plain_violation(Rule::AddingSerialPrimaryKeyField, "Adding a primary key constraint requires an `ACCESS EXCLUSIVE` lock that will block all reads and writes to the table while the primary key index is built."@, range),
        "Add the `PRIMARY KEY` constraint `USING` an index."@,
    )
}

/// What the rule reports for one constraint.
pub open spec fn primary_key_constraint_violations(c: Constraint) -> Seq<ViolationView> {
    match c {
        Constraint::PrimaryKey { range, using_index: false } => seq![primary_key_violation(range)],
        _ => seq![],
    }
}

/// What the rule reports for one action of `ALTER TABLE`.
pub open spec fn primary_key_action_violations(a: AlterTableAction) -> Seq<ViolationView> {
    match a {
        AlterTableAction::AddConstraint { constraint: Some(c), .. } => primary_key_constraint_violations(c),
        AlterTableAction::AddColumn { constraints, .. } => concat_map(
            constraints@,
            |c: Constraint| primary_key_constraint_violations(c),
        ),
        _ => seq![],
    }
}

/// What the rule reports for one statement.
pub open spec fn primary_key_violations(s: Stmt) -> Seq<ViolationView> {
    match s {
        Stmt::AlterTable { actions, .. } => concat_map(
            actions@,
            |a: AlterTableAction| primary_key_action_violations(a),
        ),
        _ => seq![],
    }
}

fn report_primary_key(ctx: &mut Linter, range: TextRange)
    ensures
        reports(*old(ctx), *final(ctx), seq![primary_key_violation(range)]),
{
    ctx.report(
        Violation::new(
            Rule::AddingSerialPrimaryKeyField,
            string_of("Adding a primary key constraint requires an `ACCESS EXCLUSIVE` lock that will block all reads and writes to the table while the primary key index is built."),
            range,
            Some(string_of("Add the `PRIMARY KEY` constraint `USING` an index.")),
        ),
    );
    assert(ctx.reported() =~= old(ctx).reported() + seq![primary_key_violation(range)]);
}

fn primary_keys_in_constraints(ctx: &mut Linter, constraints: &Vec<Constraint>)
    ensures
        reports(*old(ctx), *final(ctx), concat_map(constraints@, |c: Constraint| primary_key_constraint_violations(c))),
{
    let ghost h = |c: Constraint| primary_key_constraint_violations(c);
    let mut k: usize = 0;
    while k < constraints.len()
        invariant
            k <= constraints@.len(),
            h == (|c: Constraint| primary_key_constraint_violations(c)),
            reports(*old(ctx), *ctx, concat_map(constraints@.take(k as int), h)),
        decreases constraints@.len() - k,
    {
        proof {
            lemma_concat_map_step(constraints@, h, k as int);
        }
        match &constraints[k] {
            Constraint::PrimaryKey { range, using_index: false } => {
                report_primary_key(ctx, *range);
            },
            _ => {},
        }
        proof {
            assert(ctx.reported() =~= old(ctx).reported() + concat_map(constraints@.take(k + 1), h));
        }
        k = k + 1;
    }
    proof {
        lemma_take_all(constraints@);
    }
}

fn primary_keys_in_actions(ctx: &mut Linter, actions: &Vec<AlterTableAction>)
    ensures
        reports(*old(ctx), *final(ctx), concat_map(actions@, |a: AlterTableAction| primary_key_action_violations(a))),
{
    let ghost g = |a: AlterTableAction| primary_key_action_violations(a);
    let mut j: usize = 0;
    while j < actions.len()
        invariant
            j <= actions@.len(),
            g == (|a: AlterTableAction| primary_key_action_violations(a)),
            reports(*old(ctx), *ctx, concat_map(actions@.take(j as int), g)),
        decreases actions@.len() - j,
    {
        proof {
            lemma_concat_map_step(actions@, g, j as int);
        }
        match &actions[j] {
            AlterTableAction::AddConstraint { constraint: Some(Constraint::PrimaryKey { range, using_index: false }), .. } => {
                report_primary_key(ctx, *range);
            },
            AlterTableAction::AddColumn { constraints, .. } => {
                primary_keys_in_constraints(ctx, constraints);
            },
            _ => {},
        }
        proof {
            assert(ctx.reported() =~= old(ctx).reported() + concat_map(actions@.take(j + 1), g));
        }
        j = j + 1;
    }
    proof {
        lemma_take_all(actions@);
    }
}

/// Reports each primary key added without `USING INDEX`.
pub fn adding_primary_key_constraint(ctx: &mut Linter, file: &SourceFile)
    ensures
        reports(*old(ctx), *final(ctx), concat_map(file.stmts@, |s: Stmt| primary_key_violations(s))),
{
    let ghost f = |s: Stmt| primary_key_violations(s);
    let mut i: usize = 0;
    while i < file.stmts.len()
        invariant
            i <= file.stmts@.len(),
            f == (|s: Stmt| primary_key_violations(s)),
            reports(*old(ctx), *ctx, concat_map(file.stmts@.take(i as int), f)),
        decreases file.stmts@.len() - i,
    {
        proof {
            lemma_concat_map_step(file.stmts@, f, i as int);
        }
        match &file.stmts[i] {
            Stmt::AlterTable { actions, .. } => {
                primary_keys_in_actions(ctx, actions);
            },
            _ => {},
        }
        proof {
            assert(ctx.reported() =~= old(ctx).reported() + concat_map(file.stmts@.take(i + 1), f));
        }
        i = i + 1;
    }
    proof {
        lemma_take_all(file.stmts@);
    }
}

} // verus!
