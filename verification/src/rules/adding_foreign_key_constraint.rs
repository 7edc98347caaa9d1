//! `adding-foreign-key-constraint`: a foreign key scans the table while
//! blocking writes to both tables, unless it is added `NOT VALID`.
use vstd::prelude::*;
use crate::lint::{Linter, LinterSettings};
use crate::linter::{plain_violation, string_of, Rule, TextRange, Violation, ViolationView};
use crate::rules::constraint_missing_not_valid::{created_in_transaction, tables_created_in_transaction};
use crate::rules::{concat_map, helped, lemma_concat_map_step, lemma_take_all, reports};
use crate::syntax::{AlterTableAction, Constraint, SourceFile, Stmt};
use crate::text::{contains_string, trim_quotes, trimmed_quotes};

verus! {

/// The violation for a foreign key constraint at `range`.
pub open spec fn foreign_key_violation(range: TextRange) -> ViolationView {
    helped(plain_violation(Rule::AddingForeignKeyConstraint, "Adding a foreign key constraint requires a table scan and a `SHARE ROW EXCLUSIVE` lock on both tables, which blocks writes to each table."@, range), "Add `NOT VALID` to the constraint in one transaction and then VALIDATE the constraint in a separate transaction."@)
}

/// What the rule reports for one constraint.
pub open spec fn foreign_key_constraint_violations(c: Constraint) -> Seq<ViolationView> {
    match c {
        Constraint::ForeignKey { range } => seq![foreign_key_violation(range)],
        Constraint::References { range } => seq![foreign_key_violation(range)],
        _ => seq![],
    }
}

/// What the rule reports for one action of `ALTER TABLE`, when the table is
/// created in a transaction of the file (`created`) or not.
pub open spec fn foreign_key_action_violations(a: AlterTableAction, created: bool) -> Seq<ViolationView> {
    match a {
        AlterTableAction::AddConstraint { not_valid, constraint, .. } => if not_valid || created {
            seq![]
        } else {
            match constraint {
                Some(c) => foreign_key_constraint_violations(c),
                None => seq![],
            }
        },
        AlterTableAction::AddColumn { constraints, .. } => concat_map(
            constraints@,
            |c: Constraint| foreign_key_constraint_violations(c),
        ),
        _ => seq![],
    }
}

/// What the rule reports for one statement, given the tables created in a
/// transaction of the file.
pub open spec fn foreign_key_violations(s: Stmt, created: Seq<Seq<char>>) -> Seq<ViolationView> {
    match s {
        Stmt::AlterTable { table: Some(t), actions, .. } => concat_map(
            actions@,
            |a: AlterTableAction| foreign_key_action_violations(a, created.contains(trimmed_quotes(t@))),
        ),
        _ => seq![],
    }
}

/// What the rule reports for a file under `settings`.
pub open spec fn adding_foreign_key_violations(file: SourceFile, settings: LinterSettings) -> Seq<ViolationView> {
    let created = created_in_transaction(file.stmts@, settings.assume_in_transaction).1;
    concat_map(file.stmts@, |s: Stmt| foreign_key_violations(s, created))
}

fn report_foreign_key(ctx: &mut Linter, range: TextRange)
    ensures
        reports(*old(ctx), *final(ctx), seq![foreign_key_violation(range)]),
{
    ctx.report(Violation::for_range(Rule::AddingForeignKeyConstraint, string_of("Adding a foreign key constraint requires a table scan and a `SHARE ROW EXCLUSIVE` lock on both tables, which blocks writes to each table."), range).help("Add `NOT VALID` to the constraint in one transaction and then VALIDATE the constraint in a separate transaction."));
    assert(ctx.reported() =~= old(ctx).reported() + seq![foreign_key_violation(range)]);
}

fn foreign_keys_in_constraints(ctx: &mut Linter, constraints: &Vec<Constraint>)
    ensures
        reports(*old(ctx), *final(ctx), concat_map(constraints@, |c: Constraint| foreign_key_constraint_violations(c))),
{
    let ghost h = |c: Constraint| foreign_key_constraint_violations(c);
    let mut k: usize = 0;
    while k < constraints.len()
        invariant
            k <= constraints@.len(),
            h == (|c: Constraint| foreign_key_constraint_violations(c)),
            reports(*old(ctx), *ctx, concat_map(constraints@.take(k as int), h)),
        decreases constraints@.len() - k,
    {
        proof {
            lemma_concat_map_step(constraints@, h, k as int);
        }
        match &constraints[k] {
            Constraint::ForeignKey { range } => {
                report_foreign_key(ctx, *range);
            },
            Constraint::References { range } => {
                report_foreign_key(ctx, *range);
            },
            _ => {},
        }
        proof {
            assert(ctx.reported() =~= old(ctx).reported() + concat_map(constraints@.take(k + 1), h));
        }
        k = k + 1;
    }
    proof {
        lemma_take_all(constraints@);
    }
}

fn foreign_keys_in_actions(ctx: &mut Linter, actions: &Vec<AlterTableAction>, created: bool)
    ensures
        reports(*old(ctx), *final(ctx), concat_map(actions@, |a: AlterTableAction| foreign_key_action_violations(a, created))),
{
    let ghost g = |a: AlterTableAction| foreign_key_action_violations(a, created);
    let mut j: usize = 0;
    while j < actions.len()
        invariant
            j <= actions@.len(),
            g == (|a: AlterTableAction| foreign_key_action_violations(a, created)),
            reports(*old(ctx), *ctx, concat_map(actions@.take(j as int), g)),
        decreases actions@.len() - j,
    {
        proof {
            lemma_concat_map_step(actions@, g, j as int);
        }
        match &actions[j] {
            AlterTableAction::AddConstraint { not_valid, constraint, .. } => {
                if !*not_valid && !created {
                    match constraint {
                        Some(Constraint::ForeignKey { range }) => {
                            report_foreign_key(ctx, *range);
                        },
                        Some(Constraint::References { range }) => {
                            report_foreign_key(ctx, *range);
                        },
                        _ => {},
                    }
                }
            },
            AlterTableAction::AddColumn { constraints, .. } => {
                foreign_keys_in_constraints(ctx, constraints);
            },
            _ => {},
        }
        proof {
            assert(ctx.reported() =~= old(ctx).reported() + concat_map(actions@.take(j + 1), g));
        }
        j = j + 1;
    }
    proof {
        lemma_take_all(actions@);
    }
}

/// Reports each foreign key added to an existing table without `NOT VALID`,
/// and each added with a new column.
pub fn adding_foreign_key_constraint(ctx: &mut Linter, file: &SourceFile)
    ensures
        reports(*old(ctx), *final(ctx), adding_foreign_key_violations(*file, old(ctx).settings)),
{
    let tables_created = tables_created_in_transaction(ctx.settings.assume_in_transaction, file);
    let ghost created = tables_created@.map_values(|s: String| s@);
    let ghost f = |s: Stmt| foreign_key_violations(s, created);
    let mut i: usize = 0;
    while i < file.stmts.len()
        invariant
            i <= file.stmts@.len(),
            created == tables_created@.map_values(|s: String| s@),
            f == (|s: Stmt| foreign_key_violations(s, created)),
            reports(*old(ctx), *ctx, concat_map(file.stmts@.take(i as int), f)),
        decreases file.stmts@.len() - i,
    {
        proof {
            lemma_concat_map_step(file.stmts@, f, i as int);
        }
        match &file.stmts[i] {
            Stmt::AlterTable { table: Some(t), actions, .. } => {
                let trimmed = trim_quotes(t.as_str());
                let created_here = contains_string(&tables_created, &trimmed);
                foreign_keys_in_actions(ctx, actions, created_here);
            },
            _ => {},
        }
        proof {
            assert(ctx.reported() =~= old(ctx).reported() + concat_map(file.stmts@.take(i + 1), f));
        }
        i = i + 1;
    }
    proof {
        lemma_take_all(file.stmts@);
    }
}

} // verus!
