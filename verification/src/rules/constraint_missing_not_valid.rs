//! `constraint-missing-not-valid`: adding a constraint scans the table while
//! blocking writes, unless it is added `NOT VALID` and validated later, in
//! another transaction.
use vstd::prelude::*;
use crate::lint::{Linter, LinterSettings};
use crate::linter::{plain_violation, string_of, Rule, TextRange, Violation, ViolationView};
use crate::rules::{helped, lemma_reports_trans, lemma_take_all, reports};
use crate::syntax::{AlterTableAction, Constraint, SourceFile, Stmt};
use crate::text::{contains_string, trim_quotes, trimmed_quotes};

verus! {

/// Whether a transaction is open after `stmts`, and the names (quotes
/// trimmed) of the tables created inside one.
pub open spec fn created_in_transaction(stmts: Seq<Stmt>, inside: bool) -> (bool, Seq<Seq<char>>)
    decreases stmts.len(),
{
    if stmts.len() == 0 {
        (inside, seq![])
    } else {
        let (now, names) = created_in_transaction(stmts.drop_last(), inside);
        match stmts.last() {
            Stmt::Begin { .. } => (true, names),
            Stmt::Commit { .. } => (false, names),
            Stmt::CreateTable { name: Some(n), .. } => if now {
                (now, names.push(trimmed_quotes(n@)))
            } else {
                (now, names)
            },
            _ => (now, names),
        }
    }
}

/// The names (quotes trimmed) of the tables that `file` creates inside a
/// transaction (the whole file being one when `assume_in_transaction`).
pub fn tables_created_in_transaction(assume_in_transaction: bool, file: &SourceFile) -> (r: Vec<String>)
    ensures
        r@.map_values(|s: String| s@) == created_in_transaction(file.stmts@, assume_in_transaction).1,
{
    let mut created_table_names: Vec<String> = Vec::new();
    let mut inside_transaction = assume_in_transaction;
    let mut i: usize = 0;
    while i < file.stmts.len()
        invariant
            i <= file.stmts@.len(),
            inside_transaction == created_in_transaction(file.stmts@.take(i as int), assume_in_transaction).0,
            created_table_names@.map_values(|s: String| s@) == created_in_transaction(
                file.stmts@.take(i as int),
                assume_in_transaction,
            ).1,
        decreases file.stmts@.len() - i,
    {
        proof {
            assert(file.stmts@.take(i + 1).drop_last() =~= file.stmts@.take(i as int));
        }
        match &file.stmts[i] {
            Stmt::Begin { .. } => {
                inside_transaction = true;
            },
            Stmt::Commit { .. } => {
                inside_transaction = false;
            },
            Stmt::CreateTable { name: Some(n), .. } => {
                if inside_transaction {
                    created_table_names.push(trim_quotes(n.as_str()));
                }
            },
            _ => {},
        }
        proof {
            assert(created_table_names@.map_values(|s: String| s@) =~= created_in_transaction(
                file.stmts@.take(i + 1),
                assume_in_transaction,
            ).1);
        }
        i = i + 1;
    }
    proof {
        lemma_take_all(file.stmts@);
    }
    created_table_names
}

/// The violation for validating, inside a transaction, a constraint added
/// `NOT VALID` in it.
pub open spec fn validate_in_transaction_violation(range: TextRange) -> ViolationView {
    helped(plain_violation(Rule::ConstraintMissingNotValid, "Using `NOT VALID` and `VALIDATE CONSTRAINT` in the same transaction will block all reads while the constraint is validated."@, range), "Add constraint as `NOT VALID` in one transaction and `VALIDATE CONSTRAINT` in a separate transaction."@)
}

/// One action: the `NOT VALID` names afterwards, and what is reported.
pub open spec fn not_valid_action(a: AlterTableAction, inside: bool, names: Seq<Seq<char>>) -> (Seq<Seq<char>>, Seq<ViolationView>) {
    match a {
        AlterTableAction::ValidateConstraint { range, name: Some(n) } => if inside && names.contains(
            trimmed_quotes(n@),
        ) {
            (names, seq![validate_in_transaction_violation(range)])
        } else {
            (names, seq![])
        },
        AlterTableAction::AddConstraint { name: Some(n), not_valid: true, constraint: Some(_), .. } => (
            names.push(trimmed_quotes(n@)),
            seq![],
        ),
        _ => (names, seq![]),
    }
}

pub open spec fn not_valid_actions(actions: Seq<AlterTableAction>, inside: bool, names: Seq<Seq<char>>) -> (Seq<Seq<char>>, Seq<ViolationView>)
    decreases actions.len(),
{
    if actions.len() == 0 {
        (names, seq![])
    } else {
        let (n1, v1) = not_valid_actions(actions.drop_last(), inside, names);
        let (n2, v2) = not_valid_action(actions.last(), inside, n1);
        (n2, v1 + v2)
    }
}

/// Whether a transaction is open after `stmts`, the constraints added `NOT
/// VALID` in the current transaction, and what is reported.
pub open spec fn not_valid_stmts(stmts: Seq<Stmt>, inside: bool) -> (bool, Seq<Seq<char>>, Seq<ViolationView>)
    decreases stmts.len(),
{
    if stmts.len() == 0 {
        (inside, seq![], seq![])
    } else {
        let (now, names, v) = not_valid_stmts(stmts.drop_last(), inside);
        match stmts.last() {
            Stmt::AlterTable { actions, .. } => {
                let (n2, v2) = not_valid_actions(actions@, now, names);
                (now, n2, v + v2)
            },
            Stmt::Begin { .. } => (true, if now { names } else { seq![] }, v),
            Stmt::Commit { .. } => (false, names, v),
            _ => (now, names, v),
        }
    }
}

/// The violation for a constraint added without `NOT VALID`.
pub open spec fn missing_not_valid_violation(range: TextRange) -> ViolationView {
    helped(plain_violation(Rule::ConstraintMissingNotValid, "By default new constraints require a table scan and block writes to the table while that scan occurs."@, range), "Use `NOT VALID` with a later `VALIDATE CONSTRAINT` call."@)
}

/// What the rule reports for one action of `ALTER TABLE` on a table that is
/// not created in a transaction of the file.
pub open spec fn missing_not_valid_action(a: AlterTableAction) -> Seq<ViolationView> {
    match a {
        AlterTableAction::AddConstraint { range, not_valid: false, constraint, .. } => match constraint {
            Some(Constraint::Unique { using_index: true, .. }) => seq![],
            _ => seq![missing_not_valid_violation(range)],
        },
        _ => seq![],
    }
}

pub open spec fn missing_not_valid_stmts(stmts: Seq<Stmt>, created: Seq<Seq<char>>) -> Seq<ViolationView>
    decreases stmts.len(),
{
    if stmts.len() == 0 {
        seq![]
    } else {
        missing_not_valid_stmts(stmts.drop_last(), created) + match stmts.last() {
            Stmt::AlterTable { table: Some(t), actions, .. } => if created.contains(trimmed_quotes(t@)) {
                seq![]
            } else {
                crate::rules::concat_map(actions@, |a: AlterTableAction| missing_not_valid_action(a))
            },
            _ => seq![],
        }
    }
}

/// What the rule reports for a file under `settings`.
pub open spec fn constraint_missing_not_valid_violations(file: SourceFile, settings: LinterSettings) -> Seq<ViolationView> {
    not_valid_stmts(file.stmts@, settings.assume_in_transaction).2 + missing_not_valid_stmts(
        file.stmts@,
        created_in_transaction(file.stmts@, settings.assume_in_transaction).1,
    )
}

fn not_valid_in_actions(ctx: &mut Linter, actions: &Vec<AlterTableAction>, inside: bool, names: &mut Vec<String>)
    ensures
        final(names)@.map_values(|s: String| s@) == not_valid_actions(actions@, inside, old(names)@.map_values(|s: String| s@)).0,
        reports(*old(ctx), *final(ctx), not_valid_actions(actions@, inside, old(names)@.map_values(|s: String| s@)).1),
{
    let ghost n0 = old(names)@.map_values(|s: String| s@);
    let mut j: usize = 0;
    while j < actions.len()
        invariant
            j <= actions@.len(),
            n0 == old(names)@.map_values(|s: String| s@),
            names@.map_values(|s: String| s@) == not_valid_actions(actions@.take(j as int), inside, n0).0,
            reports(*old(ctx), *ctx, not_valid_actions(actions@.take(j as int), inside, n0).1),
        decreases actions@.len() - j,
    {
        proof {
            assert(actions@.take(j + 1).drop_last() =~= actions@.take(j as int));
        }
        let ghost nb = names@.map_values(|s: String| s@);
        match &actions[j] {
            AlterTableAction::ValidateConstraint { range, name: Some(n) } => {
                let trimmed = trim_quotes(n.as_str());
                if inside && contains_string(names, &trimmed) {
                    ctx.report(
                        Violation::new(
                            Rule::ConstraintMissingNotValid,
                            string_of("Using `NOT VALID` and `VALIDATE CONSTRAINT` in the same transaction will block all reads while the constraint is validated."),
                            *range,
                            Some(string_of("Add constraint as `NOT VALID` in one transaction and `VALIDATE CONSTRAINT` in a separate transaction.")),
                        ),
                    );
                }
            },
            AlterTableAction::AddConstraint { name: Some(n), not_valid: true, constraint: Some(_), .. } => {
                names.push(trim_quotes(n.as_str()));
                proof {
                    assert(names@.map_values(|s: String| s@) =~= nb.push(trimmed_quotes(n@)));
                }
            },
            _ => {},
        }
        proof {
            assert(ctx.reported() =~= old(ctx).reported() + not_valid_actions(actions@.take(j + 1), inside, n0).1);
        }
        j = j + 1;
    }
    proof {
        lemma_take_all(actions@);
    }
}

fn not_valid_validate_in_transaction(ctx: &mut Linter, assume_in_transaction: bool, file: &SourceFile)
    ensures
        reports(*old(ctx), *final(ctx), not_valid_stmts(file.stmts@, assume_in_transaction).2),
{
    let mut inside_transaction = assume_in_transaction;
    let mut not_valid_names: Vec<String> = Vec::new();
    let mut i: usize = 0;
    proof {
        assert(not_valid_names@.map_values(|s: String| s@) =~= seq![]);
        assert(ctx.reported() =~= old(ctx).reported() + Seq::<ViolationView>::empty());
    }
    while i < file.stmts.len()
        invariant
            i <= file.stmts@.len(),
            inside_transaction == not_valid_stmts(file.stmts@.take(i as int), assume_in_transaction).0,
            not_valid_names@.map_values(|s: String| s@) == not_valid_stmts(file.stmts@.take(i as int), assume_in_transaction).1,
            reports(*old(ctx), *ctx, not_valid_stmts(file.stmts@.take(i as int), assume_in_transaction).2),
        decreases file.stmts@.len() - i,
    {
        proof {
            assert(file.stmts@.take(i + 1).drop_last() =~= file.stmts@.take(i as int));
        }
        match &file.stmts[i] {
            Stmt::AlterTable { actions, .. } => {
                not_valid_in_actions(ctx, actions, inside_transaction, &mut not_valid_names);
            },
            Stmt::Begin { .. } => {
                if !inside_transaction {
                    not_valid_names = Vec::new();
                    proof {
                        assert(not_valid_names@.map_values(|s: String| s@) =~= seq![]);
                    }
                }
                inside_transaction = true;
            },
            Stmt::Commit { .. } => {
                inside_transaction = false;
            },
            _ => {},
        }
        proof {
            assert(ctx.reported() =~= old(ctx).reported() + not_valid_stmts(file.stmts@.take(i + 1), assume_in_transaction).2);
        }
        i = i + 1;
    }
    proof {
        lemma_take_all(file.stmts@);
    }
}

fn missing_not_valid_in_actions(ctx: &mut Linter, actions: &Vec<AlterTableAction>)
    ensures
        reports(*old(ctx), *final(ctx), crate::rules::concat_map(actions@, |a: AlterTableAction| missing_not_valid_action(a))),
{
    let ghost g = |a: AlterTableAction| missing_not_valid_action(a);
    let mut j: usize = 0;
    while j < actions.len()
        invariant
            j <= actions@.len(),
            g == (|a: AlterTableAction| missing_not_valid_action(a)),
            reports(*old(ctx), *ctx, crate::rules::concat_map(actions@.take(j as int), g)),
        decreases actions@.len() - j,
    {
        proof {
            crate::rules::lemma_concat_map_step(actions@, g, j as int);
        }
        match &actions[j] {
            AlterTableAction::AddConstraint { range, not_valid: false, constraint, .. } => {
                let skip = match constraint {
                    Some(Constraint::Unique { using_index, .. }) => *using_index,
                    _ => false,
                };
                if !skip {
                    ctx.report(
                        Violation::new(
                            Rule::ConstraintMissingNotValid,
                            string_of("By default new constraints require a table scan and block writes to the table while that scan occurs."),
                            *range,
                            Some(string_of("Use `NOT VALID` with a later `VALIDATE CONSTRAINT` call.")),
                        ),
                    );
                }
            },
            _ => {},
        }
        proof {
            assert(ctx.reported() =~= old(ctx).reported() + crate::rules::concat_map(actions@.take(j + 1), g));
        }
        j = j + 1;
    }
    proof {
        lemma_take_all(actions@);
    }
}

/// Reports constraints added without `NOT VALID` to tables not created in a
/// transaction of the file, and constraints validated in the transaction
/// that added them `NOT VALID`.
pub fn constraint_missing_not_valid(ctx: &mut Linter, file: &SourceFile)
    ensures
        reports(*old(ctx), *final(ctx), constraint_missing_not_valid_violations(*file, old(ctx).settings)),
{
    let assume_in_transaction = ctx.settings.assume_in_transaction;
    not_valid_validate_in_transaction(ctx, assume_in_transaction, file);
    let ghost c1 = *ctx;
    let tables_created = tables_created_in_transaction(assume_in_transaction, file);
    let ghost created = tables_created@.map_values(|s: String| s@);
    let mut i: usize = 0;
    proof {
        assert(ctx.reported() =~= c1.reported() + Seq::<ViolationView>::empty());
    }
    while i < file.stmts.len()
        invariant
            i <= file.stmts@.len(),
            created == tables_created@.map_values(|s: String| s@),
            reports(c1, *ctx, missing_not_valid_stmts(file.stmts@.take(i as int), created)),
        decreases file.stmts@.len() - i,
    {
        proof {
            assert(file.stmts@.take(i + 1).drop_last() =~= file.stmts@.take(i as int));
        }
        match &file.stmts[i] {
            Stmt::AlterTable { table: Some(t), actions, .. } => {
                let trimmed = trim_quotes(t.as_str());
                if !contains_string(&tables_created, &trimmed) {
                    missing_not_valid_in_actions(ctx, actions);
                }
            },
            _ => {},
        }
        proof {
            assert(ctx.reported() =~= c1.reported() + missing_not_valid_stmts(file.stmts@.take(i + 1), created));
        }
        i = i + 1;
    }
    proof {
        lemma_take_all(file.stmts@);
        lemma_reports_trans(
            *old(ctx),
            c1,
            *ctx,
            not_valid_stmts(file.stmts@, assume_in_transaction).2,
            missing_not_valid_stmts(file.stmts@, created),
        );
    }
}

} // verus!
