//! `adding-field-with-default`: a generated column, or a column whose default
//! has to be computed for each row, makes Postgres rewrite the whole table.
use vstd::prelude::*;
use crate::identifier::{identifier_name, Identifier};
use crate::lint::{Linter, LinterSettings};
use crate::linter::{plain_violation, string_of, Rule, TextRange, Violation, ViolationView};
use crate::rules::{concat_map, helped, lemma_concat_map_step, lemma_take_all, reports};
use crate::syntax::{
    action_names_ok, constraint_names_ok, default_expr_range, name_ok, stmt_names_ok,
    AlterTableAction, Constraint, DefaultExpr, SourceFile, Stmt,
};
use crate::version::{version_lt, Version};

verus! {

/// Postgres 11, from which on a non-volatile default is added without a
/// rewrite.
pub open spec fn pg11() -> Version {
    Version { major: 11, minor: None, patch: None }
}

/// A default that is a constant: a literal, or a cast of a literal.
pub open spec fn is_const_default(e: DefaultExpr) -> bool {
    match e {
        DefaultExpr::Literal { .. } => true,
        DefaultExpr::Cast { of_literal, .. } => of_literal,
        _ => false,
    }
}

/// Whether the function written `name` is among the settings' non-volatile
/// functions.
pub open spec fn is_non_volatile_function(settings: LinterSettings, name: Seq<char>) -> bool {
    exists|k: int|
        0 <= k < settings.non_volatile_functions@.len()
            && (#[trigger] settings.non_volatile_functions@[k])@ == identifier_name(name)
}

/// A default that calls a non-volatile function by its plain name, with an
/// empty argument list.
pub open spec fn is_non_volatile_call(e: DefaultExpr, settings: LinterSettings) -> bool {
    match e {
        DefaultExpr::Call { callee: Some(name), args: Some(n), .. } => n == 0 && is_non_volatile_function(
            settings,
            name@,
        ),
        _ => false,
    }
}

/// The violation at `range`.
pub open spec fn field_default_violation(range: TextRange) -> ViolationView {
    helped(
        plain_violation(Rule::AddingFieldWithDefault, "Adding a generated column requires a table rewrite with an `ACCESS EXCLUSIVE` lock. In Postgres versions 11+, non-VOLATILE DEFAULTs can be added without a rewrite."@, range),
        "Add the column as nullable, backfill existing rows, and add a trigger to update the column on write instead."@,
    )
}

/// What the rule reports for one constraint of an added column: a
/// `GENERATED` constraint always, a `DEFAULT` unless Postgres is newer than
/// 11 and the default is a constant or a call of a non-volatile function.
pub open spec fn field_default_constraint_violations(c: Constraint, settings: LinterSettings) -> Seq<ViolationView> {
    match c {
        Constraint::Default { expr: Some(e), .. } => if version_lt(pg11(), settings.pg_version) && (
        is_const_default(e) || is_non_volatile_call(e, settings)) {
            seq![]
        } else {
            seq![field_default_violation(default_expr_range(e))]
        },
        Constraint::Generated { range } => seq![field_default_violation(range)],
        _ => seq![],
    }
}

/// What the rule reports for one action of `ALTER TABLE`.
pub open spec fn field_default_action_violations(a: AlterTableAction, settings: LinterSettings) -> Seq<ViolationView> {
    match a {
        AlterTableAction::AddColumn { constraints, .. } => concat_map(
            constraints@,
            |c: Constraint| field_default_constraint_violations(c, settings),
        ),
        _ => seq![],
    }
}

/// What the rule reports for one statement.
pub open spec fn field_default_stmt_violations(s: Stmt, settings: LinterSettings) -> Seq<ViolationView> {
    match s {
        Stmt::AlterTable { actions, .. } => concat_map(
            actions@,
            |a: AlterTableAction| field_default_action_violations(a, settings),
        ),
        _ => seq![],
    }
}

/// What the rule reports for a file under `settings`.
pub open spec fn adding_field_with_default_violations(file: SourceFile, settings: LinterSettings) -> Seq<ViolationView> {
    concat_map(file.stmts@, |s: Stmt| field_default_stmt_violations(s, settings))
}

/// Whether `name` is among the non-volatile functions of `settings`.
fn is_non_volatile_name(settings: &LinterSettings, name: &String) -> (b: bool)
    requires
        name_ok(Some(*name)),
    ensures
        b == is_non_volatile_function(*settings, name@),
{
    let id = Identifier::new(name.as_str());
    let funcs = &settings.non_volatile_functions;
    let mut k: usize = 0;
    while k < funcs.len()
        invariant
            k <= funcs@.len(),
            funcs@ == settings.non_volatile_functions@,
            id@ == identifier_name(name@),
            forall|m: int| 0 <= m < k ==> (#[trigger] funcs@[m])@ != identifier_name(name@),
        decreases funcs@.len() - k,
    {
        if funcs[k].same(&id) {
            proof {
                assert(settings.non_volatile_functions@[k as int]@ == identifier_name(name@));
            }
            return true;
        }
        k = k + 1;
    }
    false
}

/// Whether the default `e` is a call of a non-volatile function by name with
/// no arguments.
fn is_non_volatile(e: &DefaultExpr, settings: &LinterSettings) -> (b: bool)
    requires
        constraint_names_ok(Constraint::Default { range: default_expr_range(*e), expr: Some(*e) }),
    ensures
        b == is_non_volatile_call(*e, *settings),
{
    match e {
        DefaultExpr::Call { callee: Some(name), args: Some(n), .. } => *n == 0 && is_non_volatile_name(
            settings,
            name,
        ),
        _ => false,
    }
}

/// Whether the default `e` is a constant.
fn is_const_expr(e: &DefaultExpr) -> (b: bool)
    ensures
        b == is_const_default(*e),
{
    match e {
        DefaultExpr::Literal { .. } => true,
        DefaultExpr::Cast { of_literal, .. } => *of_literal,
        _ => false,
    }
}

/// The range of `e`.
fn expr_range(e: &DefaultExpr) -> (r: TextRange)
    ensures
        r == default_expr_range(*e),
{
    match e {
        DefaultExpr::Literal { range } => *range,
        DefaultExpr::Cast { range, .. } => *range,
        DefaultExpr::Call { range, .. } => *range,
        DefaultExpr::Other { range } => *range,
    }
}

/// Reports the violation at `range`.
fn report_field_default(ctx: &mut Linter, range: TextRange)
    ensures
        reports(*old(ctx), *final(ctx), seq![field_default_violation(range)]),
{
    ctx.report(
        Violation::new(
            Rule::AddingFieldWithDefault,
            string_of("Adding a generated column requires a table rewrite with an `ACCESS EXCLUSIVE` lock. In Postgres versions 11+, non-VOLATILE DEFAULTs can be added without a rewrite."),
            range,
            Some(string_of("Add the column as nullable, backfill existing rows, and add a trigger to update the column on write instead.")),
        ),
    );
    proof {
        assert(ctx.reported() =~= old(ctx).reported() + seq![field_default_violation(range)]);
    }
}

fn field_defaults_in_constraints(ctx: &mut Linter, constraints: &Vec<Constraint>)
    requires
        forall|k: int| 0 <= k < constraints@.len() ==> constraint_names_ok(#[trigger] constraints@[k]),
    ensures
        reports(
            *old(ctx),
            *final(ctx),
            concat_map(constraints@, |c: Constraint| field_default_constraint_violations(c, old(ctx).settings)),
        ),
{
    let ghost settings = ctx.settings;
    let ghost g = |c: Constraint| field_default_constraint_violations(c, settings);
    let mut j: usize = 0;
    while j < constraints.len()
        invariant
            j <= constraints@.len(),
            settings == old(ctx).settings,
            forall|k: int| 0 <= k < constraints@.len() ==> constraint_names_ok(#[trigger] constraints@[k]),
            g == (|c: Constraint| field_default_constraint_violations(c, settings)),
            reports(*old(ctx), *ctx, concat_map(constraints@.take(j as int), g)),
        decreases constraints@.len() - j,
    {
        proof {
            lemma_concat_map_step(constraints@, g, j as int);
        }
        let ghost before = *ctx;
        match &constraints[j] {
            Constraint::Default { expr: Some(e), .. } => {
                proof {
                    assert(constraint_names_ok(constraints@[j as int]));
                }
                let pg11 = Version::new(11, None, None);
                let skip = pg11.precedes(&ctx.settings.pg_version) && (is_const_expr(e) || is_non_volatile(
                    e,
                    &ctx.settings,
                ));
                if !skip {
                    let range = expr_range(e);
                    report_field_default(ctx, range);
                } else {
                    proof {
                        assert(ctx.reported() =~= before.reported() + Seq::<ViolationView>::empty());
                    }
                }
            },
            Constraint::Generated { range } => {
                report_field_default(ctx, *range);
            },
            _ => {
                proof {
                    assert(ctx.reported() =~= before.reported() + Seq::<ViolationView>::empty());
                }
            },
        }
        proof {
            assert(ctx.reported() =~= old(ctx).reported() + concat_map(constraints@.take(j + 1), g));
        }
        j = j + 1;
    }
    proof {
        lemma_take_all(constraints@);
    }
}

fn field_defaults_in_actions(ctx: &mut Linter, actions: &Vec<AlterTableAction>)
    requires
        forall|k: int| 0 <= k < actions@.len() ==> action_names_ok(#[trigger] actions@[k]),
    ensures
        reports(
            *old(ctx),
            *final(ctx),
            concat_map(actions@, |a: AlterTableAction| field_default_action_violations(a, old(ctx).settings)),
        ),
{
    let ghost settings = ctx.settings;
    let ghost g = |a: AlterTableAction| field_default_action_violations(a, settings);
    let mut j: usize = 0;
    while j < actions.len()
        invariant
            j <= actions@.len(),
            settings == old(ctx).settings,
            forall|k: int| 0 <= k < actions@.len() ==> action_names_ok(#[trigger] actions@[k]),
            g == (|a: AlterTableAction| field_default_action_violations(a, settings)),
            reports(*old(ctx), *ctx, concat_map(actions@.take(j as int), g)),
        decreases actions@.len() - j,
    {
        proof {
            lemma_concat_map_step(actions@, g, j as int);
        }
        let ghost before = *ctx;
        match &actions[j] {
            AlterTableAction::AddColumn { constraints, .. } => {
                proof {
                    assert(action_names_ok(actions@[j as int]));
                }
                field_defaults_in_constraints(ctx, constraints);
                proof {
                    crate::rules::lemma_reports_trans(
                        *old(ctx),
                        before,
                        *ctx,
                        concat_map(actions@.take(j as int), g),
                        g(actions@[j as int]),
                    );
                }
            },
            _ => {
                proof {
                    assert(ctx.reported() =~= old(ctx).reported() + concat_map(actions@.take(j + 1), g));
                }
            },
        }
        j = j + 1;
    }
    proof {
        lemma_take_all(actions@);
    }
}

/// Reports each `GENERATED` column added to a table, and each column added
/// with a default that Postgres has to compute for every row: any default
/// before Postgres 12, from then on one that is neither a constant nor a
/// call of a non-volatile function with no arguments.
pub fn adding_field_with_default(ctx: &mut Linter, file: &SourceFile)
    requires
        file.names_ok(),
    ensures
        reports(*old(ctx), *final(ctx), adding_field_with_default_violations(*file, old(ctx).settings)),
{
    let ghost settings = ctx.settings;
    let ghost f = |s: Stmt| field_default_stmt_violations(s, settings);
    let mut i: usize = 0;
    while i < file.stmts.len()
        invariant
            i <= file.stmts@.len(),
            settings == old(ctx).settings,
            file.names_ok(),
            f == (|s: Stmt| field_default_stmt_violations(s, settings)),
            reports(*old(ctx), *ctx, concat_map(file.stmts@.take(i as int), f)),
        decreases file.stmts@.len() - i,
    {
        proof {
            lemma_concat_map_step(file.stmts@, f, i as int);
        }
        let ghost before = *ctx;
        match &file.stmts[i] {
            Stmt::AlterTable { actions, .. } => {
                proof {
                    assert(stmt_names_ok(file.stmts@[i as int]));
                }
                field_defaults_in_actions(ctx, actions);
                proof {
                    crate::rules::lemma_reports_trans(
                        *old(ctx),
                        before,
                        *ctx,
                        concat_map(file.stmts@.take(i as int), f),
                        f(file.stmts@[i as int]),
                    );
                }
            },
            _ => {
                proof {
                    assert(ctx.reported() =~= old(ctx).reported() + concat_map(file.stmts@.take(i + 1), f));
                }
            },
        }
        i = i + 1;
    }
    proof {
        lemma_take_all(file.stmts@);
    }
}

} // verus!
