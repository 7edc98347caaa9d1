//! `prefer-robust-stmts`: outside a transaction, a migration that fails part
//! way through can only be rerun if its statements tolerate having run
//! before (`IF EXISTS`, `IF NOT EXISTS`).
use vstd::prelude::*;
use crate::identifier::{identifier_name, Identifier};
use crate::lint::{Linter, LinterSettings};
use crate::linter::{opt_fix, string_of, Edit, EditView, Fix, FixView, Rule, TextRange, Violation, ViolationView};
use crate::rules::{lemma_take_all, reports};
use crate::syntax::{stmt_names_ok, AlterTableAction, SourceFile, Stmt};

verus! {

/// What last happened in the file to a constraint of a given name.
#[derive(Debug, Clone, Copy, PartialEq, Eq, Structural)]
pub enum Mark {
    Dropped,
    Added,
}

/// Constraint names, each with what happened to it; a later entry for a name
/// overrides an earlier one.
pub open spec fn lookup(names: Seq<(Seq<char>, Mark)>, k: Seq<char>) -> Option<Mark>
    decreases names.len(),
{
    if names.len() == 0 {
        None
    } else if names.last().0 == k {
        Some(names.last().1)
    } else {
        lookup(names.drop_last(), k)
    }
}

pub open spec fn if_exists_message() -> Seq<char> {
    "Missing `IF EXISTS`, the migration can't be rerun if it fails part way through."@
}

pub open spec fn if_not_exists_message() -> Seq<char> {
    "Missing `IF NOT EXISTS`, the migration can't be rerun if it fails part way through."@
}

pub open spec fn no_transaction_message() -> Seq<char> {
    "Missing transaction, the migration can't be rerun if it fails part way through."@
}

/// A violation of the rule.
pub open spec fn robust_violation(message: Seq<char>, range: TextRange, fix: Option<FixView>) -> ViolationView {
    ViolationView { code: Rule::PreferRobustStmts, message, text_range: range, help: None, fix }
}

/// The fix that inserts `text` at `at`.
pub open spec fn insert_fix(title: Seq<char>, text: Seq<char>, at: u32) -> FixView {
    FixView { title, edits: seq![EditView { text_range: TextRange { start: at, end: at }, text: Some(text) }] }
}

/// The fix that inserts `text` after `token`, when there is one.
pub open spec fn insert_after(token: Option<TextRange>, title: Seq<char>, text: Seq<char>) -> Option<FixView> {
    match token {
        Some(t) => Some(insert_fix(title, text, t.end)),
        None => None,
    }
}

/// `v`, unless inside a transaction.
pub open spec fn unless_inside(inside: bool, v: ViolationView) -> Seq<ViolationView> {
    if inside {
        seq![]
    } else {
        seq![v]
    }
}

/// For one action of `ALTER TABLE`: the constraint names afterwards, and what
/// is reported.
pub open spec fn robust_action(a: AlterTableAction, inside: bool, names: Seq<(Seq<char>, Mark)>) -> (
    Seq<(Seq<char>, Mark)>,
    Seq<ViolationView>,
) {
    match a {
        AlterTableAction::DropConstraint { range, name, if_exists, constraint_token } => {
            let after = match name {
                Some(n) => names.push((identifier_name(n@), Mark::Dropped)),
                None => names,
            };
            if if_exists {
                (after, seq![])
            } else {
                (
                    after,
                    unless_inside(
                        inside,
                        robust_violation(
                            if_exists_message(),
                            range,
                            insert_after(constraint_token, "Insert `if exists`"@, " if exists"@),
                        ),
                    ),
                )
            }
        },
        AlterTableAction::AddColumn { range, if_not_exists, column_token, .. } => if if_not_exists {
            (names, seq![])
        } else {
            (
                names,
                unless_inside(
                    inside,
                    robust_violation(
                        if_not_exists_message(),
                        range,
                        insert_after(column_token, "Insert `if not exists`"@, " if not exists"@),
                    ),
                ),
            )
        },
        AlterTableAction::ValidateConstraint { range, name } => if name is Some && lookup(
            names,
            identifier_name(name->0@),
        ) is Some {
            (names, seq![])
        } else {
            (names, unless_inside(inside, robust_violation(no_transaction_message(), range, None)))
        },
        AlterTableAction::AddConstraint { range, name, .. } => if name is Some && lookup(
            names,
            identifier_name(name->0@),
        ) == Some(Mark::Dropped) {
            (names.push((identifier_name(name->0@), Mark::Added)), seq![])
        } else {
            (names, unless_inside(inside, robust_violation(no_transaction_message(), range, None)))
        },
        AlterTableAction::DropColumn { range, if_exists, column_token } => if if_exists {
            (names, seq![])
        } else {
            (
                names,
                unless_inside(
                    inside,
                    robust_violation(
                        if_exists_message(),
                        range,
                        insert_after(column_token, "Insert `if exists`"@, " if exists"@),
                    ),
                ),
            )
        },
        AlterTableAction::AlterColumn { range, .. } => (
            names,
            unless_inside(inside, robust_violation(no_transaction_message(), range, None)),
        ),
        AlterTableAction::Other { range } => (
            names,
            unless_inside(inside, robust_violation(no_transaction_message(), range, None)),
        ),
    }
}

/// The actions of one `ALTER TABLE`, in order.
pub open spec fn robust_actions(actions: Seq<AlterTableAction>, inside: bool, names: Seq<(Seq<char>, Mark)>) -> (
    Seq<(Seq<char>, Mark)>,
    Seq<ViolationView>,
)
    decreases actions.len(),
{
    if actions.len() == 0 {
        (names, seq![])
    } else {
        let (n1, v1) = robust_actions(actions.drop_last(), inside, names);
        let (n2, v2) = robust_action(actions.last(), inside, n1);
        (n2, v1 + v2)
    }
}

/// For one statement: whether a transaction is open afterwards, the
/// constraint names afterwards, and what is reported.
pub open spec fn robust_stmt(s: Stmt, inside: bool, names: Seq<(Seq<char>, Mark)>) -> (
    bool,
    Seq<(Seq<char>, Mark)>,
    Seq<ViolationView>,
) {
    match s {
        Stmt::Begin { .. } => (true, names, seq![]),
        Stmt::Commit { .. } => (false, names, seq![]),
        Stmt::AlterTable { actions, .. } => {
            let (n, v) = robust_actions(actions@, inside, names);
            (inside, n, v)
        },
        Stmt::CreateIndex { range, if_not_exists, name, concurrently } => if !if_not_exists && name is Some
            && (concurrently is Some || !inside) {
            (
                inside,
                names,
                seq![
                    ViolationView {
                        code: Rule::PreferRobustStmts,
                        message: if_not_exists_message(),
                        text_range: range,
                        help: Some("Use an explicit name for a concurrently created index"@),
                        fix: Some(insert_fix("Insert `if not exists`"@, "if not exists "@, name->0.start)),
                    },
                ],
            )
        } else {
            (inside, names, seq![])
        },
        Stmt::CreateTable { range, if_not_exists, table_token, .. } => if !if_not_exists && !inside {
            (
                inside,
                names,
                seq![
                    robust_violation(
                        if_not_exists_message(),
                        range,
                        insert_after(table_token, "Insert `if not exists`"@, " if not exists"@),
                    ),
                ],
            )
        } else {
            (inside, names, seq![])
        },
        Stmt::DropIndex { range, if_exists, first_index } => if !if_exists && !inside {
            (
                inside,
                names,
                seq![
                    robust_violation(
                        if_exists_message(),
                        range,
                        match first_index {
                            Some(t) => Some(insert_fix("Insert `if exists`"@, "if exists "@, t.start)),
                            None => None,
                        },
                    ),
                ],
            )
        } else {
            (inside, names, seq![])
        },
        Stmt::DropTable { range, if_exists, table_token } => if !if_exists && !inside {
            (
                inside,
                names,
                seq![
                    robust_violation(
                        if_exists_message(),
                        range,
                        insert_after(table_token, "Insert `if exists`"@, " if exists"@),
                    ),
                ],
            )
        } else {
            (inside, names, seq![])
        },
        Stmt::DropType { range, if_exists, type_token } => if !if_exists && !inside {
            (
                inside,
                names,
                seq![
                    robust_violation(
                        if_exists_message(),
                        range,
                        insert_after(type_token, "Insert `if exists`"@, " if exists"@),
                    ),
                ],
            )
        } else {
            (inside, names, seq![])
        },
        _ => (inside, names, seq![]),
    }
}

/// The statements of a file, in order, starting outside a transaction unless
/// `inside`.
pub open spec fn robust_stmts(stmts: Seq<Stmt>, inside: bool) -> (bool, Seq<(Seq<char>, Mark)>, Seq<ViolationView>)
    decreases stmts.len(),
{
    if stmts.len() == 0 {
        (inside, seq![], seq![])
    } else {
        let (i1, n1, v1) = robust_stmts(stmts.drop_last(), inside);
        let (i2, n2, v2) = robust_stmt(stmts.last(), i1, n1);
        (i2, n2, v1 + v2)
    }
}

/// What the rule reports for a file under `settings`: nothing for a file of
/// one statement.
pub open spec fn prefer_robust_stmts_violations(file: SourceFile, settings: LinterSettings) -> Seq<ViolationView> {
    if file.stmts@.len() <= 1 {
        seq![]
    } else {
        robust_stmts(file.stmts@, settings.assume_in_transaction).2
    }
}

/// The constraint names held by the rule, as names.
pub open spec fn names_view(names: Seq<(Identifier, Mark)>) -> Seq<(Seq<char>, Mark)> {
    names.map_values(|p: (Identifier, Mark)| (p.0@, p.1))
}

fn lookup_name(names: &Vec<(Identifier, Mark)>, key: &Identifier) -> (r: Option<Mark>)
    ensures
        r == lookup(names_view(names@), key@),
{
    let mut found: Option<Mark> = None;
    let mut i: usize = 0;
    while i < names.len()
        invariant
            i <= names@.len(),
            found == lookup(names_view(names@.take(i as int)), key@),
        decreases names@.len() - i,
    {
        proof {
            assert(names_view(names@.take(i + 1)).drop_last() =~= names_view(names@.take(i as int)));
        }
        if names[i].0.same(key) {
            found = Some(names[i].1);
        }
        i = i + 1;
    }
    proof {
        lemma_take_all(names@);
    }
    found
}

fn insert_fix_at(title: &str, text: &str, at: u32) -> (f: Fix)
    ensures
        f@ == insert_fix(title@, text@, at),
{
    let mut edits: Vec<Edit> = Vec::new();
    edits.push(Edit::insert(text, at));
    let f = Fix::new(title, edits);
    assert(f@.edits =~= insert_fix(title@, text@, at).edits);
    f
}

fn insert_after_token(token: Option<TextRange>, title: &str, text: &str) -> (f: Option<Fix>)
    ensures
        opt_fix(f) == insert_after(token, title@, text@),
{
    match token {
        Some(t) => Some(insert_fix_at(title, text, t.end)),
        None => None,
    }
}

fn report_unless_inside(ctx: &mut Linter, inside: bool, message: &str, range: TextRange, fix: Option<Fix>)
    ensures
        reports(*old(ctx), *final(ctx), unless_inside(inside, robust_violation(message@, range, opt_fix(fix)))),
{
    if !inside {
        ctx.report(Violation::for_range(Rule::PreferRobustStmts, string_of(message), range).fix(fix));
    }
    assert(ctx.reported() =~= old(ctx).reported() + unless_inside(
        inside,
        robust_violation(message@, range, opt_fix(fix)),
    ));
}

fn robust_in_actions(
    ctx: &mut Linter,
    actions: &Vec<AlterTableAction>,
    inside: bool,
    names: &mut Vec<(Identifier, Mark)>,
)
    requires
        forall|k: int| 0 <= k < actions@.len() ==> crate::syntax::action_names_ok(#[trigger] actions@[k]),
    ensures
        names_view(final(names)@) == robust_actions(actions@, inside, names_view(old(names)@)).0,
        reports(*old(ctx), *final(ctx), robust_actions(actions@, inside, names_view(old(names)@)).1),
{
    let mut j: usize = 0;
    while j < actions.len()
        invariant
            j <= actions@.len(),
            forall|k: int| 0 <= k < actions@.len() ==> crate::syntax::action_names_ok(#[trigger] actions@[k]),
            names_view(names@) == robust_actions(actions@.take(j as int), inside, names_view(old(names)@)).0,
            reports(*old(ctx), *ctx, robust_actions(actions@.take(j as int), inside, names_view(old(names)@)).1),
        decreases actions@.len() - j,
    {
        proof {
            assert(actions@.take(j + 1).drop_last() =~= actions@.take(j as int));
            assert(crate::syntax::action_names_ok(actions@[j as int]));
        }
        let ghost before = *ctx;
        let ghost names_before = names_view(names@);
        match &actions[j] {
            AlterTableAction::DropConstraint { range, name, if_exists, constraint_token } => {
                if let Some(n) = name {
                    let id = Identifier::new(n.as_str());
                    names.push((id, Mark::Dropped));
                    proof {
                        assert(names_view(names@) =~= names_before.push((identifier_name(n@), Mark::Dropped)));
                    }
                }
                if !*if_exists {
                    let fix = insert_after_token(*constraint_token, "Insert `if exists`", " if exists");
                    report_unless_inside(
                        ctx,
                        inside,
                        "Missing `IF EXISTS`, the migration can't be rerun if it fails part way through.",
                        *range,
                        fix,
                    );
                }
            },
            AlterTableAction::AddColumn { range, if_not_exists, column_token, .. } => {
                if !*if_not_exists {
                    let fix = insert_after_token(*column_token, "Insert `if not exists`", " if not exists");
                    report_unless_inside(
                        ctx,
                        inside,
                        "Missing `IF NOT EXISTS`, the migration can't be rerun if it fails part way through.",
                        *range,
                        fix,
                    );
                }
            },
            AlterTableAction::ValidateConstraint { range, name } => {
                let mut known = false;
                if let Some(n) = name {
                    let id = Identifier::new(n.as_str());
                    if lookup_name(names, &id).is_some() {
                        known = true;
                    }
                }
                if !known {
                    report_unless_inside(
                        ctx,
                        inside,
                        "Missing transaction, the migration can't be rerun if it fails part way through.",
                        *range,
                        None,
                    );
                }
            },
            AlterTableAction::AddConstraint { range, name, .. } => {
                let mut readded = false;
                if let Some(n) = name {
                    let id = Identifier::new(n.as_str());
                    if lookup_name(names, &id) == Some(Mark::Dropped) {
                        names.push((id, Mark::Added));
                        readded = true;
                        proof {
                            assert(names_view(names@) =~= names_before.push((identifier_name(n@), Mark::Added)));
                        }
                    }
                }
                if !readded {
                    report_unless_inside(
                        ctx,
                        inside,
                        "Missing transaction, the migration can't be rerun if it fails part way through.",
                        *range,
                        None,
                    );
                }
            },
            AlterTableAction::DropColumn { range, if_exists, column_token } => {
                if !*if_exists {
                    let fix = insert_after_token(*column_token, "Insert `if exists`", " if exists");
                    report_unless_inside(
                        ctx,
                        inside,
                        "Missing `IF EXISTS`, the migration can't be rerun if it fails part way through.",
                        *range,
                        fix,
                    );
                }
            },
            AlterTableAction::AlterColumn { range, .. } => {
                report_unless_inside(
                    ctx,
                    inside,
                    "Missing transaction, the migration can't be rerun if it fails part way through.",
                    *range,
                    None,
                );
            },
            AlterTableAction::Other { range } => {
                report_unless_inside(
                    ctx,
                    inside,
                    "Missing transaction, the migration can't be rerun if it fails part way through.",
                    *range,
                    None,
                );
            },
        }
        proof {
            let step = robust_action(actions@[j as int], inside, names_before);
            assert(names_view(names@) == step.0);
            assert(ctx.reported() =~= old(ctx).reported() + robust_actions(
                actions@.take(j + 1),
                inside,
                names_view(old(names)@),
            ).1);
        }
        j = j + 1;
    }
    proof {
        lemma_take_all(actions@);
    }
}

/// Reports the statements that would fail if the migration were rerun after
/// failing part way through outside a transaction.
pub fn prefer_robust_stmts(ctx: &mut Linter, file: &SourceFile)
    requires
        file.names_ok(),
    ensures
        reports(*old(ctx), *final(ctx), prefer_robust_stmts_violations(*file, old(ctx).settings)),
{
    let mut inside_transaction = ctx.settings.assume_in_transaction;
    if file.stmts.len() <= 1 {
        proof {
            assert(ctx.reported() =~= old(ctx).reported() + Seq::<ViolationView>::empty());
        }
        return;
    }
    let ghost inside0 = inside_transaction;
    let mut names: Vec<(Identifier, Mark)> = Vec::new();
    let mut i: usize = 0;
    while i < file.stmts.len()
        invariant
            i <= file.stmts@.len(),
            file.names_ok(),
            inside0 == old(ctx).settings.assume_in_transaction,
            inside_transaction == robust_stmts(file.stmts@.take(i as int), inside0).0,
            names_view(names@) == robust_stmts(file.stmts@.take(i as int), inside0).1,
            reports(*old(ctx), *ctx, robust_stmts(file.stmts@.take(i as int), inside0).2),
        decreases file.stmts@.len() - i,
    {
        proof {
            assert(file.stmts@.take(i + 1).drop_last() =~= file.stmts@.take(i as int));
            assert(stmt_names_ok(file.stmts@[i as int]));
        }
        let ghost names_before = names_view(names@);
        match &file.stmts[i] {
            Stmt::Begin { .. } => {
                inside_transaction = true;
            },
            Stmt::Commit { .. } => {
                inside_transaction = false;
            },
            Stmt::AlterTable { actions, .. } => {
                robust_in_actions(ctx, actions, inside_transaction, &mut names);
            },
            Stmt::CreateIndex { range, if_not_exists, name, concurrently } => {
                if !*if_not_exists && name.is_some() && (concurrently.is_some() || !inside_transaction) {
                    let at = match name {
                        Some(n) => n.start,
                        None => 0,
                    };
                    let fix = insert_fix_at("Insert `if not exists`", "if not exists ", at);
                    ctx.report(
                        Violation::for_range(
                            Rule::PreferRobustStmts,
                            string_of(
                                "Missing `IF NOT EXISTS`, the migration can't be rerun if it fails part way through.",
                            ),
                            *range,
                        ).help("Use an explicit name for a concurrently created index").fix(Some(fix)),
                    );
                }
            },
            Stmt::CreateTable { range, if_not_exists, table_token, .. } => {
                if !*if_not_exists && !inside_transaction {
                    let fix = insert_after_token(*table_token, "Insert `if not exists`", " if not exists");
                    ctx.report(
                        Violation::for_range(
                            Rule::PreferRobustStmts,
                            string_of(
                                "Missing `IF NOT EXISTS`, the migration can't be rerun if it fails part way through.",
                            ),
                            *range,
                        ).fix(fix),
                    );
                }
            },
            Stmt::DropIndex { range, if_exists, first_index } => {
                if !*if_exists && !inside_transaction {
                    let fix = match first_index {
                        Some(t) => Some(insert_fix_at("Insert `if exists`", "if exists ", t.start)),
                        None => None,
                    };
                    ctx.report(
                        Violation::for_range(
                            Rule::PreferRobustStmts,
                            string_of(
                                "Missing `IF EXISTS`, the migration can't be rerun if it fails part way through.",
                            ),
                            *range,
                        ).fix(fix),
                    );
                }
            },
            Stmt::DropTable { range, if_exists, table_token } => {
                if !*if_exists && !inside_transaction {
                    let fix = insert_after_token(*table_token, "Insert `if exists`", " if exists");
                    ctx.report(
                        Violation::for_range(
                            Rule::PreferRobustStmts,
                            string_of(
                                "Missing `IF EXISTS`, the migration can't be rerun if it fails part way through.",
                            ),
                            *range,
                        ).fix(fix),
                    );
                }
            },
            Stmt::DropType { range, if_exists, type_token } => {
                if !*if_exists && !inside_transaction {
                    let fix = insert_after_token(*type_token, "Insert `if exists`", " if exists");
                    ctx.report(
                        Violation::for_range(
                            Rule::PreferRobustStmts,
                            string_of(
                                "Missing `IF EXISTS`, the migration can't be rerun if it fails part way through.",
                            ),
                            *range,
                        ).fix(fix),
                    );
                }
            },
            _ => {},
        }
        proof {
            assert(ctx.reported() =~= old(ctx).reported() + robust_stmts(file.stmts@.take(i + 1), inside0).2);
        }
        i = i + 1;
    }
    proof {
        lemma_take_all(file.stmts@);
    }
}

} // verus!
