//! Each rule reports under its own name, so a rule the linter does not run
//! reports nothing.
use vstd::prelude::*;
use crate::lint::{all_violations, lint_order, rule_violations, LinterSettings};
use crate::linter::{Rule, TextRange, ViolationView};
use crate::rules::concat_map;
use crate::rules::adding_foreign_key_constraint::{foreign_key_action_violations, foreign_key_constraint_violations, foreign_key_violations};
use crate::rules::adding_not_null_field::{deferred_reports, not_null_action, not_null_actions, not_null_stmts, NotNullScan};
use crate::rules::adding_primary_key_constraint::{primary_key_action_violations, primary_key_constraint_violations, primary_key_violations};
use crate::rules::adding_required_field::{required_field_action_violations, required_field_violations};
use crate::rules::ban_alter_domain_with_add_constraint::{alter_domain_violation, alter_domain_violations};
use crate::rules::ban_concurrent_index_creation_in_transaction::concurrent_in_transaction;
use crate::rules::constraint_missing_not_valid::{missing_not_valid_action, missing_not_valid_stmts, not_valid_action, not_valid_actions, not_valid_stmts};
use crate::rules::prefer_repack::repack_violations;
use crate::rules::prefer_robust_stmts::{robust_action, robust_actions, robust_stmt, robust_stmts, Mark};
use crate::syntax::{AlterTableAction, ColumnAssignments, Constraint, NameLike, SourceFile, SqlType, Stmt};

verus! {

/// Whether every violation of `vs` is reported under the rule `r`.
pub open spec fn all_by(vs: Seq<ViolationView>, r: Rule) -> bool {
    forall|k: int| 0 <= k < vs.len() ==> (#[trigger] vs[k]).code == r
}

proof fn lemma_all_by_add(a: Seq<ViolationView>, b: Seq<ViolationView>, r: Rule)
    requires
        all_by(a, r),
        all_by(b, r),
    ensures
        all_by(a + b, r),
{
    assert forall|k: int| 0 <= k < (a + b).len() implies (#[trigger] (a + b)[k]).code == r by {
        if k < a.len() {
            assert((a + b)[k] == a[k]);
        } else {
            assert((a + b)[k] == b[k - a.len()]);
        }
    }
}

/// What `f` gives for each element, joined, keeps a property that holds of
/// every violation `f` gives.
proof fn lemma_concat_map_all<T>(s: Seq<T>, f: spec_fn(T) -> Seq<ViolationView>, p: spec_fn(ViolationView) -> bool)
    requires
        forall|x: T, k: int| 0 <= k < f(x).len() ==> p(#[trigger] f(x)[k]),
    ensures
        forall|k: int| 0 <= k < concat_map(s, f).len() ==> p(#[trigger] concat_map(s, f)[k]),
    decreases s.len(),
{
    if s.len() > 0 {
        lemma_concat_map_all(s.drop_last(), f, p);
        let a = concat_map(s.drop_last(), f);
        let b = f(s.last());
        assert forall|k: int| 0 <= k < (a + b).len() implies p(#[trigger] (a + b)[k]) by {
            if k < a.len() {
                assert((a + b)[k] == a[k]);
            } else {
                assert((a + b)[k] == b[k - a.len()]);
            }
        }
    }
}

proof fn lemma_concat_map_by<T>(s: Seq<T>, f: spec_fn(T) -> Seq<ViolationView>, r: Rule)
    requires
        forall|x: T| all_by(#[trigger] f(x), r),
    ensures
        all_by(concat_map(s, f), r),
{
    let p = |v: ViolationView| v.code == r;
    assert forall|x: T, k: int| 0 <= k < f(x).len() implies p(#[trigger] f(x)[k]) by {
        assert(all_by(f(x), r));
    }
    lemma_concat_map_all(s, f, p);
}

proof fn lemma_robust_actions(actions: Seq<AlterTableAction>, inside: bool, names: Seq<(Seq<char>, Mark)>)
    ensures
        all_by(robust_actions(actions, inside, names).1, Rule::PreferRobustStmts),
    decreases actions.len(),
{
    if actions.len() > 0 {
        lemma_robust_actions(actions.drop_last(), inside, names);
        let n1 = robust_actions(actions.drop_last(), inside, names).0;
        let v2 = robust_action(actions.last(), inside, n1).1;
        assert(all_by(v2, Rule::PreferRobustStmts));
        lemma_all_by_add(robust_actions(actions.drop_last(), inside, names).1, v2, Rule::PreferRobustStmts);
    }
}

proof fn lemma_robust_stmts(stmts: Seq<Stmt>, inside: bool)
    ensures
        all_by(robust_stmts(stmts, inside).2, Rule::PreferRobustStmts),
    decreases stmts.len(),
{
    if stmts.len() > 0 {
        lemma_robust_stmts(stmts.drop_last(), inside);
        let (i1, n1, v1) = robust_stmts(stmts.drop_last(), inside);
        match stmts.last() {
            Stmt::AlterTable { actions, .. } => lemma_robust_actions(actions@, i1, n1),
            _ => {},
        }
        lemma_all_by_add(v1, robust_stmt(stmts.last(), i1, n1).2, Rule::PreferRobustStmts);
    }
}

proof fn lemma_not_null_actions(actions: Seq<AlterTableAction>, table: Seq<char>, pg12_plus: bool, st: NotNullScan)
    ensures
        all_by(not_null_actions(actions, table, pg12_plus, st).1, Rule::AddingNotNullableField),
    decreases actions.len(),
{
    if actions.len() > 0 {
        lemma_not_null_actions(actions.drop_last(), table, pg12_plus, st);
        let (s1, v1) = not_null_actions(actions.drop_last(), table, pg12_plus, st);
        assert(all_by(not_null_action(actions.last(), table, pg12_plus, s1).1, Rule::AddingNotNullableField));
        lemma_all_by_add(v1, not_null_action(actions.last(), table, pg12_plus, s1).1, Rule::AddingNotNullableField);
    }
}

proof fn lemma_not_null_stmts(stmts: Seq<Stmt>, pg12_plus: bool)
    ensures
        all_by(not_null_stmts(stmts, pg12_plus).1, Rule::AddingNotNullableField),
    decreases stmts.len(),
{
    if stmts.len() > 0 {
        lemma_not_null_stmts(stmts.drop_last(), pg12_plus);
        let (st, v) = not_null_stmts(stmts.drop_last(), pg12_plus);
        match stmts.last() {
            Stmt::AlterTable { table: Some(t), actions, .. } => {
                let tn = crate::identifier::identifier_name(t@);
                lemma_not_null_actions(actions@, tn, pg12_plus, st);
                lemma_all_by_add(v, not_null_actions(actions@, tn, pg12_plus, st).1, Rule::AddingNotNullableField);
            },
            _ => {},
        }
    }
}

proof fn lemma_deferred_reports(
    deferred: Seq<(Seq<char>, TextRange)>,
    external: Seq<(Seq<char>, Seq<char>)>,
    dropped: Seq<(Seq<char>, Seq<char>)>,
)
    ensures
        all_by(deferred_reports(deferred, external, dropped), Rule::AddingNotNullableField),
    decreases deferred.len(),
{
    if deferred.len() > 0 {
        lemma_deferred_reports(deferred.drop_last(), external, dropped);
        let rest = deferred_reports(deferred.drop_last(), external, dropped);
        let d = deferred_reports(deferred, external, dropped);
        assert forall|k: int| 0 <= k < d.len() implies (#[trigger] d[k]).code == Rule::AddingNotNullableField by {
            if k < rest.len() {
                assert(d[k] == rest[k]);
            }
        }
    }
}

proof fn lemma_concurrent(stmts: Seq<Stmt>, inside: bool)
    ensures
        all_by(concurrent_in_transaction(stmts, inside).1, Rule::BanConcurrentIndexCreationInTransaction),
    decreases stmts.len(),
{
    if stmts.len() > 0 {
        lemma_concurrent(stmts.drop_last(), inside);
        let found = concurrent_in_transaction(stmts.drop_last(), inside).1;
        let r = concurrent_in_transaction(stmts, inside).1;
        assert forall|k: int| 0 <= k < r.len() implies (#[trigger] r[k]).code == Rule::BanConcurrentIndexCreationInTransaction by {
            if k < found.len() {
                assert(r[k] == found[k]);
            }
        }
    }
}

proof fn lemma_not_valid_actions(actions: Seq<AlterTableAction>, inside: bool, names: Seq<Seq<char>>)
    ensures
        all_by(not_valid_actions(actions, inside, names).1, Rule::ConstraintMissingNotValid),
    decreases actions.len(),
{
    if actions.len() > 0 {
        lemma_not_valid_actions(actions.drop_last(), inside, names);
        let (n1, v1) = not_valid_actions(actions.drop_last(), inside, names);
        assert(all_by(not_valid_action(actions.last(), inside, n1).1, Rule::ConstraintMissingNotValid));
        lemma_all_by_add(v1, not_valid_action(actions.last(), inside, n1).1, Rule::ConstraintMissingNotValid);
    }
}

proof fn lemma_not_valid_stmts(stmts: Seq<Stmt>, inside: bool)
    ensures
        all_by(not_valid_stmts(stmts, inside).2, Rule::ConstraintMissingNotValid),
    decreases stmts.len(),
{
    if stmts.len() > 0 {
        lemma_not_valid_stmts(stmts.drop_last(), inside);
        let (now, names, v) = not_valid_stmts(stmts.drop_last(), inside);
        match stmts.last() {
            Stmt::AlterTable { actions, .. } => {
                lemma_not_valid_actions(actions@, now, names);
                lemma_all_by_add(v, not_valid_actions(actions@, now, names).1, Rule::ConstraintMissingNotValid);
            },
            _ => {},
        }
    }
}

proof fn lemma_missing_not_valid_stmts(stmts: Seq<Stmt>, created: Seq<Seq<char>>)
    ensures
        all_by(missing_not_valid_stmts(stmts, created), Rule::ConstraintMissingNotValid),
    decreases stmts.len(),
{
    if stmts.len() > 0 {
        lemma_missing_not_valid_stmts(stmts.drop_last(), created);
        let f = |a: AlterTableAction| missing_not_valid_action(a);
        assert forall|a: AlterTableAction| all_by(#[trigger] f(a), Rule::ConstraintMissingNotValid) by {}
        let last = match stmts.last() {
            Stmt::AlterTable { table: Some(t), actions, .. } => if created.contains(
                crate::text::trimmed_quotes(t@),
            ) {
                seq![]
            } else {
                lemma_concat_map_by(actions@, f, Rule::ConstraintMissingNotValid);
                concat_map(actions@, f)
            },
            _ => seq![],
        };
        lemma_all_by_add(missing_not_valid_stmts(stmts.drop_last(), created), last, Rule::ConstraintMissingNotValid);
        assert(missing_not_valid_stmts(stmts, created) == missing_not_valid_stmts(stmts.drop_last(), created) + last);
    }
}

proof fn lemma_primary_key(s: Stmt)
    ensures
        all_by(primary_key_violations(s), Rule::AddingSerialPrimaryKeyField),
{
    let g = |c: Constraint| primary_key_constraint_violations(c);
    assert forall|c: Constraint| all_by(#[trigger] g(c), Rule::AddingSerialPrimaryKeyField) by {}
    let h = |a: AlterTableAction| primary_key_action_violations(a);
    assert forall|a: AlterTableAction| all_by(#[trigger] h(a), Rule::AddingSerialPrimaryKeyField) by {
        match a {
            AlterTableAction::AddColumn { constraints, .. } => lemma_concat_map_by(constraints@, g, Rule::AddingSerialPrimaryKeyField),
            _ => {},
        }
    }
    match s {
        Stmt::AlterTable { actions, .. } => lemma_concat_map_by(actions@, h, Rule::AddingSerialPrimaryKeyField),
        _ => {},
    }
}

proof fn lemma_required_field(s: Stmt)
    ensures
        all_by(required_field_violations(s), Rule::AddingRequiredField),
{
    let h = |a: AlterTableAction| required_field_action_violations(a);
    assert forall|a: AlterTableAction| all_by(#[trigger] h(a), Rule::AddingRequiredField) by {}
    match s {
        Stmt::AlterTable { actions, .. } => lemma_concat_map_by(actions@, h, Rule::AddingRequiredField),
        _ => {},
    }
}

proof fn lemma_foreign_key(s: Stmt, created: Seq<Seq<char>>)
    ensures
        all_by(foreign_key_violations(s, created), Rule::AddingForeignKeyConstraint),
{
    let g = |c: Constraint| foreign_key_constraint_violations(c);
    assert forall|c: Constraint| all_by(#[trigger] g(c), Rule::AddingForeignKeyConstraint) by {}
    match s {
        Stmt::AlterTable { table: Some(t), actions, .. } => {
            let b = created.contains(crate::text::trimmed_quotes(t@));
            let h = |a: AlterTableAction| foreign_key_action_violations(a, b);
            assert forall|a: AlterTableAction| all_by(#[trigger] h(a), Rule::AddingForeignKeyConstraint) by {
                match a {
                    AlterTableAction::AddColumn { constraints, .. } => lemma_concat_map_by(constraints@, g, Rule::AddingForeignKeyConstraint),
                    _ => {},
                }
            }
            lemma_concat_map_by(actions@, h, Rule::AddingForeignKeyConstraint);
        },
        _ => {},
    }
}

proof fn lemma_names_reports(
    names: Seq<Seq<char>>,
    a: Seq<crate::rules::ban_duplicate_column_assignments::Assigned>,
    cols: Option<Seq<crate::syntax::SetColumn>>,
)
    ensures
        all_by(crate::rules::ban_duplicate_column_assignments::names_reports(names, a, cols), Rule::BanDuplicateColumnAssignments),
    decreases names.len(),
{
    if names.len() > 0 {
        lemma_names_reports(names.drop_last(), a, cols);
        let n = names.last();
        let g = crate::rules::ban_duplicate_column_assignments::with_name(a, n);
        let fix = match cols {
            Some(c) => crate::rules::ban_duplicate_column_assignments::delete_fix(n, g, c),
            None => None,
        };
        let rep = crate::rules::ban_duplicate_column_assignments::group_reports(n, g, fix);
        assert forall|k: int| 0 <= k < rep.len() implies (#[trigger] rep[k]).code == Rule::BanDuplicateColumnAssignments by {
            if k < rep.len() - 1 {
                assert(rep[k] == g.drop_last().map_values(
                    |x: crate::rules::ban_duplicate_column_assignments::Assigned|
                        crate::rules::ban_duplicate_column_assignments::duplicate_violation(n, x.range, None),
                )[k]);
            }
        }
        lemma_all_by_add(crate::rules::ban_duplicate_column_assignments::names_reports(names.drop_last(), a, cols), rep, Rule::BanDuplicateColumnAssignments);
    }
}

proof fn lemma_duplicate_assignments(c: ColumnAssignments)
    ensures
        all_by(crate::rules::ban_duplicate_column_assignments::assignment_violations(c), Rule::BanDuplicateColumnAssignments),
{
    match c {
        ColumnAssignments::Update { set_columns } => {
            let a = crate::rules::ban_duplicate_column_assignments::set_assignments(set_columns@);
            lemma_names_reports(crate::rules::ban_duplicate_column_assignments::distinct_names(a), a, Some(set_columns@));
        },
        ColumnAssignments::Insert { targets } => {
            let a = crate::rules::ban_duplicate_column_assignments::target_assignments(targets@, 0);
            lemma_names_reports(crate::rules::ban_duplicate_column_assignments::distinct_names(a), a, None);
        },
    }
}

/// Every violation that a rule reports is reported under that rule's name.
pub proof fn lemma_rule_violations_code(r: Rule, file: SourceFile, settings: LinterSettings)
    ensures
        all_by(rule_violations(r, file, settings), r),
{
    match r {
        Rule::AddingFieldWithDefault => {
            let h = |c: Constraint| crate::rules::adding_field_with_default::field_default_constraint_violations(c, settings);
            assert forall|c: Constraint| all_by(#[trigger] h(c), r) by {}
            let g = |a: AlterTableAction| crate::rules::adding_field_with_default::field_default_action_violations(a, settings);
            assert forall|a: AlterTableAction| all_by(#[trigger] g(a), r) by {
                match a {
                    AlterTableAction::AddColumn { constraints, .. } => lemma_concat_map_by(constraints@, h, r),
                    _ => {},
                }
            }
            let f = |s: Stmt| crate::rules::adding_field_with_default::field_default_stmt_violations(s, settings);
            assert forall|s: Stmt| all_by(#[trigger] f(s), r) by {
                match s {
                    Stmt::AlterTable { actions, .. } => lemma_concat_map_by(actions@, g, r),
                    _ => {},
                }
            }
            lemma_concat_map_by(file.stmts@, f, r);
        },
        Rule::AddingForeignKeyConstraint => {
            let created = crate::rules::constraint_missing_not_valid::created_in_transaction(
                file.stmts@,
                settings.assume_in_transaction,
            ).1;
            let f = |s: Stmt| foreign_key_violations(s, created);
            assert forall|s: Stmt| all_by(#[trigger] f(s), r) by {
                lemma_foreign_key(s, created);
            }
            lemma_concat_map_by(file.stmts@, f, r);
        },
        Rule::AddingNotNullableField => {
            let pg12_plus = !crate::version::version_lt(settings.pg_version, crate::rules::adding_not_null_field::pg12());
            lemma_not_null_stmts(file.stmts@, pg12_plus);
            let (st, v) = not_null_stmts(file.stmts@, pg12_plus);
            lemma_deferred_reports(st.deferred, st.external, st.dropped);
            lemma_all_by_add(v, deferred_reports(st.deferred, st.external, st.dropped), r);
        },
        Rule::AddingSerialPrimaryKeyField => {
            let f = |s: Stmt| primary_key_violations(s);
            assert forall|s: Stmt| all_by(#[trigger] f(s), r) by {
                lemma_primary_key(s);
            }
            lemma_concat_map_by(file.stmts@, f, r);
        },
        Rule::AddingRequiredField => {
            let f = |s: Stmt| required_field_violations(s);
            assert forall|s: Stmt| all_by(#[trigger] f(s), r) by {
                lemma_required_field(s);
            }
            lemma_concat_map_by(file.stmts@, f, r);
        },
        Rule::BanDropDatabase => {
            let f = |s: Stmt| crate::rules::ban_drop_database::drop_database_violations(s);
            assert forall|s: Stmt| all_by(#[trigger] f(s), r) by {}
            lemma_concat_map_by(file.stmts@, f, r);
        },
        Rule::BanConcurrentIndexCreationInTransaction => {
            lemma_concurrent(file.stmts@, settings.assume_in_transaction);
        },
        Rule::BanDropColumn => {
            let g = |a: AlterTableAction| crate::rules::ban_drop_column::drop_column_action_violations(a);
            assert forall|a: AlterTableAction| all_by(#[trigger] g(a), r) by {}
            let f = |s: Stmt| crate::rules::ban_drop_column::drop_column_violations(s);
            assert forall|s: Stmt| all_by(#[trigger] f(s), r) by {
                match s {
                    Stmt::AlterTable { actions, .. } => lemma_concat_map_by(actions@, g, r),
                    _ => {},
                }
            }
            lemma_concat_map_by(file.stmts@, f, r);
        },
        Rule::BanDropNotNull => {
            let g = |a: AlterTableAction| crate::rules::ban_drop_not_null::drop_not_null_action_violations(a);
            assert forall|a: AlterTableAction| all_by(#[trigger] g(a), r) by {}
            let f = |s: Stmt| crate::rules::ban_drop_not_null::drop_not_null_violations(s);
            assert forall|s: Stmt| all_by(#[trigger] f(s), r) by {
                match s {
                    Stmt::AlterTable { actions, .. } => lemma_concat_map_by(actions@, g, r),
                    _ => {},
                }
            }
            lemma_concat_map_by(file.stmts@, f, r);
        },
        Rule::BanDropTable => {
            let f = |s: Stmt| crate::rules::ban_drop_table::drop_table_violations(s);
            assert forall|s: Stmt| all_by(#[trigger] f(s), r) by {}
            lemma_concat_map_by(file.stmts@, f, r);
        },
        Rule::ChangingColumnType => {
            let g = |a: AlterTableAction| crate::rules::changing_column_type::set_type_action_violations(a);
            assert forall|a: AlterTableAction| all_by(#[trigger] g(a), r) by {}
            let f = |s: Stmt| crate::rules::changing_column_type::changing_column_type_violations(s);
            assert forall|s: Stmt| all_by(#[trigger] f(s), r) by {
                match s {
                    Stmt::AlterTable { actions, .. } => lemma_concat_map_by(actions@, g, r),
                    _ => {},
                }
            }
            lemma_concat_map_by(file.stmts@, f, r);
        },
        Rule::ConstraintMissingNotValid => {
            let inside = settings.assume_in_transaction;
            lemma_not_valid_stmts(file.stmts@, inside);
            let created = crate::rules::constraint_missing_not_valid::created_in_transaction(file.stmts@, inside).1;
            lemma_missing_not_valid_stmts(file.stmts@, created);
            lemma_all_by_add(not_valid_stmts(file.stmts@, inside).2, missing_not_valid_stmts(file.stmts@, created), r);
        },
        Rule::PreferRobustStmts => {
            lemma_robust_stmts(file.stmts@, settings.assume_in_transaction);
        },
        Rule::BanCreateDomainWithConstraint => {
            let f = |s: Stmt| crate::rules::ban_create_domain_with_constraint::create_domain_violations(s);
            assert forall|s: Stmt| all_by(#[trigger] f(s), r) by {}
            lemma_concat_map_by(file.stmts@, f, r);
        },
        Rule::BanAlterDomainWithAddConstraint => {
            let f = |s: Stmt| alter_domain_violations(s);
            assert forall|s: Stmt| all_by(#[trigger] f(s), r) by {
                match s {
                    Stmt::AlterDomain { add_constraints, .. } => {
                        let m = add_constraints@.map_values(|x: TextRange| alter_domain_violation(x));
                        assert forall|k: int| 0 <= k < m.len() implies (#[trigger] m[k]).code == r by {}
                    },
                    _ => {},
                }
            }
            lemma_concat_map_by(file.stmts@, f, r);
        },
        Rule::BanTruncateCascade => {
            let f = |s: Stmt| crate::rules::ban_truncate_cascade::truncate_cascade_violations(s);
            assert forall|s: Stmt| all_by(#[trigger] f(s), r) by {}
            lemma_concat_map_by(file.stmts@, f, r);
        },
        Rule::BanUncommittedTransaction => {},
        Rule::IdentifierTooLong => {
            let f = |n: NameLike| crate::rules::identifier_too_long::name_violations(n);
            assert forall|n: NameLike| all_by(#[trigger] f(n), r) by {}
            lemma_concat_map_by(file.names@, f, r);
        },
        Rule::PreferRepack => {
            let f = |s: Stmt| repack_violations(s);
            assert forall|s: Stmt| all_by(#[trigger] f(s), r) by {}
            lemma_concat_map_by(file.stmts@, f, r);
        },
        Rule::BanCharField => {
            let f = |t: SqlType| crate::rules::ban_char_field::char_field_violations(t);
            assert forall|t: SqlType| all_by(#[trigger] f(t), r) by {}
            lemma_concat_map_by(file.column_types@, f, r);
        },
        Rule::PreferBigintOverInt => {
            let f = |t: SqlType| crate::rules::prefer_bigint_over_int::int_type_violations(t);
            assert forall|t: SqlType| all_by(#[trigger] f(t), r) by {}
            lemma_concat_map_by(file.column_types@, f, r);
        },
        Rule::PreferBigintOverSmallint => {
            let f = |t: SqlType| crate::rules::prefer_bigint_over_smallint::smallint_type_violations(t);
            assert forall|t: SqlType| all_by(#[trigger] f(t), r) by {}
            lemma_concat_map_by(file.column_types@, f, r);
        },
        Rule::PreferTextField => {
            let f = |t: SqlType| crate::rules::prefer_text_field::varchar_type_violations(t);
            assert forall|t: SqlType| all_by(#[trigger] f(t), r) by {}
            lemma_concat_map_by(file.column_types@, f, r);
        },
        Rule::PreferBigInt => {
            let f = |t: SqlType| crate::rules::prefer_big_int::big_int_type_violations(t);
            assert forall|t: SqlType| all_by(#[trigger] f(t), r) by {}
            lemma_concat_map_by(file.column_types@, f, r);
        },
        Rule::BanDuplicateColumnAssignments => {
            let f = |c: ColumnAssignments| crate::rules::ban_duplicate_column_assignments::assignment_violations(c);
            assert forall|c: ColumnAssignments| all_by(#[trigger] f(c), r) by {
                lemma_duplicate_assignments(c);
            }
            lemma_concat_map_by(file.column_assignments@, f, r);
        },
        _ => {},
    }
}

/// What `lint` reports for a file comes only from the rules the linter runs:
/// each violation is reported under one of them.
pub proof fn lemma_only_enabled_rules_report(file: SourceFile, settings: LinterSettings, rules: Seq<Rule>)
    ensures
        forall|k: int|
            0 <= k < all_violations(file, settings, rules).len() ==> rules.contains(
                (#[trigger] all_violations(file, settings, rules)[k]).code,
            ),
{
    let f = |r: Rule| if rules.contains(r) {
        rule_violations(r, file, settings)
    } else {
        seq![]
    };
    let p = |v: ViolationView| rules.contains(v.code);
    assert forall|r: Rule, k: int| 0 <= k < f(r).len() implies p(#[trigger] f(r)[k]) by {
        lemma_rule_violations_code(r, file, settings);
    }
    lemma_concat_map_all(lint_order(), f, p);
}

} // verus!
