//! `adding-not-nullable-field`: `SET NOT NULL` scans the table under a lock
//! that blocks reads, unless (from Postgres 12) a validated `CHECK (c IS NOT
//! NULL)` constraint already proves the column has no nulls.
use vstd::prelude::*;
use crate::identifier::{identifier_name, Identifier};
use crate::lint::{Linter, LinterSettings};
use crate::linter::{plain_violation, string_of, Rule, TextRange, Violation, ViolationView};
use crate::rules::{helped, lemma_reports_trans, lemma_take_all, reports};
use crate::syntax::{action_names_ok, stmt_names_ok, AlterColumnOption, AlterTableAction, Constraint, SourceFile, Stmt};
use crate::version::{version_lt, Version};

verus! {

/// Postgres 12, from which a validated check constraint lets `SET NOT NULL`
/// skip the scan.
pub open spec fn pg12() -> Version {
    Version { major: 12, minor: None, patch: None }
}

/// The violation for a `SET NOT NULL` at `range`.
pub open spec fn not_null_violation(range: TextRange) -> ViolationView {
    helped(
        plain_violation(
            Rule::AddingNotNullableField,
            "Setting a column `NOT NULL` blocks reads while the table is scanned."@,
            range,
        ),
        "Make the field nullable and use a `CHECK` constraint instead."@,
    )
}

/// What the rule has gathered part way through a file.
pub struct NotNullScan {
    /// Each `NOT VALID` check constraint `c IS NOT NULL`: its name, with the
    /// table and column (a later entry for a name overrides an earlier one).
    pub checks: Seq<(Seq<char>, (Seq<char>, Seq<char>))>,
    /// The (table, column) pairs whose check constraint has been validated.
    pub validated: Seq<(Seq<char>, Seq<char>)>,
    /// The (table, constraint) pairs validated without being added in the
    /// file, each once, in the order first seen.
    pub external: Seq<(Seq<char>, Seq<char>)>,
    /// The (table, constraint) pairs dropped.
    pub dropped: Seq<(Seq<char>, Seq<char>)>,
    /// The `SET NOT NULL`s put off until the end of the file: table and range.
    pub deferred: Seq<(Seq<char>, TextRange)>,
}

/// The table and column of the check constraint named `k`, if any.
pub open spec fn check_of(checks: Seq<(Seq<char>, (Seq<char>, Seq<char>))>, k: Seq<char>) -> Option<(Seq<char>, Seq<char>)>
    decreases checks.len(),
{
    if checks.len() == 0 {
        None
    } else if checks.last().0 == k {
        Some(checks.last().1)
    } else {
        check_of(checks.drop_last(), k)
    }
}

/// Whether some pair of `s` is on `table`.
pub open spec fn on_table(s: Seq<(Seq<char>, Seq<char>)>, table: Seq<char>) -> bool {
    exists|k: int| 0 <= k < s.len() && s[k].0 == table
}

/// One action of an `ALTER TABLE` of `table`: what is gathered afterwards,
/// and what is reported.
pub open spec fn not_null_action(a: AlterTableAction, table: Seq<char>, pg12_plus: bool, st: NotNullScan) -> (
    NotNullScan,
    Seq<ViolationView>,
) {
    match a {
        AlterTableAction::AddConstraint {
            name: Some(cn),
            not_valid: true,
            constraint: Some(Constraint::Check { not_null_column: Some(col), .. }),
            ..
        } => if pg12_plus {
            (
                NotNullScan {
                    checks: st.checks.push((identifier_name(cn@), (table, identifier_name(col@)))),
                    ..st
                },
                seq![],
            )
        } else {
            (st, seq![])
        },
        AlterTableAction::ValidateConstraint { name: Some(cn), .. } => if pg12_plus {
            let c = identifier_name(cn@);
            let tc = check_of(st.checks, c);
            if tc is Some && (tc->0).0 == table {
                (NotNullScan { validated: st.validated.push(tc->0), ..st }, seq![])
            } else if st.external.contains((table, c)) {
                (st, seq![])
            } else {
                (NotNullScan { external: st.external.push((table, c)), ..st }, seq![])
            }
        } else {
            (st, seq![])
        },
        AlterTableAction::DropConstraint { name: Some(cn), .. } => if pg12_plus {
            (NotNullScan { dropped: st.dropped.push((table, identifier_name(cn@))), ..st }, seq![])
        } else {
            (st, seq![])
        },
        AlterTableAction::AlterColumn { column, option: Some(AlterColumnOption::SetNotNull { range }), .. } => {
            if pg12_plus && column is Some {
                let tc = (table, identifier_name(column->0@));
                if st.validated.contains(tc) {
                    (st, seq![])
                } else if on_table(st.external, table) {
                    (NotNullScan { deferred: st.deferred.push((table, range)), ..st }, seq![])
                } else {
                    (st, seq![not_null_violation(range)])
                }
            } else {
                (st, seq![not_null_violation(range)])
            }
        },
        _ => (st, seq![]),
    }
}

/// The actions of one `ALTER TABLE` of `table`, in order.
pub open spec fn not_null_actions(actions: Seq<AlterTableAction>, table: Seq<char>, pg12_plus: bool, st: NotNullScan) -> (
    NotNullScan,
    Seq<ViolationView>,
)
    decreases actions.len(),
{
    if actions.len() == 0 {
        (st, seq![])
    } else {
        let (s1, v1) = not_null_actions(actions.drop_last(), table, pg12_plus, st);
        let (s2, v2) = not_null_action(actions.last(), table, pg12_plus, s1);
        (s2, v1 + v2)
    }
}

/// The statements of a file, in order.
pub open spec fn not_null_stmts(stmts: Seq<Stmt>, pg12_plus: bool) -> (NotNullScan, Seq<ViolationView>)
    decreases stmts.len(),
{
    if stmts.len() == 0 {
        (NotNullScan { checks: seq![], validated: seq![], external: seq![], dropped: seq![], deferred: seq![] }, seq![])
    } else {
        let (st, v) = not_null_stmts(stmts.drop_last(), pg12_plus);
        match stmts.last() {
            Stmt::AlterTable { table: Some(t), actions, .. } => {
                let (s2, v2) = not_null_actions(actions@, identifier_name(t@), pg12_plus, st);
                (s2, v + v2)
            },
            _ => (st, v),
        }
    }
}

/// How many validated-elsewhere constraints of `table` are also dropped in the
/// file: each allows one put-off `SET NOT NULL` on the table.
pub open spec fn resolved_count(external: Seq<(Seq<char>, Seq<char>)>, dropped: Seq<(Seq<char>, Seq<char>)>, table: Seq<char>) -> nat
    decreases external.len(),
{
    if external.len() == 0 {
        0
    } else {
        resolved_count(external.drop_last(), dropped, table) + if external.last().0 == table
            && dropped.contains(external.last()) {
            1nat
        } else {
            0nat
        }
    }
}

/// How many of `deferred` are on `table`.
pub open spec fn count_on(deferred: Seq<(Seq<char>, TextRange)>, table: Seq<char>) -> nat
    decreases deferred.len(),
{
    if deferred.len() == 0 {
        0
    } else {
        count_on(deferred.drop_last(), table) + if deferred.last().0 == table {
            1nat
        } else {
            0nat
        }
    }
}

/// The put-off `SET NOT NULL`s that are reported: on each table, those after
/// the first `resolved_count` of them.
pub open spec fn deferred_reports(
    deferred: Seq<(Seq<char>, TextRange)>,
    external: Seq<(Seq<char>, Seq<char>)>,
    dropped: Seq<(Seq<char>, Seq<char>)>,
) -> Seq<ViolationView>
    decreases deferred.len(),
{
    if deferred.len() == 0 {
        seq![]
    } else {
        let (t, range) = deferred.last();
        deferred_reports(deferred.drop_last(), external, dropped) + if count_on(deferred.drop_last(), t)
            >= resolved_count(external, dropped, t) {
            seq![not_null_violation(range)]
        } else {
            seq![]
        }
    }
}

/// What the rule reports for a file under `settings`.
pub open spec fn adding_not_null_field_violations(file: SourceFile, settings: LinterSettings) -> Seq<ViolationView> {
    let (st, v) = not_null_stmts(file.stmts@, !version_lt(settings.pg_version, pg12()));
    v + deferred_reports(st.deferred, st.external, st.dropped)
}

/// The gathered state, held as strings.
pub struct NotNullState {
    checks: Vec<(String, (String, String))>,
    validated: Vec<(String, String)>,
    external: Vec<(String, String)>,
    dropped: Vec<(String, String)>,
    deferred: Vec<(String, TextRange)>,
}

pub open spec fn pair_view(p: (String, String)) -> (Seq<char>, Seq<char>) {
    (p.0@, p.1@)
}

pub open spec fn pairs_view(s: Seq<(String, String)>) -> Seq<(Seq<char>, Seq<char>)> {
    s.map_values(|p: (String, String)| pair_view(p))
}

impl NotNullState {
    /// The state as `NotNullScan` holds it.
    pub closed spec fn scan(&self) -> NotNullScan {
        NotNullScan {
            checks: self.checks@.map_values(|p: (String, (String, String))| (p.0@, pair_view(p.1))),
            validated: pairs_view(self.validated@),
            external: pairs_view(self.external@),
            dropped: pairs_view(self.dropped@),
            deferred: self.deferred@.map_values(|p: (String, TextRange)| (p.0@, p.1)),
        }
    }
}

fn name_of(s: &String) -> (r: String)
    requires
        s@ != seq!['"'],
    ensures
        r@ == identifier_name(s@),
{
    let id = Identifier::new(s.as_str());
    string_of(id.as_str())
}

fn copy_string(s: &String) -> (r: String)
    ensures
        r@ == s@,
{
    s.clone()
}

fn pairs_contain(s: &Vec<(String, String)>, a: &String, b: &String) -> (r: bool)
    ensures
        r == pairs_view(s@).contains((a@, b@)),
{
    let mut i: usize = 0;
    while i < s.len()
        invariant
            i <= s@.len(),
            forall|k: int| 0 <= k < i ==> pairs_view(s@)[k] != (a@, b@),
        decreases s@.len() - i,
    {
        if s[i].0 == *a && s[i].1 == *b {
            assert(pairs_view(s@)[i as int] == (a@, b@));
            return true;
        }
        i = i + 1;
    }
    false
}

fn any_on_table(s: &Vec<(String, String)>, table: &String) -> (r: bool)
    ensures
        r == on_table(pairs_view(s@), table@),
{
    let mut i: usize = 0;
    while i < s.len()
        invariant
            i <= s@.len(),
            forall|k: int| 0 <= k < i ==> pairs_view(s@)[k].0 != table@,
        decreases s@.len() - i,
    {
        if s[i].0 == *table {
            assert(pairs_view(s@)[i as int].0 == table@);
            return true;
        }
        i = i + 1;
    }
    false
}

fn find_check(checks: &Vec<(String, (String, String))>, k: &String) -> (r: Option<(String, String)>)
    ensures
        match r {
            Some(p) => check_of(checks@.map_values(|p: (String, (String, String))| (p.0@, pair_view(p.1))), k@) == Some(pair_view(p)),
            None => check_of(checks@.map_values(|p: (String, (String, String))| (p.0@, pair_view(p.1))), k@) is None,
        },
{
    let ghost f = |p: (String, (String, String))| (p.0@, pair_view(p.1));
    let mut found: Option<(String, String)> = None;
    let mut i: usize = 0;
    while i < checks.len()
        invariant
            i <= checks@.len(),
            f == (|p: (String, (String, String))| (p.0@, pair_view(p.1))),
            match found {
                Some(p) => check_of(checks@.take(i as int).map_values(f), k@) == Some(pair_view(p)),
                None => check_of(checks@.take(i as int).map_values(f), k@) is None,
            },
        decreases checks@.len() - i,
    {
        proof {
            assert(checks@.take(i + 1).map_values(f).drop_last() =~= checks@.take(i as int).map_values(f));
        }
        if checks[i].0 == *k {
            found = Some((copy_string(&checks[i].1.0), copy_string(&checks[i].1.1)));
        }
        i = i + 1;
    }
    proof {
        lemma_take_all(checks@);
    }
    found
}

fn report_not_null(ctx: &mut Linter, range: TextRange)
    ensures
        reports(*old(ctx), *final(ctx), seq![not_null_violation(range)]),
{
    ctx.report(
        Violation::for_range(
            Rule::AddingNotNullableField,
            string_of("Setting a column `NOT NULL` blocks reads while the table is scanned."),
            range,
        ).help("Make the field nullable and use a `CHECK` constraint instead."),
    );
    assert(ctx.reported() =~= old(ctx).reported() + seq![not_null_violation(range)]);
}

fn not_null_in_actions(
    ctx: &mut Linter,
    actions: &Vec<AlterTableAction>,
    table: &String,
    pg12_plus: bool,
    st: &mut NotNullState,
)
    requires
        forall|k: int| 0 <= k < actions@.len() ==> action_names_ok(#[trigger] actions@[k]),
    ensures
        final(st).scan() == not_null_actions(actions@, table@, pg12_plus, old(st).scan()).0,
        reports(*old(ctx), *final(ctx), not_null_actions(actions@, table@, pg12_plus, old(st).scan()).1),
{
    let mut j: usize = 0;
    while j < actions.len()
        invariant
            j <= actions@.len(),
            forall|k: int| 0 <= k < actions@.len() ==> action_names_ok(#[trigger] actions@[k]),
            st.scan() == not_null_actions(actions@.take(j as int), table@, pg12_plus, old(st).scan()).0,
            reports(*old(ctx), *ctx, not_null_actions(actions@.take(j as int), table@, pg12_plus, old(st).scan()).1),
        decreases actions@.len() - j,
    {
        proof {
            assert(actions@.take(j + 1).drop_last() =~= actions@.take(j as int));
            assert(action_names_ok(actions@[j as int]));
        }
        let ghost before = st.scan();
        let ghost c0 = *ctx;
        match &actions[j] {
            AlterTableAction::AddConstraint {
                name: Some(cn),
                not_valid: true,
                constraint: Some(Constraint::Check { not_null_column: Some(col), .. }),
                ..
            } => {
                if pg12_plus {
                    let c = name_of(cn);
                    let column = name_of(col);
                    st.checks.push((c, (copy_string(table), column)));
                    proof {
                        assert(st.scan().checks =~= before.checks.push(
                            (identifier_name(cn@), (table@, identifier_name(col@))),
                        ));
                    }
                }
            },
            AlterTableAction::ValidateConstraint { name: Some(cn), .. } => {
                if pg12_plus {
                    let c = name_of(cn);
                    let found = find_check(&st.checks, &c);
                    let mut done = false;
                    if let Some(tc) = found {
                        if tc.0 == *table {
                            st.validated.push(tc);
                            done = true;
                            proof {
                                assert(st.scan().validated =~= before.validated.push(pair_view(tc)));
                            }
                        }
                    }
                    if !done {
                        if !pairs_contain(&st.external, table, &c) {
                            st.external.push((copy_string(table), c));
                            proof {
                                assert(st.scan().external =~= before.external.push((table@, identifier_name(cn@))));
                            }
                        }
                    }
                }
            },
            AlterTableAction::DropConstraint { name: Some(cn), .. } => {
                if pg12_plus {
                    let c = name_of(cn);
                    st.dropped.push((copy_string(table), c));
                    proof {
                        assert(st.scan().dropped =~= before.dropped.push((table@, identifier_name(cn@))));
                    }
                }
            },
            AlterTableAction::AlterColumn { column, option: Some(AlterColumnOption::SetNotNull { range }), .. } => {
                let mut handled = false;
                if pg12_plus {
                    if let Some(col) = column {
                        let column_name = name_of(col);
                        if pairs_contain(&st.validated, table, &column_name) {
                            handled = true;
                        } else if any_on_table(&st.external, table) {
                            st.deferred.push((copy_string(table), *range));
                            handled = true;
                            proof {
                                assert(st.scan().deferred =~= before.deferred.push((table@, *range)));
                            }
                        }
                    }
                }
                if !handled {
                    report_not_null(ctx, *range);
                }
            },
            _ => {},
        }
        proof {
            let step = not_null_action(actions@[j as int], table@, pg12_plus, before);
            assert(st.scan() == step.0);
            assert(reports(c0, *ctx, step.1));
            assert(ctx.reported() =~= old(ctx).reported() + not_null_actions(actions@.take(j + 1), table@, pg12_plus, old(st).scan()).1);
        }
        j = j + 1;
    }
    proof {
        lemma_take_all(actions@);
    }
}

fn count_resolved(st: &NotNullState, table: &String) -> (n: usize)
    ensures
        n == resolved_count(st.scan().external, st.scan().dropped, table@),
{
    let ghost ext = st.scan().external;
    let mut n: usize = 0;
    let mut i: usize = 0;
    while i < st.external.len()
        invariant
            i <= st.external@.len(),
            ext == st.scan().external,
            n == resolved_count(ext.take(i as int), st.scan().dropped, table@),
            n <= i,
        decreases st.external@.len() - i,
    {
        proof {
            assert(ext.take(i + 1).drop_last() =~= ext.take(i as int));
            assert(ext.take(i + 1).last() == pair_view(st.external@[i as int]));
        }
        if st.external[i].0 == *table && pairs_contain(&st.dropped, &st.external[i].0, &st.external[i].1) {
            n = n + 1;
        }
        i = i + 1;
    }
    proof {
        lemma_take_all(ext);
    }
    n
}

fn report_deferred(ctx: &mut Linter, st: &NotNullState)
    ensures
        reports(*old(ctx), *final(ctx), deferred_reports(st.scan().deferred, st.scan().external, st.scan().dropped)),
{
    let ghost d = st.scan().deferred;
    let mut i: usize = 0;
    while i < st.deferred.len()
        invariant
            i <= st.deferred@.len(),
            d == st.scan().deferred,
            reports(*old(ctx), *ctx, deferred_reports(d.take(i as int), st.scan().external, st.scan().dropped)),
        decreases st.deferred@.len() - i,
    {
        proof {
            assert(d.take(i + 1).drop_last() =~= d.take(i as int));
            assert(d.take(i + 1).last() == (st.deferred@[i as int].0@, st.deferred@[i as int].1));
        }
        let table = &st.deferred[i].0;
        let mut seen: usize = 0;
        let mut k: usize = 0;
        while k < i
            invariant
                k <= i < st.deferred@.len(),
                d == st.scan().deferred,
                seen == count_on(d.take(k as int), table@),
                seen <= k,
            decreases i - k,
        {
            proof {
                assert(d.take(k + 1).drop_last() =~= d.take(k as int));
            }
            if st.deferred[k].0 == *table {
                seen = seen + 1;
            }
            k = k + 1;
        }
        proof {
            assert(d.take(i as int) == d.take(i + 1).drop_last());
        }
        let resolved = count_resolved(st, table);
        if seen >= resolved {
            report_not_null(ctx, st.deferred[i].1);
        }
        proof {
            assert(ctx.reported() =~= old(ctx).reported() + deferred_reports(d.take(i + 1), st.scan().external, st.scan().dropped));
        }
        i = i + 1;
    }
    proof {
        lemma_take_all(d);
    }
}

/// Reports each `SET NOT NULL` that is not covered by a validated check
/// constraint on the column (from Postgres 12), or by a constraint validated
/// and dropped on its table when it was added elsewhere.
pub fn adding_not_null_field(ctx: &mut Linter, file: &SourceFile)
    requires
        file.names_ok(),
    ensures
        reports(*old(ctx), *final(ctx), adding_not_null_field_violations(*file, old(ctx).settings)),
{
    let pg12_plus = !ctx.settings.pg_version.precedes(&Version::new(12, None, None));
    let mut st = NotNullState {
        checks: Vec::new(),
        validated: Vec::new(),
        external: Vec::new(),
        dropped: Vec::new(),
        deferred: Vec::new(),
    };
    proof {
        assert(file.stmts@.take(0) =~= Seq::<Stmt>::empty());
        assert(st.scan().checks =~= seq![]);
        assert(st.scan().validated =~= seq![]);
        assert(st.scan().external =~= seq![]);
        assert(st.scan().dropped =~= seq![]);
        assert(st.scan().deferred =~= seq![]);
        assert(ctx.reported() =~= old(ctx).reported() + Seq::<ViolationView>::empty());
    }
    let mut i: usize = 0;
    while i < file.stmts.len()
        invariant
            i <= file.stmts@.len(),
            file.names_ok(),
            pg12_plus == !version_lt(old(ctx).settings.pg_version, pg12()),
            st.scan() == not_null_stmts(file.stmts@.take(i as int), pg12_plus).0,
            reports(*old(ctx), *ctx, not_null_stmts(file.stmts@.take(i as int), pg12_plus).1),
        decreases file.stmts@.len() - i,
    {
        proof {
            assert(file.stmts@.take(i + 1).drop_last() =~= file.stmts@.take(i as int));
            assert(stmt_names_ok(file.stmts@[i as int]));
        }
        match &file.stmts[i] {
            Stmt::AlterTable { table: Some(t), actions, .. } => {
                let table = name_of(t);
                not_null_in_actions(ctx, actions, &table, pg12_plus, &mut st);
            },
            _ => {},
        }
        proof {
            assert(ctx.reported() =~= old(ctx).reported() + not_null_stmts(file.stmts@.take(i + 1), pg12_plus).1);
        }
        i = i + 1;
    }
    proof {
        lemma_take_all(file.stmts@);
    }
    let ghost c1 = *ctx;
    report_deferred(ctx, &st);
    proof {
        lemma_reports_trans(
            *old(ctx),
            c1,
            *ctx,
            not_null_stmts(file.stmts@, pg12_plus).1,
            deferred_reports(st.scan().deferred, st.scan().external, st.scan().dropped),
        );
    }
}

} // verus!
