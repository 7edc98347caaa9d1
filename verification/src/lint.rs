//! The linter: which rules run, with which settings, and the violations they
//! report.
use vstd::prelude::*;
use crate::linter::{all_rules, lemma_all_rules_complete, views, Rule, Violation, ViolationView};
use crate::version::Version;
use crate::identifier::Identifier;
use crate::ignore::{find_ignores, ignore_views, ignores_from, Ignore, IgnoreView};
use crate::ignore_index::{ignores_all, is_ignored, line_ignores_ok, offset_ok, IgnoreIndex};
use crate::rules::{concat_map, lemma_concat_map_step, lemma_reports_trans, lemma_take_all, reports};
use crate::rules::adding_field_with_default::{adding_field_with_default, adding_field_with_default_violations};
use crate::rules::adding_foreign_key_constraint::{adding_foreign_key_constraint, adding_foreign_key_violations};
use crate::rules::adding_not_null_field::{adding_not_null_field, adding_not_null_field_violations};
use crate::rules::adding_primary_key_constraint::{adding_primary_key_constraint, primary_key_violations};
use crate::rules::adding_required_field::{adding_required_field, required_field_violations};
use crate::rules::ban_alter_domain_with_add_constraint::{alter_domain_violations, ban_alter_domain_with_add_constraint};
use crate::rules::ban_concurrent_index_creation_in_transaction::{
    ban_concurrent_index_creation_in_transaction, concurrent_index_violations,
};
use crate::rules::ban_create_domain_with_constraint::{ban_create_domain_with_constraint, create_domain_violations};
use crate::rules::ban_drop_column::{ban_drop_column, drop_column_violations};
use crate::rules::ban_drop_database::{ban_drop_database, drop_database_violations};
use crate::rules::ban_drop_not_null::{ban_drop_not_null, drop_not_null_violations};
use crate::rules::ban_drop_table::{ban_drop_table, drop_table_violations};
use crate::rules::ban_truncate_cascade::{ban_truncate_cascade, truncate_cascade_violations};
use crate::rules::ban_uncommitted_transaction::{ban_uncommitted_transaction, uncommitted_transaction_violations};
use crate::rules::changing_column_type::{changing_column_type, changing_column_type_violations};
use crate::rules::constraint_missing_not_valid::{constraint_missing_not_valid, constraint_missing_not_valid_violations};
use crate::rules::identifier_too_long::{identifier_too_long, name_violations};
use crate::rules::prefer_repack::{prefer_repack, prefer_repack_violations};
use crate::rules::prefer_robust_stmts::{prefer_robust_stmts, prefer_robust_stmts_violations};
use crate::rules::ban_char_field::{ban_char_field, char_field_violations};
use crate::rules::ban_duplicate_column_assignments::{assignment_violations, ban_duplicate_column_assignments};
use crate::rules::prefer_big_int::{big_int_type_violations, prefer_big_int};
use crate::rules::prefer_bigint_over_int::{int_type_violations, prefer_bigint_over_int};
use crate::rules::prefer_bigint_over_smallint::{prefer_bigint_over_smallint, smallint_type_violations};
use crate::rules::prefer_text_field::{prefer_text_field, varchar_type_violations};
use crate::syntax::{ColumnAssignments, NameLike, SourceFile, SqlType, Stmt};
use vstd::string::StringSliceAdditionalSpecFns;

verus! {

/// What the rules take into account beyond the SQL itself.
#[derive(Debug, Clone, PartialEq, Eq)]
pub struct LinterSettings {
    /// The Postgres version the migration runs against.
    pub pg_version: Version,
    /// Whether the migration as a whole runs inside a transaction.
    pub assume_in_transaction: bool,
    /// The functions that Postgres marks as not volatile (those of
    /// `select proname from pg_proc where provolatile <> 'v'`): a `DEFAULT`
    /// that calls one of them with no arguments needs no table rewrite.
    pub non_volatile_functions: Vec<Identifier>,
}

/// The version assumed when none is given: 15.0.0.
pub open spec fn default_pg_version() -> Version {
    Version { major: 15, minor: Some(0), patch: Some(0) }
}

impl Default for LinterSettings {
    fn default() -> (s: LinterSettings)
        ensures
            s.pg_version == default_pg_version(),
            !s.assume_in_transaction,
            s.non_volatile_functions@.len() == 0,
    {
        LinterSettings {
            pg_version: Version::new(15, Some(0), Some(0)),
            assume_in_transaction: false,
            non_volatile_functions: Vec::new(),
        }
    }
}

/// A linter: the rules it runs, its settings, and what it has reported so far.
pub struct Linter {
    /// What the rules have reported so far, in the order they reported it.
    pub errors: Vec<Violation>,
    /// The ignore comments found so far.
    pub ignores: Vec<Ignore>,
    pub rules: Vec<Rule>,
    pub settings: LinterSettings,
}

/// `s` without the elements of `ex`, in order.
pub open spec fn without(s: Seq<Rule>, ex: Seq<Rule>) -> Seq<Rule>
    decreases s.len(),
{
    if s.len() == 0 {
        s
    } else {
        let rest = without(s.drop_last(), ex);
        if ex.contains(s.last()) {
            rest
        } else {
            rest.push(s.last())
        }
    }
}

/// An element is left by `without` exactly when it was there and is not excluded.
pub proof fn lemma_without_contains(s: Seq<Rule>, ex: Seq<Rule>, r: Rule)
    ensures
        without(s, ex).contains(r) <==> (s.contains(r) && !ex.contains(r)),
    decreases s.len(),
{
    if s.len() > 0 {
        lemma_without_contains(s.drop_last(), ex, r);
        let rest = without(s.drop_last(), ex);
        if s.contains(r) {
            let k = choose|k: int| 0 <= k < s.len() && s[k] == r;
            if k < s.len() - 1 {
                assert(s.drop_last()[k] == r);
            }
        }
        if s.drop_last().contains(r) {
            let k = choose|k: int| 0 <= k < s.len() - 1 && s.drop_last()[k] == r;
            assert(s[k] == r);
        }
        if !ex.contains(s.last()) {
            if rest.push(s.last()).contains(r) {
                let k = choose|k: int| 0 <= k < rest.len() + 1 && rest.push(s.last())[k] == r;
                if k < rest.len() {
                    assert(rest[k] == r);
                }
            }
            if rest.contains(r) {
                let k = choose|k: int| 0 <= k < rest.len() && rest[k] == r;
                assert(rest.push(s.last())[k] == r);
            }
            assert(rest.push(s.last())[rest.len() as int] == s.last());
        }
    }
}

impl Linter {
    /// The violations reported so far, in the order they were reported.
    pub open spec fn reported(&self) -> Seq<ViolationView> {
        views(self.errors@)
    }

    /// The ignore comments found so far, in the order they were found.
    pub open spec fn ignored(&self) -> Seq<IgnoreView> {
        ignore_views(self.ignores@)
    }

    /// Records a violation.
    pub fn report(&mut self, error: Violation)
        ensures
            final(self).reported() == old(self).reported().push(error@),
            final(self).ignored() == old(self).ignored(),
            final(self).rules == old(self).rules,
            final(self).settings == old(self).settings,
    {
        self.errors.push(error);
        proof {
            assert(views(self.errors@) =~= views(old(self).errors@).push(error@));
        }
    }

    /// Records an ignore comment.
    pub fn ignore(&mut self, ignore: Ignore)
        ensures
            final(self).ignored() == old(self).ignored().push(ignore@),
            final(self).reported() == old(self).reported(),
            final(self).rules == old(self).rules,
            final(self).settings == old(self).settings,
    {
        self.ignores.push(ignore);
        proof {
            assert(ignore_views(self.ignores@) =~= ignore_views(old(self).ignores@).push(ignore@));
        }
    }

    /// Whether the rule `r` is among the rules this linter runs.
    pub fn runs(&self, r: Rule) -> (b: bool)
        ensures
            b == self.rules@.contains(r),
    {
        let mut i: usize = 0;
        while i < self.rules.len()
            invariant
                i <= self.rules@.len(),
                forall|k: int| 0 <= k < i ==> self.rules@[k] != r,
            decreases self.rules@.len() - i,
        {
            if self.rules[i] == r {
                return true;
            }
            i = i + 1;
        }
        false
    }

    /// A linter that runs each of `rules` (once), with the default settings
    /// and nothing reported.
    pub fn from(rules: Vec<Rule>) -> (l: Linter)
        ensures
            l.rules@.no_duplicates(),
            l.rules@.to_set() == rules@.to_set(),
            l.settings.pg_version == default_pg_version(),
            !l.settings.assume_in_transaction,
            l.settings.non_volatile_functions@.len() == 0,
            l.reported() == Seq::<ViolationView>::empty(),
            l.ignored() == Seq::<IgnoreView>::empty(),
    {
        let mut kept: Vec<Rule> = Vec::new();
        let mut i: usize = 0;
        while i < rules.len()
            invariant
                i <= rules@.len(),
                kept@.no_duplicates(),
                kept@.to_set() == rules@.take(i as int).to_set(),
            decreases rules@.len() - i,
        {
            let r = rules[i];
            let mut seen = false;
            let mut j: usize = 0;
            while j < kept.len()
                invariant
                    j <= kept@.len(),
                    seen == exists|k: int| 0 <= k < j && kept@[k] == r,
                decreases kept@.len() - j,
            {
                if kept[j] == r {
                    seen = true;
                }
                j = j + 1;
            }
            proof {
                assert(rules@.take(i + 1) =~= rules@.take(i as int).push(r));
                rules@.take(i as int).lemma_push_to_set_commute(r);
            }
            if !seen {
                proof {
                    kept@.lemma_push_to_set_commute(r);
                    assert forall|p: int, q: int|
                        0 <= p < kept@.len() + 1 && 0 <= q < kept@.len() + 1 && p != q implies
                        #[trigger] kept@.push(r)[p] != #[trigger] kept@.push(r)[q] by {}
                }
                kept.push(r);
            } else {
                proof {
                    let k = choose|k: int| 0 <= k < kept@.len() && kept@[k] == r;
                    assert(kept@.to_set().contains(r));
                    assert(kept@.to_set().insert(r) =~= kept@.to_set());
                }
            }
            i = i + 1;
        }
        proof {
            assert(rules@.take(rules@.len() as int) =~= rules@);
        }
        let l = Linter {
            errors: Vec::new(),
            ignores: Vec::new(),
            rules: kept,
            settings: LinterSettings {
                pg_version: Version::new(15, Some(0), Some(0)),
                assume_in_transaction: false,
                non_volatile_functions: Vec::new(),
            },
        };
        proof {
            assert(l.reported() =~= Seq::<ViolationView>::empty());
            assert(l.ignored() =~= Seq::<IgnoreView>::empty());
        }
        l
    }

    /// A linter that runs every rule.
    pub fn with_all_rules() -> (l: Linter)
        ensures
            l.rules@.no_duplicates(),
            forall|r: Rule| l.rules@.contains(r),
            l.settings.pg_version == default_pg_version(),
            !l.settings.assume_in_transaction,
            l.settings.non_volatile_functions@.len() == 0,
            l.reported() == Seq::<ViolationView>::empty(),
            l.ignored() == Seq::<IgnoreView>::empty(),
    {
        let all = Rule::all();
        let l = Linter::from(all);
        proof {
            assert forall|r: Rule| l.rules@.contains(r) by {
                lemma_all_rules_complete(r);
                assert(all_rules().to_set().contains(r));
            }
        }
        l
    }

    /// A linter that runs every rule but those in `exclude`.
    pub fn without_rules(exclude: &[Rule]) -> (l: Linter)
        ensures
            l.rules@.no_duplicates(),
            forall|r: Rule| l.rules@.contains(r) <==> !exclude@.contains(r),
            l.settings.pg_version == default_pg_version(),
            !l.settings.assume_in_transaction,
            l.settings.non_volatile_functions@.len() == 0,
            l.reported() == Seq::<ViolationView>::empty(),
            l.ignored() == Seq::<IgnoreView>::empty(),
    {
        let all = Rule::all();
        let mut kept: Vec<Rule> = Vec::new();
        let mut i: usize = 0;
        while i < all.len()
            invariant
                all@ == all_rules(),
                i <= all@.len(),
                kept@ == without(all@.take(i as int), exclude@),
            decreases all@.len() - i,
        {
            let r = all[i];
            let mut excluded = false;
            let mut j: usize = 0;
            while j < exclude.len()
                invariant
                    j <= exclude@.len(),
                    excluded == exists|k: int| 0 <= k < j && exclude@[k] == r,
                decreases exclude@.len() - j,
            {
                if exclude[j] == r {
                    excluded = true;
                }
                j = j + 1;
            }
            proof {
                assert(all@.take(i + 1).drop_last() =~= all@.take(i as int));
                if excluded {
                    let k = choose|k: int| 0 <= k < exclude@.len() && exclude@[k] == r;
                    assert(exclude@.contains(r));
                } else {
                    assert(!exclude@.contains(r));
                }
            }
            if !excluded {
                kept.push(r);
            }
            i = i + 1;
        }
        proof {
            assert(all@.take(all@.len() as int) =~= all@);
        }
        let l = Linter::from(kept);
        proof {
            let w = without(all_rules(), exclude@);
            assert forall|r: Rule| l.rules@.contains(r) <==> !exclude@.contains(r) by {
                lemma_all_rules_complete(r);
                lemma_without_contains(all_rules(), exclude@, r);
                assert(l.rules@.to_set().contains(r) == w.to_set().contains(r));
            }
        }
        l
    }
}

/// What rule `r` reports for `file` under `settings`.
pub open spec fn rule_violations(r: Rule, file: SourceFile, settings: LinterSettings) -> Seq<ViolationView> {
    match r {
        Rule::AddingFieldWithDefault => adding_field_with_default_violations(file, settings),
        Rule::AddingForeignKeyConstraint => adding_foreign_key_violations(file, settings),
        Rule::AddingNotNullableField => adding_not_null_field_violations(file, settings),
        Rule::AddingSerialPrimaryKeyField => concat_map(file.stmts@, |s: Stmt| primary_key_violations(s)),
        Rule::AddingRequiredField => concat_map(file.stmts@, |s: Stmt| required_field_violations(s)),
        Rule::BanDropDatabase => concat_map(file.stmts@, |s: Stmt| drop_database_violations(s)),
        Rule::BanConcurrentIndexCreationInTransaction => concurrent_index_violations(file, settings),
        Rule::BanDropColumn => concat_map(file.stmts@, |s: Stmt| drop_column_violations(s)),
        Rule::BanDropNotNull => concat_map(file.stmts@, |s: Stmt| drop_not_null_violations(s)),
        Rule::BanDropTable => concat_map(file.stmts@, |s: Stmt| drop_table_violations(s)),
        Rule::ChangingColumnType => concat_map(file.stmts@, |s: Stmt| changing_column_type_violations(s)),
        Rule::ConstraintMissingNotValid => constraint_missing_not_valid_violations(file, settings),
        Rule::PreferRobustStmts => prefer_robust_stmts_violations(file, settings),
        Rule::BanCreateDomainWithConstraint => concat_map(file.stmts@, |s: Stmt| create_domain_violations(s)),
        Rule::BanAlterDomainWithAddConstraint => concat_map(file.stmts@, |s: Stmt| alter_domain_violations(s)),
        Rule::BanTruncateCascade => concat_map(file.stmts@, |s: Stmt| truncate_cascade_violations(s)),
        Rule::BanUncommittedTransaction => uncommitted_transaction_violations(file),
        Rule::IdentifierTooLong => concat_map(file.names@, |n: NameLike| name_violations(n)),
        Rule::PreferRepack => prefer_repack_violations(file, settings),
        Rule::BanCharField => concat_map(file.column_types@, |t: SqlType| char_field_violations(t)),
        Rule::PreferBigintOverInt => concat_map(file.column_types@, |t: SqlType| int_type_violations(t)),
        Rule::PreferBigintOverSmallint => concat_map(file.column_types@, |t: SqlType| smallint_type_violations(t)),
        Rule::PreferTextField => concat_map(file.column_types@, |t: SqlType| varchar_type_violations(t)),
        Rule::PreferBigInt => concat_map(file.column_types@, |t: SqlType| big_int_type_violations(t)),
        Rule::BanDuplicateColumnAssignments => concat_map(
            file.column_assignments@,
            |c: ColumnAssignments| assignment_violations(c),
        ),
        _ => seq![],
    }
}

/// The rules `lint` runs, in the order it runs them.
pub open spec fn lint_order() -> Seq<Rule> {
    seq![
        Rule::AddingFieldWithDefault,
        Rule::AddingForeignKeyConstraint,
        Rule::AddingNotNullableField,
        Rule::AddingSerialPrimaryKeyField,
        Rule::AddingRequiredField,
        Rule::BanDropDatabase,
        Rule::BanCharField,
        Rule::BanConcurrentIndexCreationInTransaction,
        Rule::BanDropColumn,
        Rule::BanDropNotNull,
        Rule::BanDropTable,
        Rule::ChangingColumnType,
        Rule::ConstraintMissingNotValid,
        Rule::PreferBigintOverInt,
        Rule::PreferBigintOverSmallint,
        Rule::PreferRobustStmts,
        Rule::PreferTextField,
        Rule::BanCreateDomainWithConstraint,
        Rule::BanAlterDomainWithAddConstraint,
        Rule::BanTruncateCascade,
        Rule::BanUncommittedTransaction,
        Rule::IdentifierTooLong,
        Rule::PreferRepack,
        Rule::PreferBigInt,
        Rule::BanDuplicateColumnAssignments
    ]
}

/// What the rules among `rules` report for `file` under `settings`, in the
/// order `lint` runs them.
pub open spec fn all_violations(file: SourceFile, settings: LinterSettings, rules: Seq<Rule>) -> Seq<ViolationView> {
    concat_map(
        lint_order(),
        |r: Rule| if rules.contains(r) {
            rule_violations(r, file, settings)
        } else {
            seq![]
        },
    )
}

/// `vs` with `v` put after every element that starts no later than it.
pub open spec fn insert_by_start(vs: Seq<ViolationView>, v: ViolationView) -> Seq<ViolationView>
    decreases vs.len(),
{
    if vs.len() == 0 || vs.last().text_range.start <= v.text_range.start {
        vs.push(v)
    } else {
        insert_by_start(vs.drop_last(), v).push(vs.last())
    }
}

/// `vs` ordered by where they start in the text, those that start at the
/// same place kept in their order.
pub open spec fn sort_by_start(vs: Seq<ViolationView>) -> Seq<ViolationView>
    decreases vs.len(),
{
    if vs.len() == 0 {
        vs
    } else {
        insert_by_start(sort_by_start(vs.drop_last()), vs.last())
    }
}

/// The violations of `vs`, in order, that the ignores of the text `b` do not
/// switch off.
pub open spec fn unignored(vs: Seq<ViolationView>, ignores: Seq<IgnoreView>, b: Seq<u8>) -> Seq<ViolationView>
    decreases vs.len(),
{
    if vs.len() == 0 {
        vs
    } else {
        let rest = unignored(vs.drop_last(), ignores, b);
        if is_ignored(ignores, b, vs.last().text_range, vs.last().code) {
            rest
        } else {
            rest.push(vs.last())
        }
    }
}

/// Whether the violations of `vs` come in the order of where they start.
pub open spec fn sorted_by_start(vs: Seq<ViolationView>) -> bool {
    forall|i: int, j: int| 0 <= i <= j < vs.len() ==> (#[trigger] vs[i]).text_range.start <= (#[trigger] vs[j]).text_range.start
}

/// Inserting into a sorted sequence keeps it sorted, adds exactly the one
/// violation, and stays under any bound on where the elements start.
proof fn lemma_insert_by_start_sorted(vs: Seq<ViolationView>, v: ViolationView, bound: int)
    requires
        sorted_by_start(vs),
    ensures
        sorted_by_start(insert_by_start(vs, v)),
        insert_by_start(vs, v).to_multiset() == vs.to_multiset().insert(v),
        (forall|k: int| 0 <= k < vs.len() ==> (#[trigger] vs[k]).text_range.start <= bound) && v.text_range.start <= bound
            ==> forall|k: int| 0 <= k < insert_by_start(vs, v).len()
                ==> (#[trigger] insert_by_start(vs, v)[k]).text_range.start <= bound,
    decreases vs.len(),
{
    broadcast use vstd::seq_lib::group_to_multiset_ensures;
    if vs.len() == 0 || vs.last().text_range.start <= v.text_range.start {
        let r = vs.push(v);
        assert forall|i: int, j: int| 0 <= i <= j < r.len() implies (#[trigger] r[i]).text_range.start <= (#[trigger] r[j]).text_range.start by {
            if j == vs.len() && i < j {
                assert(vs[i].text_range.start <= vs[vs.len() - 1].text_range.start);
            }
        }
    } else {
        let d = vs.drop_last();
        let last = vs.last();
        assert(sorted_by_start(d)) by {
            assert forall|i: int, j: int| 0 <= i <= j < d.len() implies (#[trigger] d[i]).text_range.start <= (#[trigger] d[j]).text_range.start by {
                assert(d[i] == vs[i] && d[j] == vs[j]);
            }
        }
        lemma_insert_by_start_sorted(d, v, last.text_range.start as int);
        lemma_insert_by_start_sorted(d, v, bound);
        let m = insert_by_start(d, v);
        assert forall|k: int| 0 <= k < d.len() implies (#[trigger] d[k]).text_range.start <= last.text_range.start by {
            assert(d[k] == vs[k]);
        }
        let r = m.push(last);
        assert forall|i: int, j: int| 0 <= i <= j < r.len() implies (#[trigger] r[i]).text_range.start <= (#[trigger] r[j]).text_range.start by {
            if j == m.len() && i < j {
                assert(r[i] == m[i]);
            } else if j < m.len() {
                assert(r[i] == m[i] && r[j] == m[j]);
            }
        }
        assert(vs == d.push(last));
        assert(r.to_multiset() =~= vs.to_multiset().insert(v));
        if (forall|k: int| 0 <= k < vs.len() ==> (#[trigger] vs[k]).text_range.start <= bound) && v.text_range.start <= bound {
            assert forall|k: int| 0 <= k < d.len() implies (#[trigger] d[k]).text_range.start <= bound by {
                assert(d[k] == vs[k]);
            }
            assert(last == vs[vs.len() - 1]);
            assert forall|k: int| 0 <= k < r.len() implies (#[trigger] r[k]).text_range.start <= bound by {
                if k < m.len() {
                    assert(r[k] == m[k]);
                }
            }
        }
    }
}

/// `sort_by_start` orders the violations by where they start and keeps each
/// of them, as often as it occurs.
pub proof fn lemma_sort_by_start(vs: Seq<ViolationView>)
    ensures
        sorted_by_start(sort_by_start(vs)),
        sort_by_start(vs).to_multiset() == vs.to_multiset(),
    decreases vs.len(),
{
    broadcast use vstd::seq_lib::group_to_multiset_ensures;
    if vs.len() > 0 {
        lemma_sort_by_start(vs.drop_last());
        lemma_insert_by_start_sorted(sort_by_start(vs.drop_last()), vs.last(), 0);
        assert(vs == vs.drop_last().push(vs.last()));
    }
}

/// A violation is kept by `unignored` exactly when it was reported and no
/// ignore switches it off.
pub proof fn lemma_unignored_contains(vs: Seq<ViolationView>, ignores: Seq<IgnoreView>, b: Seq<u8>, v: ViolationView)
    ensures
        unignored(vs, ignores, b).contains(v) <==> (vs.contains(v) && !is_ignored(ignores, b, v.text_range, v.code)),
    decreases vs.len(),
{
    if vs.len() > 0 {
        let d = vs.drop_last();
        lemma_unignored_contains(d, ignores, b, v);
        let rest = unignored(d, ignores, b);
        assert(vs == d.push(vs.last()));
        if vs.contains(v) {
            let k = choose|k: int| 0 <= k < vs.len() && vs[k] == v;
            if k < d.len() {
                assert(d[k] == v);
            }
        }
        if d.contains(v) {
            let k = choose|k: int| 0 <= k < d.len() && d[k] == v;
            assert(vs[k] == v);
        }
        if !is_ignored(ignores, b, vs.last().text_range, vs.last().code) {
            let r = rest.push(vs.last());
            if r.contains(v) {
                let k = choose|k: int| 0 <= k < r.len() && r[k] == v;
                if k < rest.len() {
                    assert(rest[k] == v);
                }
            }
            if rest.contains(v) {
                let k = choose|k: int| 0 <= k < rest.len() && rest[k] == v;
                assert(r[k] == v);
            }
            assert(r[rest.len() as int] == vs.last());
        }
    }
}

/// A file ignore that names no rule switches every violation off.
pub proof fn lemma_ignore_all(vs: Seq<ViolationView>, ignores: Seq<IgnoreView>, b: Seq<u8>)
    requires
        ignores_all(ignores),
    ensures
        unignored(vs, ignores, b) == Seq::<ViolationView>::empty(),
    decreases vs.len(),
{
    if vs.len() > 0 {
        lemma_ignore_all(vs.drop_last(), ignores, b);
    }
}

/// With no ignore comments, every violation is kept, in the order reported.
pub proof fn lemma_no_ignores(vs: Seq<ViolationView>, b: Seq<u8>)
    ensures
        unignored(vs, Seq::<IgnoreView>::empty(), b) == vs,
    decreases vs.len(),
{
    if vs.len() > 0 {
        lemma_no_ignores(vs.drop_last(), b);
        assert(vs.drop_last().push(vs.last()) == vs);
    }
}

/// Every violation of `vs` starts where its line can be looked up in `b`.
pub open spec fn starts_ok(vs: Seq<ViolationView>, b: Seq<u8>) -> bool {
    forall|k: int| 0 <= k < vs.len() ==> offset_ok(b, #[trigger] vs[k].text_range.start as int)
}

/// Inserting at `pos`, found by walking back over the elements that start
/// after `v`, is `insert_by_start`.
proof fn lemma_insert_by_start(vs: Seq<ViolationView>, v: ViolationView, pos: int)
    requires
        0 <= pos <= vs.len(),
        forall|k: int| pos <= k < vs.len() ==> (#[trigger] vs[k]).text_range.start > v.text_range.start,
        pos == 0 || vs[pos - 1].text_range.start <= v.text_range.start,
    ensures
        insert_by_start(vs, v) == vs.insert(pos, v),
    decreases vs.len(),
{
    if vs.len() == pos {
        assert(vs.insert(pos, v) =~= vs.push(v));
    } else {
        let d = vs.drop_last();
        assert forall|k: int| pos <= k < d.len() implies (#[trigger] d[k]).text_range.start > v.text_range.start by {
            assert(d[k] == vs[k]);
        }
        if pos > 0 {
            assert(d[pos - 1] == vs[pos - 1]);
        }
        lemma_insert_by_start(d, v, pos);
        assert(d.insert(pos, v).push(vs.last()) =~= vs.insert(pos, v));
    }
}

fn insert_sorted(sorted: &mut Vec<Violation>, v: Violation)
    ensures
        views(final(sorted)@) == insert_by_start(views(old(sorted)@), v@),
{
    let mut pos = sorted.len();
    while pos > 0 && sorted[pos - 1].text_range.start > v.text_range.start
        invariant
            pos <= sorted@.len(),
            forall|k: int| pos <= k < sorted@.len() ==> (#[trigger] sorted@[k]).text_range.start > v.text_range.start,
        decreases pos,
    {
        pos = pos - 1;
    }
    proof {
        let vs = views(sorted@);
        assert forall|k: int| pos <= k < vs.len() implies (#[trigger] vs[k]).text_range.start > v@.text_range.start by {
            assert(vs[k] == sorted@[k]@);
        }
        if pos > 0 {
            assert(vs[pos - 1] == sorted@[pos - 1]@);
        }
        lemma_insert_by_start(vs, v@, pos as int);
    }
    let ghost before = sorted@;
    sorted.insert(pos, v);
    proof {
        assert(views(sorted@) =~= views(before).insert(pos as int, v@));
    }
}

fn sort_violations(input: Vec<Violation>) -> (r: Vec<Violation>)
    ensures
        views(r@) == sort_by_start(views(input@)),
{
    let mut vs = input;
    let n = vs.len();
    let ghost all = views(vs@);
    let mut sorted: Vec<Violation> = Vec::new();
    let mut taken: usize = 0;
    while vs.len() > 0
        invariant
            taken + vs@.len() == all.len(),
            all.len() == n,
            views(vs@) == all.skip(taken as int),
            views(sorted@) == sort_by_start(all.take(taken as int)),
        decreases vs@.len(),
    {
        let ghost old_vs = vs@;
        let v = vs.remove(0);
        proof {
            assert(views(old_vs)[0] == old_vs[0]@);
            assert(all.skip(taken as int)[0] == all[taken as int]);
            assert(v@ == all[taken as int]);
            assert(vs@ =~= old_vs.subrange(1, old_vs.len() as int));
            assert(views(vs@) =~= all.skip(taken + 1)) by {
                assert forall|k: int| 0 <= k < views(vs@).len() implies views(vs@)[k] == all.skip(taken + 1)[k] by {
                    assert(views(vs@)[k] == vs@[k]@);
                    assert(vs@[k] == old_vs[k + 1]);
                    assert(views(old_vs)[k + 1] == all.skip(taken as int)[k + 1]);
                }
            }
            assert(all.take(taken + 1).drop_last() =~= all.take(taken as int));
        }
        insert_sorted(&mut sorted, v);
        taken = taken + 1;
    }
    proof {
        assert(all.take(taken as int) =~= all);
    }
    sorted
}

impl Linter {
    /// The violations reported so far that no ignore comment switches off,
    /// ordered by where they start in `text`.
    pub fn errors(&self, text: &str) -> (r: Vec<Violation>)
        requires
            text.spec_bytes().len() < u32::MAX,
            line_ignores_ok(self.ignored(), text.spec_bytes()),
            starts_ok(self.reported(), text.spec_bytes()),
        ensures
            views(r@) == sort_by_start(unignored(self.reported(), self.ignored(), text.spec_bytes())),
    {
        let index = IgnoreIndex::new(text, &self.ignores);
        let ghost b = text.spec_bytes();
        let mut kept: Vec<Violation> = Vec::new();
        let mut i: usize = 0;
        while i < self.errors.len()
            invariant
                index.wf(),
                index.ignores_view() == self.ignored(),
                index.text_view() == b,
                starts_ok(self.reported(), b),
                i <= self.errors@.len(),
                views(kept@) == unignored(self.reported().take(i as int), self.ignored(), b),
            decreases self.errors@.len() - i,
        {
            let err = &self.errors[i];
            proof {
                assert(self.reported()[i as int] == err@);
                assert(offset_ok(b, self.reported()[i as int].text_range.start as int));
                assert(self.reported().take(i + 1).drop_last() =~= self.reported().take(i as int));
                assert(self.reported().take(i + 1).last() == err@);
            }
            if !index.contains(err.text_range, err.code) {
                kept.push(err.duplicate());
                proof {
                    assert(views(kept@) =~= unignored(self.reported().take(i as int), self.ignored(), b).push(err@));
                }
            }
            i = i + 1;
        }
        proof {
            assert(self.reported().take(self.errors@.len() as int) =~= self.reported());
        }
        sort_violations(kept)
    }

    /// Runs the rule `r`.
    fn run_rule(&mut self, r: Rule, file: &SourceFile)
        requires
            file.names_ok(),
            file.types_ok(),
            file.assignments_ok(),
        ensures
            reports(*old(self), *final(self), rule_violations(r, *file, old(self).settings)),
    {
        match r {
            Rule::AddingFieldWithDefault => adding_field_with_default(self, file),
            Rule::AddingForeignKeyConstraint => adding_foreign_key_constraint(self, file),
            Rule::AddingNotNullableField => adding_not_null_field(self, file),
            Rule::AddingSerialPrimaryKeyField => adding_primary_key_constraint(self, file),
            Rule::AddingRequiredField => adding_required_field(self, file),
            Rule::BanDropDatabase => ban_drop_database(self, file),
            Rule::BanConcurrentIndexCreationInTransaction => ban_concurrent_index_creation_in_transaction(self, file),
            Rule::BanDropColumn => ban_drop_column(self, file),
            Rule::BanDropNotNull => ban_drop_not_null(self, file),
            Rule::BanDropTable => ban_drop_table(self, file),
            Rule::ChangingColumnType => changing_column_type(self, file),
            Rule::ConstraintMissingNotValid => constraint_missing_not_valid(self, file),
            Rule::PreferRobustStmts => prefer_robust_stmts(self, file),
            Rule::BanCreateDomainWithConstraint => ban_create_domain_with_constraint(self, file),
            Rule::BanAlterDomainWithAddConstraint => ban_alter_domain_with_add_constraint(self, file),
            Rule::BanTruncateCascade => ban_truncate_cascade(self, file),
            Rule::BanUncommittedTransaction => ban_uncommitted_transaction(self, file),
            Rule::IdentifierTooLong => identifier_too_long(self, file),
            Rule::PreferRepack => prefer_repack(self, file),
            Rule::BanCharField => ban_char_field(self, file),
            Rule::PreferBigintOverInt => prefer_bigint_over_int(self, file),
            Rule::PreferBigintOverSmallint => prefer_bigint_over_smallint(self, file),
            Rule::PreferTextField => prefer_text_field(self, file),
            Rule::PreferBigInt => prefer_big_int(self, file),
            Rule::BanDuplicateColumnAssignments => ban_duplicate_column_assignments(self, file),
            _ => {
                proof {
                    assert(self.reported() =~= old(self).reported() + Seq::<ViolationView>::empty());
                }
            },
        }
    }

    /// Lints `file`, whose text is `text`: runs each of its rules that this
    /// library defines (those of `lint_order`, in that order; `UnusedIgnore`,
    /// `DisallowedUniqueConstraint`, `PreferIdentity`, `PreferTimestampTz`,
    /// `RenamingColumn`, `RenamingTable`, `RequireConcurrentIndexCreation`,
    /// `RequireConcurrentIndexDeletion` and `TransactionNesting` have no
    /// definition here and report nothing), finds the ignore comments, and
    /// gives every violation reported so far that no ignore switches off,
    /// ordered by where it starts.
    pub fn lint(&mut self, file: &SourceFile, text: &str) -> (r: Vec<Violation>)
        requires
            text.spec_bytes().len() < u32::MAX,
            file.names_ok(),
            file.types_ok(),
            file.assignments_ok(),
            ignores_from(text.spec_bytes(), 0).fits,
            line_ignores_ok(old(self).ignored() + ignores_from(text.spec_bytes(), 0).ignores, text.spec_bytes()),
            starts_ok(
                old(self).reported() + all_violations(*file, old(self).settings, old(self).rules@)
                    + ignores_from(text.spec_bytes(), 0).unknown,
                text.spec_bytes(),
            ),
        ensures
            final(self).reported() == old(self).reported() + all_violations(*file, old(self).settings, old(self).rules@)
                + ignores_from(text.spec_bytes(), 0).unknown,
            final(self).ignored() == old(self).ignored() + ignores_from(text.spec_bytes(), 0).ignores,
            final(self).rules == old(self).rules,
            final(self).settings == old(self).settings,
            views(r@) == sort_by_start(unignored(final(self).reported(), final(self).ignored(), text.spec_bytes())),
    {
        let order = lint_order_vec();
        let ghost rules = self.rules@;
        let ghost settings = self.settings;
        let ghost f = |r: Rule| if rules.contains(r) {
            rule_violations(r, *file, settings)
        } else {
            seq![]
        };
        proof {
            assert(self.reported() =~= old(self).reported() + Seq::<ViolationView>::empty());
        }
        let mut i: usize = 0;
        while i < order.len()
            invariant
                order@ == lint_order(),
                i <= order@.len(),
                file.names_ok(),
                file.types_ok(),
                file.assignments_ok(),
                rules == old(self).rules@,
                settings == old(self).settings,
                f == (|r: Rule| if rules.contains(r) {
                    rule_violations(r, *file, settings)
                } else {
                    seq![]
                }),
                reports(*old(self), *self, concat_map(order@.take(i as int), f)),
            decreases order@.len() - i,
        {
            proof {
                lemma_concat_map_step(order@, f, i as int);
            }
            let ghost before = *self;
            let r = order[i];
            if self.runs(r) {
                self.run_rule(r, file);
                proof {
                    lemma_reports_trans(*old(self), before, *self, concat_map(order@.take(i as int), f), f(r));
                }
            } else {
                proof {
                    assert(self.reported() =~= old(self).reported() + concat_map(order@.take(i + 1), f));
                }
            }
            i = i + 1;
        }
        proof {
            lemma_take_all(order@);
        }
        find_ignores(self, text);
        self.errors(text)
    }
}

/// The rules `lint` runs, in the order it runs them.
fn lint_order_vec() -> (v: Vec<Rule>)
    ensures
        v@ == lint_order(),
{
    let mut v: Vec<Rule> = Vec::new();
    v.push(Rule::AddingFieldWithDefault);
    v.push(Rule::AddingForeignKeyConstraint);
    v.push(Rule::AddingNotNullableField);
    v.push(Rule::AddingSerialPrimaryKeyField);
    v.push(Rule::AddingRequiredField);
    v.push(Rule::BanDropDatabase);
    v.push(Rule::BanCharField);
    v.push(Rule::BanConcurrentIndexCreationInTransaction);
    v.push(Rule::BanDropColumn);
    v.push(Rule::BanDropNotNull);
    v.push(Rule::BanDropTable);
    v.push(Rule::ChangingColumnType);
    v.push(Rule::ConstraintMissingNotValid);
    v.push(Rule::PreferBigintOverInt);
    v.push(Rule::PreferBigintOverSmallint);
    v.push(Rule::PreferRobustStmts);
    v.push(Rule::PreferTextField);
    v.push(Rule::BanCreateDomainWithConstraint);
    v.push(Rule::BanAlterDomainWithAddConstraint);
    v.push(Rule::BanTruncateCascade);
    v.push(Rule::BanUncommittedTransaction);
    v.push(Rule::IdentifierTooLong);
    v.push(Rule::PreferRepack);
    v.push(Rule::PreferBigInt);
    v.push(Rule::BanDuplicateColumnAssignments);
    assert(v@ =~= lint_order());
    v
}

} // verus!
