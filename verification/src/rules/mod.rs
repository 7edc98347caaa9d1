//! The rules: each reads a parsed file and reports the violations it finds.
pub mod ban_drop_table;
pub mod ban_drop_database;
pub mod ban_truncate_cascade;
pub mod ban_drop_column;
pub mod changing_column_type;
pub mod ban_drop_not_null;
pub mod adding_primary_key_constraint;
pub mod adding_required_field;
pub mod ban_alter_domain_with_add_constraint;
pub mod ban_create_domain_with_constraint;
pub mod ban_uncommitted_transaction;
pub mod prefer_repack;
pub mod prefer_robust_stmts;
pub mod adding_not_null_field;
pub mod ban_concurrent_index_creation_in_transaction;
pub mod constraint_missing_not_valid;
pub mod adding_foreign_key_constraint;
pub mod identifier_too_long;
pub mod prefer_bigint_over_int;
pub mod prefer_bigint_over_smallint;
pub mod codes;
pub mod column_types;
pub mod prefer_big_int;
pub mod ban_char_field;
pub mod prefer_text_field;
pub mod ban_duplicate_column_assignments;
pub mod adding_field_with_default;

use vstd::prelude::*;
use crate::lint::Linter;
use crate::linter::ViolationView;

verus! {

/// `f` applied to each element of `s`, the results joined in order.
pub open spec fn concat_map<T, U>(s: Seq<T>, f: spec_fn(T) -> Seq<U>) -> Seq<U>
    decreases s.len(),
{
    if s.len() == 0 {
        Seq::empty()
    } else {
        concat_map(s.drop_last(), f) + f(s.last())
    }
}

/// Taking one more element of `s` appends what `f` gives for it.
pub proof fn lemma_concat_map_step<T, U>(s: Seq<T>, f: spec_fn(T) -> Seq<U>, i: int)
    requires
        0 <= i < s.len(),
    ensures
        concat_map(s.take(i + 1), f) == concat_map(s.take(i), f) + f(s[i]),
{
    assert(s.take(i + 1).drop_last() =~= s.take(i));
}

/// All of `s` is its prefix of full length.
pub proof fn lemma_take_all<T>(s: Seq<T>)
    ensures
        s.take(s.len() as int) == s,
{
    assert(s.take(s.len() as int) =~= s);
}

/// `after` is `before` with `vs` reported and nothing else changed.
pub open spec fn reports(before: Linter, after: Linter, vs: Seq<ViolationView>) -> bool {
    &&& after.reported() == before.reported() + vs
    &&& after.ignored() == before.ignored()
    &&& after.rules == before.rules
    &&& after.settings == before.settings
}

/// Reporting `x` and then `y` reports `x + y`.
pub proof fn lemma_reports_trans(a: Linter, b: Linter, c: Linter, x: Seq<ViolationView>, y: Seq<ViolationView>)
    requires
        reports(a, b, x),
        reports(b, c, y),
    ensures
        reports(a, c, x + y),
{
    assert(c.reported() =~= a.reported() + (x + y));
}

/// A violation with help text.
pub open spec fn helped(v: ViolationView, help: Seq<char>) -> ViolationView {
    ViolationView { help: Some(help), ..v }
}

/// What `f` gives for an element of `s` is among what `concat_map` gives.
pub proof fn lemma_concat_map_in<T, U>(s: Seq<T>, f: spec_fn(T) -> Seq<U>, i: int, k: int)
    requires
        0 <= i < s.len(),
        0 <= k < f(s[i]).len(),
    ensures
        concat_map(s, f).contains(f(s[i])[k]),
    decreases s.len(),
{
    let p = s.drop_last();
    let a = concat_map(p, f);
    let b = f(s.last());
    if i == s.len() - 1 {
        assert((a + b)[a.len() + k] == b[k]);
    } else {
        assert(p[i] == s[i]);
        lemma_concat_map_in(p, f, i, k);
        let q = choose|q: int| 0 <= q < a.len() && a[q] == f(s[i])[k];
        assert((a + b)[q] == a[q]);
    }
}

/// Whatever `concat_map` gives, `f` gives for some element of `s`.
pub proof fn lemma_concat_map_from<T, U>(s: Seq<T>, f: spec_fn(T) -> Seq<U>, x: U)
    requires
        concat_map(s, f).contains(x),
    ensures
        exists|i: int, k: int| 0 <= i < s.len() && 0 <= k < f(s[i]).len() && #[trigger] f(s[i])[k] == x,
    decreases s.len(),
{
    let p = s.drop_last();
    let a = concat_map(p, f);
    let b = f(s.last());
    let q = choose|q: int| 0 <= q < (a + b).len() && (a + b)[q] == x;
    if q < a.len() {
        assert(a[q] == x);
        lemma_concat_map_from(p, f, x);
        let (i, k) = choose|i: int, k: int| 0 <= i < p.len() && 0 <= k < f(p[i]).len() && #[trigger] f(p[i])[k] == x;
        assert(s[i] == p[i]);
    } else {
        assert(b[q - a.len()] == x);
        assert(f(s[s.len() - 1])[q - a.len()] == x);
    }
}

} // verus!
