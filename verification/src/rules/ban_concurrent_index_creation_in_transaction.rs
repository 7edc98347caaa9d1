//! `ban-concurrent-index-creation-in-transaction`: `CREATE INDEX CONCURRENTLY`
//! cannot run inside a transaction.
use vstd::prelude::*;
use crate::lint::{rule_violations, Linter, LinterSettings};
use crate::linter::{plain_violation, string_of, Rule, TextRange, Violation, ViolationView};
use crate::rules::{helped, lemma_take_all, reports};
use crate::syntax::{SourceFile, Stmt};

verus! {

/// The violation for the `CONCURRENTLY` keyword at `range`.
pub open spec fn concurrent_in_transaction_violation(range: TextRange) -> ViolationView {
    helped(
        plain_violation(
            Rule::BanConcurrentIndexCreationInTransaction,
            "While regular index creation can happen inside a transaction, this is not allowed when the `CONCURRENTLY` option is used."@,
            range,
        ),
        "Build the index outside any transactions."@,
    )
}

/// Whether a transaction is open after `stmts`, and the concurrent index
/// creations found inside one.
pub open spec fn concurrent_in_transaction(stmts: Seq<Stmt>, inside: bool) -> (bool, Seq<ViolationView>)
    decreases stmts.len(),
{
    if stmts.len() == 0 {
        (inside, seq![])
    } else {
        let (now, found) = concurrent_in_transaction(stmts.drop_last(), inside);
        match stmts.last() {
            Stmt::Begin { .. } => (true, found),
            Stmt::Commit { .. } => (false, found),
            Stmt::CreateIndex { concurrently: Some(c), .. } => if now {
                (now, found.push(concurrent_in_transaction_violation(c)))
            } else {
                (now, found)
            },
            _ => (now, found),
        }
    }
}

/// What the rule reports for a file under `settings`: nothing for a file of
/// one statement.
pub open spec fn concurrent_index_violations(file: SourceFile, settings: LinterSettings) -> Seq<ViolationView> {
    if file.stmts@.len() > 1 {
        concurrent_in_transaction(file.stmts@, settings.assume_in_transaction).1
    } else {
        seq![]
    }
}

/// Reports each `CREATE INDEX CONCURRENTLY` inside a transaction, in a file of
/// more than one statement.
pub fn ban_concurrent_index_creation_in_transaction(ctx: &mut Linter, file: &SourceFile)
    ensures
        reports(*old(ctx), *final(ctx), concurrent_index_violations(*file, old(ctx).settings)),
{
    let mut in_transaction = ctx.settings.assume_in_transaction;
    let ghost inside0 = in_transaction;
    let mut errors: Vec<TextRange> = Vec::new();
    let mut stmt_count: usize = 0;
    let mut i: usize = 0;
    while i < file.stmts.len()
        invariant
            i <= file.stmts@.len(),
            stmt_count == i,
            in_transaction == concurrent_in_transaction(file.stmts@.take(i as int), inside0).0,
            errors@.map_values(|r: TextRange| concurrent_in_transaction_violation(r))
                == concurrent_in_transaction(file.stmts@.take(i as int), inside0).1,
        decreases file.stmts@.len() - i,
    {
        proof {
            assert(file.stmts@.take(i + 1).drop_last() =~= file.stmts@.take(i as int));
        }
        stmt_count = stmt_count + 1;
        match &file.stmts[i] {
            Stmt::Begin { .. } => {
                in_transaction = true;
            },
            Stmt::Commit { .. } => {
                in_transaction = false;
            },
            Stmt::CreateIndex { concurrently, .. } => {
                if in_transaction {
                    if let Some(c) = concurrently {
                        errors.push(*c);
                    }
                }
            },
            _ => {},
        }
        proof {
            assert(errors@.map_values(|r: TextRange| concurrent_in_transaction_violation(r))
                =~= concurrent_in_transaction(file.stmts@.take(i + 1), inside0).1);
        }
        i = i + 1;
    }
    proof {
        lemma_take_all(file.stmts@);
    }
    if stmt_count > 1 {
        let ghost g = |r: TextRange| concurrent_in_transaction_violation(r);
        let mut k: usize = 0;
        while k < errors.len()
            invariant
                k <= errors@.len(),
                g == (|r: TextRange| concurrent_in_transaction_violation(r)),
                reports(*old(ctx), *ctx, errors@.take(k as int).map_values(g)),
            decreases errors@.len() - k,
        {
            ctx.report(
                Violation::new(
                    Rule::BanConcurrentIndexCreationInTransaction,
                    string_of(
                        "While regular index creation can happen inside a transaction, this is not allowed when the `CONCURRENTLY` option is used.",
                    ),
                    errors[k],
                    Some(string_of("Build the index outside any transactions.")),
                ),
            );
            proof {
                assert(errors@.take(k + 1).map_values(g) =~= errors@.take(k as int).map_values(g).push(g(errors@[k as int])));
                assert(ctx.reported() =~= old(ctx).reported() + errors@.take(k + 1).map_values(g));
            }
            k = k + 1;
        }
        proof {
            lemma_take_all(errors@);
        }
    } else {
        proof {
            assert(ctx.reported() =~= old(ctx).reported() + Seq::<ViolationView>::empty());
        }
    }
}

/// The range of the `CONCURRENTLY` keyword of statement `i` of `stmts`, when
/// that statement is a `CREATE INDEX CONCURRENTLY`.
pub open spec fn concurrent_index_at(stmts: Seq<Stmt>, i: int) -> Option<TextRange> {
    if 0 <= i < stmts.len() {
        match stmts[i] {
            Stmt::CreateIndex { concurrently: Some(c), .. } => Some(c),
            _ => None,
        }
    } else {
        None
    }
}

/// Whether a transaction is open just before statement `i`: a `BEGIN` comes
/// before it with no `COMMIT` in between, or, when the migration is assumed
/// to run in a transaction, no `COMMIT` comes before it at all.
pub open spec fn open_before(stmts: Seq<Stmt>, i: int, assumed: bool) -> bool {
    (exists|j: int| 0 <= j < i && #[trigger] stmts[j] is Begin && forall|m: int| j < m < i ==> !(#[trigger] stmts[m] is Commit))
        || (assumed && forall|m: int| 0 <= m < i ==> !(#[trigger] stmts[m] is Commit))
}

proof fn lemma_open_before_prefix(p: Seq<Stmt>, s: Seq<Stmt>, i: int, assumed: bool)
    requires
        0 <= i <= p.len(),
        i <= s.len(),
        forall|m: int| 0 <= m < i ==> p[m] == s[m],
    ensures
        open_before(p, i, assumed) == open_before(s, i, assumed),
{
    if exists|j: int| 0 <= j < i && #[trigger] p[j] is Begin && forall|m: int| j < m < i ==> !(#[trigger] p[m] is Commit) {
        let j = choose|j: int| 0 <= j < i && #[trigger] p[j] is Begin && forall|m: int| j < m < i ==> !(#[trigger] p[m] is Commit);
        assert(s[j] is Begin);
        assert forall|m: int| j < m < i implies !(#[trigger] s[m] is Commit) by {
            assert(p[m] == s[m]);
        }
    }
    if exists|j: int| 0 <= j < i && #[trigger] s[j] is Begin && forall|m: int| j < m < i ==> !(#[trigger] s[m] is Commit) {
        let j = choose|j: int| 0 <= j < i && #[trigger] s[j] is Begin && forall|m: int| j < m < i ==> !(#[trigger] s[m] is Commit);
        assert(p[j] is Begin);
        assert forall|m: int| j < m < i implies !(#[trigger] p[m] is Commit) by {
            assert(p[m] == s[m]);
        }
    }
    assert((forall|m: int| 0 <= m < i ==> !(#[trigger] p[m] is Commit)) == (forall|m: int| 0 <= m < i ==> !(#[trigger] s[m] is Commit))) by {
        if forall|m: int| 0 <= m < i ==> !(#[trigger] p[m] is Commit) {
            assert forall|m: int| 0 <= m < i implies !(#[trigger] s[m] is Commit) by {
                assert(p[m] == s[m]);
            }
        }
        if forall|m: int| 0 <= m < i ==> !(#[trigger] s[m] is Commit) {
            assert forall|m: int| 0 <= m < i implies !(#[trigger] p[m] is Commit) by {
                assert(p[m] == s[m]);
            }
        }
    }
}

/// The rule's scan ends in a transaction exactly when one is open after the
/// last statement, and finds exactly the `CREATE INDEX CONCURRENTLY`
/// statements made while one is open.
proof fn lemma_scan(stmts: Seq<Stmt>, assumed: bool)
    ensures
        concurrent_in_transaction(stmts, assumed).0 == open_before(stmts, stmts.len() as int, assumed),
        forall|v: ViolationView|
            concurrent_in_transaction(stmts, assumed).1.contains(v) <==> exists|i: int|
                #[trigger] concurrent_index_at(stmts, i) is Some && open_before(stmts, i, assumed) && v
                    == concurrent_in_transaction_violation(concurrent_index_at(stmts, i)->0),
    decreases stmts.len(),
{
    if stmts.len() > 0 {
        let n = stmts.len() as int;
        let p = stmts.drop_last();
        lemma_scan(p, assumed);
        lemma_open_before_prefix(p, stmts, n - 1, assumed);
        let (now, found) = concurrent_in_transaction(p, assumed);
        let last = stmts[n - 1];
        // the state after the last statement
        match last {
            Stmt::Begin { .. } => {
                assert(forall|m: int| n - 1 < m < n ==> !(#[trigger] stmts[m] is Commit));
                assert(stmts[n - 1] is Begin);
            },
            Stmt::Commit { .. } => {
                if open_before(stmts, n, assumed) {
                    if exists|j: int| 0 <= j < n && #[trigger] stmts[j] is Begin && forall|m: int| j < m < n ==> !(#[trigger] stmts[m] is Commit) {
                        let j = choose|j: int| 0 <= j < n && #[trigger] stmts[j] is Begin && forall|m: int| j < m < n ==> !(#[trigger] stmts[m] is Commit);
                        assert(stmts[n - 1] is Commit);
                    } else {
                        assert(stmts[n - 1] is Commit);
                    }
                }
            },
            _ => {
                assert(!(stmts[n - 1] is Commit) && !(stmts[n - 1] is Begin));
                if exists|j: int| 0 <= j < n && #[trigger] stmts[j] is Begin && forall|m: int| j < m < n ==> !(#[trigger] stmts[m] is Commit) {
                    let j = choose|j: int| 0 <= j < n && #[trigger] stmts[j] is Begin && forall|m: int| j < m < n ==> !(#[trigger] stmts[m] is Commit);
                    assert(j < n - 1);
                    assert(open_before(stmts, n - 1, assumed));
                }
                if exists|j: int| 0 <= j < n - 1 && #[trigger] stmts[j] is Begin && forall|m: int| j < m < n - 1 ==> !(#[trigger] stmts[m] is Commit) {
                    let j = choose|j: int| 0 <= j < n - 1 && #[trigger] stmts[j] is Begin && forall|m: int| j < m < n - 1 ==> !(#[trigger] stmts[m] is Commit);
                    assert forall|m: int| j < m < n implies !(#[trigger] stmts[m] is Commit) by {
                        if m < n - 1 {
                        }
                    }
                    assert(open_before(stmts, n, assumed));
                }
                if assumed && forall|m: int| 0 <= m < n - 1 ==> !(#[trigger] stmts[m] is Commit) {
                    assert forall|m: int| 0 <= m < n implies !(#[trigger] stmts[m] is Commit) by {
                        if m < n - 1 {
                        }
                    }
                }
                if assumed && forall|m: int| 0 <= m < n ==> !(#[trigger] stmts[m] is Commit) {
                    assert forall|m: int| 0 <= m < n - 1 implies !(#[trigger] stmts[m] is Commit) by {
                    }
                }
            },
        }
        // the violations found
        assert forall|v: ViolationView| concurrent_in_transaction(stmts, assumed).1.contains(v) <==> exists|i: int|
            #[trigger] concurrent_index_at(stmts, i) is Some && open_before(stmts, i, assumed) && v
                == concurrent_in_transaction_violation(concurrent_index_at(stmts, i)->0) by {
            let res = concurrent_in_transaction(stmts, assumed).1;
            if res.contains(v) {
                if found.contains(v) {
                    let i = choose|i: int| #[trigger] concurrent_index_at(p, i) is Some && open_before(p, i, assumed) && v
                        == concurrent_in_transaction_violation(concurrent_index_at(p, i)->0);
                    lemma_open_before_prefix(p, stmts, i, assumed);
                    assert(concurrent_index_at(stmts, i) == concurrent_index_at(p, i));
                } else {
                    assert(res == found.push(v) || res == found);
                    assert(concurrent_index_at(stmts, n - 1) is Some);
                }
            }
            if exists|i: int| #[trigger] concurrent_index_at(stmts, i) is Some && open_before(stmts, i, assumed) && v
                == concurrent_in_transaction_violation(concurrent_index_at(stmts, i)->0) {
                let i = choose|i: int| #[trigger] concurrent_index_at(stmts, i) is Some && open_before(stmts, i, assumed) && v
                    == concurrent_in_transaction_violation(concurrent_index_at(stmts, i)->0);
                if i < n - 1 {
                    lemma_open_before_prefix(p, stmts, i, assumed);
                    assert(concurrent_index_at(stmts, i) == concurrent_index_at(p, i));
                    assert(found.contains(v));
                    let q = choose|q: int| 0 <= q < found.len() && found[q] == v;
                    assert(res.len() >= found.len());
                    assert(res[q] == found[q]);
                } else {
                    assert(res == found.push(v));
                    assert(res[found.len() as int] == v);
                }
            }
        }
    }
}

/// In a file of more than one statement, the rule reports every
/// `CREATE INDEX CONCURRENTLY` made while a transaction is open (a `BEGIN`
/// before it with no `COMMIT` in between, or, when the migration is assumed
/// to run in a transaction, no `COMMIT` before it), at its `CONCURRENTLY`
/// keyword, however many come in the same transaction, and nothing else; in
/// a file of one statement it reports nothing.
pub proof fn lemma_every_concurrent_index_in_transaction_reported(file: SourceFile, settings: LinterSettings)
    ensures
        file.stmts@.len() > 1 ==> forall|i: int|
            #[trigger] concurrent_index_at(file.stmts@, i) is Some && open_before(
                file.stmts@,
                i,
                settings.assume_in_transaction,
            ) ==> rule_violations(Rule::BanConcurrentIndexCreationInTransaction, file, settings).contains(
                ViolationView {
                    code: Rule::BanConcurrentIndexCreationInTransaction,
                    message: "While regular index creation can happen inside a transaction, this is not allowed when the `CONCURRENTLY` option is used."@,
                    text_range: concurrent_index_at(file.stmts@, i)->0,
                    help: Some("Build the index outside any transactions."@),
                    fix: None,
                },
            ),
        forall|v: ViolationView|
            #[trigger] rule_violations(Rule::BanConcurrentIndexCreationInTransaction, file, settings).contains(v)
                ==> file.stmts@.len() > 1 && exists|i: int|
                #[trigger] concurrent_index_at(file.stmts@, i) == Some(v.text_range) && open_before(
                    file.stmts@,
                    i,
                    settings.assume_in_transaction,
                ) && v == (ViolationView {
                    code: Rule::BanConcurrentIndexCreationInTransaction,
                    message: "While regular index creation can happen inside a transaction, this is not allowed when the `CONCURRENTLY` option is used."@,
                    text_range: v.text_range,
                    help: Some("Build the index outside any transactions."@),
                    fix: None,
                }),
{
    lemma_scan(file.stmts@, settings.assume_in_transaction);
    assert(rule_violations(Rule::BanConcurrentIndexCreationInTransaction, file, settings) == concurrent_index_violations(
        file,
        settings,
    ));
}

/// How many statements of `stmts` are a `CREATE INDEX CONCURRENTLY` made
/// while a transaction is open.
pub open spec fn concurrent_in_open_count(stmts: Seq<Stmt>, assumed: bool) -> nat
    decreases stmts.len(),
{
    if stmts.len() == 0 {
        0
    } else {
        concurrent_in_open_count(stmts.drop_last(), assumed) + if concurrent_index_at(stmts, stmts.len() - 1) is Some
            && open_before(stmts, stmts.len() - 1, assumed) {
            1nat
        } else {
            0nat
        }
    }
}

proof fn lemma_scan_count(stmts: Seq<Stmt>, assumed: bool)
    ensures
        concurrent_in_transaction(stmts, assumed).1.len() == concurrent_in_open_count(stmts, assumed),
    decreases stmts.len(),
{
    if stmts.len() > 0 {
        let p = stmts.drop_last();
        lemma_scan_count(p, assumed);
        lemma_scan(p, assumed);
        lemma_open_before_prefix(p, stmts, stmts.len() - 1, assumed);
    }
}

/// In a file of more than one statement the rule gives one violation for
/// each `CREATE INDEX CONCURRENTLY` made while a transaction is open.
pub proof fn lemma_one_violation_per_concurrent_index(file: SourceFile, settings: LinterSettings)
    ensures
        rule_violations(Rule::BanConcurrentIndexCreationInTransaction, file, settings).len() == if file.stmts@.len() > 1 {
            concurrent_in_open_count(file.stmts@, settings.assume_in_transaction)
        } else {
            0
        },
{
    lemma_scan_count(file.stmts@, settings.assume_in_transaction);
}

} // verus!
