//! `ban-truncate-cascade`: `TRUNCATE ... CASCADE` also empties every table that refers to the truncated ones.
use vstd::prelude::*;
use crate::lint::Linter;
use crate::linter::{plain_violation, string_of, Rule, Violation, ViolationView};
use crate::rules::{concat_map, lemma_concat_map_step, lemma_take_all, reports, helped};
use crate::syntax::{SourceFile, Stmt};

verus! {

/// What `ban-truncate-cascade` reports for one statement.
pub open spec fn truncate_cascade_violations(s: Stmt) -> Seq<ViolationView> {
    match s {
        Stmt::Truncate { cascade: Some(cascade), .. } => seq![helped(
            plain_violation(Rule::BanTruncateCascade, "Using `CASCADE` will recursively truncate any tables that foreign key to the referenced tables! So if you had foreign keys setup as `a <- b <- c` and truncated `a`, then `b` & `c` would also be truncated!"@, cascade),
            "Remove the `CASCADE` and specify exactly which tables you want to truncate."@,
        )],
        _ => seq![],
    }
}

/// Reports the `CASCADE` of each `TRUNCATE ... CASCADE`.
pub fn ban_truncate_cascade(ctx: &mut Linter, file: &SourceFile)
    ensures
        reports(*old(ctx), *final(ctx), concat_map(file.stmts@, |s: Stmt| truncate_cascade_violations(s))),
{
    let ghost f = |s: Stmt| truncate_cascade_violations(s);
    let mut i: usize = 0;
    while i < file.stmts.len()
        invariant
            i <= file.stmts@.len(),
            f == (|s: Stmt| truncate_cascade_violations(s)),
            reports(*old(ctx), *ctx, concat_map(file.stmts@.take(i as int), f)),
        decreases file.stmts@.len() - i,
    {
        proof {
            lemma_concat_map_step(file.stmts@, f, i as int);
        }
        match &file.stmts[i] {
            Stmt::Truncate { cascade: Some(cascade), .. } => {
                ctx.report(Violation::for_range(
                    Rule::BanTruncateCascade,
                    string_of("Using `CASCADE` will recursively truncate any tables that foreign key to the referenced tables! So if you had foreign keys setup as `a <- b <- c` and truncated `a`, then `b` & `c` would also be truncated!"),
                    *cascade,
                ).help("Remove the `CASCADE` and specify exactly which tables you want to truncate."));
            },
            _ => {},
        }
        proof {
            assert(ctx.reported() =~= old(ctx).reported() + concat_map(file.stmts@.take(i + 1), f));
        }
        i = i + 1;
    }
    proof {
        lemma_take_all(file.stmts@);
    }
}

} // verus!
