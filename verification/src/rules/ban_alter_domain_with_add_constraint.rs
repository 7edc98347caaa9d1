//! `ban-alter-domain-with-add-constraint`: constraints on domains are poorly
//! supported by online migrations.
use vstd::prelude::*;
use crate::lint::Linter;
use crate::linter::{plain_violation, string_of, Rule, TextRange, Violation, ViolationView};
use crate::rules::{concat_map, lemma_concat_map_step, lemma_take_all, reports};
use crate::syntax::{SourceFile, Stmt};

verus! {

/// The violation for an `ADD CONSTRAINT` of `ALTER DOMAIN` at `range`.
pub open spec fn alter_domain_violation(range: TextRange) -> ViolationView {
    plain_violation(Rule::BanAlterDomainWithAddConstraint, "Domains with constraints have poor support for online migrations. Use table and column constraints instead."@, range)
}

/// What the rule reports for one statement.
pub open spec fn alter_domain_violations(s: Stmt) -> Seq<ViolationView> {
    match s {
        Stmt::AlterDomain { add_constraints, .. } => add_constraints@.map_values(
            |r: TextRange| alter_domain_violation(r),
        ),
        _ => seq![],
    }
}

fn report_added_constraints(ctx: &mut Linter, ranges: &Vec<TextRange>)
    ensures
        reports(*old(ctx), *final(ctx), ranges@.map_values(|r: TextRange| alter_domain_violation(r))),
{
    let mut k: usize = 0;
    while k < ranges.len()
        invariant
            k <= ranges@.len(),
            reports(*old(ctx), *ctx, ranges@.take(k as int).map_values(|r: TextRange| alter_domain_violation(r))),
        decreases ranges@.len() - k,
    {
        ctx.report(
            Violation::new(Rule::BanAlterDomainWithAddConstraint, string_of("Domains with constraints have poor support for online migrations. Use table and column constraints instead."), ranges[k], None),
        );
        proof {
            assert(ranges@.take(k + 1).map_values(|r: TextRange| alter_domain_violation(r)) =~= ranges@.take(
                k as int,
            ).map_values(|r: TextRange| alter_domain_violation(r)).push(alter_domain_violation(ranges@[k as int])));
            assert(ctx.reported() =~= old(ctx).reported() + ranges@.take(k + 1).map_values(|r: TextRange| alter_domain_violation(r)));
        }
        k = k + 1;
    }
    proof {
        lemma_take_all(ranges@);
    }
}

/// Reports each `ADD CONSTRAINT` of each `ALTER DOMAIN`.
pub fn ban_alter_domain_with_add_constraint(ctx: &mut Linter, file: &SourceFile)
    ensures
        reports(*old(ctx), *final(ctx), concat_map(file.stmts@, |s: Stmt| alter_domain_violations(s))),
{
    let ghost f = |s: Stmt| alter_domain_violations(s);
    let mut i: usize = 0;
    while i < file.stmts.len()
        invariant
            i <= file.stmts@.len(),
            f == (|s: Stmt| alter_domain_violations(s)),
            reports(*old(ctx), *ctx, concat_map(file.stmts@.take(i as int), f)),
        decreases file.stmts@.len() - i,
    {
        proof {
            lemma_concat_map_step(file.stmts@, f, i as int);
        }
        match &file.stmts[i] {
            Stmt::AlterDomain { add_constraints, .. } => {
                report_added_constraints(ctx, add_constraints);
            },
            _ => {},
        }
        proof {
            assert(ctx.reported() =~= old(ctx).reported() + concat_map(file.stmts@.take(i + 1), f));
        }
        i = i + 1;
    }
    proof {
        lemma_take_all(file.stmts@);
    }
}

} // verus!
