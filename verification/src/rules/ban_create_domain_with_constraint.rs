//! `ban-create-domain-with-constraint`: constraints on domains are poorly
//! supported by online migrations.
use vstd::prelude::*;
use crate::lint::Linter;
use crate::linter::{plain_violation, string_of, Rule, TextRange, Violation, ViolationView};
use crate::rules::{concat_map, lemma_concat_map_step, lemma_take_all, reports};
use crate::syntax::{SourceFile, Stmt};

verus! {

/// The smallest range that covers all of `rs`, if there are any.
pub open spec fn covering_range(rs: Seq<TextRange>) -> Option<TextRange>
    decreases rs.len(),
{
    if rs.len() == 0 {
        None
    } else {
        let cur = rs.last();
        match covering_range(rs.drop_last()) {
            None => Some(cur),
            Some(prev) => Some(
                TextRange {
                    start: if prev.start <= cur.start { prev.start } else { cur.start },
                    end: if prev.end >= cur.end { prev.end } else { cur.end },
                },
            ),
        }
    }
}

/// What the rule reports for one statement.
pub open spec fn create_domain_violations(s: Stmt) -> Seq<ViolationView> {
    match s {
        Stmt::CreateDomain { constraints, .. } => match covering_range(constraints@) {
            Some(range) => seq![
                plain_violation(Rule::BanCreateDomainWithConstraint, "Domains with constraints have poor support for online migrations. Use table and column constraints instead."@, range),
            ],
            None => seq![],
        },
        _ => seq![],
    }
}

fn cover(rs: &Vec<TextRange>) -> (r: Option<TextRange>)
    ensures
        r == covering_range(rs@),
{
    let mut acc: Option<TextRange> = None;
    let mut k: usize = 0;
    while k < rs.len()
        invariant
            k <= rs@.len(),
            acc == covering_range(rs@.take(k as int)),
        decreases rs@.len() - k,
    {
        let cur = rs[k];
        proof {
            assert(rs@.take(k + 1).drop_last() =~= rs@.take(k as int));
        }
        acc = match acc {
            None => Some(cur),
            Some(prev) => Some(
                TextRange {
                    start: if prev.start <= cur.start { prev.start } else { cur.start },
                    end: if prev.end >= cur.end { prev.end } else { cur.end },
                },
            ),
        };
        k = k + 1;
    }
    proof {
        lemma_take_all(rs@);
    }
    acc
}

/// Reports each `CREATE DOMAIN` that has constraints, over the span of them.
pub fn ban_create_domain_with_constraint(ctx: &mut Linter, file: &SourceFile)
    ensures
        reports(*old(ctx), *final(ctx), concat_map(file.stmts@, |s: Stmt| create_domain_violations(s))),
{
    let ghost f = |s: Stmt| create_domain_violations(s);
    let mut i: usize = 0;
    while i < file.stmts.len()
        invariant
            i <= file.stmts@.len(),
            f == (|s: Stmt| create_domain_violations(s)),
            reports(*old(ctx), *ctx, concat_map(file.stmts@.take(i as int), f)),
        decreases file.stmts@.len() - i,
    {
        proof {
            lemma_concat_map_step(file.stmts@, f, i as int);
        }
        match &file.stmts[i] {
            Stmt::CreateDomain { constraints, .. } => {
                if let Some(range) = cover(constraints) {
                    ctx.report(
                        Violation::new(Rule::BanCreateDomainWithConstraint, string_of("Domains with constraints have poor support for online migrations. Use table and column constraints instead."), range, None),
                    );
                }
            },
            _ => {},
        }
        proof {
            assert(ctx.reported() =~= old(ctx).reported() + concat_map(file.stmts@.take(i + 1), f));
        }
        i = i + 1;
    }
    proof {
        lemma_take_all(file.stmts@);
    }
}

} // verus!
