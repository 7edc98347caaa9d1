//! `ban-drop-table`: dropping a table may break clients that still use it.
use vstd::prelude::*;
use crate::lint::Linter;
use crate::linter::{plain_violation, string_of, Rule, Violation, ViolationView};
use crate::rules::{concat_map, lemma_concat_map_step, lemma_take_all, reports};
use crate::syntax::{SourceFile, Stmt};

verus! {

/// What `ban-drop-table` reports for one statement.
pub open spec fn drop_table_violations(s: Stmt) -> Seq<ViolationView> {
    match s {
        Stmt::DropTable { range, .. } => seq![
            plain_violation(Rule::BanDropTable, "Dropping a table may break existing clients."@, range),
        ],
        _ => seq![],
    }
}

/// Reports each `DROP TABLE`.
pub fn ban_drop_table(ctx: &mut Linter, file: &SourceFile)
    ensures
        reports(*old(ctx), *final(ctx), concat_map(file.stmts@, |s: Stmt| drop_table_violations(s))),
{
    let ghost f = |s: Stmt| drop_table_violations(s);
    let mut i: usize = 0;
    while i < file.stmts.len()
        invariant
            i <= file.stmts@.len(),
            f == (|s: Stmt| drop_table_violations(s)),
            reports(*old(ctx), *ctx, concat_map(file.stmts@.take(i as int), f)),
        decreases file.stmts@.len() - i,
    {
        proof {
            lemma_concat_map_step(file.stmts@, f, i as int);
        }
        match &file.stmts[i] {
            Stmt::DropTable { range, .. } => {
                ctx.report(
                    Violation::for_range(
                        Rule::BanDropTable,
                        string_of("Dropping a table may break existing clients."),
                        *range,
                    ),
                );
            },
            _ => {},
        }
        proof {
            assert(ctx.reported() =~= old(ctx).reported() + concat_map(file.stmts@.take(i + 1), f));
        }
        i = i + 1;
    }
    proof {
        lemma_take_all(file.stmts@);
    }
}

} // verus!
