//! `ban-uncommitted-transaction`: a `BEGIN` that is never committed or rolled
//! back leaves the migration's transaction open.
use vstd::prelude::*;
use crate::lint::Linter;
use crate::linter::{string_of, Edit, EditView, Fix, FixView, Rule, TextRange, Violation, ViolationView};
use crate::rules::{lemma_take_all, reports};
use crate::syntax::{SourceFile, Stmt};

verus! {

/// The `BEGIN` still open after `stmts`: the last statement among `stmts` that
/// begins, commits or rolls back a transaction, when it begins one.
pub open spec fn open_begin(stmts: Seq<Stmt>) -> Option<TextRange>
    decreases stmts.len(),
{
    if stmts.len() == 0 {
        None
    } else {
        match stmts.last() {
            Stmt::Begin { range } => Some(range),
            Stmt::Commit { .. } => None,
            Stmt::Rollback { .. } => None,
            _ => open_begin(stmts.drop_last()),
        }
    }
}

/// The fix: a `COMMIT` added at the end of the file.
pub open spec fn add_commit_fix(end: u32) -> FixView {
    FixView {
        title: "Add COMMIT"@,
        edits: seq![EditView { text_range: TextRange { start: end, end }, text: Some("\nCOMMIT;\n"@) }],
    }
}

/// What the rule reports for a file.
pub open spec fn uncommitted_transaction_violations(file: SourceFile) -> Seq<ViolationView> {
    match open_begin(file.stmts@) {
        Some(range) => seq![
            ViolationView {
                code: Rule::BanUncommittedTransaction,
                message: "Transaction never committed or rolled back."@,
                text_range: range,
                help: Some("Add a `COMMIT` or `ROLLBACK` statement to complete the transaction."@),
                fix: Some(add_commit_fix(file.text_range.end)),
            },
        ],
        None => seq![],
    }
}

/// Reports the `BEGIN` of a transaction left open at the end of the file.
pub fn ban_uncommitted_transaction(ctx: &mut Linter, file: &SourceFile)
    ensures
        reports(*old(ctx), *final(ctx), uncommitted_transaction_violations(*file)),
{
    let mut uncommitted_begin: Option<TextRange> = None;
    let mut i: usize = 0;
    while i < file.stmts.len()
        invariant
            i <= file.stmts@.len(),
            uncommitted_begin == open_begin(file.stmts@.take(i as int)),
        decreases file.stmts@.len() - i,
    {
        proof {
            assert(file.stmts@.take(i + 1).drop_last() =~= file.stmts@.take(i as int));
        }
        match &file.stmts[i] {
            Stmt::Begin { range } => {
                uncommitted_begin = Some(*range);
            },
            Stmt::Commit { .. } => {
                uncommitted_begin = None;
            },
            Stmt::Rollback { .. } => {
                uncommitted_begin = None;
            },
            _ => {},
        }
        i = i + 1;
    }
    proof {
        lemma_take_all(file.stmts@);
    }
    if let Some(begin) = uncommitted_begin {
        let end_pos = file.text_range.end;
        let mut edits: Vec<Edit> = Vec::new();
        edits.push(Edit::insert("\nCOMMIT;\n", end_pos));
        let fix = Fix::new("Add COMMIT", edits);
        ctx.report(
            Violation::for_range(
                Rule::BanUncommittedTransaction,
                string_of("Transaction never committed or rolled back."),
                begin,
            ).help("Add a `COMMIT` or `ROLLBACK` statement to complete the transaction.").fix(Some(fix)),
        );
        proof {
            assert(fix@.edits =~= add_commit_fix(end_pos).edits);
            assert(ctx.reported() =~= old(ctx).reported() + uncommitted_transaction_violations(*file));
        }
    } else {
        proof {
            assert(ctx.reported() =~= old(ctx).reported() + uncommitted_transaction_violations(*file));
        }
    }
}

} // verus!
