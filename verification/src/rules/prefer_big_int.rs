//! `prefer-big-int`: integer columns narrower than 64 bits can run out of
//! values.
use vstd::prelude::*;
use crate::lint::Linter;
use crate::linter::{string_of, Rule, Violation, ViolationView};
use crate::rules::{concat_map, lemma_concat_map_step, lemma_take_all, reports};
use crate::rules::column_types::{innermost_name, name_of_type, range_of_type};
use crate::syntax::{type_range, SourceFile, SqlType};
use crate::text::{chars_eq_str, chars_of, trim_quotes, trimmed_quotes};

verus! {

/// The integer types narrower than 64 bits, by their name with its quotes
/// trimmed, as written.
pub open spec fn is_narrow_int_name(n: Seq<char>) -> bool {
    n == "smallint"@ || n == "integer"@ || n == "int2"@ || n == "int4"@ || n == "serial"@ || n == "serial2"@
        || n == "serial4"@ || n == "smallserial"@
}

/// What the rule reports for one column type.
pub open spec fn big_int_type_violations(t: SqlType) -> Seq<ViolationView> {
    match innermost_name(t) {
        Some(n) => if is_narrow_int_name(trimmed_quotes(n.text@)) {
            seq![
                ViolationView {
                    code: Rule::PreferBigInt,
                    message: "Using 32-bit integer fields can result in hitting the max `int` limit."@,
                    text_range: type_range(t),
                    help: Some("Use 64-bit integer values instead to prevent hitting this limit."@),
                    fix: None,
                },
            ]
        } else {
            seq![]
        },
        None => seq![],
    }
}

fn check_big_int_type(ctx: &mut Linter, t: &SqlType)
    ensures
        reports(*old(ctx), *final(ctx), big_int_type_violations(*t)),
{
    if let Some(n) = name_of_type(t) {
        let trimmed = trim_quotes(n.text.as_str());
        let cs = chars_of(trimmed.as_str());
        let s = cs.as_slice();
        if chars_eq_str(s, "smallint") || chars_eq_str(s, "integer") || chars_eq_str(s, "int2") || chars_eq_str(s, "int4")
            || chars_eq_str(s, "serial") || chars_eq_str(s, "serial2") || chars_eq_str(s, "serial4") || chars_eq_str(
            s,
            "smallserial",
        ) {
            let v = Violation::new(
                Rule::PreferBigInt,
                string_of("Using 32-bit integer fields can result in hitting the max `int` limit."),
                range_of_type(t),
                Some(string_of("Use 64-bit integer values instead to prevent hitting this limit.")),
            );
            assert(is_narrow_int_name(trimmed_quotes(n.text@)));
            assert(big_int_type_violations(*t) == seq![v@]);
            ctx.report(v);
            assert(ctx.reported() =~= old(ctx).reported() + seq![v@]);
            return;
        }
    }
    proof {
        assert(old(ctx).reported() + big_int_type_violations(*t) =~= old(ctx).reported());
    }
}

/// Reports each column type that is an integer type narrower than 64 bits.
pub fn prefer_big_int(ctx: &mut Linter, file: &SourceFile)
    ensures
        reports(*old(ctx), *final(ctx), concat_map(file.column_types@, |t: SqlType| big_int_type_violations(t))),
{
    let ghost f = |t: SqlType| big_int_type_violations(t);
    let mut i: usize = 0;
    while i < file.column_types.len()
        invariant
            i <= file.column_types@.len(),
            f == (|t: SqlType| big_int_type_violations(t)),
            reports(*old(ctx), *ctx, concat_map(file.column_types@.take(i as int), f)),
        decreases file.column_types@.len() - i,
    {
        proof {
            lemma_concat_map_step(file.column_types@, f, i as int);
        }
        check_big_int_type(ctx, &file.column_types[i]);
        proof {
            assert(ctx.reported() =~= old(ctx).reported() + concat_map(file.column_types@.take(i + 1), f));
        }
        i = i + 1;
    }
    proof {
        lemma_take_all(file.column_types@);
    }
}

} // verus!
