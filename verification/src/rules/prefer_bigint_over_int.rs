//! `prefer-bigint-over-int`: 32-bit integer columns can run out of values.
use vstd::prelude::*;
use crate::identifier::{identifier_name, Identifier};
use crate::lint::Linter;
use crate::linter::{string_of, Edit, EditView, Fix, FixView, Rule, TextRange, Violation, ViolationView};
use crate::rules::{concat_map, lemma_concat_map_step, lemma_take_all, reports};
use crate::rules::column_types::{first_token, first_token_of, innermost_name, lemma_innermost_name_ok, name_of_type, range_of_type};
use crate::syntax::{type_ok, type_range, SourceFile, SqlType};
use crate::text::{chars_eq_str, chars_of, folded, push_str, to_lowercase};

verus! {

/// The 64-bit type that replaces the 32-bit integer type named `lower` (in
/// lowercase).
pub open spec fn bigint_replacement(lower: Seq<char>) -> Seq<char> {
    if lower == "int"@ || lower == "integer"@ {
        "bigint"@
    } else if lower == "int4"@ {
        "int8"@
    } else if lower == "serial"@ {
        "bigserial"@
    } else if lower == "serial4"@ {
        "serial8"@
    } else {
        "bigint"@
    }
}

/// The 64-bit type to use in place of the 32-bit integer type `int_type`.
pub fn int_to_bigint_replacement(int_type: &str) -> (r: &'static str)
    ensures
        r@ == bigint_replacement(folded(int_type@)),
{
    let lower = to_lowercase(int_type);
    let cs = chars_of(lower.as_str());
    if chars_eq_str(cs.as_slice(), "int") || chars_eq_str(cs.as_slice(), "integer") {
        "bigint"
    } else if chars_eq_str(cs.as_slice(), "int4") {
        "int8"
    } else if chars_eq_str(cs.as_slice(), "serial") {
        "bigserial"
    } else if chars_eq_str(cs.as_slice(), "serial4") {
        "serial8"
    } else {
        "bigint"
    }
}

/// The 32-bit integer types, by the name they denote.
pub open spec fn is_int4_name(n: Seq<char>) -> bool {
    n == "int"@ || n == "integer"@ || n == "int4"@ || n == "serial"@ || n == "serial4"@
}

/// The fix that replaces `range` with the 64-bit integer type `i64`.
pub open spec fn bigint_fix(range: TextRange, i64: Seq<char>) -> FixView {
    FixView {
        title: "Replace with a 64-bit integer type: `"@ + i64 + "`"@,
        edits: seq![EditView { text_range: range, text: Some(i64) }],
    }
}

/// What the rule reports for one column type: a type (or an array of a type)
/// named by a 32-bit integer type, with a fix that replaces the whole type by
/// the 64-bit type for its first token.
pub open spec fn int_type_violations(t: SqlType) -> Seq<ViolationView> {
    match innermost_name(t) {
        Some(n) => if is_int4_name(identifier_name(n.text@)) {
            seq![
                ViolationView {
                    code: Rule::PreferBigintOverInt,
                    message: "Using 32-bit integer fields can result in hitting the max `int` limit."@,
                    text_range: type_range(t),
                    help: Some("Use 64-bit integer values instead to prevent hitting this limit."@),
                    fix: match first_token(t) {
                        Some(f) => Some(bigint_fix(type_range(t), bigint_replacement(folded(f)))),
                        None => None,
                    },
                },
            ]
        } else {
            seq![]
        },
        None => seq![],
    }
}

/// The fix that replaces `range` with `i64`.
pub fn make_bigint_fix(range: TextRange, i64: &str) -> (f: Fix)
    ensures
        f@ == bigint_fix(range, i64@),
{
    let mut title = string_of("Replace with a 64-bit integer type: `");
    push_str(&mut title, i64);
    push_str(&mut title, "`");
    let mut edits: Vec<Edit> = Vec::new();
    edits.push(Edit::replace(range, string_of(i64)));
    let f = Fix { title, edits };
    assert(f@.edits =~= bigint_fix(range, i64@).edits);
    f
}

fn check_int_type(ctx: &mut Linter, t: &SqlType)
    requires
        type_ok(*t),
    ensures
        reports(*old(ctx), *final(ctx), int_type_violations(*t)),
{
    proof {
        lemma_innermost_name_ok(*t);
    }
    if let Some(n) = name_of_type(t) {
        let id = Identifier::new(n.text.as_str());
        let cs = chars_of(id.as_str());
        let s = cs.as_slice();
        if chars_eq_str(s, "int") || chars_eq_str(s, "integer") || chars_eq_str(s, "int4") || chars_eq_str(s, "serial")
            || chars_eq_str(s, "serial4") {
            let range = range_of_type(t);
            let fix = match first_token_of(t) {
                Some(f) => Some(make_bigint_fix(range, int_to_bigint_replacement(f.as_str()))),
                None => None,
            };
            let v = Violation::for_range(
                Rule::PreferBigintOverInt,
                string_of("Using 32-bit integer fields can result in hitting the max `int` limit."),
                range,
            ).help("Use 64-bit integer values instead to prevent hitting this limit.").fix(fix);
            assert(is_int4_name(identifier_name(n.text@)));
            assert(int_type_violations(*t) == seq![v@]);
            ctx.report(v);
            assert(ctx.reported() =~= old(ctx).reported() + seq![v@]);
            return;
        }
    }
    proof {
        assert(old(ctx).reported() + int_type_violations(*t) =~= old(ctx).reported());
    }
}

/// Reports each column type that is a 32-bit integer type.
pub fn prefer_bigint_over_int(ctx: &mut Linter, file: &SourceFile)
    requires
        file.types_ok(),
    ensures
        reports(*old(ctx), *final(ctx), concat_map(file.column_types@, |t: SqlType| int_type_violations(t))),
{
    let ghost f = |t: SqlType| int_type_violations(t);
    let mut i: usize = 0;
    while i < file.column_types.len()
        invariant
            i <= file.column_types@.len(),
            file.types_ok(),
            f == (|t: SqlType| int_type_violations(t)),
            reports(*old(ctx), *ctx, concat_map(file.column_types@.take(i as int), f)),
        decreases file.column_types@.len() - i,
    {
        proof {
            lemma_concat_map_step(file.column_types@, f, i as int);
        }
        let ghost before = *ctx;
        check_int_type(ctx, &file.column_types[i]);
        proof {
            assert(ctx.reported() =~= old(ctx).reported() + concat_map(file.column_types@.take(i + 1), f));
        }
        i = i + 1;
    }
    proof {
        lemma_take_all(file.column_types@);
    }
}

} // verus!
