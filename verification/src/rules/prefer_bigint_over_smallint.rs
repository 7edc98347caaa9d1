//! `prefer-bigint-over-smallint`: 16-bit integer columns can run out of
//! values.
use vstd::prelude::*;
use crate::identifier::{identifier_name, Identifier};
use crate::lint::Linter;
use crate::linter::{string_of, Rule, Violation, ViolationView};
use crate::rules::{concat_map, lemma_concat_map_step, lemma_take_all, reports};
use crate::rules::column_types::{innermost_name, lemma_innermost_name_ok, name_of_type, range_of_type};
use crate::rules::prefer_bigint_over_int::{bigint_fix, make_bigint_fix};
use crate::syntax::{type_ok, type_range, SourceFile, SqlType};
use crate::text::{chars_eq_str, chars_of};

verus! {

/// The 64-bit type that replaces the 16-bit integer type named `t`.
pub open spec fn smallint_replacement(t: Seq<char>) -> Seq<char> {
    if t == "smallint"@ {
        "bigint"@
    } else if t == "int2"@ {
        "int8"@
    } else if t == "smallserial"@ {
        "bigserial"@
    } else if t == "serial2"@ {
        "serial8"@
    } else {
        "bigint"@
    }
}

/// The 64-bit type to use in place of the 16-bit integer type
/// `smallint_type`.
pub fn smallint_to_bigint(smallint_type: &str) -> (r: &'static str)
    ensures
        r@ == smallint_replacement(smallint_type@),
{
    let cs = chars_of(smallint_type);
    if chars_eq_str(cs.as_slice(), "smallint") {
        "bigint"
    } else if chars_eq_str(cs.as_slice(), "int2") {
        "int8"
    } else if chars_eq_str(cs.as_slice(), "smallserial") {
        "bigserial"
    } else if chars_eq_str(cs.as_slice(), "serial2") {
        "serial8"
    } else {
        "bigint"
    }
}

/// The 16-bit integer types, by the name they denote.
pub open spec fn is_int2_name(n: Seq<char>) -> bool {
    n == "smallint"@ || n == "int2"@ || n == "smallserial"@ || n == "serial2"@
}

/// What the rule reports for one column type: a type (or an array of a type)
/// named by a 16-bit integer type, with a fix that replaces that name by the
/// matching 64-bit type.
pub open spec fn smallint_type_violations(t: SqlType) -> Seq<ViolationView> {
    match innermost_name(t) {
        Some(n) => if is_int2_name(identifier_name(n.text@)) {
            seq![
                ViolationView {
                    code: Rule::PreferBigintOverSmallint,
                    message: "Using 16-bit integer fields can result in hitting the max `int` limit."@,
                    text_range: type_range(t),
                    help: Some("Use 64-bit integer values instead to prevent hitting this limit."@),
                    fix: Some(bigint_fix(n.range, smallint_replacement(identifier_name(n.text@)))),
                },
            ]
        } else {
            seq![]
        },
        None => seq![],
    }
}

fn check_smallint_type(ctx: &mut Linter, t: &SqlType)
    requires
        type_ok(*t),
    ensures
        reports(*old(ctx), *final(ctx), smallint_type_violations(*t)),
{
    proof {
        lemma_innermost_name_ok(*t);
    }
    if let Some(n) = name_of_type(t) {
        let id = Identifier::new(n.text.as_str());
        let cs = chars_of(id.as_str());
        let s = cs.as_slice();
        if chars_eq_str(s, "smallint") || chars_eq_str(s, "int2") || chars_eq_str(s, "smallserial") || chars_eq_str(s, "serial2") {
            let fix = make_bigint_fix(n.range, smallint_to_bigint(id.as_str()));
            let v = Violation::for_range(
                Rule::PreferBigintOverSmallint,
                string_of("Using 16-bit integer fields can result in hitting the max `int` limit."),
                range_of_type(t),
            ).help("Use 64-bit integer values instead to prevent hitting this limit.").fix(Some(fix));
            assert(is_int2_name(identifier_name(n.text@)));
            assert(smallint_type_violations(*t) == seq![v@]);
            ctx.report(v);
            assert(ctx.reported() =~= old(ctx).reported() + seq![v@]);
            return;
        }
    }
    proof {
        assert(old(ctx).reported() + smallint_type_violations(*t) =~= old(ctx).reported());
    }
}

/// Reports each column type that is a 16-bit integer type.
pub fn prefer_bigint_over_smallint(ctx: &mut Linter, file: &SourceFile)
    requires
        file.types_ok(),
    ensures
        reports(*old(ctx), *final(ctx), concat_map(file.column_types@, |t: SqlType| smallint_type_violations(t))),
{
    let ghost f = |t: SqlType| smallint_type_violations(t);
    let mut i: usize = 0;
    while i < file.column_types.len()
        invariant
            i <= file.column_types@.len(),
            file.types_ok(),
            f == (|t: SqlType| smallint_type_violations(t)),
            reports(*old(ctx), *ctx, concat_map(file.column_types@.take(i as int), f)),
        decreases file.column_types@.len() - i,
    {
        proof {
            lemma_concat_map_step(file.column_types@, f, i as int);
        }
        check_smallint_type(ctx, &file.column_types[i]);
        proof {
            assert(ctx.reported() =~= old(ctx).reported() + concat_map(file.column_types@.take(i + 1), f));
        }
        i = i + 1;
    }
    proof {
        lemma_take_all(file.column_types@);
    }
}

} // verus!
