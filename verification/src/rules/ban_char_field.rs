//! `ban-char-field`: `character` pads its values with spaces, which is almost
//! never what is wanted.
use vstd::prelude::*;
use crate::identifier::{identifier_name, Identifier};
use crate::lint::Linter;
use crate::linter::{string_of, Edit, EditView, Fix, FixView, Rule, TextRange, Violation, ViolationView};
use crate::rules::{concat_map, lemma_concat_map_step, lemma_take_all, reports};
use crate::syntax::{type_ok, SourceFile, SqlType};
use crate::text::{chars_eq_str, chars_of};

verus! {

/// The names of the blank-padded character type.
pub open spec fn is_char_name(n: Seq<char>) -> bool {
    n == "char"@ || n == "character"@ || n == "bpchar"@
}

/// The fix for a character type whose name is at `range`: with an argument
/// list, the name becomes `varchar`; without one, `text`.
pub open spec fn char_fix(range: TextRange, args: Option<TextRange>) -> FixView {
    match args {
        Some(a) => FixView {
            title: "Replace with `varchar`"@,
            edits: seq![EditView { text_range: TextRange { start: range.start, end: a.start }, text: Some("varchar"@) }],
        },
        None => FixView {
            title: "Replace with `text`"@,
            edits: seq![EditView { text_range: range, text: Some("text"@) }],
        },
    }
}

pub open spec fn char_violation(range: TextRange, fix: FixView) -> ViolationView {
    ViolationView {
        code: Rule::BanCharField,
        message: "Using `character` is likely a mistake and should almost always be replaced by `text` or `varchar`."@,
        text_range: range,
        help: None,
        fix: Some(fix),
    }
}

/// What the rule reports for a named or character type itself.
pub open spec fn char_type_violations_at(t: SqlType) -> Seq<ViolationView> {
    match t {
        SqlType::Path { range, name: Some(n), args, .. } => if is_char_name(identifier_name(n.text@)) {
            seq![char_violation(range, char_fix(n.range, args))]
        } else {
            seq![]
        },
        SqlType::Char { range, text, args, .. } => if is_char_name(identifier_name(text@)) {
            seq![char_violation(range, char_fix(range, args))]
        } else {
            seq![]
        },
        _ => seq![],
    }
}

/// What the rule reports for one column type: the type, or the element type
/// of an array.
pub open spec fn char_field_violations(t: SqlType) -> Seq<ViolationView> {
    match t {
        SqlType::Array { elem: Some(e), .. } => char_type_violations_at(*e),
        _ => char_type_violations_at(t),
    }
}

fn make_char_fix(range: TextRange, args: Option<TextRange>) -> (f: Fix)
    requires
        args matches Some(a) ==> range.start <= a.start,
    ensures
        f@ == char_fix(range, args),
{
    let mut edits: Vec<Edit> = Vec::new();
    match args {
        Some(a) => {
            edits.push(Edit::replace(TextRange::new(range.start, a.start), string_of("varchar")));
            let f = Fix::new("Replace with `varchar`", edits);
            assert(f@.edits =~= char_fix(range, args).edits);
            f
        },
        None => {
            edits.push(Edit::replace(range, string_of("text")));
            let f = Fix::new("Replace with `text`", edits);
            assert(f@.edits =~= char_fix(range, args).edits);
            f
        },
    }
}

fn is_char_type(text: &str) -> (b: bool)
    requires
        text@ != seq!['"'],
    ensures
        b == is_char_name(identifier_name(text@)),
{
    let id = Identifier::new(text);
    let cs = chars_of(id.as_str());
    chars_eq_str(cs.as_slice(), "char") || chars_eq_str(cs.as_slice(), "character") || chars_eq_str(
        cs.as_slice(),
        "bpchar",
    )
}

fn report_char(ctx: &mut Linter, range: TextRange, fix: Fix)
    ensures
        reports(*old(ctx), *final(ctx), seq![char_violation(range, fix@)]),
{
    let v = Violation::for_range(
        Rule::BanCharField,
        string_of("Using `character` is likely a mistake and should almost always be replaced by `text` or `varchar`."),
        range,
    ).fix(Some(fix));
    ctx.report(v);
    assert(ctx.reported() =~= old(ctx).reported() + seq![char_violation(range, fix@)]);
}

fn check_char_at(ctx: &mut Linter, t: &SqlType)
    requires
        type_ok(*t),
    ensures
        reports(*old(ctx), *final(ctx), char_type_violations_at(*t)),
{
    match t {
        SqlType::Path { range, name: Some(n), args, .. } => {
            if is_char_type(n.text.as_str()) {
                report_char(ctx, *range, make_char_fix(n.range, *args));
                return;
            }
        },
        SqlType::Char { range, text, args, .. } => {
            if is_char_type(text.as_str()) {
                report_char(ctx, *range, make_char_fix(*range, *args));
                return;
            }
        },
        _ => {},
    }
    proof {
        assert(old(ctx).reported() + char_type_violations_at(*t) =~= old(ctx).reported());
    }
}

fn check_char_field(ctx: &mut Linter, t: &SqlType)
    requires
        type_ok(*t),
    ensures
        reports(*old(ctx), *final(ctx), char_field_violations(*t)),
{
    match t {
        SqlType::Array { elem: Some(e), .. } => check_char_at(ctx, &**e),
        _ => check_char_at(ctx, t),
    }
}

/// Reports each column type that is (or is an array of) the blank-padded
/// character type.
pub fn ban_char_field(ctx: &mut Linter, file: &SourceFile)
    requires
        file.types_ok(),
    ensures
        reports(*old(ctx), *final(ctx), concat_map(file.column_types@, |t: SqlType| char_field_violations(t))),
{
    let ghost f = |t: SqlType| char_field_violations(t);
    let mut i: usize = 0;
    while i < file.column_types.len()
        invariant
            i <= file.column_types@.len(),
            file.types_ok(),
            f == (|t: SqlType| char_field_violations(t)),
            reports(*old(ctx), *ctx, concat_map(file.column_types@.take(i as int), f)),
        decreases file.column_types@.len() - i,
    {
        proof {
            lemma_concat_map_step(file.column_types@, f, i as int);
        }
        check_char_field(ctx, &file.column_types[i]);
        proof {
            assert(ctx.reported() =~= old(ctx).reported() + concat_map(file.column_types@.take(i + 1), f));
        }
        i = i + 1;
    }
    proof {
        lemma_take_all(file.column_types@);
    }
}

} // verus!
