//! `prefer-text-field`: changing the size of a `varchar` takes a lock that
//! blocks reads and writes; `text` with a `CHECK` constraint does not.
use vstd::prelude::*;
use crate::identifier::{identifier_name, Identifier};
use crate::lint::Linter;
use crate::linter::{string_of, Edit, EditView, Fix, FixView, Rule, TextRange, Violation, ViolationView};
use crate::rules::{concat_map, lemma_concat_map_step, lemma_take_all, reports};
use crate::rules::column_types::range_of_type;
use crate::syntax::{type_ok, type_range, SourceFile, SqlType};
use crate::text::{chars_eq_str, chars_of};

verus! {

/// Whether `t` is (or is an array of) a `varchar` with a length.
pub open spec fn is_sized_varchar(t: SqlType) -> bool
    decreases t,
{
    match t {
        SqlType::Array { elem: Some(e), .. } => is_sized_varchar(*e),
        SqlType::Path { name: Some(n), args, .. } => identifier_name(n.text@) == "varchar"@ && args is Some,
        SqlType::Char { text, args, .. } => identifier_name(text@) == "varchar"@ && args is Some,
        _ => false,
    }
}

/// The range that the fix replaces by `text`: the whole named or character
/// type, or the element type of an array.
pub open spec fn text_fix_range(t: SqlType) -> Option<TextRange> {
    match t {
        SqlType::Path { range, .. } => Some(range),
        SqlType::Char { range, .. } => Some(range),
        SqlType::Array { elem: Some(e), .. } => Some(type_range(*e)),
        _ => None,
    }
}

pub open spec fn text_fix(range: TextRange) -> FixView {
    FixView { title: "Replace with `text`"@, edits: seq![EditView { text_range: range, text: Some("text"@) }] }
}

/// What the rule reports for one column type.
pub open spec fn varchar_type_violations(t: SqlType) -> Seq<ViolationView> {
    if is_sized_varchar(t) {
        seq![
            ViolationView {
                code: Rule::PreferTextField,
                message: "Changing the size of a `varchar` field requires an `ACCESS EXCLUSIVE` lock, that will prevent all reads and writes to the table."@,
                text_range: type_range(t),
                help: Some("Use a `TEXT` field with a `CHECK` constraint."@),
                fix: match text_fix_range(t) {
                    Some(r) => Some(text_fix(r)),
                    None => None,
                },
            },
        ]
    } else {
        seq![]
    }
}

fn is_varchar(text: &str) -> (b: bool)
    requires
        text@ != seq!['"'],
    ensures
        b == (identifier_name(text@) == "varchar"@),
{
    let id = Identifier::new(text);
    let cs = chars_of(id.as_str());
    chars_eq_str(cs.as_slice(), "varchar")
}

fn sized_varchar(t: &SqlType) -> (b: bool)
    requires
        type_ok(*t),
    ensures
        b == is_sized_varchar(*t),
    decreases t,
{
    match t {
        SqlType::Array { elem: Some(e), .. } => sized_varchar(&**e),
        SqlType::Path { name: Some(n), args, .. } => is_varchar(n.text.as_str()) && args.is_some(),
        SqlType::Char { text, args, .. } => is_varchar(text.as_str()) && args.is_some(),
        _ => false,
    }
}

fn fix_range(t: &SqlType) -> (r: Option<TextRange>)
    ensures
        r == text_fix_range(*t),
{
    match t {
        SqlType::Path { range, .. } => Some(*range),
        SqlType::Char { range, .. } => Some(*range),
        SqlType::Array { elem: Some(e), .. } => Some(range_of_type(&**e)),
        _ => None,
    }
}

fn check_varchar_type(ctx: &mut Linter, t: &SqlType)
    requires
        type_ok(*t),
    ensures
        reports(*old(ctx), *final(ctx), varchar_type_violations(*t)),
{
    if sized_varchar(t) {
        let fix = match fix_range(t) {
            Some(r) => {
                let mut edits: Vec<Edit> = Vec::new();
                edits.push(Edit::replace(r, string_of("text")));
                let f = Fix::new("Replace with `text`", edits);
                assert(f@.edits =~= text_fix(r).edits);
                Some(f)
            },
            None => None,
        };
        let v = Violation::for_range(
            Rule::PreferTextField,
            string_of("Changing the size of a `varchar` field requires an `ACCESS EXCLUSIVE` lock, that will prevent all reads and writes to the table."),
            range_of_type(t),
        ).help("Use a `TEXT` field with a `CHECK` constraint.").fix(fix);
        assert(varchar_type_violations(*t) == seq![v@]);
        ctx.report(v);
        assert(ctx.reported() =~= old(ctx).reported() + seq![v@]);
    } else {
        assert(old(ctx).reported() + varchar_type_violations(*t) =~= old(ctx).reported());
    }
}

/// Reports each column type that is (or is an array of) a `varchar` with a
/// length.
pub fn prefer_text_field(ctx: &mut Linter, file: &SourceFile)
    requires
        file.types_ok(),
    ensures
        reports(*old(ctx), *final(ctx), concat_map(file.column_types@, |t: SqlType| varchar_type_violations(t))),
{
    let ghost f = |t: SqlType| varchar_type_violations(t);
    let mut i: usize = 0;
    while i < file.column_types.len()
        invariant
            i <= file.column_types@.len(),
            file.types_ok(),
            f == (|t: SqlType| varchar_type_violations(t)),
            reports(*old(ctx), *ctx, concat_map(file.column_types@.take(i as int), f)),
        decreases file.column_types@.len() - i,
    {
        proof {
            lemma_concat_map_step(file.column_types@, f, i as int);
        }
        check_varchar_type(ctx, &file.column_types[i]);
        proof {
            assert(ctx.reported() =~= old(ctx).reported() + concat_map(file.column_types@.take(i + 1), f));
        }
        i = i + 1;
    }
    proof {
        lemma_take_all(file.column_types@);
    }
}

} // verus!
