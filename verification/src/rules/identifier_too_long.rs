//! `identifier-too-long`: Postgres silently truncates identifiers longer than
//! 63 bytes.
use vstd::prelude::*;
use vstd::string::StringSliceAdditionalSpecFns;
use vstd::utf8::{decode_utf8, encode_utf8, is_char_boundary};
use crate::lint::Linter;
use crate::linter::{string_of, Edit, EditView, Fix, FixView, Rule, TextRange, Violation, ViolationView};
use crate::rules::{concat_map, lemma_concat_map_step, lemma_take_all, reports};
use crate::syntax::{NameLike, SourceFile};
use crate::ide::quote::{needs_quotes, needs_quoting};
use crate::text::{chars_of, push_str};

verus! {

broadcast use vstd::utf8::encode_utf8_decode_utf8;

/// The longest identifier Postgres keeps whole, in bytes (`NAMEDATALEN - 1`).
pub const MAX_IDENT_BYTES: usize = 63;

/// The largest character boundary of `b` at or below `k`.
pub open spec fn floor_boundary(b: Seq<u8>, k: int) -> int
    decreases k,
{
    if k <= 0 {
        0
    } else if k <= b.len() && is_char_boundary(b, k) {
        k
    } else {
        floor_boundary(b, k - 1)
    }
}

/// `text` cut to its first `MAX_IDENT_BYTES` bytes, backing off to a whole
/// character.
pub open spec fn truncated_text(text: Seq<char>) -> Seq<char> {
    decode_utf8(encode_utf8(text).subrange(0, floor_boundary(encode_utf8(text), 63)))
}

/// Whether `raw` holds two quotes at `k`.
pub open spec fn quote_pair_at(raw: Seq<char>, k: int) -> bool {
    raw[k] == '"' && raw[k + 1] == '"'
}

/// Whether a quoted identifier as written holds an escaped quote (`""`).
pub open spec fn holds_escaped_quote(raw: Seq<char>) -> bool {
    raw.len() >= 2 && raw[0] == '"' && raw.last() == '"' && exists|k: int|
        1 <= k && k + 1 < raw.len() - 1 && #[trigger] quote_pair_at(raw, k)
}

/// The truncated name as it should be written, unless the name as written
/// holds an escaped quote.
pub open spec fn truncation(raw: Seq<char>, text: Seq<char>) -> Option<Seq<char>> {
    if holds_escaped_quote(raw) {
        None
    } else {
        let t = truncated_text(text);
        if (raw.len() >= 1 && raw[0] == '"') || needs_quotes(t) {
            Some(seq!['"'] + t + seq!['"'])
        } else {
            Some(t)
        }
    }
}

/// What the rule reports for one name.
pub open spec fn name_violations(n: NameLike) -> Seq<ViolationView> {
    if encode_utf8(n.text@).len() <= 63 {
        seq![]
    } else {
        seq![
            ViolationView {
                code: Rule::IdentifierTooLong,
                message: "`"@ + n.text@ + "` is too long and will be truncated to 63 bytes."@,
                text_range: n.range,
                help: None,
                fix: match truncation(n.raw@, n.text@) {
                    Some(t) => Some(
                        FixView {
                            title: "Rename to `"@ + t + "`"@,
                            edits: seq![EditView { text_range: n.range, text: Some(t) }],
                        },
                    ),
                    None => None,
                },
            },
        ]
    }
}

pub fn has_escaped_quotes(raw: &str) -> (r: bool)
    ensures
        r == holds_escaped_quote(raw@),
{
    let cs = chars_of(raw);
    let n = cs.len();
    if n < 2 || cs[0] != '"' || cs[n - 1] != '"' {
        return false;
    }
    let mut k: usize = 1;
    while k + 1 < n - 1
        invariant
            1 <= k < n,
            n == cs@.len(),
            n >= 2,
            cs@ == raw@,
            cs@[0] == '"',
            cs@[n - 1] == '"',
            forall|m: int| 1 <= m < k && m + 1 < n - 1 ==> !#[trigger] quote_pair_at(cs@, m),
        decreases n - k,
    {
        if cs[k] == '"' && cs[k + 1] == '"' {
            assert(quote_pair_at(cs@, k as int));
            return true;
        }
        k = k + 1;
    }
    false
}

fn truncate(raw: &String, text: &String) -> (r: Option<String>)
    requires
        encode_utf8(text@).len() > 63,
    ensures
        match r {
            Some(t) => truncation(raw@, text@) == Some(t@),
            None => truncation(raw@, text@) is None,
        },
{
    if has_escaped_quotes(raw.as_str()) {
        return None;
    }
    let ident = text.as_str();
    let ghost b = ident.spec_bytes();
    let mut k: usize = MAX_IDENT_BYTES;
    while k > 0 && !ident.is_char_boundary(k)
        invariant
            k <= 63,
            b == ident.spec_bytes(),
            b.len() > 63,
            floor_boundary(b, k as int) == floor_boundary(b, 63),
        decreases k,
    {
        k = k - 1;
    }
    proof {
        vstd::utf8::encode_utf8_valid_utf8(ident@);
        if k == 0 {
            vstd::utf8::is_char_boundary_start_end_of_seq(b);
        }
    }
    let truncated = ident.split_at(k).0;
    proof {
        assert(truncated.spec_bytes() == b.subrange(0, floor_boundary(b, 63)));
        assert(truncated@ == decode_utf8(encode_utf8(truncated@)));
    }
    let quoted = {
        let cs = chars_of(raw.as_str());
        cs.len() >= 1 && cs[0] == '"'
    };
    if quoted || needs_quoting(truncated) {
        let mut r = string_of("\"");
        push_str(&mut r, truncated);
        push_str(&mut r, "\"");
        proof {
            reveal_strlit("\"");
        }
        Some(r)
    } else {
        Some(string_of(truncated))
    }
}

fn check_name(ctx: &mut Linter, name_like: &NameLike)
    ensures
        reports(*old(ctx), *final(ctx), name_violations(*name_like)),
{
    let ident = name_like.text.as_str();
    assert(ident.spec_bytes() == encode_utf8(name_like.text@));
    if ident.as_bytes().len() <= MAX_IDENT_BYTES {
        assert(ctx.reported() =~= old(ctx).reported() + Seq::<ViolationView>::empty());
        return;
    }
    let fix = match truncate(&name_like.raw, &name_like.text) {
        Some(truncated) => {
            let mut title = string_of("Rename to `");
            push_str(&mut title, truncated.as_str());
            push_str(&mut title, "`");
            let mut edits: Vec<Edit> = Vec::new();
            edits.push(Edit::replace(name_like.range, truncated));
            let f = Fix::new(title.as_str(), edits);
            Some(f)
        },
        None => None,
    };
    let mut message = string_of("`");
    push_str(&mut message, ident);
    push_str(&mut message, "` is too long and will be truncated to 63 bytes.");
    let ghost fix_view = crate::linter::opt_fix(fix);
    proof {
        let v = name_violations(*name_like)[0];
        if fix is Some {
            assert(fix_view->0.edits =~= v.fix->0.edits);
        }
    }
    ctx.report(Violation::for_range(Rule::IdentifierTooLong, message, name_like.range).fix(fix));
    proof {
        assert(ctx.reported() =~= old(ctx).reported() + name_violations(*name_like));
    }
}

/// Reports each name longer than `MAX_IDENT_BYTES` bytes.
pub fn identifier_too_long(ctx: &mut Linter, file: &SourceFile)
    ensures
        reports(*old(ctx), *final(ctx), concat_map(file.names@, |n: NameLike| name_violations(n))),
{
    let ghost f = |n: NameLike| name_violations(n);
    let mut i: usize = 0;
    while i < file.names.len()
        invariant
            i <= file.names@.len(),
            f == (|n: NameLike| name_violations(n)),
            reports(*old(ctx), *ctx, concat_map(file.names@.take(i as int), f)),
        decreases file.names@.len() - i,
    {
        proof {
            lemma_concat_map_step(file.names@, f, i as int);
        }
        check_name(ctx, &file.names[i]);
        proof {
            assert(ctx.reported() =~= old(ctx).reported() + concat_map(file.names@.take(i + 1), f));
        }
        i = i + 1;
    }
    proof {
        lemma_take_all(file.names@);
    }
}

} // verus!
