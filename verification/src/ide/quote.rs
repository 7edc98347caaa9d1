//! Quoting and normalising SQL identifiers.
use vstd::prelude::*;
use crate::linter::string_of;
use crate::text::{ascii_lower_char, ascii_lowercase, chars_of, folded, is_ascii_text, is_lowercase, lower_char, push_char, string_from_chars, to_lowercase};

verus! {

/// A character that may stand in an unquoted identifier after the first.
pub open spec fn plain_ident_char(c: char) -> bool {
    lower_char(c) || ('0' <= c && c <= '9') || c == '_' || c == '$'
}

/// Whether `t` must be quoted to stand as an identifier: it is empty, or
/// starts with neither a lowercase letter nor `_`, or holds a character other
/// than lowercase letters, digits, `_` and `$`.
pub open spec fn needs_quotes(t: Seq<char>) -> bool {
    t.len() == 0 || !(lower_char(t[0]) || t[0] == '_') || exists|k: int|
        1 <= k < t.len() && !plain_ident_char(#[trigger] t[k])
}

/// Whether `text` must be quoted to stand as an identifier.
pub fn needs_quoting(text: &str) -> (r: bool)
    ensures
        r == needs_quotes(text@),
{
    let cs = chars_of(text);
    if cs.len() == 0 {
        return true;
    }
    let first = cs[0];
    if !(is_lowercase(first) || first == '_') {
        return true;
    }
    let mut i: usize = 1;
    while i < cs.len()
        invariant
            1 <= i <= cs@.len(),
            cs@ == text@,
            forall|k: int| 1 <= k < i ==> plain_ident_char(#[trigger] cs@[k]),
        decreases cs@.len() - i,
    {
        let c = cs[i];
        if !(is_lowercase(c) || ('0' <= c && c <= '9') || c == '_' || c == '$') {
            assert(!plain_ident_char(cs@[i as int]));
            return true;
        }
        i = i + 1;
    }
    false
}

/// `s` with each `"` doubled.
pub open spec fn double_quotes(s: Seq<char>) -> Seq<char>
    decreases s.len(),
{
    if s.len() == 0 {
        s
    } else if s.last() == '"' {
        double_quotes(s.drop_last()) + seq!['"', '"']
    } else {
        double_quotes(s.drop_last()).push(s.last())
    }
}

/// A column alias as it must be written: quoted (with its quotes doubled)
/// when it needs quotes, else as it is.
pub open spec fn quoted_alias(text: Seq<char>) -> Seq<char> {
    if needs_quotes(text) {
        seq!['"'] + double_quotes(text) + seq!['"']
    } else {
        text
    }
}

/// `text` written as a column alias.
pub fn quote_column_alias(text: &str) -> (r: String)
    ensures
        r@ == quoted_alias(text@),
{
    if needs_quoting(text) {
        let cs = chars_of(text);
        let mut out = String::new();
        push_char(&mut out, '"');
        let mut i: usize = 0;
        while i < cs.len()
            invariant
                i <= cs@.len(),
                out@ == seq!['"'] + double_quotes(cs@.take(i as int)),
            decreases cs@.len() - i,
        {
            proof {
                assert(cs@.take(i + 1).drop_last() =~= cs@.take(i as int));
            }
            if cs[i] == '"' {
                push_char(&mut out, '"');
                push_char(&mut out, '"');
            } else {
                push_char(&mut out, cs[i]);
            }
            proof {
                assert(out@ =~= seq!['"'] + double_quotes(cs@.take(i + 1)));
            }
            i = i + 1;
        }
        push_char(&mut out, '"');
        proof {
            assert(cs@.take(cs@.len() as int) =~= cs@);
            assert(out@ =~= seq!['"'] + double_quotes(text@) + seq!['"']);
        }
        out
    } else {
        string_of(text)
    }
}

/// The name an identifier denotes: the text between its quotes when it is
/// quoted (and is more than one quote), else the text in lowercase.
pub open spec fn normalized_identifier(s: Seq<char>) -> Seq<char> {
    if s.len() >= 2 && s[0] == '"' && s.last() == '"' {
        s.subrange(1, s.len() - 1)
    } else {
        folded(s)
    }
}

/// The name the identifier `text` denotes.
pub fn normalize_identifier(text: &str) -> (r: String)
    ensures
        r@ == normalized_identifier(text@),
{
    let cs = chars_of(text);
    let n = cs.len();
    if n >= 2 && cs[0] == '"' && cs[n - 1] == '"' {
        string_from_chars(vstd::slice::slice_subrange(cs.as_slice(), 1, n - 1))
    } else {
        to_lowercase(text)
    }
}

/// Doubling the quotes of a text that holds none leaves it as it is.
proof fn lemma_double_quotes_without_quotes(s: Seq<char>)
    requires
        forall|k: int| 0 <= k < s.len() ==> s[k] != '"',
    ensures
        double_quotes(s) == s,
    decreases s.len(),
{
    if s.len() > 0 {
        lemma_double_quotes_without_quotes(s.drop_last());
        assert(s.drop_last().push(s.last()) == s);
    }
}

/// A name that holds no `"`, written as a column alias and then normalised,
/// is the name again, when it is all ASCII or has to be quoted (a name left
/// unquoted is lowercase already, and lowercasing keeps it).
pub proof fn lemma_quote_then_normalize(t: Seq<char>)
    requires
        needs_quotes(t) || is_ascii_text(t),
        forall|k: int| 0 <= k < t.len() ==> t[k] != '"',
    ensures
        normalized_identifier(quoted_alias(t)) == t,
{
    if needs_quotes(t) {
        lemma_double_quotes_without_quotes(t);
        let q = seq!['"'] + t + seq!['"'];
        assert(q.subrange(1, q.len() - 1) =~= t);
    } else {
        assert(t[0] != '"');
        assert forall|k: int| 0 <= k < t.len() implies #[trigger] ascii_lower_char(t[k]) == t[k] by {
            if k > 0 {
                assert(plain_ident_char(t[k]));
            }
        }
        assert(ascii_lowercase(t) =~= t);
    }
}

/// An ASCII character that may stand in an unquoted identifier after the
/// first: `a`-`z`, `0`-`9`, `_` or `$`.
pub open spec fn ascii_ident_char(c: char) -> bool {
    ('a' <= c <= 'z') || ('0' <= c <= '9') || c == '_' || c == '$'
}

/// A name holding an ASCII character other than `a`-`z`, `0`-`9`, `_` and
/// `$` (a space, a capital letter, a quote, punctuation), or starting with a
/// digit or `$`, or empty, needs quotes and is written between double quotes
/// with its quotes doubled; a name of `a`-`z`, `0`-`9`, `_` and `$` alone
/// that starts with `a`-`z` or `_` is written as it is.
pub proof fn lemma_which_names_are_quoted(t: Seq<char>)
    ensures
        (t.len() == 0 || (exists|k: int| 0 <= k < t.len() && (#[trigger] t[k] as u32) < 0x80 && !ascii_ident_char(t[k]))
            || ('0' <= t[0] <= '9') || t[0] == '$') ==> needs_quotes(t) && quoted_alias(t) == seq!['"']
            + double_quotes(t) + seq!['"'],
        (t.len() > 0 && (('a' <= t[0] <= 'z') || t[0] == '_') && forall|k: int|
            0 <= k < t.len() ==> ascii_ident_char(#[trigger] t[k])) ==> !needs_quotes(t) && quoted_alias(t) == t,
{
    if t.len() > 0 {
        if exists|k: int| 0 <= k < t.len() && (#[trigger] t[k] as u32) < 0x80 && !ascii_ident_char(t[k]) {
            let k = choose|k: int| 0 <= k < t.len() && (#[trigger] t[k] as u32) < 0x80 && !ascii_ident_char(t[k]);
            if k == 0 {
                assert(!lower_char(t[0]));
            } else {
                assert(!plain_ident_char(t[k]));
            }
        }
        if (('a' <= t[0] <= 'z') || t[0] == '_') && forall|k: int| 0 <= k < t.len() ==> ascii_ident_char(#[trigger] t[k]) {
            assert forall|k: int| 1 <= k < t.len() implies plain_ident_char(#[trigger] t[k]) by {
                assert(ascii_ident_char(t[k]));
            }
        }
    }
}

} // verus!
