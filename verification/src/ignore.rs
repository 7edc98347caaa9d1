//! Comments that switch rules off: `-- squawk-ignore rule, ...` for the next
//! line and `-- squawk-ignore-file [rule, ...]` for the whole file.
use vstd::prelude::*;
use vstd::string::StringSliceAdditionalSpecFns;
use vstd::utf8::{
    decode_utf8, encode_scalar, encode_utf8, encode_utf8_decode_utf8, encode_utf8_valid_utf8, is_char_boundary,
    is_char_boundary_iff_not_is_continuation_byte, is_char_boundary_start_end_of_seq, valid_utf8, valid_utf8_split,
};
use crate::boundary::{lemma_after_ascii_is_boundary, lemma_ascii_is_boundary};
use crate::lexer::tokenize;
use crate::lexer_spec::{block_comment_end, byte_at, lemma_next_token_end, lemma_span, next_token, tokens_from, ByteClass};
use crate::token::{Token, TokenKind};
use crate::lint::Linter;
use crate::linter::{plain_violation, rule_from_name, string_of, Rule, TextRange, Violation, ViolationView};
use crate::rules::reports;
use crate::text::{chars_of, push_str, string_from_chars};

verus! {

broadcast use vstd::utf8::char_is_scalar;

/// Whether a comment switches rules off for the line after it or for the
/// whole file.
#[derive(Debug, Clone, Copy, PartialEq, Eq, Structural)]
pub enum IgnoreKind {
    File,
    Line,
}

/// An ignore comment: the range of its rule names, the rules it names, and
/// its kind.
#[derive(Debug, Clone)]
pub struct Ignore {
    pub range: TextRange,
    pub violation_names: Vec<Rule>,
    pub kind: IgnoreKind,
}

/// An ignore comment as the specifications see it.
pub struct IgnoreView {
    pub range: TextRange,
    pub names: Seq<Rule>,
    pub kind: IgnoreKind,
}

impl View for Ignore {
    type V = IgnoreView;

    open spec fn view(&self) -> IgnoreView {
        IgnoreView { range: self.range, names: self.violation_names@, kind: self.kind }
    }
}

/// The views of a run of ignores.
pub open spec fn ignore_views(s: Seq<Ignore>) -> Seq<IgnoreView> {
    s.map_values(|i: Ignore| i@)
}

/// The comment text that marks a line ignore.
pub const IGNORE_LINE_TEXT: &'static str = "squawk-ignore";

/// The comment text that marks a file ignore.
pub const IGNORE_FILE_TEXT: &'static str = "squawk-ignore-file";

/// Unicode white space, as `char::is_whitespace` and the `trim` family of
/// `str` know it.
pub open spec fn is_white_space(c: char) -> bool {
    ('\t' <= c && c <= '\r') || c == ' ' || c == '\u{85}' || c == '\u{a0}' || c == '\u{1680}' || (
    '\u{2000}' <= c && c <= '\u{200a}') || c == '\u{2028}' || c == '\u{2029}' || c == '\u{202f}' || c
        == '\u{205f}' || c == '\u{3000}'
}

fn white_space(c: char) -> (b: bool)
    ensures
        b == is_white_space(c),
{
    ('\t' <= c && c <= '\r') || c == ' ' || c == '\u{85}' || c == '\u{a0}' || c == '\u{1680}' || (
    '\u{2000}' <= c && c <= '\u{200a}') || c == '\u{2028}' || c == '\u{2029}' || c == '\u{202f}' || c
        == '\u{205f}' || c == '\u{3000}'
}

/// The length in bytes of `cs` written in UTF-8.
pub open spec fn utf8_len(cs: Seq<char>) -> nat {
    encode_utf8(cs).len()
}

/// Writing two runs of characters one after the other writes each.
pub proof fn lemma_encode_concat(a: Seq<char>, b: Seq<char>)
    ensures
        encode_utf8(a + b) == encode_utf8(a) + encode_utf8(b),
    decreases a.len(),
{
    if a.len() == 0 {
        assert(a + b =~= b);
        assert(encode_utf8(a) + encode_utf8(b) =~= encode_utf8(b));
    } else {
        lemma_encode_concat(a.drop_first(), b);
        assert((a + b).drop_first() =~= a.drop_first() + b);
        assert((a + b)[0] == a[0]);
        assert(encode_utf8(a + b) =~= encode_scalar(a[0] as u32) + encode_utf8(a.drop_first() + b));
    }
}

/// The length of a prefix and the rest add up.
pub proof fn lemma_utf8_len_split(s: Seq<char>, k: int)
    requires
        0 <= k <= s.len(),
    ensures
        utf8_len(s) == utf8_len(s.take(k)) + utf8_len(s.skip(k)),
{
    lemma_encode_concat(s.take(k), s.skip(k));
    assert(s.take(k) + s.skip(k) =~= s);
}

/// One character more adds its own length.
pub proof fn lemma_utf8_len_push(s: Seq<char>, c: char)
    ensures
        utf8_len(s.push(c)) == utf8_len(s) + encode_scalar(c as u32).len(),
{
    lemma_encode_concat(s, seq![c]);
    assert(s.push(c) =~= s + seq![c]);
    assert(seq![c].drop_first() =~= Seq::<char>::empty());
    assert(encode_utf8(seq![c]) =~= encode_scalar(c as u32) + encode_utf8(Seq::<char>::empty()));
    assert(encode_utf8(seq![c]) =~= encode_scalar(c as u32));
}

/// The length of `c` in UTF-8.
fn char_utf8_len(c: char) -> (n: u32)
    ensures
        n == encode_scalar(c as u32).len(),
        1 <= n <= 4,
{
    let v = c as u32;
    if v <= 0x7f {
        1
    } else if v <= 0x7ff {
        2
    } else if v <= 0xffff {
        3
    } else {
        4
    }
}

/// The length of `cs[from..to]` in UTF-8.
fn utf8_len_of(cs: &Vec<char>, from: usize, to: usize) -> (n: usize)
    requires
        from <= to <= cs@.len(),
        utf8_len(cs@) <= u32::MAX,
    ensures
        n == utf8_len(cs@.subrange(from as int, to as int)),
{
    proof {
        lemma_utf8_len_split(cs@, from as int);
        lemma_utf8_len_split(cs@.skip(from as int), to - from);
        assert(cs@.skip(from as int).take(to - from) =~= cs@.subrange(from as int, to as int));
    }
    let mut n: usize = 0;
    let mut i: usize = from;
    while i < to
        invariant
            from <= i <= to <= cs@.len(),
            n == utf8_len(cs@.subrange(from as int, i as int)),
            utf8_len(cs@.subrange(from as int, to as int)) <= u32::MAX,
        decreases to - i,
    {
        proof {
            lemma_utf8_len_push(cs@.subrange(from as int, i as int), cs@[i as int]);
            assert(cs@.subrange(from as int, i + 1) =~= cs@.subrange(from as int, i as int).push(cs@[i as int]));
            lemma_utf8_len_split(cs@.subrange(from as int, to as int), i + 1 - from);
            assert(cs@.subrange(from as int, to as int).take(i + 1 - from) =~= cs@.subrange(from as int, i + 1));
        }
        n = n + char_utf8_len(cs[i]) as usize;
        i = i + 1;
    }
    n
}

/// How many characters of white space `s` starts with.
pub open spec fn leading_ws(s: Seq<char>) -> nat
    decreases s.len(),
{
    if s.len() > 0 && is_white_space(s[0]) {
        1 + leading_ws(s.drop_first())
    } else {
        0
    }
}

/// How many characters of white space `s` ends with.
pub open spec fn trailing_ws(s: Seq<char>) -> nat
    decreases s.len(),
{
    if s.len() > 0 && is_white_space(s.last()) {
        1 + trailing_ws(s.drop_last())
    } else {
        0
    }
}

proof fn lemma_leading_ws(s: Seq<char>, i: int)
    requires
        0 <= i <= s.len(),
        forall|k: int| 0 <= k < i ==> is_white_space(#[trigger] s[k]),
        i == s.len() || !is_white_space(s[i]),
    ensures
        leading_ws(s) == i,
    decreases i,
{
    if i > 0 {
        assert forall|k: int| 0 <= k < i - 1 implies is_white_space(#[trigger] s.drop_first()[k]) by {
            assert(s.drop_first()[k] == s[k + 1]);
        }
        if i < s.len() {
            assert(s.drop_first()[i - 1] == s[i]);
        }
        lemma_leading_ws(s.drop_first(), i - 1);
    }
}

proof fn lemma_trailing_ws(s: Seq<char>, j: int)
    requires
        0 <= j <= s.len(),
        forall|k: int| s.len() - j <= k < s.len() ==> is_white_space(#[trigger] s[k]),
        j == s.len() || !is_white_space(s[s.len() - 1 - j]),
    ensures
        trailing_ws(s) == j,
    decreases j,
{
    if j > 0 {
        assert forall|k: int| s.drop_last().len() - (j - 1) <= k < s.drop_last().len() implies is_white_space(
            #[trigger] s.drop_last()[k],
        ) by {
            assert(s.drop_last()[k] == s[k]);
        }
        if j < s.len() {
            assert(s.drop_last()[s.drop_last().len() - 1 - (j - 1)] == s[s.len() - 1 - j]);
        }
        lemma_trailing_ws(s.drop_last(), j - 1);
    }
}

/// The text of a comment without its `--`, or without its `/*` and `*/`,
/// with the range that text spans; `range` is the comment's own.
pub open spec fn comment_body(text: Seq<char>, range: TextRange) -> Option<(Seq<char>, TextRange)> {
    if text.len() >= 2 && text[0] == '-' && text[1] == '-' {
        if range.start + 2 <= u32::MAX {
            Some((text.skip(2), TextRange { start: (range.start + 2) as u32, end: range.end }))
        } else {
            None
        }
    } else if text.len() >= 4 && text[0] == '/' && text[1] == '*' && text[text.len() - 2] == '*'
        && text[text.len() - 1] == '/' && range.start + 2 <= u32::MAX && range.end >= 2 {
        Some((
            text.subrange(2, text.len() - 2),
            TextRange { start: (range.start + 2) as u32, end: (range.end - 2) as u32 },
        ))
    } else {
        None
    }
}

/// `p` is the start of `s`.
pub open spec fn starts_with(s: Seq<char>, p: Seq<char>) -> bool {
    p.len() <= s.len() && s.take(p.len() as int) == p
}

/// What the text of a comment, trimmed, says when it starts with a marker:
/// the text after `squawk-ignore-file` or `squawk-ignore`, the range of that
/// text (the trimmed text spanning `[start, end)`), and the kind of ignore.
pub open spec fn after_marker(trimmed: Seq<char>, start: int, end: int) -> Option<(Seq<char>, TextRange, IgnoreKind)> {
    if starts_with(trimmed, IGNORE_FILE_TEXT@) {
        Some((
            trimmed.skip(IGNORE_FILE_TEXT@.len() as int),
            TextRange { start: (start + IGNORE_FILE_TEXT@.len()) as u32, end: end as u32 },
            IgnoreKind::File,
        ))
    } else if starts_with(trimmed, IGNORE_LINE_TEXT@) {
        Some((
            trimmed.skip(IGNORE_LINE_TEXT@.len() as int),
            TextRange { start: (start + IGNORE_LINE_TEXT@.len()) as u32, end: end as u32 },
            IgnoreKind::Line,
        ))
    } else {
        None
    }
}

/// What an ignore comment says: `after_marker` of the comment's text with
/// white space around it trimmed.
pub open spec fn ignore_info(text: Seq<char>, range: TextRange) -> Option<(Seq<char>, TextRange, IgnoreKind)> {
    match comment_body(text, range) {
        None => None,
        Some((body, r)) => {
            let lead = leading_ws(body) as int;
            let rest = body.skip(lead);
            let trail = trailing_ws(rest) as int;
            after_marker(
                rest.take(rest.len() - trail),
                r.start + utf8_len(body.take(lead)),
                r.end - utf8_len(rest.skip(rest.len() - trail)),
            )
        },
    }
}

/// Whether `cs[at..]` starts with the characters of `p`.
fn has_prefix_at(cs: &Vec<char>, at: usize, end: usize, p: &str) -> (b: bool)
    requires
        at <= end <= cs@.len(),
    ensures
        b == starts_with(cs@.subrange(at as int, end as int), p@),
{
    let pc = chars_of(p);
    if pc.len() > end - at {
        return false;
    }
    let mut k: usize = 0;
    while k < pc.len()
        invariant
            pc@ == p@,
            at + pc@.len() <= end <= cs@.len(),
            k <= pc@.len(),
            forall|m: int| 0 <= m < k ==> cs@[at + m] == pc@[m],
        decreases pc@.len() - k,
    {
        if cs[at + k] != pc[k] {
            assert(cs@.subrange(at as int, end as int).take(pc@.len() as int)[k as int] != p@[k as int]);
            return false;
        }
        k = k + 1;
    }
    assert(cs@.subrange(at as int, end as int).take(pc@.len() as int) =~= p@);
    true
}

/// Where the body of a comment lies: `cs[from..to]`, spanning `[start, end)`.
fn comment_body_bounds(cs: &Vec<char>, range: TextRange) -> (r: Option<(usize, usize, u32, u32)>)
    requires
        range.start <= range.end,
        utf8_len(cs@) == range.end - range.start,
    ensures
        match r {
            Some((from, to, start, end)) => {
                &&& from <= to <= cs@.len()
                &&& start <= end
                &&& comment_body(cs@, range) == Some((cs@.subrange(from as int, to as int), TextRange { start, end }))
                &&& utf8_len(cs@.subrange(from as int, to as int)) == end - start
            },
            None => comment_body(cs@, range) is None,
        },
{
    let n = cs.len();
    let r = if n >= 2 && cs[0] == '-' && cs[1] == '-' {
        if range.start <= u32::MAX - 2 {
            (2usize, n, range.start + 2, range.end)
        } else {
            return None;
        }
    } else if n >= 4 && cs[0] == '/' && cs[1] == '*' && cs[n - 2] == '*' && cs[n - 1] == '/'
        && range.start <= u32::MAX - 2 && range.end >= 2 {
        (2usize, n - 2, range.start + 2, range.end - 2)
    } else {
        return None;
    };
    let (from, to, start, end) = r;
    proof {
        let body = cs@.subrange(from as int, to as int);
        assert(cs@.skip(2) =~= cs@.subrange(2, n as int));
        lemma_utf8_len_split(cs@, 2);
        lemma_utf8_len_split(cs@.skip(2), to - 2);
        assert(cs@.skip(2).take(to - 2) =~= body);
        lemma_ascii_utf8_len(cs@.take(2));
        if to < n {
            let tail = cs@.skip(2).skip(to - 2);
            assert(tail =~= seq![cs@[n - 2], cs@[n - 1]]);
            lemma_ascii_utf8_len(tail);
        } else {
            assert(cs@.skip(2).skip(to - 2) =~= Seq::<char>::empty());
        }
    }
    Some(r)
}

/// The characters of `cs[from..to]` left after trimming white space at both
/// ends: `cs[i..j]`.
fn trim_bounds(cs: &Vec<char>, from: usize, to: usize) -> (r: (usize, usize))
    requires
        from <= to <= cs@.len(),
    ensures
        from <= r.0 <= r.1 <= to,
        r.0 - from == leading_ws(cs@.subrange(from as int, to as int)),
        to - r.1 == trailing_ws(cs@.subrange(r.0 as int, to as int)),
{
    let mut i: usize = from;
    while i < to && white_space(cs[i])
        invariant
            from <= i <= to <= cs@.len(),
            forall|k: int| from <= k < i ==> is_white_space(#[trigger] cs@[k]),
        decreases to - i,
    {
        i = i + 1;
    }
    let mut j: usize = to;
    while j > i && white_space(cs[j - 1])
        invariant
            from <= i <= j <= to <= cs@.len(),
            forall|k: int| j <= k < to ==> is_white_space(#[trigger] cs@[k]),
        decreases j - i,
    {
        j = j - 1;
    }
    proof {
        let body = cs@.subrange(from as int, to as int);
        let lead = i - from;
        assert forall|k: int| 0 <= k < lead implies is_white_space(#[trigger] body[k]) by {
            assert(body[k] == cs@[from + k]);
        }
        if i < to {
            assert(body[lead] == cs@[i as int]);
        }
        lemma_leading_ws(body, lead);
        let rest = cs@.subrange(i as int, to as int);
        let trail = to - j;
        assert forall|k: int| rest.len() - trail <= k < rest.len() implies is_white_space(#[trigger] rest[k]) by {
            assert(rest[k] == cs@[i + k]);
        }
        if j > i {
            assert(rest[rest.len() - 1 - trail] == cs@[j - 1]);
        }
        lemma_trailing_ws(rest, trail);
    }
    (i, j)
}

fn marker_info(cs: &Vec<char>, i: usize, j: usize, start: u32, end: u32) -> (r: Option<(String, TextRange, IgnoreKind)>)
    requires
        i <= j <= cs@.len(),
        start <= end,
        utf8_len(cs@.subrange(i as int, j as int)) == end - start,
    ensures
        match r {
            Some((s, rr, k)) => {
                &&& after_marker(cs@.subrange(i as int, j as int), start as int, end as int) == Some((s@, rr, k))
                &&& rr.start <= rr.end
                &&& utf8_len(s@) == rr.end - rr.start
            },
            None => after_marker(cs@.subrange(i as int, j as int), start as int, end as int) is None,
        },
{
    let ghost trimmed = cs@.subrange(i as int, j as int);
    if has_prefix_at(cs, i, j, IGNORE_FILE_TEXT) {
        proof {
            reveal_strlit("squawk-ignore-file");
            lemma_utf8_len_split(trimmed, 18);
            lemma_ascii_utf8_len(trimmed.take(18));
            assert(utf8_len(trimmed.skip(18)) == end - (start + 18));
        }
        let rule_names = string_from_chars(vstd::slice::slice_subrange(cs.as_slice(), i + 18, j));
        proof {
            assert(rule_names@ =~= trimmed.skip(18));
        }
        return Some((rule_names, TextRange { start: start + 18, end }, IgnoreKind::File));
    }
    if has_prefix_at(cs, i, j, IGNORE_LINE_TEXT) {
        proof {
            reveal_strlit("squawk-ignore");
            lemma_utf8_len_split(trimmed, 13);
            lemma_ascii_utf8_len(trimmed.take(13));
            assert(utf8_len(trimmed.skip(13)) == end - (start + 13));
        }
        let rule_names = string_from_chars(vstd::slice::slice_subrange(cs.as_slice(), i + 13, j));
        proof {
            assert(rule_names@ =~= trimmed.skip(13));
        }
        return Some((rule_names, TextRange { start: start + 13, end }, IgnoreKind::Line));
    }
    None
}

/// The text of an ignore comment after its marker, the range of that text,
/// and the kind of ignore; `None` for any other comment. `range` is the
/// comment's own range.
pub fn ignore_rule_info(text: &str, range: TextRange) -> (r: Option<(String, TextRange, IgnoreKind)>)
    requires
        range.start <= range.end,
        utf8_len(text@) == range.end - range.start,
    ensures
        match r {
            Some((s, rr, k)) => {
                &&& ignore_info(text@, range) == Some((s@, rr, k))
                &&& rr.start <= rr.end
                &&& utf8_len(s@) == rr.end - rr.start
            },
            None => ignore_info(text@, range) is None,
        },
{
    let cs = chars_of(text);
    let (from, to, start, end) = match comment_body_bounds(&cs, range) {
        Some(b) => b,
        None => {
            return None;
        },
    };
    let (i, j) = trim_bounds(&cs, from, to);
    proof {
        let body = cs@.subrange(from as int, to as int);
        let lead = i - from;
        let rest = body.skip(lead);
        let trail = to - j;
        assert(rest =~= cs@.subrange(i as int, to as int));
        assert(body.take(lead) =~= cs@.subrange(from as int, i as int));
        assert(rest.skip(rest.len() - trail) =~= cs@.subrange(j as int, to as int));
        assert(rest.take(rest.len() - trail) =~= cs@.subrange(i as int, j as int));
        lemma_utf8_len_split(body, lead);
        lemma_utf8_len_split(rest, rest.len() - trail);
        lemma_utf8_len_split(cs@, from as int);
        lemma_utf8_len_split(cs@.skip(from as int), to - from);
        assert(cs@.skip(from as int).take(to - from) =~= body);
    }
    let start_size = utf8_len_of(&cs, from, i);
    let end_size = utf8_len_of(&cs, j, to);
    marker_info(&cs, i, j, start + start_size as u32, end - end_size as u32)
}

/// Characters below 0x80 take one byte each.
pub proof fn lemma_ascii_utf8_len(s: Seq<char>)
    requires
        forall|k: int| 0 <= k < s.len() ==> (#[trigger] s[k] as u32) < 0x80,
    ensures
        utf8_len(s) == s.len(),
    decreases s.len(),
{
    if s.len() > 0 {
        assert forall|k: int| 0 <= k < s.drop_first().len() implies (#[trigger] s.drop_first()[k] as u32) < 0x80 by {
            assert(s.drop_first()[k] == s[k + 1]);
        }
        lemma_ascii_utf8_len(s.drop_first());
        assert((s[0] as u32) < 0x80);
    }
}

/// The index of the first `,` of `s`, or its length when it has none.
pub open spec fn first_comma(s: Seq<char>) -> int
    decreases s.len(),
{
    if s.len() == 0 || s[0] == ',' {
        0
    } else {
        1 + first_comma(s.drop_first())
    }
}

proof fn lemma_first_comma(s: Seq<char>, k: int)
    requires
        0 <= k <= s.len(),
        forall|m: int| 0 <= m < k ==> #[trigger] s[m] != ',',
        k == s.len() || s[k] == ',',
    ensures
        first_comma(s) == k,
    decreases k,
{
    if k > 0 {
        assert forall|m: int| 0 <= m < k - 1 implies #[trigger] s.drop_first()[m] != ',' by {
            assert(s.drop_first()[m] == s[m + 1]);
        }
        if k < s.len() {
            assert(s.drop_first()[k - 1] == s[k]);
        }
        lemma_first_comma(s.drop_first(), k - 1);
    }
}

/// The pieces of `s` between commas, as `str::split(",")` gives them.
pub open spec fn split_commas(s: Seq<char>) -> Seq<Seq<char>>
    decreases s.len(),
{
    let k = first_comma(s);
    if k >= s.len() {
        seq![s]
    } else {
        proof {
            lemma_first_comma_bound(s);
        }
        seq![s.take(k)] + split_commas(s.skip(k + 1))
    }
}

pub proof fn lemma_first_comma_bound(s: Seq<char>)
    ensures
        0 <= first_comma(s) <= s.len(),
    decreases s.len(),
{
    if s.len() > 0 && s[0] != ',' {
        lemma_first_comma_bound(s.drop_first());
    }
}

/// What reading the rule names of one ignore comment gathers: the rules named
/// (each once), the byte offset of the next piece as the reading counts it,
/// the unknown names reported, and whether every range of an unknown name
/// fits in a `u32` (where it does not, the reading cannot go on).
pub struct NamesScan {
    pub names: Seq<Rule>,
    pub offset: int,
    pub unknown: Seq<ViolationView>,
    pub fits: bool,
}

/// `x` with white space at both ends trimmed.
pub open spec fn trim(x: Seq<char>) -> Seq<char> {
    let rest = x.skip(leading_ws(x) as int);
    rest.take(rest.len() - trailing_ws(rest))
}

/// The violation for an unknown rule name `t` at `range`.
pub open spec fn unknown_name_violation(t: Seq<char>, range: TextRange) -> ViolationView {
    plain_violation(Rule::UnusedIgnore, "unknown name "@ + t, range)
}

/// Reading one piece `x` of the rule names of an ignore comment whose names
/// span `r`. An empty piece is skipped without moving the offset on.
pub open spec fn name_piece(st: NamesScan, x: Seq<char>, r: TextRange) -> NamesScan {
    if x.len() == 0 {
        st
    } else {
        let t = trim(x);
        let next = st.offset + utf8_len(x) + 1;
        match rule_from_name(t) {
            Some(rule) => NamesScan {
                names: if st.names.contains(rule) {
                    st.names
                } else {
                    st.names.push(rule)
                },
                offset: next,
                ..st
            },
            None => {
                let start = r.start + st.offset + utf8_len(x.take(leading_ws(x) as int));
                NamesScan {
                    names: st.names,
                    offset: next,
                    unknown: st.unknown.push(
                        unknown_name_violation(
                            t,
                            TextRange { start: start as u32, end: (start + utf8_len(t)) as u32 },
                        ),
                    ),
                    fits: st.fits && r.end + st.offset <= u32::MAX,
                }
            },
        }
    }
}

/// Reading the pieces in order.
pub open spec fn names_fold(pieces: Seq<Seq<char>>, r: TextRange) -> NamesScan
    decreases pieces.len(),
{
    if pieces.len() == 0 {
        NamesScan { names: seq![], offset: 0, unknown: seq![], fits: true }
    } else {
        name_piece(names_fold(pieces.drop_last(), r), pieces.last(), r)
    }
}

/// What reading the rule names `names` of an ignore comment, spanning `r`,
/// gathers.
pub open spec fn read_names(names: Seq<char>, r: TextRange) -> NamesScan {
    names_fold(split_commas(names), r)
}

/// The pieces before and after the piece that starts at `a`.
proof fn lemma_split_step(s: Seq<char>, a: int)
    requires
        0 <= a <= s.len(),
        first_comma(s.skip(a)) < s.len() - a,
    ensures
        split_commas(s.skip(a)) == seq![s.subrange(a, a + first_comma(s.skip(a)))] + split_commas(
            s.skip(a + first_comma(s.skip(a)) + 1),
        ),
{
    let t = s.skip(a);
    let k = first_comma(t);
    lemma_first_comma_bound(t);
    assert(t.take(k) =~= s.subrange(a, a + k));
    assert(t.skip(k + 1) =~= s.skip(a + k + 1));
}

fn report_unknown_name(ctx: &mut Linter, t: &String, start: u32, end: u32)
    ensures
        reports(*old(ctx), *final(ctx), seq![unknown_name_violation(t@, TextRange { start, end })]),
{
    let mut message = string_of("unknown name ");
    push_str(&mut message, t.as_str());
    ctx.report(Violation::for_range(Rule::UnusedIgnore, message, TextRange { start, end }));
    assert(ctx.reported() =~= old(ctx).reported() + seq![unknown_name_violation(t@, TextRange { start, end })]);
}

/// The state that `name_piece` starts from when it reads a piece with
/// `names` gathered at `offset`, nothing reported yet.
pub open spec fn fresh(names: Seq<Rule>, offset: int) -> NamesScan {
    NamesScan { names, offset, unknown: seq![], fits: true }
}

/// Reading a piece appends to what was reported before it.
proof fn lemma_name_piece_appends(st: NamesScan, x: Seq<char>, r: TextRange)
    ensures
        name_piece(st, x, r).names == name_piece(fresh(st.names, st.offset), x, r).names,
        name_piece(st, x, r).offset == name_piece(fresh(st.names, st.offset), x, r).offset,
        name_piece(st, x, r).unknown == st.unknown + name_piece(fresh(st.names, st.offset), x, r).unknown,
{
    assert(st.unknown =~= st.unknown + Seq::<ViolationView>::empty());
    if x.len() > 0 && rule_from_name(trim(x)) is None {
        let v = name_piece(fresh(st.names, st.offset), x, r).unknown[0];
        assert(name_piece(fresh(st.names, st.offset), x, r).unknown =~= seq![v]);
    }
}

/// Reads the piece `cs[a..k]` (not empty) of the rule names of an ignore
/// comment whose names `cs` span `range`, with `offset` as the reading counts
/// it: adds the rule it names to `set`, or reports it as unknown.
fn read_piece(
    ctx: &mut Linter,
    cs: &Vec<char>,
    a: usize,
    k: usize,
    range: TextRange,
    set: &mut Vec<Rule>,
    offset: u64,
) -> (next: u64)
    requires
        a < k <= cs@.len(),
        range.start <= range.end,
        utf8_len(cs@) == range.end - range.start,
        offset <= utf8_len(cs@.take(a as int)),
    ensures
        final(set)@ == name_piece(fresh(old(set)@, offset as int), cs@.subrange(a as int, k as int), range).names,
        next == name_piece(fresh(old(set)@, offset as int), cs@.subrange(a as int, k as int), range).offset,
        reports(
            *old(ctx),
            *final(ctx),
            name_piece(fresh(old(set)@, offset as int), cs@.subrange(a as int, k as int), range).unknown,
        ),
{
    let ghost s = cs@;
    let ghost piece = s.subrange(a as int, k as int);
    proof {
        lemma_utf8_len_split(s, a as int);
        lemma_utf8_len_split(s.skip(a as int), k - a);
        assert(s.skip(a as int).take(k - a) =~= piece);
    }
    let (i, j) = trim_bounds(cs, a, k);
    proof {
        assert(piece.skip(leading_ws(piece) as int) =~= s.subrange(i as int, k as int));
        assert(trim(piece) =~= s.subrange(i as int, j as int));
        assert(piece.take(leading_ws(piece) as int) =~= s.subrange(a as int, i as int));
        lemma_utf8_len_split(piece, i - a);
        assert(piece.take(i - a) =~= s.subrange(a as int, i as int));
        lemma_utf8_len_split(piece.skip(i - a), j - i);
        assert(piece.skip(i - a).take(j - i) =~= s.subrange(i as int, j as int));
    }
    let t = vstd::slice::slice_subrange(cs.as_slice(), i, j);
    let name = string_from_chars(t);
    let size = utf8_len_of(cs, a, k);
    match Rule::try_from_name(name.as_str()) {
        Ok(rule) => {
            let mut present = false;
            let mut m: usize = 0;
            while m < set.len()
                invariant
                    m <= set@.len(),
                    present == exists|q: int| 0 <= q < m && set@[q] == rule,
                decreases set@.len() - m,
            {
                if set[m] == rule {
                    present = true;
                }
                m = m + 1;
            }
            proof {
                if set@.contains(rule) {
                    let q = choose|q: int| 0 <= q < set@.len() && set@[q] == rule;
                }
            }
            if !present {
                set.push(rule);
            }
            proof {
                assert(ctx.reported() =~= old(ctx).reported() + Seq::<ViolationView>::empty());
            }
        },
        Err(_) => {
            let lead_size = utf8_len_of(cs, a, i);
            let t_size = utf8_len_of(cs, i, j);
            let start = range.start + offset as u32 + lead_size as u32;
            report_unknown_name(ctx, &name, start, start + t_size as u32);
        },
    }
    offset + size as u64 + 1
}

/// Reads the rule names `names` of an ignore comment whose names span
/// `range`: reports each unknown name and gives the rules named.
fn read_rule_names(ctx: &mut Linter, names: &String, range: TextRange) -> (rules: Vec<Rule>)
    requires
        range.start <= range.end,
        utf8_len(names@) == range.end - range.start,
        read_names(names@, range).fits,
    ensures
        rules@ == read_names(names@, range).names,
        reports(*old(ctx), *final(ctx), read_names(names@, range).unknown),
{
    let cs = chars_of(names.as_str());
    let ghost s = cs@;
    let n = cs.len();
    let mut set: Vec<Rule> = Vec::new();
    let mut offset: u64 = 0;
    let mut a: usize = 0;
    let ghost mut done: Seq<Seq<char>> = seq![];
    proof {
        assert(s.skip(0) =~= s);
        assert(ctx.reported() =~= old(ctx).reported() + Seq::<ViolationView>::empty());
    }
    loop
        invariant_except_break
            a <= n,
            done + split_commas(s.skip(a as int)) == split_commas(s),
            names_fold(done, range).offset == offset,
            offset <= utf8_len(s.take(a as int)),
        invariant
            s == cs@,
            s == names@,
            n == s.len(),
            range.start <= range.end,
            utf8_len(s) == range.end - range.start,
            names_fold(done, range).names == set@,
            reports(*old(ctx), *ctx, names_fold(done, range).unknown),
        ensures
            done == split_commas(s),
        decreases n - a,
    {
        let mut k: usize = a;
        while k < n && cs[k] != ','
            invariant
                s == cs@,
                n == s.len(),
                a <= k <= n,
                forall|m: int| a <= m < k ==> #[trigger] s[m] != ',',
            decreases n - k,
        {
            k = k + 1;
        }
        proof {
            assert forall|m: int| 0 <= m < k - a implies #[trigger] s.skip(a as int)[m] != ',' by {
                assert(s.skip(a as int)[m] == s[a + m]);
            }
            if k < n {
                assert(s.skip(a as int)[k - a] == s[k as int]);
            }
            lemma_first_comma(s.skip(a as int), k - a);
        }
        let ghost piece = s.subrange(a as int, k as int);
        let ghost before = names_fold(done, range);
        let ghost c0 = *ctx;
        proof {
            lemma_name_piece_appends(before, piece, range);
            assert(s.take(k as int) =~= s.take(a as int) + piece);
            lemma_encode_concat(s.take(a as int), piece);
        }
        if k > a {
            offset = read_piece(ctx, &cs, a, k, range, &mut set, offset);
        } else {
            proof {
                assert(ctx.reported() =~= c0.reported() + Seq::<ViolationView>::empty());
            }
        }
        proof {
            assert(done.push(piece).drop_last() =~= done);
            assert(names_fold(done.push(piece), range) == name_piece(before, piece, range));
            assert(ctx.reported() =~= old(ctx).reported() + names_fold(done.push(piece), range).unknown);
        }
        if k == n {
            proof {
                assert(s.skip(a as int) =~= piece);
                assert(split_commas(s.skip(a as int)) =~= seq![piece]);
                assert(done.push(piece) =~= done + seq![piece]);
                done = done.push(piece);
            }
            break;
        }
        proof {
            lemma_split_step(s, a as int);
            assert(done.push(piece) + split_commas(s.skip(k + 1)) =~= done + split_commas(s.skip(a as int)));
            done = done.push(piece);
            assert(s.take(k + 1) =~= s.take(k as int).push(','));
            lemma_utf8_len_push(s.take(k as int), ',');
        }
        a = k + 1;
    }
    set
}

/// What finding ignore comments gathers: the ignores, the unknown rule names
/// reported, and whether every range of an unknown name fits in a `u32`.
#[verifier::ext_equal]
pub struct IgnoreScan {
    pub ignores: Seq<IgnoreView>,
    pub unknown: Seq<ViolationView>,
    pub fits: bool,
}

pub open spec fn no_ignores() -> IgnoreScan {
    IgnoreScan { ignores: seq![], unknown: seq![], fits: true }
}

/// What one scan gathers followed by what another does.
pub open spec fn chain_scans(a: IgnoreScan, b: IgnoreScan) -> IgnoreScan {
    IgnoreScan { ignores: a.ignores + b.ignores, unknown: a.unknown + b.unknown, fits: a.fits && b.fits }
}

/// What a comment with text `text` at `range` gathers.
pub open spec fn comment_scan(text: Seq<char>, range: TextRange) -> IgnoreScan {
    match ignore_info(text, range) {
        Some((names, r, kind)) => {
            let ns = read_names(names, r);
            IgnoreScan { ignores: seq![IgnoreView { range: r, names: ns.names, kind }], unknown: ns.unknown, fits: ns.fits }
        },
        None => no_ignores(),
    }
}

pub open spec fn is_comment(k: TokenKind) -> bool {
    k is LineComment || k is BlockComment
}

/// What the comments among the tokens of `b` from `p` on gather, in order.
pub open spec fn ignores_from(b: Seq<u8>, p: int) -> IgnoreScan
    decreases b.len() - p,
{
    if 0 <= p < b.len() {
        let (kind, e) = next_token(b, p);
        if p < e <= b.len() {
            chain_scans(
                if is_comment(kind) {
                    comment_scan(decode_utf8(b.subrange(p, e)), TextRange { start: p as u32, end: e as u32 })
                } else {
                    no_ignores()
                },
                ignores_from(b, e),
            )
        } else {
            no_ignores()
        }
    } else {
        no_ignores()
    }
}

/// A nested block comment ends at the end of the text or just after a `/`.
proof fn lemma_block_comment_closes(s: Seq<u8>, i: int, depth: nat)
    requires
        0 <= i <= s.len(),
    ensures
        block_comment_end(s, i, depth).0 == s.len() || (1 <= block_comment_end(s, i, depth).0 <= s.len()
            && s[block_comment_end(s, i, depth).0 - 1] == 0x2f),
    decreases s.len() - i,
{
    if i < s.len() {
        if s[i] == 0x2f && byte_at(s, i + 1) == 0x2a {
            lemma_block_comment_closes(s, i + 2, depth + 1);
        } else if s[i] == 0x2a && byte_at(s, i + 1) == 0x2f {
            if depth > 1 {
                lemma_block_comment_closes(s, i + 2, (depth - 1) as nat);
            }
        } else {
            lemma_block_comment_closes(s, i + 1, depth);
        }
    }
}

/// A comment token starts at an ASCII byte, and ends at the end of the text,
/// before a line break or just after a `/`.
proof fn lemma_comment_token(s: Seq<u8>, i: int)
    requires
        0 <= i < s.len(),
        is_comment(next_token(s, i).0),
    ensures
        s[i] < 0x80,
        next_token(s, i).1 == s.len() || (next_token(s, i).1 < s.len() && s[next_token(s, i).1] < 0x80)
            || (1 <= next_token(s, i).1 <= s.len() && s[next_token(s, i).1 - 1] == 0x2f),
{
    lemma_next_token_end(s, i);
    if s[i] == 0x2f {
        lemma_block_comment_closes(s, i + 2, 1);
    } else {
        assert(s[i] == 0x2d);
        lemma_span(s, i + 2, ByteClass::NotNewline);
    }
}

/// A comment token's ends are character boundaries of valid UTF-8 text.
proof fn lemma_comment_bounds(s: Seq<u8>, i: int)
    requires
        valid_utf8(s),
        0 <= i < s.len(),
        is_comment(next_token(s, i).0),
    ensures
        is_char_boundary(s, i),
        is_char_boundary(s, next_token(s, i).1),
        is_char_boundary(s.subrange(i, s.len() as int), next_token(s, i).1 - i),
{
    let e = next_token(s, i).1;
    lemma_next_token_end(s, i);
    lemma_comment_token(s, i);
    lemma_ascii_is_boundary(s, i);
    is_char_boundary_start_end_of_seq(s);
    if e < s.len() && s[e] < 0x80 {
        lemma_ascii_is_boundary(s, e);
    } else if e < s.len() {
        lemma_after_ascii_is_boundary(s, e - 1);
    }
    let rest = s.subrange(i, s.len() as int);
    valid_utf8_split(s, i);
    is_char_boundary_start_end_of_seq(rest);
    if e < s.len() {
        is_char_boundary_iff_not_is_continuation_byte(s, e);
        is_char_boundary_iff_not_is_continuation_byte(rest, e - i);
        assert(rest[e - i] == s[e]);
    }
}

/// Finds the ignore comments of `text`: reports the unknown rule names they
/// hold and records each ignore.
pub fn find_ignores(ctx: &mut Linter, text: &str)
    requires
        text.spec_bytes().len() <= u32::MAX,
        ignores_from(text.spec_bytes(), 0).fits,
    ensures
        final(ctx).reported() == old(ctx).reported() + ignores_from(text.spec_bytes(), 0).unknown,
        final(ctx).ignored() == old(ctx).ignored() + ignores_from(text.spec_bytes(), 0).ignores,
        final(ctx).rules == old(ctx).rules,
        final(ctx).settings == old(ctx).settings,
{
    let tokens = tokenize(text);
    let ghost bs = text.spec_bytes();
    proof {
        encode_utf8_valid_utf8(text@);
        assert(tokens@.skip(0) =~= tokens@);
        assert(ctx.reported() =~= old(ctx).reported() + Seq::<ViolationView>::empty());
        assert(ctx.ignored() =~= old(ctx).ignored() + Seq::<IgnoreView>::empty());
    }
    let ghost mut acc = no_ignores();
    let mut p: usize = 0;
    let mut k: usize = 0;
    while k < tokens.len()
        invariant
            bs == text.spec_bytes(),
            bs.len() <= u32::MAX,
            valid_utf8(bs),
            k <= tokens@.len(),
            p <= bs.len(),
            tokens@.skip(k as int) == tokens_from(bs, p as int),
            chain_scans(acc, ignores_from(bs, p as int)) == ignores_from(bs, 0),
            ignores_from(bs, p as int).fits,
            ctx.reported() == old(ctx).reported() + acc.unknown,
            ctx.ignored() == old(ctx).ignored() + acc.ignores,
            ctx.rules == old(ctx).rules,
            ctx.settings == old(ctx).settings,
        decreases tokens@.len() - k,
    {
        let tok = tokens[k];
        proof {
            assert(tokens@.skip(k as int)[0] == tok);
            if p >= bs.len() {
                assert(tokens_from(bs, p as int) =~= Seq::<Token>::empty());
            }
            lemma_next_token_end(bs, p as int);
            assert(tokens_from(bs, p as int)[0] == tok);
            assert(tokens@.skip(k + 1) =~= tokens@.skip(k as int).drop_first());
            assert(tokens_from(bs, p as int).drop_first() =~= tokens_from(bs, p + tok.len));
        }
        let e = p + tok.len as usize;
        let ghost step = if is_comment(tok.kind) {
            comment_scan(decode_utf8(bs.subrange(p as int, e as int)), TextRange { start: p as u32, end: e as u32 })
        } else {
            no_ignores()
        };
        let ghost c0 = *ctx;
        let is_comment_token = match tok.kind {
            TokenKind::LineComment => true,
            TokenKind::BlockComment { .. } => true,
            _ => false,
        };
        if is_comment_token {
            proof {
                lemma_comment_bounds(bs, p as int);
            }
            let (_, rest) = text.split_at(p);
            let (piece, _) = rest.split_at(tok.len as usize);
            proof {
                assert(piece.spec_bytes() =~= bs.subrange(p as int, e as int));
                encode_utf8_decode_utf8(piece@);
            }
            let range = TextRange { start: p as u32, end: e as u32 };
            match ignore_rule_info(piece, range) {
                Some((names, r, kind)) => {
                    let rules = read_rule_names(ctx, &names, r);
                    ctx.ignore(Ignore { range: r, violation_names: rules, kind });
                    proof {
                        assert(ctx.reported() =~= c0.reported() + step.unknown);
                        assert(ctx.ignored() =~= c0.ignored() + step.ignores);
                    }
                },
                None => {
                    proof {
                        assert(ctx.reported() =~= c0.reported() + step.unknown);
                        assert(ctx.ignored() =~= c0.ignored() + step.ignores);
                    }
                },
            }
        } else {
            proof {
                assert(ctx.reported() =~= c0.reported() + step.unknown);
                assert(ctx.ignored() =~= c0.ignored() + step.ignores);
            }
        }
        proof {
            assert(ignores_from(bs, p as int) == chain_scans(step, ignores_from(bs, e as int)));
            assert(chain_scans(chain_scans(acc, step), ignores_from(bs, e as int)) =~= chain_scans(
                acc,
                ignores_from(bs, p as int),
            ));
            assert(ctx.reported() =~= old(ctx).reported() + chain_scans(acc, step).unknown);
            assert(ctx.ignored() =~= old(ctx).ignored() + chain_scans(acc, step).ignores);
            acc = chain_scans(acc, step);
        }
        p = e;
        k = k + 1;
    }
    proof {
        if p < bs.len() {
            lemma_next_token_end(bs, p as int);
            assert(tokens_from(bs, p as int).len() > 0);
        }
        assert(chain_scans(acc, ignores_from(bs, p as int)) =~= acc);
    }
}

} // verus!
