//! Line endings, finding line breaks, and splitting text into lines
//! (LF, CRLF and CR are all line breaks).
use vstd::prelude::*;
use vstd::string::StringSliceAdditionalSpecFns;
use vstd::utf8::{encode_scalar, encode_utf8, encode_utf8_valid_utf8, is_char_boundary, valid_utf8};
use crate::lexer_spec::{lemma_span, lemma_span_unique, span, ByteClass};
use crate::boundary::{lemma_after_ascii_is_boundary, lemma_ascii_is_boundary, lemma_encode_ascii_char,
    lemma_encode_utf8_empty};

verus! {

/// A line ending.
#[derive(Debug, Clone, Copy, PartialEq, Eq, Hash, Structural)]
pub enum LineEnding {
    /// Classic Mac, `\r`.
    Cr,
    /// Windows, `\r\n`.
    CrLf,
    /// Unix, `\n`.
    Lf,
}

/// The bytes of a line ending.
pub open spec fn ending_bytes(e: LineEnding) -> Seq<u8> {
    match e {
        LineEnding::Cr => seq![0x0du8],
        LineEnding::CrLf => seq![0x0du8, 0x0au8],
        LineEnding::Lf => seq![0x0au8],
    }
}

/// The characters of a line ending.
pub open spec fn ending_chars(e: LineEnding) -> Seq<char> {
    match e {
        LineEnding::Cr => seq!['\r'],
        LineEnding::CrLf => seq!['\r', '\n'],
        LineEnding::Lf => seq!['\n'],
    }
}

impl LineEnding {
    /// The text of this line ending.
    pub fn as_str(self) -> (r: &'static str)
        ensures
            r@ == ending_chars(self),
            r.spec_bytes() == ending_bytes(self),
    {
        proof {
            lemma_encode_ascii_char('\r', 0x0du8);
            lemma_encode_ascii_char('\n', 0x0au8);
            assert(seq!['\r', '\n'].drop_first() =~= seq!['\n']);
            assert(encode_utf8(seq!['\r']) == encode_scalar(13u32) + encode_utf8(seq!['\r'].drop_first()));
            assert(seq!['\r'].drop_first() =~= Seq::<char>::empty());
            assert(encode_scalar(13u32) =~= seq![0x0du8]);
            assert(encode_utf8(seq!['\r', '\n']) == encode_scalar(13u32) + encode_utf8(seq!['\n']));
            assert(seq![0x0du8, 0x0au8] =~= seq![0x0du8] + seq![0x0au8]);
        }
        match self {
            LineEnding::Cr => {
                proof {
                    reveal_strlit("\r");
                }
                "\r"
            },
            LineEnding::CrLf => {
                proof {
                    reveal_strlit("\r\n");
                }
                "\r\n"
            },
            LineEnding::Lf => {
                proof {
                    reveal_strlit("\n");
                }
                "\n"
            },
        }
    }
}

/// Is `b` one of the line-break bytes `\n` and `\r`?
pub open spec fn is_line_break_byte(b: u8) -> bool {
    b == 0x0a || b == 0x0d
}

/// The line ending that starts at `p` (where `b[p]` is `\n` or `\r`).
pub open spec fn ending_at(b: Seq<u8>, p: int) -> LineEnding {
    if b[p] == 0x0a {
        LineEnding::Lf
    } else if p + 1 < b.len() && b[p + 1] == 0x0a {
        LineEnding::CrLf
    } else {
        LineEnding::Cr
    }
}

/// The end of the first line of `b`: the index of its first `\n` or `\r`,
/// or its length when it has none.
pub open spec fn first_line_end(b: Seq<u8>) -> int {
    span(b, 0, ByteClass::NotNewline)
}

/// The length of the line break that ends the first line (zero when the
/// first line runs to the end).
pub open spec fn first_break_len(b: Seq<u8>) -> int {
    if first_line_end(b) < b.len() {
        ending_bytes(ending_at(b, first_line_end(b))).len() as int
    } else {
        0
    }
}

/// The lines of `b`, split at `\n`, `\r\n` and `\r`; a line break at the
/// very end does not start another line.
pub open spec fn split_lines(b: Seq<u8>) -> Seq<Seq<u8>>
    decreases b.len(),
{
    if b.len() == 0 {
        seq![]
    } else {
        let e = first_line_end(b);
        let next = e + first_break_len(b);
        if 0 <= e <= b.len() && e < next <= b.len() {
            seq![b.subrange(0, e)] + split_lines(b.subrange(next, b.len() as int))
        } else if e == b.len() {
            seq![b]
        } else {
            seq![]
        }
    }
}

/// Searches `needle1` or `needle2` in `haystack`.
///
/// Calls `memchr::memchr2`, which returns the index of the first byte equal to
/// either needle, or `None` when there is none.
#[verifier::external_body]
fn memchr2(needle1: u8, needle2: u8, haystack: &[u8]) -> (r: Option<usize>)
    ensures
        r matches Some(i) ==> i < haystack@.len() && (haystack@[i as int] == needle1
            || haystack@[i as int] == needle2),
        r matches Some(i) ==> forall|k: int|
            0 <= k < i ==> haystack@[k] != needle1 && haystack@[k] != needle2,
        r is None ==> forall|k: int|
            0 <= k < haystack@.len() ==> haystack@[k] != needle1 && haystack@[k] != needle2,
{
    memchr::memchr2(needle1, needle2, haystack)
}

/// Finds the first line break of `text`: its byte position and its kind.
pub fn find_newline(text: &str) -> (r: Option<(usize, LineEnding)>)
    ensures
        r is None <==> first_line_end(text.spec_bytes()) == text.spec_bytes().len(),
        r matches Some((p, e)) ==> p == first_line_end(text.spec_bytes()) && p < text.spec_bytes().len()
            && e == ending_at(text.spec_bytes(), p as int),
{
    let bytes = text.as_bytes();
    let ghost b = bytes@;
    proof {
        lemma_span(b, 0, ByteClass::NotNewline);
    }
    let position = match memchr2(0x0a, 0x0d, bytes) {
        Some(p) => p,
        None => {
            proof {
                lemma_span_unique(b, 0, b.len() as int, ByteClass::NotNewline);
            }
            return None;
        },
    };
    proof {
        lemma_span_unique(b, 0, position as int, ByteClass::NotNewline);
    }
    let line_ending = if bytes[position] == 0x0a {
        // explicit branch for `\n` since it's the most likely path
        LineEnding::Lf
    } else if position + 1 < bytes.len() && bytes[position + 1] == 0x0a {
        LineEnding::CrLf
    } else {
        LineEnding::Cr
    };
    Some((position, line_ending))
}

/// Like `str::lines`, but accommodates LF, CRLF, and CR line endings.
pub struct UniversalNewlineIterator<'a> {
    text: &'a str,
}

impl<'a> UniversalNewlineIterator<'a> {
    /// The bytes not yet split into lines.
    pub closed spec fn rest(&self) -> Seq<u8> {
        self.text.spec_bytes()
    }

    pub fn new(text: &'a str) -> (it: UniversalNewlineIterator<'a>)
        ensures
            it.rest() == text.spec_bytes(),
    {
        UniversalNewlineIterator { text }
    }

    /// The next line (without its line break), or `None` when the text is
    /// used up.
    pub fn next(&mut self) -> (r: Option<&'a str>)
        ensures
            old(self).rest().len() == 0 ==> r is None && final(self).rest() == old(self).rest(),
            old(self).rest().len() > 0 ==> r is Some,
            r matches Some(line) ==> {
                let b = old(self).rest();
                let e = first_line_end(b);
                &&& line.spec_bytes() == b.subrange(0, e)
                &&& final(self).rest() == b.subrange(e + first_break_len(b), b.len() as int)
                &&& final(self).rest().len() < b.len()
            },
    {
        let ghost b = self.text.spec_bytes();
        proof {
            lemma_span(b, 0, ByteClass::NotNewline);
            encode_utf8_valid_utf8(self.text@);
        }
        proof {
            lemma_encode_utf8_empty(self.text@);
        }
        if self.text.is_empty() {
            return None;
        }
        match find_newline(self.text) {
            Some((position, line_ending)) => {
                proof {
                    lemma_ascii_is_boundary(b, position as int);
                }
                let (line, after) = self.text.split_at(position);
                let n = line_ending.as_str().len();
                proof {
                    let a = after.spec_bytes();
                    assert(a == b.subrange(position as int, b.len() as int));
                    encode_utf8_valid_utf8(after@);
                    lemma_after_ascii_is_boundary(a, n - 1);
                }
                let (_, rest) = after.split_at(n);
                proof {
                    assert(rest.spec_bytes() =~= b.subrange(position + n, b.len() as int));
                }
                self.text = rest;
                Some(line)
            },
            None => {
                let line = self.text;
                proof {
                    reveal_strlit("");
                }
                self.text = "";
                proof {
                    assert(b.subrange(0, b.len() as int) =~= b);
                    assert(self.text.spec_bytes() =~= b.subrange(b.len() as int, b.len() as int));
                }
                Some(line)
            },
        }
    }

    /// All remaining lines, in order.
    pub fn collect_lines(self) -> (lines: Vec<&'a str>)
        ensures
            lines@.len() == split_lines(self.rest()).len(),
            forall|i: int| 0 <= i < lines@.len() ==> #[trigger] lines@[i].spec_bytes() == split_lines(self.rest())[i],
    {
        let mut it = self;
        let mut lines: Vec<&'a str> = Vec::new();
        let ghost all = split_lines(self.rest());
        loop
            invariant
                all == split_lines(self.rest()),
                lines@.len() + split_lines(it.rest()).len() == all.len(),
                forall|i: int| 0 <= i < lines@.len() ==> #[trigger] lines@[i].spec_bytes() == all[i],
                forall|i: int| 0 <= i < split_lines(it.rest()).len() ==> #[trigger] split_lines(it.rest())[i] == all[lines@.len() + i],
            decreases it.rest().len(),
        {
            let ghost before = it.rest();
            match it.next() {
                Some(line) => {
                    proof {
                        lemma_span(before, 0, ByteClass::NotNewline);
                        let e = first_line_end(before);
                        if e == before.len() {
                            assert(it.rest() =~= Seq::<u8>::empty());
                            assert(before.subrange(0, e) =~= before);
                        }
                        assert(split_lines(before) == seq![line.spec_bytes()] + split_lines(it.rest()));
                        assert(split_lines(before)[0] == all[lines@.len() as int]);
                    }
                    let ghost prev = lines@;
                    lines.push(line);
                    proof {
                        assert forall|i: int| 0 <= i < lines@.len() implies #[trigger] lines@[i].spec_bytes() == all[i] by {
                            if i < prev.len() {
                                assert(lines@[i] == prev[i]);
                            }
                        }
                    }
                    proof {
                        assert forall|i: int| 0 <= i < split_lines(it.rest()).len() implies #[trigger] split_lines(it.rest())[i] == all[lines@.len() + i] by {
                            assert(split_lines(before)[i + 1] == split_lines(it.rest())[i]);
                        }
                    }
                },
                None => {
                    return lines;
                },
            }
        }
    }
}

/// Splits a string into lines.
pub trait UniversalNewlines {
    fn universal_newlines(&self) -> UniversalNewlineIterator<'_>;
}

impl UniversalNewlines for str {
    fn universal_newlines(&self) -> (it: UniversalNewlineIterator<'_>)
        ensures
            it.rest() == self.spec_bytes(),
    {
        UniversalNewlineIterator::new(self)
    }
}

/// The first line break of `b` is the text of its line ending, so the first
/// line, its break and the rest put together give back `b`.
pub proof fn lemma_first_line_rejoins(b: Seq<u8>)
    ensures
        0 <= first_line_end(b) <= first_line_end(b) + first_break_len(b) <= b.len(),
        first_line_end(b) < b.len() ==> b.subrange(
            first_line_end(b),
            first_line_end(b) + first_break_len(b),
        ) == ending_bytes(ending_at(b, first_line_end(b))),
        b == b.subrange(0, first_line_end(b)) + b.subrange(
            first_line_end(b),
            first_line_end(b) + first_break_len(b),
        ) + b.subrange(first_line_end(b) + first_break_len(b), b.len() as int),
{
    lemma_span(b, 0, ByteClass::NotNewline);
    let e = first_line_end(b);
    let n = e + first_break_len(b);
    if e < b.len() {
        assert(b.subrange(e, n) =~= ending_bytes(ending_at(b, e)));
    }
    assert(b =~= b.subrange(0, e) + b.subrange(e, n) + b.subrange(n, b.len() as int));
}

/// No line that text splits into holds a line break.
pub proof fn lemma_lines_have_no_breaks(b: Seq<u8>)
    ensures
        forall|i: int, k: int|
            0 <= i < split_lines(b).len() && 0 <= k < split_lines(b)[i].len()
                ==> !is_line_break_byte(#[trigger] split_lines(b)[i][k]),
    decreases b.len(),
{
    if b.len() > 0 {
        lemma_span(b, 0, ByteClass::NotNewline);
        let e = first_line_end(b);
        let next = e + first_break_len(b);
        if e < next <= b.len() {
            let rest = b.subrange(next, b.len() as int);
            lemma_lines_have_no_breaks(rest);
            assert forall|i: int, k: int|
                0 <= i < split_lines(b).len() && 0 <= k < split_lines(b)[i].len()
                implies !is_line_break_byte(#[trigger] split_lines(b)[i][k]) by {
                if i > 0 {
                    assert(split_lines(b)[i] == split_lines(rest)[i - 1]);
                } else {
                    assert(split_lines(b)[0][k] == b[k]);
                }
            }
        } else {
            assert forall|i: int, k: int|
                0 <= i < split_lines(b).len() && 0 <= k < split_lines(b)[i].len()
                implies !is_line_break_byte(#[trigger] split_lines(b)[i][k]) by {
                assert(split_lines(b)[0][k] == b[k]);
            }
        }
    }
}

/// The platform's path separator.
///
/// Reads `std::path::MAIN_SEPARATOR` (`\\` on Windows, `/` elsewhere); what it
/// holds depends on the platform the crate is built for, so nothing is
/// promised of the result.
#[verifier::external_body]
fn main_separator() -> char {
    std::path::MAIN_SEPARATOR
}

/// The line ending of a platform whose paths are separated by `sep`: `\r\n`
/// where that is a backslash (Windows), `\n` elsewhere.
pub fn line_ending_for_separator(sep: char) -> (r: LineEnding)
    ensures
        r == (if sep == '\\' {
            LineEnding::CrLf
        } else {
            LineEnding::Lf
        }),
{
    if sep == '\\' {
        LineEnding::CrLf
    } else {
        LineEnding::Lf
    }
}

impl Default for LineEnding {
    /// The platform's line ending: `\r\n` where paths use backslashes
    /// (Windows), `\n` elsewhere.
    fn default() -> (r: LineEnding)
        ensures
            r == LineEnding::CrLf || r == LineEnding::Lf,
    {
        line_ending_for_separator(main_separator())
    }
}


/// The line breaks that end the lines of `b`, in order: the break after each
/// line, and for a last line that runs to the end of `b`, an empty one.
pub open spec fn split_endings(b: Seq<u8>) -> Seq<Seq<u8>>
    decreases b.len(),
{
    if b.len() == 0 {
        seq![]
    } else {
        let e = first_line_end(b);
        let next = e + first_break_len(b);
        if 0 <= e <= b.len() && e < next <= b.len() {
            seq![b.subrange(e, next)] + split_endings(b.subrange(next, b.len() as int))
        } else if e == b.len() {
            seq![seq![]]
        } else {
            seq![]
        }
    }
}

/// Each line followed by its line break, all put together.
pub open spec fn join_lines(lines: Seq<Seq<u8>>, ends: Seq<Seq<u8>>) -> Seq<u8>
    decreases lines.len(),
{
    if lines.len() == 0 || ends.len() == 0 {
        seq![]
    } else {
        lines[0] + ends[0] + join_lines(lines.drop_first(), ends.drop_first())
    }
}

/// Whether `end` is a line break that may stand before the text `after`:
/// `\n`, `\r\n`, or a `\r` that no `\n` follows.
pub open spec fn break_before(end: Seq<u8>, after: Seq<u8>) -> bool {
    end == ending_bytes(LineEnding::Lf) || end == ending_bytes(LineEnding::CrLf) || (end == ending_bytes(
        LineEnding::Cr,
    ) && !(after.len() > 0 && after[0] == 0x0a))
}

/// Text splits into its lines and their line breaks: put back together they
/// give the text; there are no lines exactly when the text is empty; no line
/// holds a line break; each break is `\n`, `\r\n` or a `\r` that no `\n`
/// follows, and only the last may be empty (the last line ran to the end).
pub proof fn lemma_lines_decompose(b: Seq<u8>)
    ensures
        split_endings(b).len() == split_lines(b).len(),
        join_lines(split_lines(b), split_endings(b)) == b,
        (split_lines(b).len() == 0) == (b.len() == 0),
        forall|i: int, k: int|
            0 <= i < split_lines(b).len() && 0 <= k < split_lines(b)[i].len()
                ==> !is_line_break_byte(#[trigger] split_lines(b)[i][k]),
        forall|i: int|
            0 <= i < split_endings(b).len() ==> break_before(
                #[trigger] split_endings(b)[i],
                join_lines(split_lines(b).skip(i + 1), split_endings(b).skip(i + 1)),
            ) || (i == split_endings(b).len() - 1 && split_endings(b)[i].len() == 0),
    decreases b.len(),
{
    lemma_lines_have_no_breaks(b);
    if b.len() > 0 {
        lemma_first_line_rejoins(b);
        lemma_span(b, 0, ByteClass::NotNewline);
        let e = first_line_end(b);
        let next = e + first_break_len(b);
        let lines = split_lines(b);
        let ends = split_endings(b);
        if e < next {
            let rest = b.subrange(next, b.len() as int);
            lemma_lines_decompose(rest);
            assert(lines.drop_first() == split_lines(rest));
            assert(ends.drop_first() == split_endings(rest));
            assert(lines[0] + ends[0] + join_lines(split_lines(rest), split_endings(rest)) =~= b);
            assert forall|i: int| 0 <= i < ends.len() implies break_before(
                #[trigger] ends[i],
                join_lines(lines.skip(i + 1), ends.skip(i + 1)),
            ) || (i == ends.len() - 1 && ends[i].len() == 0) by {
                if i == 0 {
                    assert(lines.skip(1) =~= split_lines(rest));
                    assert(ends.skip(1) =~= split_endings(rest));
                    assert(ends[0] == ending_bytes(ending_at(b, e)));
                    if ends[0] == ending_bytes(LineEnding::Cr) && rest.len() > 0 {
                        assert(rest[0] == b[e + 1]);
                    }
                } else {
                    assert(ends[i] == split_endings(rest)[i - 1]);
                    assert(lines.skip(i + 1) =~= split_lines(rest).skip(i));
                    assert(ends.skip(i + 1) =~= split_endings(rest).skip(i));
                }
            }
        } else {
            assert(e == b.len());
            assert(b.subrange(0, e) =~= b);
            assert(lines[0] + ends[0] + join_lines(lines.drop_first(), ends.drop_first()) =~= b);
        }
    }
}

/// The index of the first `\n` of `b` from `i` on, or the length of `b`.
pub open spec fn next_lf(b: Seq<u8>, i: int) -> int
    decreases b.len() - i,
{
    if 0 <= i < b.len() && b[i] != 0x0a {
        next_lf(b, i + 1)
    } else {
        i
    }
}

/// The lines of `b` as `str::lines` documents them: split at each `\n`, a
/// `\r` right before that `\n` dropped from the line, and no line after a
/// `\n` at the very end.
pub open spec fn std_lines(b: Seq<u8>) -> Seq<Seq<u8>>
    decreases b.len(),
{
    if b.len() == 0 {
        seq![]
    } else {
        let e = next_lf(b, 0);
        if 0 <= e < b.len() {
            let line = if e > 0 && b[e - 1] == 0x0d {
                b.subrange(0, e - 1)
            } else {
                b.subrange(0, e)
            };
            seq![line] + std_lines(b.subrange(e + 1, b.len() as int))
        } else {
            seq![b]
        }
    }
}

proof fn lemma_next_lf(b: Seq<u8>, i: int, j: int)
    requires
        0 <= i <= j <= b.len(),
        forall|k: int| i <= k < j ==> b[k] != 0x0a,
        j == b.len() || b[j] == 0x0a,
    ensures
        next_lf(b, i) == j,
    decreases j - i,
{
    if i < j {
        lemma_next_lf(b, i + 1, j);
    }
}

/// Whether every `\r` of `b` is followed by a `\n`.
pub open spec fn no_lone_cr(b: Seq<u8>) -> bool {
    forall|k: int| 0 <= k < b.len() && #[trigger] b[k] == 0x0d ==> k + 1 < b.len() && b[k + 1] == 0x0a
}

/// Where no `\r` stands alone, text splits into the same lines as
/// `str::lines` gives: the iterator is `str::lines` that also splits at a lone
/// `\r`.
pub proof fn lemma_lines_match_std_lines(b: Seq<u8>)
    requires
        no_lone_cr(b),
    ensures
        split_lines(b) == std_lines(b),
    decreases b.len(),
{
    if b.len() > 0 {
        lemma_span(b, 0, ByteClass::NotNewline);
        let e = first_line_end(b);
        if e == b.len() {
            lemma_next_lf(b, 0, e);
            assert(split_lines(b) == seq![b]);
        } else if b[e] == 0x0a {
            lemma_next_lf(b, 0, e);
            let rest = b.subrange(e + 1, b.len() as int);
            assert forall|k: int| 0 <= k < rest.len() && #[trigger] rest[k] == 0x0d implies k + 1 < rest.len()
                && rest[k + 1] == 0x0a by {
                assert(rest[k] == b[e + 1 + k]);
                assert(b[e + 1 + k + 1] == 0x0a);
                assert(rest[k + 1] == b[e + 1 + k + 1]);
            }
            assert(no_lone_cr(rest));
            lemma_lines_match_std_lines(rest);
            if e > 0 {
                assert(b[e - 1] != 0x0d);
            }
        } else {
            assert(b[e] == 0x0d);
            assert(b[e + 1] == 0x0a);
            lemma_next_lf(b, 0, e + 1);
            let rest = b.subrange(e + 2, b.len() as int);
            assert forall|k: int| 0 <= k < rest.len() && #[trigger] rest[k] == 0x0d implies k + 1 < rest.len()
                && rest[k + 1] == 0x0a by {
                assert(rest[k] == b[e + 2 + k]);
                assert(b[e + 2 + k + 1] == 0x0a);
                assert(rest[k + 1] == b[e + 2 + k + 1]);
            }
            assert(no_lone_cr(rest));
            lemma_lines_match_std_lines(rest);
            assert(b.subrange(0, e + 1).subrange(0, e) =~= b.subrange(0, e));
        }
    }
}

} // verus!
