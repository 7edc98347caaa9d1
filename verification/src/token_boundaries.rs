//! Laws of the tokens of a text: they cut it only between characters (every
//! token ends where a character starts, or at its end), whitespace tokens
//! hold whitespace and are never next to each other, line comments hold no
//! line break, and no two identifiers are next to each other.
use vstd::prelude::*;
use vstd::utf8::{is_char_boundary, is_char_boundary_start_end_of_seq, valid_utf8};
use crate::boundary::{lemma_after_ascii_is_boundary, lemma_ascii_is_boundary};
use crate::lexer_spec::{
    block_comment_end, byte_at, dollar_body_end, dollar_quoted_end, double_quoted_end, exponent_end,
    fractional, identifier_end, is_ident_start_byte, lemma_decimal_digits_end, lemma_exponent_end,
    lemma_hex_digits_end, lemma_next_token_end, lemma_span, next_token, number, prefixed_string,
    single_quoted_end, span, spec_tokenize, tag_match_len, tokens_from, decimal_digits_end,
    hex_digits_end, ByteClass, StrPrefix,
};
use crate::token::{Token, TokenKind};
use crate::lexer_spec::{is_ident_cont_byte, is_whitespace_byte, in_class};

verus! {

/// A place in `s` next to an ASCII byte, or its end: no character is cut
/// there.
pub open spec fn ascii_edge(s: Seq<u8>, e: int) -> bool {
    e == s.len() || (0 <= e < s.len() && s[e] < 0x80) || (0 < e <= s.len() && s[e - 1] < 0x80)
}

/// In valid UTF-8, a place next to an ASCII byte is a character boundary.
pub proof fn lemma_ascii_edge_is_boundary(s: Seq<u8>, e: int)
    requires
        valid_utf8(s),
        ascii_edge(s, e),
    ensures
        is_char_boundary(s, e),
{
    if e == s.len() {
        is_char_boundary_start_end_of_seq(s);
    } else if 0 <= e < s.len() && s[e] < 0x80 {
        lemma_ascii_is_boundary(s, e);
    } else {
        lemma_after_ascii_is_boundary(s, e - 1);
    }
}

proof fn lemma_ident_span_edge(s: Seq<u8>, i: int)
    requires
        0 <= i <= s.len(),
    ensures
        ascii_edge(s, span(s, i, ByteClass::IdentCont)),
{
    lemma_span(s, i, ByteClass::IdentCont);
}

proof fn lemma_identifier_end_edge(s: Seq<u8>, i: int)
    requires
        0 <= i <= s.len(),
    ensures
        ascii_edge(s, identifier_end(s, i)),
        i <= identifier_end(s, i) <= s.len(),
{
    lemma_span(s, i, ByteClass::IdentCont);
}

proof fn lemma_block_comment_edge(s: Seq<u8>, i: int, depth: nat)
    requires
        0 <= i <= s.len(),
    ensures
        ascii_edge(s, block_comment_end(s, i, depth).0),
    decreases s.len() - i,
{
    if i < s.len() {
        if s[i] == 0x2f && byte_at(s, i + 1) == 0x2a {
            lemma_block_comment_edge(s, i + 2, depth + 1);
        } else if s[i] == 0x2a && byte_at(s, i + 1) == 0x2f {
            if depth > 1 {
                lemma_block_comment_edge(s, i + 2, (depth - 1) as nat);
            }
        } else {
            lemma_block_comment_edge(s, i + 1, depth);
        }
    }
}

proof fn lemma_single_quoted_edge(s: Seq<u8>, i: int, backslash: bool)
    requires
        0 <= i <= s.len(),
    ensures
        ascii_edge(s, single_quoted_end(s, i, backslash).0),
    decreases s.len() - i,
{
    if i < s.len() {
        if s[i] == 0x5c && backslash {
            lemma_single_quoted_edge(s, if i + 2 <= s.len() { i + 2 } else { s.len() as int }, backslash);
        } else if s[i] == 0x27 {
            if byte_at(s, i + 1) == 0x27 {
                lemma_single_quoted_edge(s, i + 2, backslash);
            }
        } else {
            lemma_single_quoted_edge(s, i + 1, backslash);
        }
    }
}

proof fn lemma_double_quoted_edge(s: Seq<u8>, i: int)
    requires
        0 <= i <= s.len(),
    ensures
        ascii_edge(s, double_quoted_end(s, i).0),
    decreases s.len() - i,
{
    if i < s.len() {
        if s[i] == 0x22 {
            if byte_at(s, i + 1) == 0x22 {
                lemma_double_quoted_edge(s, i + 2);
            }
        } else {
            lemma_double_quoted_edge(s, i + 1);
        }
    }
}

proof fn lemma_dollar_body_edge(s: Seq<u8>, j: int, tag: Seq<u8>)
    requires
        0 <= j <= s.len(),
    ensures
        ascii_edge(s, dollar_body_end(s, j, tag).0),
    decreases s.len() - j,
{
    lemma_span(s, j, ByteClass::NotDollar);
    let k = span(s, j, ByteClass::NotDollar);
    if k < s.len() {
        let m = tag_match_len(s, k + 1, tag, 0);
        if m == tag.len() && byte_at(s, k + 1 + m) == 0x24 {
        } else if j < k + 1 + m <= s.len() {
            lemma_dollar_body_edge(s, k + 1 + m, tag);
        }
    }
}

proof fn lemma_fractional_edge(s: Seq<u8>, start: int, i: int)
    requires
        0 <= i <= s.len(),
    ensures
        ascii_edge(s, fractional(s, start, i).1),
{
    lemma_decimal_digits_end(s, i);
    let q = if crate::lexer_spec::is_digit_byte(byte_at(s, i)) { decimal_digits_end(s, i).0 } else { i };
    lemma_identifier_end_edge(s, q);
    if q < s.len() {
        lemma_exponent_end(s, q + 1);
        lemma_identifier_end_edge(s, exponent_end(s, q + 1).0);
    }
}

proof fn lemma_number_edge(s: Seq<u8>, start: int, first: u8)
    requires
        0 <= start < s.len(),
    ensures
        ascii_edge(s, number(s, start, first).1),
{
    let i = start + 1;
    lemma_decimal_digits_end(s, i);
    lemma_fractional_edge(s, start, i);
    lemma_identifier_end_edge(s, i);
    if i < s.len() {
        lemma_decimal_digits_end(s, i + 1);
        lemma_hex_digits_end(s, i + 1);
        lemma_ident_span_edge(s, decimal_digits_end(s, i + 1).0);
        lemma_ident_span_edge(s, hex_digits_end(s, i + 1).0);
    }
    let p = decimal_digits_end(s, i).0;
    lemma_identifier_end_edge(s, p);
    if p < s.len() {
        lemma_fractional_edge(s, start, p + 1);
        lemma_exponent_end(s, p + 1);
        lemma_identifier_end_edge(s, exponent_end(s, p + 1).0);
    }
}

proof fn lemma_prefixed_string_edge(s: Seq<u8>, i: int, p: StrPrefix)
    requires
        0 <= i <= s.len(),
    ensures
        ascii_edge(s, prefixed_string(s, i, p).1),
{
    lemma_ident_span_edge(s, i);
    if i < s.len() {
        lemma_single_quoted_edge(s, i + 1, p == StrPrefix::Escape);
        lemma_double_quoted_edge(s, i + 1);
    }
}

/// Every token ends next to an ASCII byte or at the end of the input.
proof fn lemma_next_token_edge(s: Seq<u8>, i: int)
    requires
        0 <= i < s.len(),
    ensures
        ascii_edge(s, next_token(s, i).1),
{
    let n = i + 1;
    lemma_span(s, n, ByteClass::Whitespace);
    lemma_ident_span_edge(s, n);
    lemma_span(s, n, ByteClass::Digit);
    lemma_prefixed_string_edge(s, n, StrPrefix::Escape);
    lemma_prefixed_string_edge(s, n, StrPrefix::Bit);
    lemma_prefixed_string_edge(s, n, StrPrefix::Byte);
    lemma_single_quoted_edge(s, n, false);
    lemma_double_quoted_edge(s, n);
    lemma_number_edge(s, i, s[i]);
    lemma_identifier_end_edge(s, span(s, n, ByteClass::Digit));
    if n < s.len() {
        lemma_block_comment_edge(s, n + 1, 1);
        lemma_span(s, n + 1, ByteClass::NotNewline);
        lemma_prefixed_string_edge(s, n + 1, StrPrefix::UnicodeEscape);
        lemma_single_quoted_edge(s, n + 1, false);
        lemma_span(s, n, ByteClass::NotDollar);
        let t = span(s, n, ByteClass::NotDollar);
        if t < s.len() {
            lemma_dollar_body_edge(s, t + 1, s.subrange(n, t));
        }
    }
    let e = span(s, n, ByteClass::Whitespace);
    if e > n {
        assert(crate::lexer_spec::in_class(ByteClass::Whitespace, s[e - 1]));
    }
}

/// The byte offset at which the token `k` of `ts` starts (the sum of the
/// lengths of the tokens before it); for `k == ts.len()`, the offset just
/// after the last token.
pub open spec fn token_offset(ts: Seq<Token>, k: int) -> int
    decreases k,
{
    if k <= 0 || ts.len() == 0 {
        0
    } else {
        ts[0].len + token_offset(ts.drop_first(), k - 1)
    }
}

proof fn lemma_tokens_from_edges(s: Seq<u8>, i: int)
    requires
        0 <= i <= s.len(),
        s.len() <= u32::MAX,
    ensures
        i + token_offset(tokens_from(s, i), tokens_from(s, i).len() as int) == s.len(),
        forall|k: int|
            1 <= k <= tokens_from(s, i).len() ==> ascii_edge(s, i + #[trigger] token_offset(tokens_from(s, i), k)),
        forall|k: int|
            0 <= k < tokens_from(s, i).len() ==> #[trigger] token_offset(tokens_from(s, i), k + 1)
                == token_offset(tokens_from(s, i), k) + tokens_from(s, i)[k].len,
    decreases s.len() - i,
{
    if i < s.len() {
        lemma_next_token_end(s, i);
        lemma_next_token_edge(s, i);
        let e = next_token(s, i).1;
        lemma_tokens_from_edges(s, e);
        let ts = tokens_from(s, i);
        let rest = tokens_from(s, e);
        assert(ts.drop_first() == rest);
        assert(ts[0].len == e - i);
        assert forall|k: int| 1 <= k <= ts.len() implies ascii_edge(s, i + #[trigger] token_offset(ts, k)) by {
            if k > 1 {
                assert(token_offset(rest, k - 1) == token_offset(rest, k - 1));
                assert(ascii_edge(s, e + token_offset(rest, k - 1)));
            } else {
                assert(token_offset(rest, 0) == 0);
            }
        }
        assert forall|k: int| 0 <= k < ts.len() implies #[trigger] token_offset(ts, k + 1) == token_offset(ts, k)
            + ts[k].len by {
            if k > 0 {
                assert(token_offset(rest, k) == token_offset(rest, k - 1) + rest[k - 1].len);
                assert(ts[k] == rest[k - 1]);
            }
        }
    }
}

/// The tokens of a text partition it between characters: the offsets at
/// which its tokens start, and the offset after the last one, are character
/// boundaries of the text, each token runs from its offset to the next, and
/// the last one ends at the end of the text.
pub proof fn lemma_tokens_cut_between_characters(s: Seq<u8>)
    requires
        valid_utf8(s),
        s.len() <= u32::MAX,
    ensures
        token_offset(spec_tokenize(s), spec_tokenize(s).len() as int) == s.len(),
        forall|k: int|
            0 <= k <= spec_tokenize(s).len() ==> is_char_boundary(s, #[trigger] token_offset(spec_tokenize(s), k)),
        forall|k: int|
            0 <= k < spec_tokenize(s).len() ==> #[trigger] token_offset(spec_tokenize(s), k + 1)
                == token_offset(spec_tokenize(s), k) + spec_tokenize(s)[k].len,
{
    let ts = spec_tokenize(s);
    lemma_tokens_from_edges(s, 0);
    assert forall|k: int| 0 <= k <= ts.len() implies is_char_boundary(s, #[trigger] token_offset(ts, k)) by {
        if k == 0 {
            is_char_boundary_start_end_of_seq(s);
        } else {
            assert(ascii_edge(s, 0 + token_offset(ts, k)));
            lemma_ascii_edge_is_boundary(s, token_offset(ts, k));
        }
    }
}


/// What the token that starts at `i` holds, by its kind: a whitespace token
/// is a longest run of whitespace, a line comment is `--` and then no line
/// break, and an identifier starts with an identifier character and is not
/// followed by one.
proof fn lemma_next_token_shape(s: Seq<u8>, i: int)
    requires
        0 <= i < s.len(),
    ensures
        (next_token(s, i).0 == TokenKind::Whitespace) == is_whitespace_byte(s[i]),
        next_token(s, i).0 == TokenKind::Whitespace ==> (forall|j: int|
            i <= j < next_token(s, i).1 ==> is_whitespace_byte(#[trigger] s[j])) && (next_token(s, i).1 < s.len()
            ==> !is_whitespace_byte(s[next_token(s, i).1])),
        next_token(s, i).0 == TokenKind::LineComment ==> s[i] == 0x2d && i + 1 < s.len() && s[i + 1] == 0x2d
            && forall|j: int| i + 2 <= j < next_token(s, i).1 ==> #[trigger] s[j] != 0x0a && s[j] != 0x0d,
        next_token(s, i).0 == TokenKind::Ident ==> is_ident_cont_byte(s[i]) && (next_token(s, i).1 < s.len()
            ==> !is_ident_cont_byte(s[next_token(s, i).1])),
{
    let n = i + 1;
    lemma_span(s, n, ByteClass::Whitespace);
    lemma_span(s, n, ByteClass::IdentCont);
    if n < s.len() {
        lemma_span(s, n + 1, ByteClass::NotNewline);
        lemma_span(s, n + 1, ByteClass::IdentCont);
    }
    let e = next_token(s, i).1;
    if next_token(s, i).0 == TokenKind::Whitespace {
        assert forall|j: int| i <= j < e implies is_whitespace_byte(#[trigger] s[j]) by {
            if j > i {
                assert(in_class(ByteClass::Whitespace, s[j]));
            }
        }
    }
    if next_token(s, i).0 == TokenKind::LineComment {
        assert forall|j: int| i + 2 <= j < e implies #[trigger] s[j] != 0x0a && s[j] != 0x0d by {
            assert(in_class(ByteClass::NotNewline, s[j]));
        }
    }
}

/// The tokens of `s` from `i` on hold what their kinds say, and no two
/// whitespace tokens nor two identifiers stand next to each other.
proof fn lemma_tokens_from_shape(s: Seq<u8>, i: int)
    requires
        0 <= i <= s.len(),
        s.len() <= u32::MAX,
    ensures
        forall|k: int|
            0 <= k < tokens_from(s, i).len() ==> token_shape_ok(
                s,
                #[trigger] tokens_from(s, i)[k],
                i + token_offset(tokens_from(s, i), k),
                i + token_offset(tokens_from(s, i), k + 1),
            ),
        forall|k: int|
            0 <= k < tokens_from(s, i).len() - 1 ==> neighbours_ok(
                #[trigger] tokens_from(s, i)[k],
                tokens_from(s, i)[k + 1],
            ),
        forall|k: int|
            0 <= k < tokens_from(s, i).len() ==> (#[trigger] tokens_from(s, i)[k].kind == TokenKind::Whitespace)
                == is_whitespace_byte(s[i + token_offset(tokens_from(s, i), k)]),
        tokens_from(s, i).len() > 0 && tokens_from(s, i)[0].kind == TokenKind::Ident ==> is_ident_cont_byte(s[i]),
    decreases s.len() - i,
{
    lemma_tokens_from_edges(s, i);
    if i < s.len() {
        lemma_next_token_end(s, i);
        lemma_next_token_shape(s, i);
        let (kind, e) = next_token(s, i);
        lemma_tokens_from_shape(s, e);
        lemma_tokens_from_edges(s, e);
        let ts = tokens_from(s, i);
        let rest = tokens_from(s, e);
        assert(ts.drop_first() == rest);
        assert(token_offset(ts, 1) == e - i) by {
            assert(token_offset(rest, 0) == 0);
        }
        assert forall|k: int| 0 <= k < ts.len() implies token_shape_ok(
            s,
            #[trigger] ts[k],
            i + token_offset(ts, k),
            i + token_offset(ts, k + 1),
        ) by {
            if k > 0 {
                assert(ts[k] == rest[k - 1]);
                assert(token_offset(ts, k) == (e - i) + token_offset(rest, k - 1));
                assert(token_offset(ts, k + 1) == (e - i) + token_offset(rest, k));
                assert(token_shape_ok(s, rest[k - 1], e + token_offset(rest, k - 1), e + token_offset(rest, k)));
            }
        }
        assert forall|k: int| 0 <= k < ts.len() implies (#[trigger] ts[k].kind == TokenKind::Whitespace)
            == is_whitespace_byte(s[i + token_offset(ts, k)]) by {
            if k > 0 {
                assert(ts[k] == rest[k - 1]);
                assert(token_offset(ts, k) == (e - i) + token_offset(rest, k - 1));
            }
        }
        assert forall|k: int| 0 <= k < ts.len() - 1 implies neighbours_ok(#[trigger] ts[k], ts[k + 1]) by {
            assert(ts[k + 1] == rest[k]);
            if k > 0 {
                assert(ts[k] == rest[k - 1]);
            } else {
                assert(rest.len() > 0);
                assert(token_offset(rest, 0) == 0);
                assert(e < s.len());
            }
        }
    }
}

/// What a token at `start..end` of `s` holds by its kind.
pub open spec fn token_shape_ok(s: Seq<u8>, t: Token, start: int, end: int) -> bool {
    &&& t.kind == TokenKind::Whitespace ==> forall|j: int| start <= j < end ==> is_whitespace_byte(#[trigger] s[j])
    &&& t.kind == TokenKind::LineComment ==> s[start] == 0x2d && s[start + 1] == 0x2d && forall|j: int|
        start + 2 <= j < end ==> #[trigger] s[j] != 0x0a && s[j] != 0x0d
}

/// Two tokens that may stand next to each other: not two whitespace tokens
/// and not two identifiers.
pub open spec fn neighbours_ok(a: Token, b: Token) -> bool {
    !(a.kind == TokenKind::Whitespace && b.kind == TokenKind::Whitespace) && !(a.kind == TokenKind::Ident
        && b.kind == TokenKind::Ident)
}

/// The tokens of `s` hold what their kinds say: a whitespace token only
/// whitespace bytes, a line comment `--` and then no line break; and no two
/// whitespace tokens and no two identifiers are next to each other.
pub proof fn lemma_token_structure(s: Seq<u8>)
    requires
        s.len() <= u32::MAX,
    ensures
        forall|k: int|
            0 <= k < spec_tokenize(s).len() ==> token_shape_ok(
                s,
                #[trigger] spec_tokenize(s)[k],
                token_offset(spec_tokenize(s), k),
                token_offset(spec_tokenize(s), k + 1),
            ),
        forall|k: int|
            0 <= k < spec_tokenize(s).len() - 1 ==> neighbours_ok(#[trigger] spec_tokenize(s)[k], spec_tokenize(s)[k + 1]),
{
    lemma_tokens_from_shape(s, 0);
    let ts = spec_tokenize(s);
    assert forall|k: int| 0 <= k < ts.len() implies token_shape_ok(
        s,
        #[trigger] ts[k],
        token_offset(ts, k),
        token_offset(ts, k + 1),
    ) by {
        assert(token_shape_ok(s, ts[k], 0 + token_offset(ts, k), 0 + token_offset(ts, k + 1)));
    }
}

} // verus!
