//! The lexical grammar, stated over the UTF-8 bytes of the input.
//!
//! Every byte of a non-ASCII character is `>= 0x80`, and the grammar treats
//! all such bytes alike (as identifier characters), so a token never ends in
//! the middle of a character: lexing bytes gives the same token boundaries as
//! lexing characters.
use vstd::prelude::*;
use crate::token::{Base, LiteralKind, Token, TokenKind};

verus! {

/// The byte at `i`, or `0` past either end (the end-of-file marker).
pub open spec fn byte_at(s: Seq<u8>, i: int) -> u8 {
    if 0 <= i < s.len() { s[i] } else { 0u8 }
}

pub open spec fn is_digit_byte(b: u8) -> bool {
    0x30 <= b <= 0x39
}

pub open spec fn is_hex_digit_byte(b: u8) -> bool {
    is_digit_byte(b) || (0x61 <= b <= 0x66) || (0x41 <= b <= 0x46)
}

/// `[A-Za-z_]` or any byte of a non-ASCII character.
pub open spec fn is_ident_start_byte(b: u8) -> bool {
    (0x61 <= b <= 0x7a) || (0x41 <= b <= 0x5a) || b == 0x5f || b >= 0x80
}

/// `[A-Za-z_0-9$]` or any byte of a non-ASCII character.
pub open spec fn is_ident_cont_byte(b: u8) -> bool {
    is_ident_start_byte(b) || is_digit_byte(b) || b == 0x24
}

/// Space, tab, newline, carriage return, vertical tab, form feed.
pub open spec fn is_whitespace_byte(b: u8) -> bool {
    b == 0x20 || b == 0x09 || b == 0x0a || b == 0x0d || b == 0x0b || b == 0x0c
}

/// The byte classes over which the lexer skips runs of bytes.
#[derive(Clone, Copy, PartialEq, Eq, Structural)]
pub enum ByteClass {
    IdentCont,
    Whitespace,
    NotNewline,
    NotDollar,
    TagChar,
    Digit,
}

pub open spec fn in_class(c: ByteClass, b: u8) -> bool {
    match c {
        ByteClass::IdentCont => is_ident_cont_byte(b),
        ByteClass::Whitespace => is_whitespace_byte(b),
        ByteClass::NotNewline => b != 0x0a && b != 0x0d,
        ByteClass::NotDollar => b != 0x24,
        ByteClass::TagChar => is_ident_cont_byte(b) && b != 0x24,
        ByteClass::Digit => is_digit_byte(b),
    }
}

/// The end of the longest run of bytes of class `c` that starts at `i`.
pub open spec fn span(s: Seq<u8>, i: int, c: ByteClass) -> int
    decreases s.len() - i,
{
    if 0 <= i < s.len() && in_class(c, s[i]) {
        span(s, i + 1, c)
    } else {
        i
    }
}

/// A nested block comment whose body starts at `i` at nesting `depth`:
/// its end and whether it is closed.
pub open spec fn block_comment_end(s: Seq<u8>, i: int, depth: nat) -> (int, bool)
    decreases s.len() - i,
{
    if i < 0 || i >= s.len() {
        (i, false)
    } else if s[i] == 0x2f && byte_at(s, i + 1) == 0x2a {
        block_comment_end(s, i + 2, depth + 1)
    } else if s[i] == 0x2a && byte_at(s, i + 1) == 0x2f {
        if depth <= 1 {
            (i + 2, true)
        } else {
            block_comment_end(s, i + 2, (depth - 1) as nat)
        }
    } else {
        block_comment_end(s, i + 1, depth)
    }
}

/// A single-quoted string whose body starts at `i` (`''` is an escaped quote;
/// with `backslash`, a backslash escapes the following byte): its end and
/// whether it is closed.
pub open spec fn single_quoted_end(s: Seq<u8>, i: int, backslash: bool) -> (int, bool)
    decreases s.len() - i,
{
    if i < 0 || i >= s.len() {
        (i, false)
    } else if s[i] == 0x5c && backslash {
        single_quoted_end(s, if i + 2 <= s.len() { i + 2 } else { s.len() as int }, backslash)
    } else if s[i] == 0x27 {
        if byte_at(s, i + 1) == 0x27 {
            single_quoted_end(s, i + 2, backslash)
        } else {
            (i + 1, true)
        }
    } else {
        single_quoted_end(s, i + 1, backslash)
    }
}

/// A double-quoted identifier whose body starts at `i` (`""` is an escaped
/// quote): its end and whether it is closed.
pub open spec fn double_quoted_end(s: Seq<u8>, i: int) -> (int, bool)
    decreases s.len() - i,
{
    if i < 0 || i >= s.len() {
        (i, false)
    } else if s[i] == 0x22 {
        if byte_at(s, i + 1) == 0x22 {
            double_quoted_end(s, i + 2)
        } else {
            (i + 1, true)
        }
    } else {
        double_quoted_end(s, i + 1)
    }
}

/// After a `$` at `i - 1`: does `$$` or `$tag$` start here?
pub open spec fn is_dollar_quote_start(s: Seq<u8>, i: int) -> bool {
    0 <= i < s.len() && (s[i] == 0x24 || (is_ident_start_byte(s[i]) && span(s, i + 1, ByteClass::TagChar)
        < s.len() && s[span(s, i + 1, ByteClass::TagChar)] == 0x24))
}

/// How many bytes of `tag` (from index `k` on) appear at `j + k` onwards.
pub open spec fn tag_match_len(s: Seq<u8>, j: int, tag: Seq<u8>, k: int) -> int
    decreases tag.len() - k,
{
    if 0 <= k < tag.len() && byte_at(s, j + k) == tag[k] {
        tag_match_len(s, j, tag, k + 1)
    } else {
        k
    }
}

/// The body of a dollar-quoted string with delimiter `$tag$`, from `j` on:
/// its end and whether the closing delimiter was found.
pub open spec fn dollar_body_end(s: Seq<u8>, j: int, tag: Seq<u8>) -> (int, bool)
    decreases s.len() - j,
{
    let k = span(s, j, ByteClass::NotDollar);
    if j < 0 || k >= s.len() || k < j {
        (s.len() as int, false)
    } else {
        let m = tag_match_len(s, k + 1, tag, 0);
        if m == tag.len() && byte_at(s, k + 1 + m) == 0x24 {
            (k + 2 + m, true)
        } else if j < k + 1 + m <= s.len() {
            dollar_body_end(s, k + 1 + m, tag)
        } else {
            (s.len() as int, false)
        }
    }
}

/// A dollar-quoted string whose opening delimiter starts after the `$` at
/// `i - 1`: its end and whether it is closed.
pub open spec fn dollar_quoted_end(s: Seq<u8>, i: int) -> (int, bool) {
    let t = span(s, i, ByteClass::NotDollar);
    if t >= s.len() {
        (s.len() as int, false)
    } else {
        dollar_body_end(s, t + 1, s.subrange(i, t))
    }
}

/// Decimal digits with single `_` separators from `i` on: the end and
/// whether any digit was met.
pub open spec fn decimal_digits_end(s: Seq<u8>, i: int) -> (int, bool)
    decreases s.len() - i,
{
    if i < 0 || i >= s.len() {
        (i, false)
    } else if s[i] == 0x5f && is_digit_byte(byte_at(s, i + 1)) {
        decimal_digits_end(s, i + 1)
    } else if is_digit_byte(s[i]) {
        (decimal_digits_end(s, i + 1).0, true)
    } else {
        (i, false)
    }
}

/// Hexadecimal digits with single `_` separators from `i` on.
pub open spec fn hex_digits_end(s: Seq<u8>, i: int) -> (int, bool)
    decreases s.len() - i,
{
    if i < 0 || i >= s.len() {
        (i, false)
    } else if s[i] == 0x5f && is_hex_digit_byte(byte_at(s, i + 1)) {
        hex_digits_end(s, i + 1)
    } else if is_hex_digit_byte(s[i]) {
        (hex_digits_end(s, i + 1).0, true)
    } else {
        (i, false)
    }
}

/// An exponent (`[+-]?digits`) from `i` on: its end and whether it has digits.
pub open spec fn exponent_end(s: Seq<u8>, i: int) -> (int, bool) {
    if byte_at(s, i) == 0x2d || byte_at(s, i) == 0x2b {
        if !is_digit_byte(byte_at(s, i + 1)) {
            (i, false)
        } else {
            decimal_digits_end(s, i + 1)
        }
    } else if !is_digit_byte(byte_at(s, i)) {
        (i, false)
    } else {
        decimal_digits_end(s, i)
    }
}

/// Identifier characters glued to the end of a literal at `i`.
pub open spec fn identifier_end(s: Seq<u8>, i: int) -> int {
    if is_ident_start_byte(byte_at(s, i)) {
        span(s, i, ByteClass::IdentCont)
    } else {
        i
    }
}

/// The fractional part (after the `.` or from a leading `.`) of a numeric
/// literal that began at `start`, from `i` on.
pub open spec fn fractional(s: Seq<u8>, start: int, i: int) -> (LiteralKind, int) {
    let q = if is_digit_byte(byte_at(s, i)) { decimal_digits_end(s, i).0 } else { i };
    let (r, empty_exp) = if byte_at(s, q) == 0x65 || byte_at(s, q) == 0x45 {
        let (r, has) = exponent_end(s, q + 1);
        (r, if has { None } else { Some((q - start) as u32) })
    } else {
        (q, None)
    };
    (
        LiteralKind::Numeric {
            empty_exponent_start: empty_exp,
            trailing_junk_start: (r - start) as u32,
        },
        identifier_end(s, r),
    )
}

/// An integer literal with a base prefix whose digits ended at `p`.
pub open spec fn base_prefixed_int(s: Seq<u8>, start: int, p: int, base: Base, has_digits: bool) -> (
    LiteralKind,
    int,
) {
    let e = span(s, p, ByteClass::IdentCont);
    (
        LiteralKind::Int {
            base,
            empty_int: !has_digits && !(e > p),
            trailing_junk_start: (p - start) as u32,
        },
        e,
    )
}

/// What follows the integer part (ending at `p`) of a decimal literal.
pub open spec fn after_integer_part(s: Seq<u8>, start: int, p: int) -> (LiteralKind, int) {
    if byte_at(s, p) == 0x2e {
        fractional(s, start, p + 1)
    } else if byte_at(s, p) == 0x65 || byte_at(s, p) == 0x45 {
        let (r, has) = exponent_end(s, p + 1);
        (
            LiteralKind::Numeric {
                empty_exponent_start: if has { None } else { Some((p - start) as u32) },
                trailing_junk_start: (r - start) as u32,
            },
            identifier_end(s, r),
        )
    } else {
        (
            LiteralKind::Int {
                base: Base::Decimal,
                empty_int: false,
                trailing_junk_start: (p - start) as u32,
            },
            identifier_end(s, p),
        )
    }
}

/// A numeric literal whose first byte `first` is at `start`.
pub open spec fn number(s: Seq<u8>, start: int, first: u8) -> (LiteralKind, int) {
    let i = start + 1;
    let c = byte_at(s, i);
    if first == 0x2e {
        fractional(s, start, i)
    } else if first == 0x30 && (c == 0x62 || c == 0x42) {
        let (p, has) = decimal_digits_end(s, i + 1);
        base_prefixed_int(s, start, p, Base::Binary, has)
    } else if first == 0x30 && (c == 0x6f || c == 0x4f) {
        let (p, has) = decimal_digits_end(s, i + 1);
        base_prefixed_int(s, start, p, Base::Octal, has)
    } else if first == 0x30 && (c == 0x78 || c == 0x58) {
        let (p, has) = hex_digits_end(s, i + 1);
        base_prefixed_int(s, start, p, Base::Hexadecimal, has)
    } else if first == 0x30 && !(is_digit_byte(c) || c == 0x5f || c == 0x2e || c == 0x65 || c == 0x45) {
        (
            LiteralKind::Int {
                base: Base::Decimal,
                empty_int: false,
                trailing_junk_start: (i - start) as u32,
            },
            identifier_end(s, i),
        )
    } else {
        after_integer_part(s, start, decimal_digits_end(s, i).0)
    }
}

/// The prefixes that may introduce a quoted string.
#[derive(Clone, Copy, PartialEq, Eq, Structural)]
pub enum StrPrefix {
    /// `U&'...'` (and `U&"..."`).
    UnicodeEscape,
    /// `E'...'`
    Escape,
    /// `B'...'`
    Bit,
    /// `X'...'`
    Byte,
}

pub open spec fn prefixed_literal(p: StrPrefix, terminated: bool) -> LiteralKind {
    match p {
        StrPrefix::UnicodeEscape => LiteralKind::UnicodeEscStr { terminated },
        StrPrefix::Escape => LiteralKind::EscStr { terminated },
        StrPrefix::Bit => LiteralKind::BitStr { terminated },
        StrPrefix::Byte => LiteralKind::ByteStr { terminated },
    }
}

/// A string prefix ended at `i`: a quoted string follows, or it is an identifier.
pub open spec fn prefixed_string(s: Seq<u8>, i: int, p: StrPrefix) -> (TokenKind, int) {
    let allows_double = p == StrPrefix::UnicodeEscape;
    let backslash = p == StrPrefix::Escape;
    if byte_at(s, i) == 0x27 {
        let (e, t) = single_quoted_end(s, i + 1, backslash);
        (TokenKind::Literal { kind: prefixed_literal(p, t) }, e)
    } else if byte_at(s, i) == 0x22 && allows_double {
        let (e, t) = double_quoted_end(s, i + 1);
        (TokenKind::QuotedIdent { terminated: t, uescape: true }, e)
    } else {
        (TokenKind::Ident, span(s, i, ByteClass::IdentCont))
    }
}

/// The token kind of a single punctuation byte, if it is one.
pub open spec fn punctuation(c: u8) -> Option<TokenKind> {
    if c == 0x3b { Some(TokenKind::Semi) }
    else if c == 0x2c { Some(TokenKind::Comma) }
    else if c == 0x28 { Some(TokenKind::OpenParen) }
    else if c == 0x29 { Some(TokenKind::CloseParen) }
    else if c == 0x5b { Some(TokenKind::OpenBracket) }
    else if c == 0x5d { Some(TokenKind::CloseBracket) }
    else if c == 0x7b { Some(TokenKind::OpenCurly) }
    else if c == 0x7d { Some(TokenKind::CloseCurly) }
    else if c == 0x40 { Some(TokenKind::At) }
    else if c == 0x23 { Some(TokenKind::Pound) }
    else if c == 0x7e { Some(TokenKind::Tilde) }
    else if c == 0x3f { Some(TokenKind::Question) }
    else if c == 0x3a { Some(TokenKind::Colon) }
    else if c == 0x60 { Some(TokenKind::Backtick) }
    else if c == 0x3d { Some(TokenKind::Eq) }
    else if c == 0x21 { Some(TokenKind::Bang) }
    else if c == 0x3c { Some(TokenKind::Lt) }
    else if c == 0x3e { Some(TokenKind::Gt) }
    else if c == 0x26 { Some(TokenKind::And) }
    else if c == 0x7c { Some(TokenKind::Or) }
    else if c == 0x2b { Some(TokenKind::Plus) }
    else if c == 0x2a { Some(TokenKind::Star) }
    else if c == 0x5e { Some(TokenKind::Caret) }
    else if c == 0x25 { Some(TokenKind::Percent) }
    else { None }
}

/// The token that starts at `i` (with `i < s.len()`): its kind and its end.
pub open spec fn next_token(s: Seq<u8>, i: int) -> (TokenKind, int) {
    let c = s[i];
    let n1 = byte_at(s, i + 1);
    let n2 = byte_at(s, i + 2);
    if c == 0x2f {
        if n1 == 0x2a {
            let (e, t) = block_comment_end(s, i + 2, 1);
            (TokenKind::BlockComment { terminated: t }, e)
        } else {
            (TokenKind::Slash, i + 1)
        }
    } else if c == 0x2d {
        if n1 == 0x2d {
            (TokenKind::LineComment, span(s, i + 2, ByteClass::NotNewline))
        } else {
            (TokenKind::Minus, i + 1)
        }
    } else if is_whitespace_byte(c) {
        (TokenKind::Whitespace, span(s, i + 1, ByteClass::Whitespace))
    } else if c == 0x75 || c == 0x55 {
        if n1 == 0x26 && (n2 == 0x27 || n2 == 0x22) {
            prefixed_string(s, i + 2, StrPrefix::UnicodeEscape)
        } else {
            (TokenKind::Ident, span(s, i + 1, ByteClass::IdentCont))
        }
    } else if c == 0x65 || c == 0x45 {
        prefixed_string(s, i + 1, StrPrefix::Escape)
    } else if c == 0x62 || c == 0x42 {
        prefixed_string(s, i + 1, StrPrefix::Bit)
    } else if c == 0x78 || c == 0x58 {
        prefixed_string(s, i + 1, StrPrefix::Byte)
    } else if c == 0x6e || c == 0x4e {
        if n1 == 0x27 {
            let (e, t) = single_quoted_end(s, i + 2, false);
            (TokenKind::Literal { kind: LiteralKind::NationalStr { terminated: t } }, e)
        } else {
            (TokenKind::Ident, span(s, i + 1, ByteClass::IdentCont))
        }
    } else if is_ident_start_byte(c) {
        (TokenKind::Ident, span(s, i + 1, ByteClass::IdentCont))
    } else if is_digit_byte(c) {
        let (k, e) = number(s, i, c);
        (TokenKind::Literal { kind: k }, e)
    } else if c == 0x2e {
        if is_digit_byte(n1) {
            let (k, e) = number(s, i, c);
            (TokenKind::Literal { kind: k }, e)
        } else {
            (TokenKind::Dot, i + 1)
        }
    } else if punctuation(c) is Some {
        (punctuation(c).unwrap(), i + 1)
    } else if c == 0x24 {
        if is_dollar_quote_start(s, i + 1) {
            let (e, t) = dollar_quoted_end(s, i + 1);
            (TokenKind::Literal { kind: LiteralKind::DollarQuotedString { terminated: t } }, e)
        } else {
            let p = span(s, i + 1, ByteClass::Digit);
            (TokenKind::PositionalParam { trailing_junk_start: (p - i) as u32 }, identifier_end(s, p))
        }
    } else if c == 0x27 {
        let (e, t) = single_quoted_end(s, i + 1, false);
        (TokenKind::Literal { kind: LiteralKind::Str { terminated: t } }, e)
    } else if c == 0x22 {
        let (e, t) = double_quoted_end(s, i + 1);
        (TokenKind::QuotedIdent { terminated: t, uescape: false }, e)
    } else {
        (TokenKind::Unknown, i + 1)
    }
}

/// The tokens of `s` from position `i` on.
pub open spec fn tokens_from(s: Seq<u8>, i: int) -> Seq<Token>
    decreases s.len() - i,
{
    if 0 <= i < s.len() {
        let (kind, e) = next_token(s, i);
        if i < e <= s.len() {
            seq![Token { kind, len: (e - i) as u32 }] + tokens_from(s, e)
        } else {
            seq![]
        }
    } else {
        seq![]
    }
}

/// The tokens of `s`: each token's kind and byte length, in order.
pub open spec fn spec_tokenize(s: Seq<u8>) -> Seq<Token> {
    tokens_from(s, 0)
}

/// A run of bytes of one class ends at the first byte outside the class.
pub proof fn lemma_span(s: Seq<u8>, i: int, c: ByteClass)
    requires
        0 <= i <= s.len(),
    ensures
        i <= span(s, i, c) <= s.len(),
        forall|k: int| i <= k < span(s, i, c) ==> in_class(c, #[trigger] s[k]),
        span(s, i, c) < s.len() ==> !in_class(c, s[span(s, i, c)]),
    decreases s.len() - i,
{
    if i < s.len() && in_class(c, s[i]) {
        lemma_span(s, i + 1, c);
    }
}

/// The run of class `c` from `i` ends at `j` when every byte in between is
/// in the class and the byte at `j` (if any) is not.
pub proof fn lemma_span_unique(s: Seq<u8>, i: int, j: int, c: ByteClass)
    requires
        0 <= i <= j <= s.len(),
        forall|k: int| i <= k < j ==> in_class(c, #[trigger] s[k]),
        j == s.len() || !in_class(c, s[j]),
    ensures
        span(s, i, c) == j,
    decreases j - i,
{
    if i < j {
        lemma_span_unique(s, i + 1, j, c);
    }
}

pub proof fn lemma_block_comment_end(s: Seq<u8>, i: int, depth: nat)
    requires
        0 <= i <= s.len(),
    ensures
        i <= block_comment_end(s, i, depth).0 <= s.len(),
    decreases s.len() - i,
{
    if i < s.len() {
        if s[i] == 0x2f && byte_at(s, i + 1) == 0x2a {
            lemma_block_comment_end(s, i + 2, depth + 1);
        } else if s[i] == 0x2a && byte_at(s, i + 1) == 0x2f {
            if depth > 1 {
                lemma_block_comment_end(s, i + 2, (depth - 1) as nat);
            }
        } else {
            lemma_block_comment_end(s, i + 1, depth);
        }
    }
}

pub proof fn lemma_single_quoted_end(s: Seq<u8>, i: int, backslash: bool)
    requires
        0 <= i <= s.len(),
    ensures
        i <= single_quoted_end(s, i, backslash).0 <= s.len(),
    decreases s.len() - i,
{
    if i < s.len() {
        if s[i] == 0x5c && backslash {
            lemma_single_quoted_end(
                s,
                if i + 2 <= s.len() { i + 2 } else { s.len() as int },
                backslash,
            );
        } else if s[i] == 0x27 {
            if byte_at(s, i + 1) == 0x27 {
                lemma_single_quoted_end(s, i + 2, backslash);
            }
        } else {
            lemma_single_quoted_end(s, i + 1, backslash);
        }
    }
}

pub proof fn lemma_double_quoted_end(s: Seq<u8>, i: int)
    requires
        0 <= i <= s.len(),
    ensures
        i <= double_quoted_end(s, i).0 <= s.len(),
    decreases s.len() - i,
{
    if i < s.len() {
        if s[i] == 0x22 {
            if byte_at(s, i + 1) == 0x22 {
                lemma_double_quoted_end(s, i + 2);
            }
        } else {
            lemma_double_quoted_end(s, i + 1);
        }
    }
}

pub proof fn lemma_decimal_digits_end(s: Seq<u8>, i: int)
    requires
        0 <= i <= s.len(),
    ensures
        i <= decimal_digits_end(s, i).0 <= s.len(),
    decreases s.len() - i,
{
    if i < s.len() {
        if (s[i] == 0x5f && is_digit_byte(byte_at(s, i + 1))) || is_digit_byte(s[i]) {
            lemma_decimal_digits_end(s, i + 1);
        }
    }
}

pub proof fn lemma_hex_digits_end(s: Seq<u8>, i: int)
    requires
        0 <= i <= s.len(),
    ensures
        i <= hex_digits_end(s, i).0 <= s.len(),
    decreases s.len() - i,
{
    if i < s.len() {
        if (s[i] == 0x5f && is_hex_digit_byte(byte_at(s, i + 1))) || is_hex_digit_byte(s[i]) {
            lemma_hex_digits_end(s, i + 1);
        }
    }
}

pub proof fn lemma_dollar_body_end(s: Seq<u8>, j: int, tag: Seq<u8>)
    requires
        0 <= j <= s.len(),
    ensures
        j <= dollar_body_end(s, j, tag).0 <= s.len(),
    decreases s.len() - j,
{
    lemma_span(s, j, ByteClass::NotDollar);
    let k = span(s, j, ByteClass::NotDollar);
    if k < s.len() {
        let m = tag_match_len(s, k + 1, tag, 0);
        if m == tag.len() && byte_at(s, k + 1 + m) == 0x24 {
        } else if j < k + 1 + m <= s.len() {
            lemma_dollar_body_end(s, k + 1 + m, tag);
        }
    }
}

pub proof fn lemma_number_end(s: Seq<u8>, start: int, first: u8)
    requires
        0 <= start < s.len(),
    ensures
        start < number(s, start, first).1 <= s.len(),
{
    let i = start + 1;
    lemma_decimal_digits_end(s, i);
    if i < s.len() {
        lemma_decimal_digits_end(s, i + 1);
        lemma_hex_digits_end(s, i + 1);
        lemma_span(s, decimal_digits_end(s, i + 1).0, ByteClass::IdentCont);
        lemma_span(s, hex_digits_end(s, i + 1).0, ByteClass::IdentCont);
    }
    lemma_span(s, i, ByteClass::IdentCont);
    lemma_fractional_end(s, start, i);
    let p = decimal_digits_end(s, i).0;
    lemma_span(s, p, ByteClass::IdentCont);
    if p < s.len() {
        lemma_fractional_end(s, start, p + 1);
        lemma_exponent_end(s, p + 1);
        let r = exponent_end(s, p + 1).0;
        lemma_span(s, r, ByteClass::IdentCont);
    }
}

pub proof fn lemma_exponent_end(s: Seq<u8>, i: int)
    requires
        0 <= i <= s.len(),
    ensures
        i <= exponent_end(s, i).0 <= s.len(),
{
    lemma_decimal_digits_end(s, i);
    if i < s.len() {
        lemma_decimal_digits_end(s, i + 1);
    }
}

pub proof fn lemma_fractional_end(s: Seq<u8>, start: int, i: int)
    requires
        0 <= i <= s.len(),
    ensures
        i <= fractional(s, start, i).1 <= s.len(),
{
    lemma_decimal_digits_end(s, i);
    let q = if is_digit_byte(byte_at(s, i)) { decimal_digits_end(s, i).0 } else { i };
    lemma_span(s, q, ByteClass::IdentCont);
    if q < s.len() {
        lemma_exponent_end(s, q + 1);
        lemma_span(s, exponent_end(s, q + 1).0, ByteClass::IdentCont);
    }
}

pub proof fn lemma_prefixed_string_end(s: Seq<u8>, i: int, p: StrPrefix)
    requires
        0 <= i <= s.len(),
    ensures
        i <= prefixed_string(s, i, p).1 <= s.len(),
{
    lemma_span(s, i, ByteClass::IdentCont);
    if i < s.len() {
        lemma_single_quoted_end(s, i + 1, p == StrPrefix::Escape);
        lemma_double_quoted_end(s, i + 1);
    }
}

/// Every token takes at least one byte and stays inside the input.
pub proof fn lemma_next_token_end(s: Seq<u8>, i: int)
    requires
        0 <= i < s.len(),
    ensures
        i < next_token(s, i).1 <= s.len(),
{
    let n = i + 1;
    lemma_span(s, n, ByteClass::Whitespace);
    lemma_span(s, n, ByteClass::IdentCont);
    lemma_span(s, n, ByteClass::Digit);
    lemma_prefixed_string_end(s, n, StrPrefix::Escape);
    lemma_prefixed_string_end(s, n, StrPrefix::Bit);
    lemma_prefixed_string_end(s, n, StrPrefix::Byte);
    lemma_single_quoted_end(s, n, false);
    lemma_double_quoted_end(s, n);
    lemma_number_end(s, i, s[i]);
    lemma_span(s, span(s, n, ByteClass::Digit), ByteClass::IdentCont);
    if n < s.len() {
        lemma_block_comment_end(s, n + 1, 1);
        lemma_span(s, n + 1, ByteClass::NotNewline);
        lemma_prefixed_string_end(s, n + 1, StrPrefix::UnicodeEscape);
        lemma_single_quoted_end(s, n + 1, false);
        lemma_span(s, n, ByteClass::NotDollar);
        let t = span(s, n, ByteClass::NotDollar);
        if t < s.len() {
            lemma_dollar_body_end(s, t + 1, s.subrange(n, t));
        }
    }
}

/// The sum of the lengths of a run of tokens.
pub open spec fn total_len(ts: Seq<Token>) -> int
    decreases ts.len(),
{
    if ts.len() == 0 {
        0
    } else {
        ts[0].len + total_len(ts.drop_first())
    }
}

pub proof fn lemma_tokens_from(s: Seq<u8>, i: int)
    requires
        0 <= i <= s.len(),
        s.len() <= u32::MAX,
    ensures
        total_len(tokens_from(s, i)) == s.len() - i,
        forall|k: int|
            0 <= k < tokens_from(s, i).len() ==> #[trigger] tokens_from(s, i)[k].len > 0
                && tokens_from(s, i)[k].kind != TokenKind::Eof,
    decreases s.len() - i,
{
    if i < s.len() {
        lemma_next_token_end(s, i);
        let (kind, e) = next_token(s, i);
        lemma_next_token_not_eof(s, i);
        lemma_tokens_from(s, e);
        let ts = tokens_from(s, i);
        assert(ts.drop_first() == tokens_from(s, e));
        assert forall|k: int| 0 <= k < ts.len() implies #[trigger] ts[k].len > 0
            && ts[k].kind != TokenKind::Eof by {
            if k > 0 {
                assert(ts[k] == tokens_from(s, e)[k - 1]);
            }
        }
    }
}

pub proof fn lemma_next_token_not_eof(s: Seq<u8>, i: int)
    requires
        0 <= i < s.len(),
    ensures
        next_token(s, i).0 != TokenKind::Eof,
{
}

/// Tokens cover the input exactly: their lengths add up to the input's
/// length, none is empty, and none is an end-of-file token.
pub proof fn lemma_tokenize_covers_input(s: Seq<u8>)
    requires
        s.len() <= u32::MAX,
    ensures
        total_len(spec_tokenize(s)) == s.len(),
        forall|k: int|
            0 <= k < spec_tokenize(s).len() ==> #[trigger] spec_tokenize(s)[k].len > 0
                && spec_tokenize(s)[k].kind != TokenKind::Eof,
{
    lemma_tokens_from(s, 0);
}

} // verus!
