//! The SQL lexer: a cursor over the bytes of the input that cuts it into tokens.
use vstd::prelude::*;
use vstd::string::StringSliceAdditionalSpecFns;
use crate::token::{Base, LiteralKind, Token, TokenKind};
use crate::lexer_spec::{
    block_comment_end, byte_at, decimal_digits_end, dollar_body_end, dollar_quoted_end, exponent_end,
    fractional, hex_digits_end, identifier_end, in_class, is_digit_byte, is_dollar_quote_start,
    is_hex_digit_byte, is_ident_cont_byte, is_ident_start_byte, is_whitespace_byte, next_token,
    number, prefixed_literal, prefixed_string, single_quoted_end, double_quoted_end, span,
    tag_match_len, tokens_from, spec_tokenize, after_integer_part, base_prefixed_int, punctuation,
    lemma_span, lemma_span_unique,
    ByteClass, StrPrefix,
};

verus! {

/// `[A-Za-z_]` or a byte of a non-ASCII character.
pub fn is_ident_start(c: u8) -> (r: bool)
    ensures
        r == is_ident_start_byte(c),
{
    (0x61 <= c && c <= 0x7a) || (0x41 <= c && c <= 0x5a) || c == 0x5f || c >= 0x80
}

/// `[A-Za-z_0-9$]` or a byte of a non-ASCII character.
pub fn is_ident_cont(c: u8) -> (r: bool)
    ensures
        r == is_ident_cont_byte(c),
{
    is_ident_start(c) || is_digit(c) || c == 0x24
}

/// Space, tab, newline, carriage return, vertical tab, form feed.
pub fn is_whitespace(c: u8) -> (r: bool)
    ensures
        r == is_whitespace_byte(c),
{
    c == 0x20 || c == 0x09 || c == 0x0a || c == 0x0d || c == 0x0b || c == 0x0c
}

fn is_digit(c: u8) -> (r: bool)
    ensures
        r == is_digit_byte(c),
{
    0x30 <= c && c <= 0x39
}

fn is_hex_digit(c: u8) -> (r: bool)
    ensures
        r == is_hex_digit_byte(c),
{
    is_digit(c) || (0x61 <= c && c <= 0x66) || (0x41 <= c && c <= 0x46)
}

fn class_contains(class: ByteClass, c: u8) -> (r: bool)
    ensures
        r == in_class(class, c),
{
    match class {
        ByteClass::IdentCont => is_ident_cont(c),
        ByteClass::Whitespace => is_whitespace(c),
        ByteClass::NotNewline => c != 0x0a && c != 0x0d,
        ByteClass::NotDollar => c != 0x24,
        ByteClass::TagChar => is_ident_cont(c) && c != 0x24,
        ByteClass::Digit => is_digit(c),
    }
}

/// A position in the input, and the start of the token being lexed.
pub struct Cursor<'a> {
    src: &'a [u8],
    pos: usize,
    token_start: usize,
}

impl<'a> Cursor<'a> {
    pub closed spec fn input(&self) -> Seq<u8> {
        self.src@
    }

    pub closed spec fn position(&self) -> int {
        self.pos as int
    }

    pub closed spec fn start(&self) -> int {
        self.token_start as int
    }

    pub closed spec fn wf(&self) -> bool {
        self.token_start <= self.pos <= self.src@.len() <= u32::MAX
    }

    pub fn new(src: &'a [u8]) -> (c: Cursor<'a>)
        requires
            src@.len() <= u32::MAX,
        ensures
            c.wf(),
            c.input() == src@,
            c.position() == 0,
            c.start() == 0,
    {
        Cursor { src, pos: 0, token_start: 0 }
    }

    /// The next byte, or `0` at the end of input.
    fn first(&self) -> (r: u8)
        requires
            self.wf(),
        ensures
            r == byte_at(self.src@, self.pos as int),
    {
        if self.pos < self.src.len() {
            self.src[self.pos]
        } else {
            0
        }
    }

    /// The byte after the next one, or `0` past the end of input.
    fn second(&self) -> (r: u8)
        requires
            self.wf(),
        ensures
            r == byte_at(self.src@, self.pos + 1),
    {
        if self.pos < self.src.len() && self.pos + 1 < self.src.len() {
            self.src[self.pos + 1]
        } else {
            0
        }
    }

    fn is_eof(&self) -> (r: bool)
        requires
            self.wf(),
        ensures
            r == (self.pos >= self.src@.len()),
    {
        self.pos >= self.src.len()
    }

    /// Moves past the next byte and returns it, if there is one.
    fn bump(&mut self) -> (r: Option<u8>)
        requires
            old(self).wf(),
        ensures
            final(self).wf(),
            final(self).src == old(self).src,
            final(self).token_start == old(self).token_start,
            old(self).pos <= final(self).pos,
            old(self).pos < old(self).src@.len() ==> r == Some(old(self).src@[old(self).pos as int])
                && final(self).pos == old(self).pos + 1,
            old(self).pos >= old(self).src@.len() ==> r is None && final(self).pos == old(self).pos,
    {
        if self.pos < self.src.len() {
            let c = self.src[self.pos];
            self.pos = self.pos + 1;
            Some(c)
        } else {
            None
        }
    }

    /// How far the cursor is into the current token.
    fn pos_within_token(&self) -> (r: u32)
        requires
            self.wf(),
        ensures
            r == self.pos - self.token_start,
    {
        (self.pos - self.token_start) as u32
    }

    fn reset_pos_within_token(&mut self)
        requires
            old(self).wf(),
        ensures
            final(self).wf(),
            final(self).src == old(self).src,
            final(self).pos == old(self).pos,
            final(self).token_start == old(self).pos,
    {
        self.token_start = self.pos;
    }

    /// Moves past the run of bytes of class `class`.
    fn eat_while(&mut self, class: ByteClass)
        requires
            old(self).wf(),
        ensures
            final(self).wf(),
            final(self).src == old(self).src,
            final(self).token_start == old(self).token_start,
            old(self).pos <= final(self).pos,
            final(self).pos == span(old(self).src@, old(self).pos as int, class),
    {
        let ghost s = self.src@;
        let ghost p0 = self.pos as int;
        while self.pos < self.src.len() && class_contains(class, self.src[self.pos])
            invariant
                self.wf(),
                self.src@ == s,
                self.token_start == old(self).token_start,
                old(self).pos <= self.pos,
                s == old(self).src@,
                span(s, self.pos as int, class) == span(s, p0, class),
            decreases self.src@.len() - self.pos,
        {
            self.pos = self.pos + 1;
        }
    }
    fn ident(&mut self) -> (k: TokenKind)
        requires
            old(self).wf(),
        ensures
            final(self).wf(),
            final(self).src == old(self).src,
            final(self).token_start == old(self).token_start,
            old(self).pos <= final(self).pos,
            final(self).pos == span(old(self).src@, old(self).pos as int, ByteClass::IdentCont),
            k == TokenKind::Ident,
    {
        self.eat_while(ByteClass::IdentCont);
        TokenKind::Ident
    }

    fn whitespace(&mut self) -> (k: TokenKind)
        requires
            old(self).wf(),
        ensures
            final(self).wf(),
            final(self).src == old(self).src,
            final(self).token_start == old(self).token_start,
            old(self).pos <= final(self).pos,
            final(self).pos == span(old(self).src@, old(self).pos as int, ByteClass::Whitespace),
            k == TokenKind::Whitespace,
    {
        self.eat_while(ByteClass::Whitespace);
        TokenKind::Whitespace
    }

    /// `--` up to (not including) the end of the line; the cursor is at the
    /// second `-`.
    fn line_comment(&mut self) -> (k: TokenKind)
        requires
            old(self).wf(),
            old(self).pos < old(self).src@.len(),
        ensures
            final(self).wf(),
            final(self).src == old(self).src,
            final(self).token_start == old(self).token_start,
            old(self).pos <= final(self).pos,
            final(self).pos == span(old(self).src@, old(self).pos + 1, ByteClass::NotNewline),
            k == TokenKind::LineComment,
    {
        self.bump();
        self.eat_while(ByteClass::NotNewline);
        TokenKind::LineComment
    }

    /// A possibly nested `/* ... */`; the cursor is at the `*` of the opener.
    fn block_comment(&mut self) -> (k: TokenKind)
        requires
            old(self).wf(),
            old(self).pos < old(self).src@.len(),
        ensures
            final(self).wf(),
            final(self).src == old(self).src,
            final(self).token_start == old(self).token_start,
            old(self).pos <= final(self).pos,
            ({
                let (e, t) = block_comment_end(old(self).src@, old(self).pos + 1, 1);
                final(self).pos == e && k == TokenKind::BlockComment { terminated: t }
            }),
    {
        self.bump();
        let ghost s = self.src@;
        let ghost p1 = self.pos as int;
        let mut depth: usize = 1;
        loop
            invariant_except_break
                self.wf(),
                self.src@ == s,
                s == old(self).src@,
                self.token_start == old(self).token_start,
                old(self).pos <= self.pos,
                1 <= depth <= self.pos,
                block_comment_end(s, self.pos as int, depth as nat) == block_comment_end(s, p1, 1),
            ensures
                self.wf(),
                self.src@ == s,
                self.token_start == old(self).token_start,
                old(self).pos <= self.pos,
                block_comment_end(s, p1, 1) == (self.pos as int, depth == 0),
            decreases s.len() - self.pos,
        {
            match self.bump() {
                None => {
                    break;
                },
                Some(c) => {
                    if c == 0x2f && self.first() == 0x2a {
                        self.bump();
                        depth = depth + 1;
                    } else if c == 0x2a && self.first() == 0x2f {
                        self.bump();
                        depth = depth - 1;
                        if depth == 0 {
                            break;
                        }
                    }
                },
            }
        }
        TokenKind::BlockComment { terminated: depth == 0 }
    }

    /// A single-quoted string body (the cursor is past the opening quote);
    /// whether it is closed.
    fn single_quoted_string(&mut self, backslash_escapes: bool) -> (terminated: bool)
        requires
            old(self).wf(),
        ensures
            final(self).wf(),
            final(self).src == old(self).src,
            final(self).token_start == old(self).token_start,
            old(self).pos <= final(self).pos,
            single_quoted_end(old(self).src@, old(self).pos as int, backslash_escapes) == (
                final(self).pos as int,
                terminated,
            ),
    {
        let ghost s = self.src@;
        let ghost p0 = self.pos as int;
        loop
            invariant
                self.wf(),
                self.src@ == s,
                s == old(self).src@,
                p0 == old(self).pos,
                self.token_start == old(self).token_start,
                old(self).pos <= self.pos,
                p0 <= self.pos,
                single_quoted_end(s, self.pos as int, backslash_escapes) == single_quoted_end(
                    s,
                    p0,
                    backslash_escapes,
                ),
            decreases s.len() - self.pos,
        {
            let c = self.first();
            if c == 0x5c && backslash_escapes {
                self.bump();
                self.bump();
            } else if c == 0x27 {
                self.bump();
                if self.first() == 0x27 {
                    self.bump();
                } else {
                    return true;
                }
            } else if c == 0 && self.is_eof() {
                return false;
            } else {
                self.bump();
            }
        }
    }

    /// A double-quoted identifier body (the cursor is past the opening
    /// quote); whether it is closed.
    fn double_quoted_string(&mut self) -> (terminated: bool)
        requires
            old(self).wf(),
        ensures
            final(self).wf(),
            final(self).src == old(self).src,
            final(self).token_start == old(self).token_start,
            old(self).pos <= final(self).pos,
            double_quoted_end(old(self).src@, old(self).pos as int) == (
                final(self).pos as int,
                terminated,
            ),
    {
        let ghost s = self.src@;
        let ghost p0 = self.pos as int;
        loop
            invariant
                self.wf(),
                self.src@ == s,
                s == old(self).src@,
                p0 == old(self).pos,
                self.token_start == old(self).token_start,
                old(self).pos <= self.pos,
                double_quoted_end(s, self.pos as int) == double_quoted_end(s, p0),
            decreases s.len() - self.pos,
        {
            match self.bump() {
                None => {
                    return false;
                },
                Some(c) => {
                    if c == 0x22 {
                        if self.first() == 0x22 {
                            self.bump();
                        } else {
                            return true;
                        }
                    }
                },
            }
        }
    }
    /// After a string prefix: a quoted string, or else an identifier.
    fn prefixed_string(&mut self, prefix: StrPrefix) -> (k: TokenKind)
        requires
            old(self).wf(),
        ensures
            final(self).wf(),
            final(self).src == old(self).src,
            final(self).token_start == old(self).token_start,
            old(self).pos <= final(self).pos,
            prefixed_string(old(self).src@, old(self).pos as int, prefix) == (k, final(self).pos as int),
    {
        let allows_double = prefix == StrPrefix::UnicodeEscape;
        let backslash_escapes = prefix == StrPrefix::Escape;
        let first = self.first();
        if first == 0x27 {
            self.bump();
            let terminated = self.single_quoted_string(backslash_escapes);
            TokenKind::Literal { kind: prefix_literal(prefix, terminated) }
        } else if first == 0x22 && allows_double {
            self.bump();
            let terminated = self.double_quoted_string();
            TokenKind::QuotedIdent { terminated, uescape: true }
        } else {
            self.ident()
        }
    }

    /// Decimal digits with `_` separators; whether any digit was met.
    fn eat_decimal_digits(&mut self) -> (has_digits: bool)
        requires
            old(self).wf(),
        ensures
            final(self).wf(),
            final(self).src == old(self).src,
            final(self).token_start == old(self).token_start,
            old(self).pos <= final(self).pos,
            decimal_digits_end(old(self).src@, old(self).pos as int) == (
                final(self).pos as int,
                has_digits,
            ),
    {
        let ghost s = self.src@;
        let ghost p0 = self.pos as int;
        let mut has_digits = false;
        loop
            invariant_except_break
                self.wf(),
                self.src@ == s,
                s == old(self).src@,
                p0 == old(self).pos,
                self.token_start == old(self).token_start,
                old(self).pos <= self.pos,
                decimal_digits_end(s, p0).0 == decimal_digits_end(s, self.pos as int).0,
                decimal_digits_end(s, p0).1 == (has_digits || decimal_digits_end(
                    s,
                    self.pos as int,
                ).1),
            ensures
                self.wf(),
                self.src@ == s,
                self.token_start == old(self).token_start,
                old(self).pos <= self.pos,
                decimal_digits_end(s, p0) == (self.pos as int, has_digits),
            decreases s.len() - self.pos,
        {
            let c = self.first();
            if c == 0x5f && is_digit(self.second()) {
                self.bump();
            } else if is_digit(c) {
                has_digits = true;
                self.bump();
            } else {
                break;
            }
        }
        has_digits
    }

    /// Hexadecimal digits with `_` separators; whether any digit was met.
    fn eat_hexadecimal_digits(&mut self) -> (has_digits: bool)
        requires
            old(self).wf(),
        ensures
            final(self).wf(),
            final(self).src == old(self).src,
            final(self).token_start == old(self).token_start,
            old(self).pos <= final(self).pos,
            hex_digits_end(old(self).src@, old(self).pos as int) == (final(self).pos as int, has_digits),
    {
        let ghost s = self.src@;
        let ghost p0 = self.pos as int;
        let mut has_digits = false;
        loop
            invariant_except_break
                self.wf(),
                self.src@ == s,
                s == old(self).src@,
                p0 == old(self).pos,
                self.token_start == old(self).token_start,
                old(self).pos <= self.pos,
                hex_digits_end(s, p0).0 == hex_digits_end(s, self.pos as int).0,
                hex_digits_end(s, p0).1 == (has_digits || hex_digits_end(s, self.pos as int).1),
            ensures
                self.wf(),
                self.src@ == s,
                self.token_start == old(self).token_start,
                old(self).pos <= self.pos,
                hex_digits_end(s, p0) == (self.pos as int, has_digits),
            decreases s.len() - self.pos,
        {
            let c = self.first();
            if c == 0x5f && is_hex_digit(self.second()) {
                self.bump();
            } else if is_hex_digit(c) {
                has_digits = true;
                self.bump();
            } else {
                break;
            }
        }
        has_digits
    }

    /// Identifier characters glued to the end of an integer with a base prefix.
    fn finish_base_prefixed_int(&mut self, base: Base, has_digits: bool) -> (k: LiteralKind)
        requires
            old(self).wf(),
        ensures
            final(self).wf(),
            final(self).src == old(self).src,
            final(self).token_start == old(self).token_start,
            old(self).pos <= final(self).pos,
            base_prefixed_int(
                old(self).src@,
                old(self).token_start as int,
                old(self).pos as int,
                base,
                has_digits,
            ) == (k, final(self).pos as int),
    {
        let trailing_junk_start = self.pos_within_token();
        self.eat_while(ByteClass::IdentCont);
        let has_trailing_junk = self.pos_within_token() > trailing_junk_start;
        LiteralKind::Int {
            base,
            empty_int: !has_digits && !has_trailing_junk,
            trailing_junk_start,
        }
    }

    /// A numeric exponent; whether it has at least one digit.
    fn eat_numeric_exponent(&mut self) -> (has_digits: bool)
        requires
            old(self).wf(),
        ensures
            final(self).wf(),
            final(self).src == old(self).src,
            final(self).token_start == old(self).token_start,
            old(self).pos <= final(self).pos,
            exponent_end(old(self).src@, old(self).pos as int) == (final(self).pos as int, has_digits),
    {
        if self.first() == 0x2d || self.first() == 0x2b {
            if !is_digit(self.second()) {
                return false;
            }
            self.bump();
        } else if !is_digit(self.first()) {
            return false;
        }
        self.eat_decimal_digits()
    }

    /// Identifier characters glued to the end of a literal.
    fn eat_identifier(&mut self)
        requires
            old(self).wf(),
        ensures
            final(self).wf(),
            final(self).src == old(self).src,
            final(self).token_start == old(self).token_start,
            old(self).pos <= final(self).pos,
            final(self).pos == identifier_end(old(self).src@, old(self).pos as int),
    {
        if is_ident_start(self.first()) {
            self.eat_while(ByteClass::IdentCont);
        }
    }

    /// The fractional part and exponent of a numeric literal.
    fn eat_fractional(&mut self) -> (k: LiteralKind)
        requires
            old(self).wf(),
        ensures
            final(self).wf(),
            final(self).src == old(self).src,
            final(self).token_start == old(self).token_start,
            old(self).pos <= final(self).pos,
            fractional(old(self).src@, old(self).token_start as int, old(self).pos as int) == (
                k,
                final(self).pos as int,
            ),
    {
        let mut empty_exponent_start: Option<u32> = None;
        if is_digit(self.first()) {
            self.eat_decimal_digits();
        }
        let c = self.first();
        if c == 0x65 || c == 0x45 {
            let exponent_start = self.pos_within_token();
            self.bump();
            if !self.eat_numeric_exponent() {
                empty_exponent_start = Some(exponent_start);
            }
        }
        let trailing_junk_start = self.pos_within_token();
        self.eat_identifier();
        LiteralKind::Numeric { empty_exponent_start, trailing_junk_start }
    }

    /// A numeric literal whose first byte `first_digit` (a digit or `.`) has
    /// been consumed.
    fn number(&mut self, first_digit: u8) -> (k: LiteralKind)
        requires
            old(self).wf(),
            old(self).token_start + 1 == old(self).pos,
            byte_at(old(self).src@, old(self).token_start as int) == first_digit,
        ensures
            final(self).wf(),
            final(self).src == old(self).src,
            final(self).token_start == old(self).token_start,
            old(self).pos <= final(self).pos,
            number(old(self).src@, old(self).token_start as int, first_digit) == (
                k,
                final(self).pos as int,
            ),
    {
        let mut base = Base::Decimal;
        if first_digit == 0x2e {
            return self.eat_fractional();
        }
        if first_digit == 0x30 {
            let c = self.first();
            if c == 0x62 || c == 0x42 {
                base = Base::Binary;
                self.bump();
                let has_digits = self.eat_decimal_digits();
                return self.finish_base_prefixed_int(base, has_digits);
            } else if c == 0x6f || c == 0x4f {
                base = Base::Octal;
                self.bump();
                let has_digits = self.eat_decimal_digits();
                return self.finish_base_prefixed_int(base, has_digits);
            } else if c == 0x78 || c == 0x58 {
                base = Base::Hexadecimal;
                self.bump();
                let has_digits = self.eat_hexadecimal_digits();
                return self.finish_base_prefixed_int(base, has_digits);
            } else if is_digit(c) || c == 0x5f {
                self.eat_decimal_digits();
            } else if c == 0x2e || c == 0x65 || c == 0x45 {
            } else {
                let trailing_junk_start = self.pos_within_token();
                self.eat_identifier();
                return LiteralKind::Int { base, empty_int: false, trailing_junk_start };
            }
        } else {
            self.eat_decimal_digits();
        }
        let c = self.first();
        if c == 0x2e {
            self.bump();
            self.eat_fractional()
        } else if c == 0x65 || c == 0x45 {
            let exponent_start = self.pos_within_token();
            self.bump();
            let has_exponent = self.eat_numeric_exponent();
            let empty_exponent_start = if has_exponent {
                None
            } else {
                Some(exponent_start)
            };
            let trailing_junk_start = self.pos_within_token();
            self.eat_identifier();
            LiteralKind::Numeric { empty_exponent_start, trailing_junk_start }
        } else {
            let trailing_junk_start = self.pos_within_token();
            self.eat_identifier();
            LiteralKind::Int { base, empty_int: false, trailing_junk_start }
        }
    }
}

/// The literal kind that a string prefix gives a closed or open quoted string.
fn prefix_literal(prefix: StrPrefix, terminated: bool) -> (k: LiteralKind)
    ensures
        k == prefixed_literal(prefix, terminated),
{
    match prefix {
        StrPrefix::UnicodeEscape => LiteralKind::UnicodeEscStr { terminated },
        StrPrefix::Escape => LiteralKind::EscStr { terminated },
        StrPrefix::Bit => LiteralKind::BitStr { terminated },
        StrPrefix::Byte => LiteralKind::ByteStr { terminated },
    }
}

impl<'a> Cursor<'a> {
    /// Does `$$` or `$tag$` start at the cursor (just past a `$`)?
    fn is_dollar_quote_start(&self) -> (r: bool)
        requires
            self.wf(),
        ensures
            r == is_dollar_quote_start(self.src@, self.pos as int),
    {
        if self.pos >= self.src.len() {
            return false;
        }
        let c = self.src[self.pos];
        if c == 0x24 {
            return true;
        }
        if !is_ident_start(c) {
            return false;
        }
        let ghost s = self.src@;
        let mut j = self.pos + 1;
        while j < self.src.len()
            invariant
                self.wf(),
                s == self.src@,
                self.pos < j <= s.len(),
                is_ident_start_byte(s[self.pos as int]),
                span(s, j as int, ByteClass::TagChar) == span(s, self.pos + 1, ByteClass::TagChar),
            decreases s.len() - j,
        {
            let d = self.src[j];
            if d == 0x24 {
                return true;
            }
            if !is_ident_cont(d) {
                return false;
            }
            j = j + 1;
        }
        false
    }

    /// A dollar-quoted string whose opening `$` has been consumed.
    fn dollar_quoted_string(&mut self) -> (k: TokenKind)
        requires
            old(self).wf(),
            is_dollar_quote_start(old(self).src@, old(self).pos as int),
        ensures
            final(self).wf(),
            final(self).src == old(self).src,
            final(self).token_start == old(self).token_start,
            old(self).pos <= final(self).pos,
            ({
                let (e, t) = dollar_quoted_end(old(self).src@, old(self).pos as int);
                final(self).pos == e && k == TokenKind::Literal {
                    kind: LiteralKind::DollarQuotedString { terminated: t },
                }
            }),
    {
        let ghost s = self.src@;
        let ghost p0 = self.pos as int;
        let ghost t = span(s, p0, ByteClass::NotDollar);
        proof {
            lemma_span(s, p0, ByteClass::NotDollar);
            if s[p0] != 0x24 {
                let tt = span(s, p0 + 1, ByteClass::TagChar);
                lemma_span(s, p0 + 1, ByteClass::TagChar);
                assert forall|k: int| p0 <= k < tt implies in_class(ByteClass::NotDollar, #[trigger] s[k]) by {
                    if k > p0 {
                        assert(in_class(ByteClass::TagChar, s[k]));
                    }
                }
                lemma_span_unique(s, p0, tt, ByteClass::NotDollar);
            } else {
                lemma_span_unique(s, p0, p0, ByteClass::NotDollar);
            }
        }
        // The opening delimiter's tag, up to the next `$`.
        let mut start: Vec<u8> = Vec::new();
        loop
            invariant_except_break
                self.wf(),
                self.src@ == s,
                s == old(self).src@,
                p0 == old(self).pos,
                self.token_start == old(self).token_start,
                old(self).pos <= self.pos,
                p0 <= self.pos <= t,
                t < s.len(),
                s[t] == 0x24,
                forall|k: int| p0 <= k < t ==> s[k] != 0x24,
                start@ == s.subrange(p0, self.pos as int),
            ensures
                self.wf(),
                self.src@ == s,
                self.token_start == old(self).token_start,
                old(self).pos <= self.pos,
                self.pos == t + 1,
                start@ == s.subrange(p0, t),
            decreases s.len() - self.pos,
        {
            match self.bump() {
                None => {
                    break;
                },
                Some(c) => {
                    if c == 0x24 {
                        break;
                    } else {
                        start.push(c);
                        assert(start@ == s.subrange(p0, self.pos as int));
                    }
                },
            }
        }
        let ghost tag = start@;
        assert(forall|k: int| 0 <= k < tag.len() ==> tag[k] != 0) by {
            assert forall|k: int| 0 <= k < tag.len() implies tag[k] != 0 by {
                assert(tag[k] == s[p0 + k]);
                if k > 0 {
                    assert(in_class(ByteClass::TagChar, s[p0 + k]));
                }
            }
        }
        let ghost j0 = self.pos as int;
        if start.len() == 0 {
            loop
                invariant
                    self.wf(),
                    self.src@ == s,
                    s == old(self).src@,
                    p0 == old(self).pos,
                    self.token_start == old(self).token_start,
                    old(self).pos <= self.pos,
                old(self).pos <= self.pos,
                    tag.len() == 0,
                    j0 == t + 1,
                    p0 <= t < s.len(),
                    t == span(s, p0, ByteClass::NotDollar),
                    tag == s.subrange(p0, t),
                    dollar_body_end(s, self.pos as int, tag) == dollar_body_end(s, j0, tag),
                decreases s.len() - self.pos,
            {
                let ghost j = self.pos as int;
                proof {
                    lemma_span(s, j, ByteClass::NotDollar);
                }
                self.eat_while(ByteClass::NotDollar);
                if self.is_eof() {
                    return TokenKind::Literal {
                        kind: LiteralKind::DollarQuotedString { terminated: false },
                    };
                }
                // eat $
                self.bump();
                if self.first() == 0x24 {
                    self.bump();
                    return TokenKind::Literal {
                        kind: LiteralKind::DollarQuotedString { terminated: true },
                    };
                }
            }
        } else {
            loop
                invariant
                    self.wf(),
                    self.src@ == s,
                    s == old(self).src@,
                    p0 == old(self).pos,
                    self.token_start == old(self).token_start,
                    old(self).pos <= self.pos,
                old(self).pos <= self.pos,
                    start@ == tag,
                    forall|k: int| 0 <= k < tag.len() ==> tag[k] != 0,
                    j0 == t + 1,
                    p0 <= t < s.len(),
                    t == span(s, p0, ByteClass::NotDollar),
                    tag == s.subrange(p0, t),
                    dollar_body_end(s, self.pos as int, tag) == dollar_body_end(s, j0, tag),
                decreases s.len() - self.pos,
            {
                let ghost j = self.pos as int;
                proof {
                    lemma_span(s, j, ByteClass::NotDollar);
                }
                self.eat_while(ByteClass::NotDollar);
                if self.is_eof() {
                    return TokenKind::Literal {
                        kind: LiteralKind::DollarQuotedString { terminated: false },
                    };
                }
                // Eat the leading '$' of a possible closing delimiter.
                self.bump();
                let ghost k1 = self.pos as int;
                let mut matches_tag = true;
                let mut idx: usize = 0;
                while idx < start.len()
                    invariant_except_break
                        self.wf(),
                        self.src@ == s,
                        self.token_start == old(self).token_start,
                        old(self).pos <= self.pos,
                    old(self).pos <= self.pos,
                old(self).pos <= self.pos,
                        start@ == tag,
                        forall|k: int| 0 <= k < tag.len() ==> tag[k] != 0,
                        0 <= idx <= tag.len(),
                        self.pos == k1 + idx,
                        matches_tag,
                        tag_match_len(s, k1, tag, idx as int) == tag_match_len(s, k1, tag, 0),
                    ensures
                        self.wf(),
                        self.src@ == s,
                        self.token_start == old(self).token_start,
                        old(self).pos <= self.pos,
                    old(self).pos <= self.pos,
                old(self).pos <= self.pos,
                        self.pos == k1 + tag_match_len(s, k1, tag, 0),
                        0 <= tag_match_len(s, k1, tag, 0) <= tag.len(),
                        matches_tag == (tag_match_len(s, k1, tag, 0) == tag.len()),
                    decreases tag.len() - idx,
                {
                    if self.first() == start[idx] {
                        self.bump();
                        idx = idx + 1;
                    } else {
                        matches_tag = false;
                        break;
                    }
                }
                if matches_tag && self.first() == 0x24 {
                    self.bump();
                    return TokenKind::Literal {
                        kind: LiteralKind::DollarQuotedString { terminated: true },
                    };
                }
            }
        }
    }
}

/// The token kind of a single punctuation byte, if it is one.
fn punctuation_kind(c: u8) -> (r: Option<TokenKind>)
    ensures
        r == punctuation(c),
{
    if c == 0x3b { Some(TokenKind::Semi) }
    else if c == 0x2c { Some(TokenKind::Comma) }
    else if c == 0x28 { Some(TokenKind::OpenParen) }
    else if c == 0x29 { Some(TokenKind::CloseParen) }
    else if c == 0x5b { Some(TokenKind::OpenBracket) }
    else if c == 0x5d { Some(TokenKind::CloseBracket) }
    else if c == 0x7b { Some(TokenKind::OpenCurly) }
    else if c == 0x7d { Some(TokenKind::CloseCurly) }
    else if c == 0x40 { Some(TokenKind::At) }
    else if c == 0x23 { Some(TokenKind::Pound) }
    else if c == 0x7e { Some(TokenKind::Tilde) }
    else if c == 0x3f { Some(TokenKind::Question) }
    else if c == 0x3a { Some(TokenKind::Colon) }
    else if c == 0x60 { Some(TokenKind::Backtick) }
    else if c == 0x3d { Some(TokenKind::Eq) }
    else if c == 0x21 { Some(TokenKind::Bang) }
    else if c == 0x3c { Some(TokenKind::Lt) }
    else if c == 0x3e { Some(TokenKind::Gt) }
    else if c == 0x26 { Some(TokenKind::And) }
    else if c == 0x7c { Some(TokenKind::Or) }
    else if c == 0x2b { Some(TokenKind::Plus) }
    else if c == 0x2a { Some(TokenKind::Star) }
    else if c == 0x5e { Some(TokenKind::Caret) }
    else if c == 0x25 { Some(TokenKind::Percent) }
    else { None }
}

impl<'a> Cursor<'a> {
    /// Lexes the token at the cursor and starts the next one after it; at the
    /// end of input this is an `Eof` token of length zero.
    fn advance_token(&mut self) -> (t: Token)
        requires
            old(self).wf(),
            old(self).token_start == old(self).pos,
        ensures
            final(self).wf(),
            final(self).src == old(self).src,
            final(self).token_start == final(self).pos,
            old(self).pos >= old(self).src@.len() ==> t == (Token { kind: TokenKind::Eof, len: 0 })
                && final(self).pos == old(self).pos,
            old(self).pos < old(self).src@.len() ==> ({
                let (kind, e) = next_token(old(self).src@, old(self).pos as int);
                &&& final(self).pos == e
                &&& old(self).pos < e
                &&& t.kind == kind
                &&& t.len == e - old(self).pos
            }),
    {
        let first_char = match self.bump() {
            Some(c) => c,
            None => {
                return Token::new(TokenKind::Eof, 0);
            },
        };
        let token_kind = if first_char == 0x2f {
            // Slash, comment or block comment.
            if self.first() == 0x2a {
                self.block_comment()
            } else {
                TokenKind::Slash
            }
        } else if first_char == 0x2d {
            if self.first() == 0x2d {
                self.line_comment()
            } else {
                TokenKind::Minus
            }
        } else if is_whitespace(first_char) {
            self.whitespace()
        } else if first_char == 0x75 || first_char == 0x55 {
            // Unicode escape strings: U&'...' and U&"..."
            let second = self.second();
            if self.first() == 0x26 && (second == 0x27 || second == 0x22) {
                self.bump();
                self.prefixed_string(StrPrefix::UnicodeEscape)
            } else {
                self.ident()
            }
        } else if first_char == 0x65 || first_char == 0x45 {
            // escaped strings
            self.prefixed_string(StrPrefix::Escape)
        } else if first_char == 0x62 || first_char == 0x42 {
            // bit string
            self.prefixed_string(StrPrefix::Bit)
        } else if first_char == 0x78 || first_char == 0x58 {
            // hexadecimal byte string
            self.prefixed_string(StrPrefix::Byte)
        } else if first_char == 0x6e || first_char == 0x4e {
            // national character string
            if self.first() == 0x27 {
                self.bump();
                let terminated = self.single_quoted_string(false);
                TokenKind::Literal { kind: LiteralKind::NationalStr { terminated } }
            } else {
                self.ident()
            }
        } else if is_ident_start(first_char) {
            // Identifier (checked after the other variants that can start as one).
            self.ident()
        } else if is_digit(first_char) {
            let literal_kind = self.number(first_char);
            TokenKind::Literal { kind: literal_kind }
        } else if first_char == 0x2e {
            if is_digit(self.first()) {
                let literal_kind = self.number(first_char);
                TokenKind::Literal { kind: literal_kind }
            } else {
                TokenKind::Dot
            }
        } else if let Some(kind) = punctuation_kind(first_char) {
            kind
        } else if first_char == 0x24 {
            if self.is_dollar_quote_start() {
                self.dollar_quoted_string()
            } else {
                // Parameters
                self.eat_while(ByteClass::Digit);
                let trailing_junk_start = self.pos_within_token();
                self.eat_identifier();
                TokenKind::PositionalParam { trailing_junk_start }
            }
        } else if first_char == 0x27 {
            // String literal
            let terminated = self.single_quoted_string(false);
            TokenKind::Literal { kind: LiteralKind::Str { terminated } }
        } else if first_char == 0x22 {
            // Quoted identifiers
            let terminated = self.double_quoted_string();
            TokenKind::QuotedIdent { terminated, uescape: false }
        } else {
            TokenKind::Unknown
        };
        let res = Token::new(token_kind, self.pos_within_token());
        self.reset_pos_within_token();
        res
    }
}

/// Cuts `input` into tokens, in order; the token lengths are in bytes.
pub fn tokenize(input: &str) -> (tokens: Vec<Token>)
    requires
        input.spec_bytes().len() <= u32::MAX,
    ensures
        tokens@ == spec_tokenize(input.spec_bytes()),
{
    let bytes = input.as_bytes();
    let ghost s = bytes@;
    let mut cursor = Cursor::new(bytes);
    let mut tokens: Vec<Token> = Vec::new();
    loop
        invariant
            cursor.wf(),
            cursor.src@ == s,
            s == input.spec_bytes(),
            cursor.token_start == cursor.pos,
            cursor.pos <= s.len(),
            tokens@ + tokens_from(s, cursor.pos as int) == tokens_from(s, 0),
        decreases s.len() - cursor.pos,
    {
        let ghost prev = tokens@;
        let ghost p = cursor.pos as int;
        let token = cursor.advance_token();
        if token.kind != TokenKind::Eof {
            tokens.push(token);
            proof {
                assert(tokens_from(s, p) == seq![token] + tokens_from(s, cursor.pos as int));
                assert(tokens@ == prev + seq![token]);
                assert(prev + tokens_from(s, p) == tokens@ + tokens_from(s, cursor.pos as int));
            }
        } else {
            assert(tokens_from(s, cursor.pos as int) == Seq::<Token>::empty());
            assert(tokens@ + tokens_from(s, cursor.pos as int) == tokens@);
            return tokens;
        }
    }
}

} // verus!
