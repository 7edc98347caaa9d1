use vstd::prelude::*;

verus! {

/// Base of a numeric literal, chosen by its prefix.
#[derive(Clone, Copy, Debug, PartialEq, Eq, PartialOrd, Ord, Hash, Structural)]
pub enum Base {
    /// Literal starts with "0b".
    Binary,
    /// Literal starts with "0o".
    Octal,
    /// Literal doesn't contain a prefix.
    Decimal,
    /// Literal starts with "0x".
    Hexadecimal,
}

/// The literal kinds that the lexer recognises.
#[derive(Clone, Copy, Debug, PartialEq, Eq, Structural)]
pub enum LiteralKind {
    /// Integer numeric, e.g. `42` or `0x1F`. `trailing_junk_start` is the
    /// offset within the token where identifier characters glued to the
    /// number begin (equal to the token length when there are none).
    Int { base: Base, empty_int: bool, trailing_junk_start: u32 },
    /// Non-integer numeric, e.g. `1.925e-3`. `empty_exponent_start` is the
    /// offset of an `e`/`E` that is not followed by exponent digits.
    Numeric { empty_exponent_start: Option<u32>, trailing_junk_start: u32 },
    /// String, e.g. `'foo'`.
    Str { terminated: bool },
    /// Hexadecimal bit string, e.g. `X'1FF'`.
    ByteStr { terminated: bool },
    /// Bit string, e.g. `B'1001'`.
    BitStr { terminated: bool },
    /// Dollar quoted string, e.g. `$$Dianne's horse$$`.
    DollarQuotedString { terminated: bool },
    /// Unicode escape string, e.g. `U&'d\0061t\+000061'`.
    UnicodeEscStr { terminated: bool },
    /// Escape string, e.g. `E'foo'`.
    EscStr { terminated: bool },
    /// National character string, e.g. `N'foo'`.
    NationalStr { terminated: bool },
}

/// The kind of a lexed token.
#[derive(Clone, Copy, Debug, PartialEq, Eq, Structural)]
pub enum TokenKind {
    /// A character that starts no token.
    Unknown,
    /// A literal; see [`LiteralKind`].
    Literal { kind: LiteralKind },
    /// Space, tab, newline, carriage return, vertical tab, form feed.
    Whitespace,
    /// Identifier (case-insensitive).
    Ident,
    /// `;`
    Semi,
    /// End of file.
    Eof,
    /// `/`
    Slash,
    /// `-- foo`
    LineComment,
    /// `/* foo */`, possibly nested.
    BlockComment { terminated: bool },
    /// `-`
    Minus,
    /// `:`
    Colon,
    /// `.`
    Dot,
    /// `=`
    Eq,
    /// `>`
    Gt,
    /// `&`
    And,
    /// `<`
    Lt,
    /// `!`
    Bang,
    /// `+`
    Plus,
    /// `~`
    Tilde,
    /// `#`
    Pound,
    /// `?`
    Question,
    /// `|`
    Or,
    /// `%`
    Percent,
    /// `^`
    Caret,
    /// `*`
    Star,
    /// `` ` ``
    Backtick,
    /// `@`
    At,
    /// `]`
    CloseBracket,
    /// `[`
    OpenBracket,
    /// `)`
    CloseParen,
    /// `(`
    OpenParen,
    /// `}`
    CloseCurly,
    /// `{`
    OpenCurly,
    /// `,`
    Comma,
    /// Error case that is reported later on.
    UnknownPrefix,
    /// Positional parameter, e.g. `$1`.
    PositionalParam { trailing_junk_start: u32 },
    /// Quoted identifier, e.g. `"my_table"` (case-sensitive). `uescape` is
    /// set for the `U&"..."` form.
    QuotedIdent { terminated: bool, uescape: bool },
}

/// A lexed token: its kind and its length in bytes.
#[derive(Clone, Copy, Debug, PartialEq, Eq, Structural)]
pub struct Token {
    pub kind: TokenKind,
    pub len: u32,
}

impl Token {
    pub fn new(kind: TokenKind, len: u32) -> (t: Token)
        ensures
            t.kind == kind,
            t.len == len,
    {
        Token { kind, len }
    }
}

} // verus!
