//! Postgres identifiers: case-insensitive unless quoted.
use vstd::prelude::*;
use vstd::slice::slice_subrange;
use crate::text::{ascii_lower_char, ascii_lowercase, chars_of, folded, is_ascii_text, string_from_chars, to_lowercase};

verus! {

/// Is `s` wrapped in double quotes (one quote counts as both ends)?
pub open spec fn starts_and_ends_with_quote(s: Seq<char>) -> bool {
    s.len() >= 1 && s[0] == '"' && s[s.len() - 1] == '"'
}

/// The name an identifier denotes: the text between the quotes of a quoted
/// identifier, else the identifier folded to lowercase.
pub open spec fn identifier_name(s: Seq<char>) -> Seq<char> {
    if starts_and_ends_with_quote(s) {
        s.subrange(1, s.len() - 1)
    } else {
        folded(s)
    }
}

/// A Postgres identifier, held by the name it denotes, so that two
/// identifiers are equal exactly when Postgres treats them as the same name.
#[derive(Debug, Clone, PartialEq, Eq, Hash)]
pub struct Identifier(String);

impl View for Identifier {
    type V = Seq<char>;

    closed spec fn view(&self) -> Seq<char> {
        self.0@
    }
}

impl Identifier {
    /// The identifier written as `s` (slicing a lone `"` would panic, so it is
    /// not accepted).
    pub fn new(s: &str) -> (id: Identifier)
        requires
            s@ != seq!['"'],
        ensures
            id@ == identifier_name(s@),
    {
        let cs = chars_of(s);
        let n = cs.len();
        let normalized = if n >= 1 && cs[0] == '"' && cs[n - 1] == '"' {
            if n == 1 {
                assert(cs@ =~= seq!['"']);
            }
            string_from_chars(slice_subrange(cs.as_slice(), 1, n - 1))
        } else {
            to_lowercase(s)
        };
        Identifier(normalized)
    }

    /// Whether the two identifiers denote the same name.
    pub fn same(&self, other: &Identifier) -> (b: bool)
        ensures
            b == (self@ == other@),
    {
        self.0 == other.0
    }

    /// The name, as a string.
    pub fn as_str(&self) -> (r: &str)
        ensures
            r@ == self@,
    {
        self.0.as_str()
    }
}

/// Unquoted identifiers are case-insensitive: two of them denote the same
/// name exactly when they fold to the same lowercase text (for ASCII names:
/// when they differ at most in the case of their letters), and a quoted
/// identifier denotes the same name as an unquoted one exactly when its text
/// is the unquoted one folded to lowercase.
pub proof fn lemma_identifier_case_folding(s: Seq<char>, t: Seq<char>)
    requires
        !starts_and_ends_with_quote(s),
    ensures
        !starts_and_ends_with_quote(t) ==> (identifier_name(s) == identifier_name(t) <==> folded(s)
            == folded(t)),
        !starts_and_ends_with_quote(t) && is_ascii_text(s) && is_ascii_text(t) ==> (identifier_name(s)
            == identifier_name(t) <==> same_ignoring_ascii_case(s, t)),
        starts_and_ends_with_quote(t) ==> (identifier_name(s) == identifier_name(t) <==> folded(s)
            == t.subrange(1, t.len() - 1)),
{
    if !starts_and_ends_with_quote(t) && is_ascii_text(s) && is_ascii_text(t) {
        if same_ignoring_ascii_case(s, t) {
            assert(ascii_lowercase(s) =~= ascii_lowercase(t));
        }
        if ascii_lowercase(s) == ascii_lowercase(t) {
            assert(s.len() == ascii_lowercase(s).len() && t.len() == ascii_lowercase(t).len());
            assert forall|k: int| 0 <= k < s.len() implies #[trigger] ascii_lower_char(s[k])
                == ascii_lower_char(t[k]) by {
                assert(ascii_lowercase(s)[k] == ascii_lowercase(t)[k]);
            }
        }
    }
}

/// Whether `s` and `t` are the same text but for the case of ASCII letters.
pub open spec fn same_ignoring_ascii_case(s: Seq<char>, t: Seq<char>) -> bool {
    s.len() == t.len() && forall|k: int| 0 <= k < s.len() ==> #[trigger] ascii_lower_char(s[k]) == ascii_lower_char(t[k])
}

} // verus!
