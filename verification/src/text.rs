//! Character-level helpers on strings, and the few `std` string calls the
//! library relies on.
use vstd::prelude::*;

verus! {

broadcast use vstd::string::group_string_axioms;

/// The characters of `s`, in order.
pub fn chars_of(s: &str) -> (v: Vec<char>)
    ensures
        v@ == s@,
{
    let mut v: Vec<char> = Vec::new();
    for c in it: s.chars()
        invariant
            v@ == it.seq().take(it.index() as int),
    {
        v.push(c);
    }
    v
}

/// What `str::to_lowercase` makes of a string: every character replaced by
/// its Unicode lowercase mapping.
pub uninterp spec fn lowercase(s: Seq<char>) -> Seq<char>;

/// Whether `s` is all ASCII.
pub open spec fn is_ascii_text(s: Seq<char>) -> bool {
    forall|k: int| 0 <= k < s.len() ==> (#[trigger] s[k] as u32) < 0x80
}

/// `c` with `A`-`Z` mapped to `a`-`z`.
pub open spec fn ascii_lower_char(c: char) -> char {
    if 'A' <= c <= 'Z' {
        ((c as u32) + 32) as char
    } else {
        c
    }
}

/// `c` with `a`-`z` mapped to `A`-`Z`.
pub open spec fn ascii_upper_char(c: char) -> char {
    if 'a' <= c <= 'z' {
        ((c as u32) - 32) as char
    } else {
        c
    }
}

/// `s` with `a`-`z` mapped to `A`-`Z`.
pub open spec fn ascii_uppercase(s: Seq<char>) -> Seq<char> {
    Seq::new(s.len(), |k: int| ascii_upper_char(s[k]))
}

/// `s` with `A`-`Z` mapped to `a`-`z`.
pub open spec fn ascii_lowercase(s: Seq<char>) -> Seq<char> {
    Seq::new(s.len(), |k: int| ascii_lower_char(s[k]))
}

/// `s` in lowercase: its ASCII lowercase when it is all ASCII, else what
/// Unicode's lowercase mappings give.
pub open spec fn folded(s: Seq<char>) -> Seq<char> {
    if is_ascii_text(s) {
        ascii_lowercase(s)
    } else {
        lowercase(s)
    }
}

/// Whether `c` is lowercase: `a`-`z` among the ASCII characters, else the
/// Unicode `Lowercase` property.
pub open spec fn lower_char(c: char) -> bool {
    if (c as u32) < 0x80 {
        'a' <= c <= 'z'
    } else {
        is_lowercase_char(c)
    }
}

/// Whether a character has the Unicode `Lowercase` property, as
/// `char::is_lowercase` reports it.
pub uninterp spec fn is_lowercase_char(c: char) -> bool;

/// Appends `c` to `s`.
///
/// Calls `String::push`, which appends the character to the end of the string.
#[verifier::external_body]
pub(crate) fn push_char(s: &mut String, c: char)
    ensures
        final(s)@ == old(s)@.push(c),
{
    s.push(c)
}

/// The lowercase equivalent of `s`.
///
/// Calls `str::to_lowercase`; its result, a function of the characters of `s`
/// alone (Unicode's lowercase mappings), is named `lowercase` here. Of text
/// that is all ASCII the contract also states what Unicode's mappings give
/// there: each of `A`-`Z` becomes its lowercase letter and every other
/// character stays as it is.
#[verifier::external_body]
pub(crate) fn to_lowercase(s: &str) -> (r: String)
    ensures
        r@ == lowercase(s@),
        is_ascii_text(s@) ==> r@ == ascii_lowercase(s@),
{
    s.to_lowercase()
}

/// Whether `c` is lowercase.
///
/// Calls `char::is_lowercase`, which reports the Unicode `Lowercase` property;
/// the result is named `is_lowercase_char` here. Among the ASCII characters
/// the property holds of `a`-`z` alone, which the contract also states.
#[verifier::external_body]
pub(crate) fn is_lowercase(c: char) -> (r: bool)
    ensures
        r == is_lowercase_char(c),
        (c as u32) < 0x80 ==> (r <==> 'a' <= c <= 'z'),
{
    c.is_lowercase()
}

/// A string holding the characters `cs`.
pub fn string_from_chars(cs: &[char]) -> (s: String)
    ensures
        s@ == cs@,
{
    let mut s = String::new();
    let mut i: usize = 0;
    while i < cs.len()
        invariant
            i <= cs@.len(),
            s@ == cs@.subrange(0, i as int),
        decreases cs@.len() - i,
    {
        push_char(&mut s, cs[i]);
        i = i + 1;
        assert(s@ =~= cs@.subrange(0, i as int));
    }
    assert(cs@.subrange(0, cs@.len() as int) =~= cs@);
    s
}

/// Appends the characters `cs` to `s`.
pub fn push_chars(s: &mut String, cs: &[char])
    ensures
        final(s)@ == old(s)@ + cs@,
{
    let ghost s0 = s@;
    let mut i: usize = 0;
    while i < cs.len()
        invariant
            i <= cs@.len(),
            s@ == s0 + cs@.subrange(0, i as int),
        decreases cs@.len() - i,
    {
        push_char(s, cs[i]);
        i = i + 1;
        assert(s@ =~= s0 + cs@.subrange(0, i as int));
    }
    assert(cs@.subrange(0, cs@.len() as int) =~= cs@);
}

/// Appends `t` to `s`.
pub fn push_str(s: &mut String, t: &str)
    ensures
        final(s)@ == old(s)@ + t@,
{
    let cs = chars_of(t);
    push_chars(s, cs.as_slice());
}

/// Whether the characters `a` spell out `t`.
pub fn chars_eq_str(a: &[char], t: &str) -> (r: bool)
    ensures
        r == (a@ == t@),
{
    let b = chars_of(t);
    if a.len() != b.len() {
        return false;
    }
    let mut i: usize = 0;
    while i < a.len()
        invariant
            a@.len() == b@.len(),
            b@ == t@,
            i <= a@.len(),
            forall|k: int| 0 <= k < i ==> a@[k] == b@[k],
        decreases a@.len() - i,
    {
        if a[i] != b[i] {
            return false;
        }
        i = i + 1;
    }
    assert(a@ =~= b@);
    true
}

/// `s` without a leading `"`, and then without a trailing `"` if it had the
/// leading one.
pub open spec fn trimmed_quotes(s: Seq<char>) -> Seq<char> {
    if s.len() >= 1 && s[0] == '"' {
        let t = s.subrange(1, s.len() as int);
        if t.len() >= 1 && t.last() == '"' {
            t.drop_last()
        } else {
            t
        }
    } else {
        s
    }
}

/// A name with its surrounding double quotes removed.
pub fn trim_quotes(s: &str) -> (r: String)
    ensures
        r@ == trimmed_quotes(s@),
{
    let cs = chars_of(s);
    let n = cs.len();
    if n >= 1 && cs[0] == '"' {
        if n >= 2 && cs[n - 1] == '"' {
            string_from_chars(vstd::slice::slice_subrange(cs.as_slice(), 1, n - 1))
        } else {
            string_from_chars(vstd::slice::slice_subrange(cs.as_slice(), 1, n))
        }
    } else {
        string_from_chars(cs.as_slice())
    }
}

/// Whether one of `v` is `s`.
pub fn contains_string(v: &Vec<String>, s: &String) -> (r: bool)
    ensures
        r == v@.map_values(|x: String| x@).contains(s@),
{
    let mut i: usize = 0;
    while i < v.len()
        invariant
            i <= v@.len(),
            forall|k: int| 0 <= k < i ==> v@[k]@ != s@,
        decreases v@.len() - i,
    {
        if v[i] == *s {
            assert(v@.map_values(|x: String| x@)[i as int] == s@);
            return true;
        }
        i = i + 1;
    }
    false
}

} // verus!
