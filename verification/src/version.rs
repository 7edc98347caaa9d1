//! Postgres server versions, as the linter settings name them.
use vstd::prelude::*;
use crate::text::chars_of;

verus! {

/// A Postgres version: `major`, optionally with `minor` and `patch`.
#[derive(Debug, Clone, Copy, PartialEq, Eq, Hash, Structural)]
pub struct Version {
    pub major: u32,
    pub minor: Option<u32>,
    pub patch: Option<u32>,
}

/// `a < b` for optional components: a missing component comes first.
pub open spec fn opt_lt(a: Option<u32>, b: Option<u32>) -> bool {
    match (a, b) {
        (None, Some(_)) => true,
        (Some(x), Some(y)) => x < y,
        _ => false,
    }
}

/// Versions are ordered by major, then minor, then patch.
pub open spec fn version_lt(a: Version, b: Version) -> bool {
    a.major < b.major || (a.major == b.major && (opt_lt(a.minor, b.minor) || (a.minor == b.minor
        && opt_lt(a.patch, b.patch))))
}

/// Versions are strictly and totally ordered: no version comes before itself,
/// the order is transitive, and of two different versions one comes before
/// the other.
pub proof fn lemma_version_order(a: Version, b: Version, c: Version)
    ensures
        !version_lt(a, a),
        version_lt(a, b) ==> !version_lt(b, a),
        version_lt(a, b) && version_lt(b, c) ==> version_lt(a, c),
        a == b || version_lt(a, b) || version_lt(b, a),
{
}

pub open spec fn is_digit_char(c: char) -> bool {
    '0' <= c <= '9'
}

/// The value of a run of decimal digits.
pub open spec fn decimal_value(s: Seq<char>) -> int
    decreases s.len(),
{
    if s.len() == 0 {
        0
    } else {
        decimal_value(s.drop_last()) * 10 + (s.last() as int - '0' as int)
    }
}

/// A version component: one or more decimal digits whose value fits in a `u32`.
pub open spec fn is_component(s: Seq<char>) -> bool {
    s.len() > 0 && (forall|i: int| 0 <= i < s.len() ==> is_digit_char(#[trigger] s[i]))
        && decimal_value(s) <= u32::MAX
}

/// The index of the first `.` in `s`, or its length.
pub open spec fn first_dot(s: Seq<char>) -> int
    decreases s.len(),
{
    if s.len() == 0 {
        0
    } else if s[0] == '.' {
        0
    } else {
        1 + first_dot(s.drop_first())
    }
}

/// The version written `major`, `major.minor` or `major.minor.patch`.
pub open spec fn parse_version(s: Seq<char>) -> Option<Version> {
    let d1 = first_dot(s);
    let major = s.subrange(0, d1);
    if !is_component(major) {
        None
    } else if d1 == s.len() {
        Some(Version { major: decimal_value(major) as u32, minor: None, patch: None })
    } else {
        let rest = s.subrange(d1 + 1, s.len() as int);
        let d2 = first_dot(rest);
        let minor = rest.subrange(0, d2);
        if !is_component(minor) {
            None
        } else if d2 == rest.len() {
            Some(
                Version {
                    major: decimal_value(major) as u32,
                    minor: Some(decimal_value(minor) as u32),
                    patch: None,
                },
            )
        } else {
            let patch = rest.subrange(d2 + 1, rest.len() as int);
            if is_component(patch) {
                Some(
                    Version {
                        major: decimal_value(major) as u32,
                        minor: Some(decimal_value(minor) as u32),
                        patch: Some(decimal_value(patch) as u32),
                    },
                )
            } else {
                None
            }
        }
    }
}

pub proof fn lemma_first_dot(s: Seq<char>)
    ensures
        0 <= first_dot(s) <= s.len(),
        forall|i: int| 0 <= i < first_dot(s) ==> s[i] != '.',
        first_dot(s) < s.len() ==> s[first_dot(s)] == '.',
    decreases s.len(),
{
    if s.len() > 0 && s[0] != '.' {
        lemma_first_dot(s.drop_first());
        assert forall|i: int| 0 <= i < first_dot(s) implies s[i] != '.' by {
            if i > 0 {
                assert(s[i] == s.drop_first()[i - 1]);
            }
        }
    }
}

pub proof fn lemma_first_dot_unique(s: Seq<char>, k: int)
    requires
        0 <= k <= s.len(),
        forall|i: int| 0 <= i < k ==> s[i] != '.',
        k < s.len() ==> s[k] == '.',
    ensures
        first_dot(s) == k,
    decreases s.len(),
{
    if s.len() > 0 && s[0] != '.' {
        lemma_first_dot_unique(s.drop_first(), k - 1);
    }
}

/// Is `t` not a component for want of digits or for its size?
pub open spec fn not_component_digits(t: Seq<char>) -> bool {
    !(forall|k: int| 0 <= k < t.len() ==> is_digit_char(#[trigger] t[k])) || decimal_value(t)
        > u32::MAX
}

/// The `.`-free component of `cs` between `from` and the next `.` (or the
/// end): its value if it is a component, and where it ends.
fn parse_component(cs: &Vec<char>, from: usize) -> (r: (Option<u32>, usize))
    requires
        from <= cs@.len(),
    ensures
        from <= r.1 <= cs@.len(),
        r.1 - from == first_dot(cs@.subrange(from as int, cs@.len() as int)),
        r.0 is Some <==> is_component(cs@.subrange(from as int, r.1 as int)),
        r.0 matches Some(v) ==> v == decimal_value(cs@.subrange(from as int, r.1 as int)),
{
    let ghost s = cs@.subrange(from as int, cs@.len() as int);
    let mut i = from;
    let mut value: u64 = 0;
    let mut ok = true;
    while i < cs.len() && cs[i] != '.'
        invariant
            from <= i <= cs@.len(),
            s == cs@.subrange(from as int, cs@.len() as int),
            forall|k: int| from <= k < i ==> cs@[k] != '.',
            ok ==> forall|k: int| 0 <= k < i - from ==> is_digit_char(
                #[trigger] cs@.subrange(from as int, i as int)[k],
            ),
            ok ==> value == decimal_value(cs@.subrange(from as int, i as int)),
            ok ==> value <= u32::MAX,
            !ok ==> not_component_digits(cs@.subrange(from as int, i as int)),
        decreases cs@.len() - i,
    {
        let c = cs[i];
        let ghost prev = cs@.subrange(from as int, i as int);
        let ghost next_t = cs@.subrange(from as int, i + 1);
        assert(next_t.drop_last() =~= prev);
        assert(next_t.last() == c);
        assert forall|k: int| 0 <= k < prev.len() implies next_t[k] == prev[k] by {}
        if ok {
            if '0' <= c && c <= '9' {
                let d = (c as u32 - '0' as u32) as u64;
                let next = value * 10 + d;
                if next <= 0xffff_ffff {
                    value = next;
                } else {
                    ok = false;
                }
            } else {
                ok = false;
            }
        } else {
            proof {
                if forall|k: int| 0 <= k < next_t.len() ==> is_digit_char(#[trigger] next_t[k]) {
                    assert forall|k: int| 0 <= k < prev.len() implies is_digit_char(#[trigger] prev[k]) by {
                        assert(next_t[k] == prev[k]);
                    }
                    lemma_decimal_value_nonneg(prev);
                }
            }
        }
        i = i + 1;
    }
    proof {
        assert forall|k: int| 0 <= k < i - from implies s[k] != '.' by {
            assert(s[k] == cs@[from + k]);
        }
        lemma_first_dot_unique(s, i - from);
    }
    if ok && i > from {
        (Some(value as u32), i)
    } else {
        (None, i)
    }
}

proof fn lemma_decimal_value_nonneg(s: Seq<char>)
    requires
        forall|i: int| 0 <= i < s.len() ==> is_digit_char(#[trigger] s[i]),
    ensures
        decimal_value(s) >= 0,
    decreases s.len(),
{
    if s.len() > 0 {
        lemma_decimal_value_nonneg(s.drop_last());
    }
}

/// A version string that is not `major[.minor[.patch]]`.
#[derive(Debug, Clone, PartialEq, Eq)]
pub struct InvalidVersion {
    pub text: String,
}

impl Version {
    pub fn new(major: u32, minor: Option<u32>, patch: Option<u32>) -> (v: Version)
        ensures
            v.major == major,
            v.minor == minor,
            v.patch == patch,
    {
        Version { major, minor, patch }
    }

    /// Does this version come before `other`?
    pub fn precedes(&self, other: &Version) -> (r: bool)
        ensures
            r == version_lt(*self, *other),
    {
        if self.major != other.major {
            return self.major < other.major;
        }
        if self.minor != other.minor {
            return match (self.minor, other.minor) {
                (None, Some(_)) => true,
                (Some(x), Some(y)) => x < y,
                _ => false,
            };
        }
        match (self.patch, other.patch) {
            (None, Some(_)) => true,
            (Some(x), Some(y)) => x < y,
            _ => false,
        }
    }

    /// Reads a version written `major`, `major.minor` or `major.minor.patch`.
    pub fn parse(s: &str) -> (r: Result<Version, InvalidVersion>)
        ensures
            parse_version(s@) matches Some(v) ==> r == Ok::<Version, InvalidVersion>(v),
            parse_version(s@) is None ==> r is Err,
            r matches Err(e) ==> e.text@ == s@,
    {
        let cs = chars_of(s);
        let ghost q = cs@;
        let n = cs.len();
        let (major, e1) = parse_component(&cs, 0);
        proof {
            assert(q.subrange(0, n as int) =~= q);
            lemma_first_dot(q);
        }
        let major = match major {
            Some(m) => m,
            None => {
                return Err(InvalidVersion { text: crate::linter::string_of(s) });
            },
        };
        if e1 == n {
            return Ok(Version { major, minor: None, patch: None });
        }
        let ghost rest = q.subrange(e1 + 1, n as int);
        let (minor, e2) = parse_component(&cs, e1 + 1);
        proof {
            assert(rest.subrange(0, e2 - (e1 + 1)) =~= q.subrange(e1 + 1, e2 as int));
            lemma_first_dot(rest);
        }
        let minor = match minor {
            Some(m) => m,
            None => {
                return Err(InvalidVersion { text: crate::linter::string_of(s) });
            },
        };
        if e2 == n {
            return Ok(Version { major, minor: Some(minor), patch: None });
        }
        let ghost patch_text = rest.subrange(e2 - (e1 + 1) + 1, rest.len() as int);
        let (patch, e3) = parse_component(&cs, e2 + 1);
        proof {
            assert(patch_text =~= q.subrange(e2 + 1, n as int));
            lemma_first_dot(patch_text);
            if e3 < n {
                assert(patch_text[e3 - (e2 + 1)] == '.');
                assert(!is_digit_char(patch_text[e3 - (e2 + 1)]));
            } else {
                assert(patch_text =~= q.subrange(e2 + 1, e3 as int));
            }
        }
        match patch {
            Some(p) => {
                if e3 == n {
                    Ok(Version { major, minor: Some(minor), patch: Some(p) })
                } else {
                    Err(InvalidVersion { text: crate::linter::string_of(s) })
                }
            },
            None => Err(InvalidVersion { text: crate::linter::string_of(s) }),
        }
    }
}

impl core::str::FromStr for Version {
    type Err = InvalidVersion;

    fn from_str(s: &str) -> (r: Result<Version, InvalidVersion>)
        ensures
            parse_version(s@) matches Some(v) ==> r == Ok::<Version, InvalidVersion>(v),
            parse_version(s@) is None ==> r is Err,
            r matches Err(e) ==> e.text@ == s@,
    {
        Version::parse(s)
    }
}

} // verus!
