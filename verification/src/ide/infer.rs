//! The types the language server infers, and the type of an integer literal.
use vstd::prelude::*;
use crate::ide::literals::without_underscores;
use crate::linter::string_of;
use crate::text::{chars_of, push_str};

verus! {

/// A type the language server can infer for an expression.
#[derive(Debug, PartialEq, Eq)]
pub enum Type {
    Array(Box<Type>),
    Bigint,
    Bit,
    Boolean,
    Integer,
    Numeric,
    Other(String),
    Record,
    Text,
    Unknown,
}

/// How a type is written.
pub open spec fn type_text(t: Type) -> Seq<char>
    decreases t,
{
    match t {
        Type::Array(inner) => type_text(*inner) + "[]"@,
        Type::Bigint => "bigint"@,
        Type::Bit => "bit"@,
        Type::Boolean => "boolean"@,
        Type::Integer => "integer"@,
        Type::Numeric => "numeric"@,
        Type::Other(s) => s@,
        Type::Record => "record"@,
        Type::Text => "text"@,
        Type::Unknown => "unknown"@,
    }
}

impl Type {
    /// How the type is written.
    pub fn to_string(&self) -> (r: String)
        ensures
            r@ == type_text(*self),
        decreases self,
    {
        match self {
            Type::Array(inner) => {
                let mut r = inner.to_string();
                push_str(&mut r, "[]");
                r
            },
            Type::Bigint => string_of("bigint"),
            Type::Bit => string_of("bit"),
            Type::Boolean => string_of("boolean"),
            Type::Integer => string_of("integer"),
            Type::Numeric => string_of("numeric"),
            Type::Other(s) => s.clone(),
            Type::Record => string_of("record"),
            Type::Text => string_of("text"),
            Type::Unknown => string_of("unknown"),
        }
    }
}

/// `c` in lowercase when it is an ASCII letter.
pub open spec fn ascii_lower(c: char) -> char {
    if 'A' <= c && c <= 'Z' {
        ((c as u32) + 32) as char
    } else {
        c
    }
}

/// The value of the digit `c` in base `radix`, as `char::to_digit` reads it.
pub open spec fn digit_value(c: char, radix: nat) -> Option<nat> {
    let v = if '0' <= c && c <= '9' {
        Some((c as nat - '0' as nat) as nat)
    } else if 'a' <= c && c <= 'z' {
        Some((c as nat - 'a' as nat + 10) as nat)
    } else if 'A' <= c && c <= 'Z' {
        Some((c as nat - 'A' as nat + 10) as nat)
    } else {
        None
    };
    match v {
        Some(d) => if d < radix {
            Some(d)
        } else {
            None
        },
        None => None,
    }
}

/// Whether every character of `d` is a digit in base `radix`.
pub open spec fn all_digits(d: Seq<char>, radix: nat) -> bool {
    forall|k: int| 0 <= k < d.len() ==> (#[trigger] digit_value(d[k], radix)) is Some
}

/// The value of the digits `d` in base `radix`.
pub open spec fn digits_value(d: Seq<char>, radix: nat) -> nat
    decreases d.len(),
{
    if d.len() == 0 {
        0
    } else {
        digits_value(d.drop_last(), radix) * radix + match digit_value(d.last(), radix) {
            Some(v) => v,
            None => 0,
        }
    }
}

/// `s` without one leading `+`, when something follows it.
pub open spec fn unsigned(s: Seq<char>) -> Seq<char> {
    if s.len() > 1 && s[0] == '+' {
        s.skip(1)
    } else {
        s
    }
}

/// What `u64::from_str_radix` reads from `s`, before it checks for overflow.
pub open spec fn radix_value(s: Seq<char>, radix: nat) -> Option<nat> {
    let d = unsigned(s);
    if d.len() > 0 && all_digits(d, radix) {
        Some(digits_value(d, radix))
    } else {
        None
    }
}

/// The digits of an integer literal (separators removed, ASCII letters in
/// lowercase) and the base given by its prefix.
pub open spec fn literal_digits(text: Seq<char>) -> (Seq<char>, nat) {
    let lower = without_underscores(text).map_values(|c: char| ascii_lower(c));
    if lower.len() >= 2 && lower[0] == '0' && lower[1] == 'x' {
        (lower.skip(2), 16)
    } else if lower.len() >= 2 && lower[0] == '0' && lower[1] == 'o' {
        (lower.skip(2), 8)
    } else if lower.len() >= 2 && lower[0] == '0' && lower[1] == 'b' {
        (lower.skip(2), 2)
    } else {
        (lower, 10)
    }
}

/// The type of an integer literal: `integer` when its value fits in 32 bits
/// (signed), `bigint` when it fits in 64, else `numeric`.
pub open spec fn int_literal_type_is(text: Seq<char>, t: Type) -> bool {
    let (d, radix) = literal_digits(text);
    match radix_value(d, radix) {
        Some(v) => if v <= i32::MAX {
            t is Integer
        } else if v <= i64::MAX {
            t is Bigint
        } else {
            t is Numeric
        },
        None => t is Numeric,
    }
}

fn digit_of(c: char, radix: u32) -> (r: Option<u32>)
    requires
        radix <= 36,
    ensures
        match digit_value(c, radix as nat) {
            Some(v) => r == Some(v as u32),
            None => r is None,
        },
{
    let v = c as u32;
    let d = if '0' <= c && c <= '9' {
        v - 0x30
    } else if 'a' <= c && c <= 'z' {
        v - 0x61 + 10
    } else if 'A' <= c && c <= 'Z' {
        v - 0x41 + 10
    } else {
        return None;
    };
    if d < radix {
        Some(d)
    } else {
        None
    }
}

/// Digits after a prefix only add to the value.
proof fn lemma_digits_value_grows(d: Seq<char>, radix: nat, k: int)
    requires
        0 <= k <= d.len(),
        radix >= 1,
    ensures
        digits_value(d.take(k), radix) <= digits_value(d, radix),
    decreases d.len() - k,
{
    if k < d.len() {
        lemma_digits_value_grows(d, radix, k + 1);
        assert(d.take(k + 1).drop_last() =~= d.take(k));
        let p = digits_value(d.take(k), radix);
        assert(p <= p * radix) by (nonlinear_arith)
            requires
                radix >= 1,
        ;
    } else {
        assert(d.take(k) =~= d);
    }
}

/// The characters of `cs` without `_`, ASCII letters in lowercase.
fn lowered_digits(cs: &Vec<char>) -> (lower: Vec<char>)
    ensures
        lower@ == without_underscores(cs@).map_values(|c: char| ascii_lower(c)),
{
    let mut lower: Vec<char> = Vec::new();
    let mut i: usize = 0;
    while i < cs.len()
        invariant
            i <= cs@.len(),
            lower@ == without_underscores(cs@.take(i as int)).map_values(|c: char| ascii_lower(c)),
        decreases cs@.len() - i,
    {
        proof {
            assert(cs@.take(i + 1).drop_last() =~= cs@.take(i as int));
        }
        let c = cs[i];
        if c != '_' {
            let l = if 'A' <= c && c <= 'Z' {
                ((c as u8) + 32) as char
            } else {
                c
            };
            assert(l == ascii_lower(c));
            lower.push(l);
        }
        proof {
            assert(lower@ =~= without_underscores(cs@.take(i + 1)).map_values(|c: char| ascii_lower(c)));
        }
        i = i + 1;
    }
    proof {
        assert(cs@.take(cs@.len() as int) =~= cs@);
    }
    lower
}

/// What `u64::from_str_radix` reads from `s[from..]` when it is at most
/// `i64::MAX`; `None` when it reads nothing or more.
fn value_up_to_i64(s: &Vec<char>, from: usize, radix: u32) -> (r: Option<u64>)
    requires
        from <= s@.len(),
        2 <= radix <= 16,
    ensures
        match r {
            Some(v) => radix_value(s@.skip(from as int), radix as nat) == Some(v as nat) && v <= i64::MAX,
            None => match radix_value(s@.skip(from as int), radix as nat) {
                Some(v) => v > i64::MAX,
                None => true,
            },
        },
{
    let n = s.len();
    let ghost digits = s@.skip(from as int);
    let start = if n - from > 1 && s[from] == '+' {
        from + 1
    } else {
        from
    };
    let ghost d = s@.subrange(start as int, n as int);
    proof {
        if start == from + 1 {
            assert(digits.skip(1) =~= d);
        } else {
            assert(digits =~= d);
        }
        assert(unsigned(digits) == d);
    }
    if start == n {
        return None;
    }
    let mut acc: u64 = 0;
    let mut k = start;
    while k < n
        invariant
            start <= k <= n,
            n == s@.len(),
            d == s@.subrange(start as int, n as int),
            unsigned(s@.skip(from as int)) == d,
            d.len() > 0,
            2 <= radix <= 16,
            forall|m: int| start <= m < k ==> (#[trigger] digit_value(s@[m], radix as nat)) is Some,
            acc == digits_value(d.take(k - start), radix as nat),
            acc <= i64::MAX,
        decreases n - k,
    {
        let v = match digit_of(s[k], radix) {
            Some(v) => v,
            None => {
                proof {
                    assert(d[k - start] == s@[k as int]);
                    assert(!all_digits(d, radix as nat));
                }
                return None;
            },
        };
        proof {
            assert(d.take(k + 1 - start).drop_last() =~= d.take(k - start));
            assert(d.take(k + 1 - start).last() == s@[k as int]);
            assert((acc as int) * (radix as int) <= 0x7fff_ffff_ffff_ffff * 16) by (nonlinear_arith)
                requires
                    acc <= 0x7fff_ffff_ffff_ffff,
                    radix <= 16,
            ;
        }
        let next: u128 = (acc as u128) * (radix as u128) + (v as u128);
        if next > 0x7fff_ffff_ffff_ffff {
            proof {
                if all_digits(d, radix as nat) {
                    lemma_digits_value_grows(d, radix as nat, k + 1 - start);
                }
            }
            return None;
        }
        acc = next as u64;
        k = k + 1;
    }
    proof {
        assert(d.take(n - start) =~= d);
        assert forall|m: int| 0 <= m < d.len() implies (#[trigger] digit_value(d[m], radix as nat)) is Some by {
            assert(d[m] == s@[start + m]);
        }
    }
    Some(acc)
}

/// The type of the integer literal `text`.
pub fn infer_int_type(text: &str) -> (t: Type)
    ensures
        int_literal_type_is(text@, t),
{
    let cs = chars_of(text);
    let lower = lowered_digits(&cs);
    let n = lower.len();
    let (from, radix): (usize, u32) = if n >= 2 && lower[0] == '0' && lower[1] == 'x' {
        (2, 16)
    } else if n >= 2 && lower[0] == '0' && lower[1] == 'o' {
        (2, 8)
    } else if n >= 2 && lower[0] == '0' && lower[1] == 'b' {
        (2, 2)
    } else {
        (0, 10)
    };
    proof {
        assert(lower@.skip(0) =~= lower@);
        assert(literal_digits(text@) == (lower@.skip(from as int), radix as nat));
    }
    match value_up_to_i64(&lower, from, radix) {
        Some(v) => if v <= 0x7fff_ffff {
            Type::Integer
        } else {
            Type::Bigint
        },
        None => Type::Numeric,
    }
}

} // verus!
