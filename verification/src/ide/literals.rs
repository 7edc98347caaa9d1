//! Integer literals written in other bases than ten.
use vstd::prelude::*;
use vstd::string::StringSliceAdditionalSpecFns;
use vstd::utf8::is_char_boundary;
use crate::text::{chars_of, push_char, push_str};

verus! {

/// The base an integer literal is written in.
#[derive(Clone, Copy, PartialEq, Eq, Debug, Structural)]
pub enum IntegerRadix {
    Binary,
    Decimal,
    Hexadecimal,
    Octal,
}

pub open spec fn radix_base(r: IntegerRadix) -> u32 {
    match r {
        IntegerRadix::Binary => 2,
        IntegerRadix::Decimal => 10,
        IntegerRadix::Hexadecimal => 16,
        IntegerRadix::Octal => 8,
    }
}

impl IntegerRadix {
    /// The base as a number.
    pub fn base(self) -> (r: u32)
        ensures
            r == radix_base(self),
    {
        match self {
            IntegerRadix::Binary => 2,
            IntegerRadix::Decimal => 10,
            IntegerRadix::Hexadecimal => 16,
            IntegerRadix::Octal => 8,
        }
    }
}

/// The base an integer literal `t` is written in, by its prefix (`0b`, `0o`,
/// `0x`, either case).
pub open spec fn radix_of(t: Seq<char>) -> IntegerRadix {
    if t.len() >= 2 && t[0] == '0' && (t[1] == 'b' || t[1] == 'B') {
        IntegerRadix::Binary
    } else if t.len() >= 2 && t[0] == '0' && (t[1] == 'o' || t[1] == 'O') {
        IntegerRadix::Octal
    } else if t.len() >= 2 && t[0] == '0' && (t[1] == 'x' || t[1] == 'X') {
        IntegerRadix::Hexadecimal
    } else {
        IntegerRadix::Decimal
    }
}

/// The digits of `t`: after the prefix and one `_` that may follow it.
pub open spec fn digits_of(t: Seq<char>) -> Seq<char> {
    if radix_of(t) == IntegerRadix::Decimal {
        t
    } else {
        let d = t.skip(2);
        if d.len() >= 1 && d[0] == '_' {
            d.skip(1)
        } else {
            d
        }
    }
}

/// `s` without its `_` separators.
pub open spec fn without_underscores(s: Seq<char>) -> Seq<char>
    decreases s.len(),
{
    if s.len() == 0 {
        s
    } else if s.last() == '_' {
        without_underscores(s.drop_last())
    } else {
        without_underscores(s.drop_last()).push(s.last())
    }
}

/// `s[from..]` without its `_` separators.
fn strip_underscores(cs: &Vec<char>, from: usize) -> (r: String)
    requires
        from <= cs@.len(),
    ensures
        r@ == without_underscores(cs@.skip(from as int)),
{
    let mut r = String::new();
    let mut i: usize = from;
    while i < cs.len()
        invariant
            from <= i <= cs@.len(),
            r@ == without_underscores(cs@.subrange(from as int, i as int)),
        decreases cs@.len() - i,
    {
        proof {
            assert(cs@.subrange(from as int, i + 1).drop_last() =~= cs@.subrange(from as int, i as int));
        }
        if cs[i] != '_' {
            push_char(&mut r, cs[i]);
        }
        i = i + 1;
    }
    proof {
        assert(cs@.subrange(from as int, cs@.len() as int) =~= cs@.skip(from as int));
    }
    r
}

/// The base of an integer literal and its digits without separators.
pub fn normalize_integer_literal(text: &str) -> (r: (IntegerRadix, String))
    ensures
        r.0 == radix_of(text@),
        r.1@ == without_underscores(digits_of(text@)),
{
    let cs = chars_of(text);
    let n = cs.len();
    let radix = if n >= 2 && cs[0] == '0' && (cs[1] == 'b' || cs[1] == 'B') {
        IntegerRadix::Binary
    } else if n >= 2 && cs[0] == '0' && (cs[1] == 'o' || cs[1] == 'O') {
        IntegerRadix::Octal
    } else if n >= 2 && cs[0] == '0' && (cs[1] == 'x' || cs[1] == 'X') {
        IntegerRadix::Hexadecimal
    } else {
        IntegerRadix::Decimal
    };
    let from: usize = if radix == IntegerRadix::Decimal {
        0
    } else if n >= 3 && cs[2] == '_' {
        3
    } else {
        2
    };
    proof {
        assert(cs@.skip(0) =~= cs@);
        if from == 3 {
            assert(cs@.skip(2).skip(1) =~= cs@.skip(3));
        }
    }
    (radix, strip_underscores(&cs, from))
}

/// The value of the binary digits `c`, as `u8::from_str_radix(_, 2)` reads
/// them: one leading `+` may come before at least one digit.
pub open spec fn binary_chunk(c: Seq<u8>) -> Option<nat> {
    let d = without_plus(c);
    if d.len() > 0 && all_binary(d) {
        Some(binary_value(d))
    } else {
        None
    }
}

/// `c` without one leading `+`, when something follows it.
pub open spec fn without_plus(c: Seq<u8>) -> Seq<u8> {
    if c.len() > 1 && c[0] == 0x2b {
        c.skip(1)
    } else {
        c
    }
}

/// Whether every byte of `d` is `0` or `1`.
pub open spec fn all_binary(d: Seq<u8>) -> bool {
    forall|k: int| 0 <= k < d.len() ==> #[trigger] d[k] == 0x30 || d[k] == 0x31
}

/// The value of a run of `0` and `1` bytes.
pub open spec fn binary_value(d: Seq<u8>) -> nat
    decreases d.len(),
{
    if d.len() == 0 {
        0
    } else {
        2 * binary_value(d.drop_last()) + if d.last() == 0x31 {
            1nat
        } else {
            0nat
        }
    }
}

/// The hexadecimal digits, in order of value.
pub open spec fn hex_chars() -> Seq<char> {
    seq!['0', '1', '2', '3', '4', '5', '6', '7', '8', '9', 'A', 'B', 'C', 'D', 'E', 'F']
}

/// The hexadecimal digit for a value below 16.
pub open spec fn hex_char(v: nat) -> char {
    hex_chars()[v as int]
}

/// The binary digits `b` in hexadecimal: cut into chunks of four from the
/// end, the first chunk holding what is left over.
pub open spec fn binary_to_hex(b: Seq<u8>) -> Option<Seq<char>>
    decreases b.len(),
{
    if b.len() == 0 {
        Some(seq![])
    } else if b.len() <= 4 {
        match binary_chunk(b) {
            Some(v) => Some(seq![hex_char(v)]),
            None => None,
        }
    } else {
        match (binary_to_hex(b.take(b.len() - 4)), binary_chunk(b.skip(b.len() - 4))) {
            (Some(h), Some(v)) => Some(h.push(hex_char(v))),
            _ => None,
        }
    }
}

/// Each place the digits are cut into chunks falls between characters.
pub open spec fn chunk_cuts_ok(b: Seq<u8>) -> bool {
    forall|j: int| 0 < j < b.len() && (b.len() - j) % 4 == 0 ==> #[trigger] is_char_boundary(b, j)
}

/// The hexadecimal digits of the binary digits up to the next cut.
proof fn lemma_hex_step(b: Seq<u8>, start: int, end: int)
    requires
        0 <= start < end <= b.len(),
        (start == 0 && end <= 4) || (start > 0 && end == start + 4),
    ensures
        binary_to_hex(b.take(end)) == match (binary_to_hex(b.take(start)), binary_chunk(b.subrange(start, end))) {
            (Some(h), Some(v)) => Some(h.push(hex_char(v))),
            _ => None,
        },
{
    let pre = b.take(end);
    if start > 0 {
        assert(pre.take(pre.len() - 4) =~= b.take(start));
        assert(pre.skip(pre.len() - 4) =~= b.subrange(start, end));
    } else {
        assert(pre =~= b.subrange(0, end));
        assert(b.take(0) =~= Seq::<u8>::empty());
        assert(seq![] + Seq::<char>::empty() =~= Seq::<char>::empty());
    }
}

/// When the digits up to a cut are not binary, neither are all of them.
proof fn lemma_hex_prefix_none(b: Seq<u8>, e: int)
    requires
        0 < e <= b.len(),
        (b.len() - e) % 4 == 0,
        binary_to_hex(b.take(e)) is None,
    ensures
        binary_to_hex(b) is None,
    decreases b.len() - e,
{
    if e == b.len() {
        assert(b.take(e) =~= b);
    } else {
        let p = b.take(b.len() - 4);
        assert(p.take(e) =~= b.take(e));
        lemma_hex_prefix_none(p, e);
    }
}

fn parse_binary_chunk(b: &[u8], from: usize, to: usize) -> (r: Option<u8>)
    requires
        from < to <= b@.len(),
        to - from <= 4,
    ensures
        match binary_chunk(b@.subrange(from as int, to as int)) {
            Some(v) => r == Some(v as u8) && v < 16,
            None => r is None,
        },
{
    let ghost c = b@.subrange(from as int, to as int);
    let start = if to - from > 1 && b[from] == 0x2b {
        from + 1
    } else {
        from
    };
    let ghost d = b@.subrange(start as int, to as int);
    proof {
        if start == from + 1 {
            assert(c.skip(1) =~= d);
        } else {
            assert(c =~= d);
        }
    }
    let mut value: u8 = 0;
    let mut i = start;
    while i < to
        invariant
            start <= i <= to <= b@.len(),
            to - start <= 4,
            d == b@.subrange(start as int, to as int),
            c == b@.subrange(from as int, to as int),
            d == without_plus(c),
            forall|k: int| start <= k < i ==> b@[k] == 0x30 || b@[k] == 0x31,
            value == binary_value(b@.subrange(start as int, i as int)),
            value < pow2_of(i - start),
        decreases to - i,
    {
        let x = b[i];
        if x != 0x30 && x != 0x31 {
            proof {
                let k = i - start;
                assert(d[k] == x);
                assert(0 <= k < d.len() && !(d[k] == 0x30 || d[k] == 0x31));
                assert(!all_binary(d));
            }
            return None;
        }
        proof {
            assert(b@.subrange(start as int, i + 1).drop_last() =~= b@.subrange(start as int, i as int));
        }
        value = 2 * value + if x == 0x31 {
            1
        } else {
            0
        };
        i = i + 1;
    }
    if start == to {
        return None;
    }
    proof {
        assert forall|k: int| 0 <= k < d.len() implies #[trigger] d[k] == 0x30 || d[k] == 0x31 by {
            assert(d[k] == b@[start + k]);
        }
    }
    Some(value)
}

/// `2` to the `k`, for `k` up to four.
pub open spec fn pow2_of(k: int) -> int {
    if k <= 0 {
        1
    } else if k == 1 {
        2
    } else if k == 2 {
        4
    } else if k == 3 {
        8
    } else {
        16
    }
}

fn hex_digit(v: u8) -> (c: char)
    requires
        v < 16,
    ensures
        c == hex_char(v as nat),
{
    let digits: [char; 16] = ['0', '1', '2', '3', '4', '5', '6', '7', '8', '9', 'A', 'B', 'C', 'D', 'E', 'F'];
    assert(digits@ =~= hex_chars());
    digits[v as usize]
}

/// The binary digits `digits` written in hexadecimal; `None` when a chunk of
/// four is not binary.
pub fn binary_digits_to_hex(digits: &str) -> (r: Option<String>)
    requires
        chunk_cuts_ok(digits.spec_bytes()),
    ensures
        match binary_to_hex(digits.spec_bytes()) {
            Some(h) => r matches Some(s) && s@ == h,
            None => r is None,
        },
{
    let b = digits.as_bytes();
    let n = b.len();
    if n == 0 {
        return Some(String::new());
    }
    let mut out = String::new();
    let first = if n % 4 == 0 {
        4
    } else {
        n % 4
    };
    let mut start: usize = 0;
    let mut end: usize = if first <= n { first } else { n };
    loop
        invariant_except_break
            start < end <= n,
            end - start <= 4,
            (n - end) % 4 == 0,
            start == 0 ==> end <= 4,
            start > 0 ==> end == start + 4,
            binary_to_hex(b@.take(start as int)) == Some(out@),
        invariant
            b@ == digits.spec_bytes(),
            n == b@.len(),
            n > 0,
        ensures
            binary_to_hex(b@) == Some(out@),
        decreases n - start,
    {
        proof {
            lemma_hex_step(b@, start as int, end as int);
        }
        match parse_binary_chunk(b, start, end) {
            Some(v) => {
                let c = hex_digit(v);
                push_char(&mut out, c);
            },
            None => {
                proof {
                    lemma_hex_prefix_none(b@, end as int);
                }
                return None;
            },
        }
        if end == n {
            proof {
                assert(b@.take(n as int) =~= b@);
            }
            break;
        }
        start = end;
        end = end + 4;
    }
    Some(out)
}

/// The value of a hexadecimal digit, as `char::to_digit(16)` reads it.
pub open spec fn hex_value(c: char) -> Option<nat> {
    if '0' <= c && c <= '9' {
        Some((c as nat - '0' as nat) as nat)
    } else if 'a' <= c && c <= 'f' {
        Some((c as nat - 'a' as nat + 10) as nat)
    } else if 'A' <= c && c <= 'F' {
        Some((c as nat - 'A' as nat + 10) as nat)
    } else {
        None
    }
}

pub open spec fn bit_char(b: nat) -> char {
    if b == 1 {
        '1'
    } else {
        '0'
    }
}

/// The four binary digits of a value below 16.
pub open spec fn four_bits(v: nat) -> Seq<char> {
    seq![bit_char(v / 8), bit_char((v / 4) % 2), bit_char((v / 2) % 2), bit_char(v % 2)]
}

/// The hexadecimal digits `s` in binary, four binary digits for each.
pub open spec fn hex_to_binary(s: Seq<char>) -> Option<Seq<char>>
    decreases s.len(),
{
    if s.len() == 0 {
        Some(seq![])
    } else {
        match (hex_to_binary(s.drop_last()), hex_value(s.last())) {
            (Some(p), Some(v)) => Some(p + four_bits(v)),
            _ => None,
        }
    }
}

fn hex_digit_value(c: char) -> (r: Option<u32>)
    ensures
        match hex_value(c) {
            Some(v) => r == Some(v as u32) && v < 16,
            None => r is None,
        },
{
    let v = c as u32;
    if '0' <= c && c <= '9' {
        Some(v - 0x30)
    } else if 'a' <= c && c <= 'f' {
        Some(v - 0x61 + 10)
    } else if 'A' <= c && c <= 'F' {
        Some(v - 0x41 + 10)
    } else {
        None
    }
}

fn bit(b: u32) -> (c: char)
    ensures
        c == bit_char(b as nat),
{
    if b == 1 {
        '1'
    } else {
        '0'
    }
}

/// The hexadecimal digits `digits` written in binary; `None` when one of them
/// is not a hexadecimal digit.
pub fn hex_digits_to_binary(digits: &str) -> (r: Option<String>)
    ensures
        match hex_to_binary(digits@) {
            Some(b) => r matches Some(s) && s@ == b,
            None => r is None,
        },
{
    let cs = chars_of(digits);
    let mut out = String::new();
    let mut i: usize = 0;
    while i < cs.len()
        invariant
            i <= cs@.len(),
            cs@ == digits@,
            hex_to_binary(cs@.take(i as int)) == Some(out@),
        decreases cs@.len() - i,
    {
        proof {
            assert(cs@.take(i + 1).drop_last() =~= cs@.take(i as int));
        }
        let v = match hex_digit_value(cs[i]) {
            Some(v) => v,
            None => {
                proof {
                    lemma_hex_to_binary_none(cs@, i + 1);
                }
                return None;
            },
        };
        push_char(&mut out, bit(v / 8));
        push_char(&mut out, bit((v / 4) % 2));
        push_char(&mut out, bit((v / 2) % 2));
        push_char(&mut out, bit(v % 2));
        proof {
            let p = hex_to_binary(cs@.take(i as int))->0;
            assert(out@ =~= p + four_bits(v as nat));
        }
        i = i + 1;
    }
    proof {
        assert(cs@.take(cs@.len() as int) =~= cs@);
    }
    Some(out)
}

/// When a prefix of the digits is not hexadecimal, neither are they all.
proof fn lemma_hex_to_binary_none(s: Seq<char>, k: int)
    requires
        0 <= k <= s.len(),
        hex_to_binary(s.take(k)) is None,
    ensures
        hex_to_binary(s) is None,
    decreases s.len() - k,
{
    if k == s.len() {
        assert(s.take(k) =~= s);
    } else {
        assert(s.take(k + 1).drop_last() =~= s.take(k));
        lemma_hex_to_binary_none(s, k + 1);
    }
}

} // verus!
