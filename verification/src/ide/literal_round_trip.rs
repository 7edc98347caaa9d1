//! Writing hexadecimal digits in binary and reading them back.
use vstd::prelude::*;
use crate::text::{ascii_upper_char, ascii_uppercase};
use crate::ide::literals::{all_binary, binary_chunk, binary_to_hex, binary_value, bit_char, four_bits, hex_char, hex_chars, hex_to_binary, hex_value, without_plus};

verus! {

/// The hexadecimal digit for each digit of `s`, in uppercase.
pub open spec fn upper_hex(s: Seq<char>) -> Seq<char>
    decreases s.len(),
{
    if s.len() == 0 {
        seq![]
    } else {
        upper_hex(s.drop_last()).push(
            match hex_value(s.last()) {
                Some(v) => hex_char(v),
                None => s.last(),
            },
        )
    }
}

pub open spec fn bit_byte(b: nat) -> u8 {
    if b == 1 {
        0x31
    } else {
        0x30
    }
}

/// The bytes of the four binary digits of `v`.
pub open spec fn four_bit_bytes(v: nat) -> Seq<u8> {
    seq![bit_byte(v / 8), bit_byte((v / 4) % 2), bit_byte((v / 2) % 2), bit_byte(v % 2)]
}

proof fn lemma_bit_char_bytes(b: nat)
    ensures
        vstd::utf8::encode_utf8(seq![bit_char(b)]) == seq![bit_byte(b)],
{
    if b == 1 {
        crate::boundary::lemma_encode_ascii_char('1', 0x31);
    } else {
        crate::boundary::lemma_encode_ascii_char('0', 0x30);
    }
}

proof fn lemma_four_bits_bytes(v: nat)
    ensures
        vstd::utf8::encode_utf8(four_bits(v)) == four_bit_bytes(v),
{
    let a = bit_char(v / 8);
    let b = bit_char((v / 4) % 2);
    let c = bit_char((v / 2) % 2);
    let d = bit_char(v % 2);
    lemma_bit_char_bytes(v / 8);
    lemma_bit_char_bytes((v / 4) % 2);
    lemma_bit_char_bytes((v / 2) % 2);
    lemma_bit_char_bytes(v % 2);
    assert(four_bits(v) =~= seq![a] + seq![b] + seq![c] + seq![d]);
    crate::ignore::lemma_encode_concat(seq![a] + seq![b] + seq![c], seq![d]);
    crate::ignore::lemma_encode_concat(seq![a] + seq![b], seq![c]);
    crate::ignore::lemma_encode_concat(seq![a], seq![b]);
    assert(four_bit_bytes(v) =~= seq![bit_byte(v / 8)] + seq![bit_byte((v / 4) % 2)] + seq![bit_byte((v / 2) % 2)]
        + seq![bit_byte(v % 2)]);
}

proof fn lemma_four_bit_bytes_value(v: nat)
    requires
        v < 16,
    ensures
        binary_chunk(four_bit_bytes(v)) == Some(v),
{
    let d = four_bit_bytes(v);
    assert(without_plus(d) == d);
    assert(all_binary(d));
    reveal_with_fuel(binary_value, 5);
    assert(d.drop_last().drop_last().drop_last().drop_last() =~= Seq::<u8>::empty());
    assert(binary_value(d) == v);
}

/// Hexadecimal digits written in binary and read back are the digits again,
/// in uppercase; the binary digits are four for each hexadecimal one.
proof fn lemma_hex_binary_round_trip(s: Seq<char>)
    requires
        forall|k: int| 0 <= k < s.len() ==> hex_value(#[trigger] s[k]) is Some,
    ensures
        hex_to_binary(s) matches Some(bits) && vstd::utf8::encode_utf8(bits).len() == 4 * s.len()
            && binary_to_hex(vstd::utf8::encode_utf8(bits)) == Some(upper_hex(s)),
    decreases s.len(),
{
    if s.len() == 0 {
        assert(vstd::utf8::encode_utf8(Seq::<char>::empty()) =~= Seq::<u8>::empty());
    } else {
        let p = s.drop_last();
        assert forall|k: int| 0 <= k < p.len() implies hex_value(#[trigger] p[k]) is Some by {
            assert(p[k] == s[k]);
        }
        lemma_hex_binary_round_trip(p);
        assert(hex_value(s[s.len() - 1]) is Some);
        let v = hex_value(s.last())->0;
        assert(v < 16);
        let pb = hex_to_binary(p)->0;
        let bits = pb + four_bits(v);
        lemma_four_bits_bytes(v);
        crate::ignore::lemma_encode_concat(pb, four_bits(v));
        let bytes = vstd::utf8::encode_utf8(bits);
        let pbytes = vstd::utf8::encode_utf8(pb);
        assert(bytes == pbytes + four_bit_bytes(v));
        lemma_four_bit_bytes_value(v);
        if p.len() == 0 {
            assert(pbytes.len() == 0);
            assert(bytes =~= four_bit_bytes(v));
            assert(upper_hex(s) =~= seq![hex_char(v)]);
        } else {
            assert(bytes.take(bytes.len() - 4) =~= pbytes);
            assert(bytes.skip(bytes.len() - 4) =~= four_bit_bytes(v));
        }
    }
}


/// The digit that a hexadecimal digit's value is written with is the digit
/// in uppercase.
proof fn lemma_hex_char_upper(c: char)
    requires
        hex_value(c) is Some,
    ensures
        hex_char(hex_value(c)->0) == ascii_upper_char(c),
{
    let v = hex_value(c)->0;
    assert(hex_chars()[0] == '0' && hex_chars()[1] == '1' && hex_chars()[2] == '2' && hex_chars()[3] == '3');
    assert(hex_chars()[4] == '4' && hex_chars()[5] == '5' && hex_chars()[6] == '6' && hex_chars()[7] == '7');
    assert(hex_chars()[8] == '8' && hex_chars()[9] == '9' && hex_chars()[10] == 'A' && hex_chars()[11] == 'B');
    assert(hex_chars()[12] == 'C' && hex_chars()[13] == 'D' && hex_chars()[14] == 'E' && hex_chars()[15] == 'F');
    if '0' <= c && c <= '9' {
        assert(c == '0' || c == '1' || c == '2' || c == '3' || c == '4' || c == '5' || c == '6' || c == '7' || c == '8'
            || c == '9');
    } else if 'a' <= c && c <= 'f' {
        assert(c == 'a' || c == 'b' || c == 'c' || c == 'd' || c == 'e' || c == 'f');
    } else {
        assert(c == 'A' || c == 'B' || c == 'C' || c == 'D' || c == 'E' || c == 'F');
    }
}

proof fn lemma_upper_hex_is_uppercase(s: Seq<char>)
    requires
        forall|k: int| 0 <= k < s.len() ==> hex_value(#[trigger] s[k]) is Some,
    ensures
        upper_hex(s) == ascii_uppercase(s),
    decreases s.len(),
{
    if s.len() > 0 {
        let p = s.drop_last();
        assert forall|k: int| 0 <= k < p.len() implies hex_value(#[trigger] p[k]) is Some by {
            assert(p[k] == s[k]);
        }
        lemma_upper_hex_is_uppercase(p);
        assert(hex_value(s[s.len() - 1]) is Some);
        lemma_hex_char_upper(s.last());
        assert(upper_hex(s) =~= ascii_uppercase(s));
    }
}

/// Whether a text is made of the digits `0` and `1`.
pub open spec fn all_bits(b: Seq<char>) -> bool {
    forall|k: int| 0 <= k < b.len() ==> #[trigger] b[k] == '0' || b[k] == '1'
}

proof fn lemma_hex_to_binary_shape(s: Seq<char>)
    ensures
        (hex_to_binary(s) is None) == (exists|k: int| 0 <= k < s.len() && hex_value(#[trigger] s[k]) is None),
        hex_to_binary(s) matches Some(bits) ==> bits.len() == 4 * s.len() && all_bits(bits),
    decreases s.len(),
{
    if s.len() > 0 {
        let p = s.drop_last();
        lemma_hex_to_binary_shape(p);
        if hex_value(s.last()) is None {
            assert(hex_value(s[s.len() - 1]) is None);
        } else if hex_to_binary(p) is None {
            let k = choose|k: int| 0 <= k < p.len() && hex_value(#[trigger] p[k]) is None;
            assert(s[k] == p[k]);
        } else {
            assert forall|k: int| 0 <= k < s.len() implies !(hex_value(#[trigger] s[k]) is None) by {
                if k < p.len() {
                    assert(s[k] == p[k]);
                }
            }
            let pb = hex_to_binary(p)->0;
            let bits = pb + four_bits(hex_value(s.last())->0);
            assert forall|k: int| 0 <= k < bits.len() implies #[trigger] bits[k] == '0' || bits[k] == '1' by {
                if k < pb.len() {
                    assert(bits[k] == pb[k]);
                }
            }
        }
    }
}

/// Hexadecimal digits are written in binary exactly when every character is
/// a hexadecimal digit; they are then written with four binary digits each,
/// and the binary digits read back give the hexadecimal digits in uppercase.
pub proof fn lemma_hex_digits_round_trip(s: Seq<char>)
    ensures
        (hex_to_binary(s) is None) == (exists|k: int| 0 <= k < s.len() && hex_value(#[trigger] s[k]) is None),
        hex_to_binary(s) matches Some(bits) ==> bits.len() == 4 * s.len() && all_bits(bits)
            && binary_to_hex(vstd::utf8::encode_utf8(bits)) == Some(ascii_uppercase(s)),
{
    lemma_hex_to_binary_shape(s);
    if hex_to_binary(s) is Some {
        assert forall|k: int| 0 <= k < s.len() implies hex_value(#[trigger] s[k]) is Some by {}
        lemma_hex_binary_round_trip(s);
        lemma_upper_hex_is_uppercase(s);
    }
}

} // verus!
