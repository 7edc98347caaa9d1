//! Facts about character boundaries in UTF-8 text next to ASCII bytes.
use vstd::prelude::*;
use vstd::utf8::{
    encode_scalar, encode_utf8, is_char_boundary, is_continuation_byte, is_leading_byte_width_1, length_of_first_scalar,
    pop_first_scalar, valid_first_scalar, valid_utf8,
};

verus! {

/// In valid UTF-8, the bytes after the first one of a character are
/// continuation bytes, so an ASCII byte is never one of them.
proof fn lemma_first_scalar_ascii(b: Seq<u8>, k: int)
    requires
        valid_first_scalar(b),
        0 < k < length_of_first_scalar(b),
    ensures
        is_continuation_byte(b[k]),
{
}

/// An ASCII byte starts a character.
pub proof fn lemma_ascii_is_boundary(b: Seq<u8>, k: int)
    requires
        valid_utf8(b),
        0 <= k < b.len(),
        b[k] < 0x80,
    ensures
        is_char_boundary(b, k),
    decreases b.len(),
{
    if k > 0 {
        let l = length_of_first_scalar(b);
        if k < l {
            lemma_first_scalar_ascii(b, k);
        } else {
            let rest = pop_first_scalar(b);
            assert(rest[k - l] == b[k]);
            lemma_ascii_is_boundary(rest, k - l);
        }
    }
}

/// The index just after an ASCII byte starts a character (or is the end).
pub proof fn lemma_after_ascii_is_boundary(b: Seq<u8>, k: int)
    requires
        valid_utf8(b),
        0 <= k < b.len(),
        b[k] < 0x80,
    ensures
        is_char_boundary(b, k + 1),
    decreases b.len(),
{
    let l = length_of_first_scalar(b);
    let rest = pop_first_scalar(b);
    if k == 0 {
        assert(is_leading_byte_width_1(b[0]));
        assert(l == 1);
        assert(is_char_boundary(rest, 0));
    } else if k < l {
        lemma_first_scalar_ascii(b, k);
    } else {
        assert(rest[k - l] == b[k]);
        lemma_after_ascii_is_boundary(rest, k - l);
    }
}

/// The UTF-8 encoding of an ASCII character is its code.
pub proof fn lemma_encode_ascii_char(c: char, b: u8)
    requires
        (c as u32) == (b as u32),
        b < 0x80,
    ensures
        encode_utf8(seq![c]) == seq![b],
{
    let v = c as u32;
    assert((v & 0x7F) as u8 == b) by (bit_vector)
        requires
            v == b as u32,
            b < 0x80,
    ;
    assert(encode_scalar(v) == seq![b]);
    assert(seq![c].drop_first() =~= Seq::<char>::empty());
    assert(encode_utf8(seq![c]) == encode_scalar(v) + encode_utf8(Seq::<char>::empty()));
    assert(encode_scalar(v) + Seq::<u8>::empty() =~= seq![b]);
}

/// Text has no bytes exactly when it has no characters.
pub proof fn lemma_encode_utf8_empty(c: Seq<char>)
    ensures
        (encode_utf8(c).len() == 0) == (c.len() == 0),
{
    if c.len() > 0 {
        assert(encode_utf8(c) == encode_scalar(c[0] as u32) + encode_utf8(c.drop_first()));
    }
}

} // verus!
