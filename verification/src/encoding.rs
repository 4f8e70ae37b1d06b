//! UTF-8 encoding of single characters into byte buffers, with the facts
//! about `encode_utf8` that the passphrase editor relies on.

use vstd::prelude::*;
use vstd::utf8::*;

verus! {

broadcast use vstd::utf8::group_utf8_lib;

/// The UTF-8 encoding of the single character `c`.
pub open spec fn char_bytes(c: char) -> Seq<u8> {
    encode_utf8(seq![c])
}

/// The encoding of one character is the encoding of its scalar value.
pub proof fn lemma_char_bytes(c: char)
    ensures
        char_bytes(c) == encode_scalar(c as u32),
        1 <= char_bytes(c).len() <= 4,
{
    let s = seq![c];
    assert(s.drop_first() =~= Seq::<char>::empty());
    assert(encode_utf8(s.drop_first()) =~= Seq::<u8>::empty());
    assert(encode_scalar(c as u32) + Seq::<u8>::empty() =~= encode_scalar(c as u32));
}

/// Encoding a sequence with one more character appends that character's encoding.
pub proof fn lemma_encode_push(cs: Seq<char>, c: char)
    ensures
        encode_utf8(cs.push(c)) == encode_utf8(cs) + char_bytes(c),
    decreases cs.len(),
{
    if cs.len() == 0 {
        assert(cs.push(c) =~= seq![c]);
        assert(Seq::<u8>::empty() + char_bytes(c) =~= char_bytes(c));
    } else {
        lemma_encode_push(cs.drop_first(), c);
        assert(cs.push(c).drop_first() =~= cs.drop_first().push(c));
        assert(encode_scalar(cs[0] as u32) + (encode_utf8(cs.drop_first()) + char_bytes(c))
            =~= (encode_scalar(cs[0] as u32) + encode_utf8(cs.drop_first())) + char_bytes(c));
    }
}

/// Leading bytes are never continuation bytes, and the trailing bytes of a
/// multi-byte encoding always are.
proof fn lemma_scalar_byte_kinds(v: u32)
    requires
        is_scalar(v),
    ensures
        has_width_1_encoding(v) ==> !is_continuation_byte(leading_byte_width_1(v)),
        !is_continuation_byte(leading_byte_width_2(v)),
        !is_continuation_byte(leading_byte_width_3(v)),
        !is_continuation_byte(leading_byte_width_4(v)),
        is_continuation_byte(last_continuation_byte(v)),
        is_continuation_byte(second_last_continuation_byte(v)),
        is_continuation_byte(third_last_continuation_byte(v)),
{
    assert(has_width_1_encoding(v) ==> !(0x80 <= ((v & 0x7F) as u8) <= 0xbf)) by (bit_vector);
    assert(!(0x80 <= (0xC0 | ((v >> 6) & 0x1F) as u8) <= 0xbf)) by (bit_vector);
    assert(!(0x80 <= (0xE0 | ((v >> 12) & 0x0F) as u8) <= 0xbf)) by (bit_vector);
    assert(!(0x80 <= (0xF0 | ((v >> 18) & 0x7) as u8) <= 0xbf)) by (bit_vector);
    assert(0x80 <= (0x80 | (v & 0x3F) as u8) <= 0xbf) by (bit_vector);
    assert(0x80 <= (0x80 | ((v >> 6) & 0x3F) as u8) <= 0xbf) by (bit_vector);
    assert(0x80 <= (0x80 | ((v >> 12) & 0x3F) as u8) <= 0xbf) by (bit_vector);
}

/// An ASCII character encodes as its own code; every byte of the
/// encoding of any other character is 0x80 or more.
pub proof fn lemma_char_bytes_ascii(c: char)
    ensures
        (c as u32) < 0x80 ==> char_bytes(c) == seq![c as u32 as u8],
        (c as u32) >= 0x80 ==> forall|j: int|
            0 <= j < char_bytes(c).len() ==> #[trigger] char_bytes(c)[j] >= 0x80,
{
    lemma_char_bytes(c);
    let v = c as u32;
    char_is_scalar(c);
    lemma_scalar_byte_kinds(v);
    if v < 0x80 {
        assert((v & 0x7F) as u8 == v as u8) by (bit_vector)
            requires
                v < 0x80,
        ;
        assert(char_bytes(c) =~= seq![v as u8]);
    } else {
        assert((0xC0 | ((v >> 6) & 0x1F) as u8) >= 0x80) by (bit_vector);
        assert((0xE0 | ((v >> 12) & 0x0F) as u8) >= 0x80) by (bit_vector);
        assert((0xF0 | ((v >> 18) & 0x7) as u8) >= 0x80) by (bit_vector);
    }
}

/// In the encoding of a non-empty text, the last scalar is exactly the
/// encoding of the last character.
pub proof fn lemma_last_scalar(cs: Seq<char>)
    requires
        cs.len() > 0,
    ensures
        length_of_last_scalar(encode_utf8(cs)) == char_bytes(cs.last()).len(),
        encode_utf8(cs) == encode_utf8(cs.drop_last()) + char_bytes(cs.last()),
{
    let c = cs.last();
    lemma_encode_push(cs.drop_last(), c);
    assert(cs.drop_last().push(c) =~= cs);
    lemma_char_bytes(c);
    let v = c as u32;
    char_is_scalar(c);
    lemma_scalar_byte_kinds(v);
    let pre = encode_utf8(cs.drop_last());
    let e = char_bytes(c);
    let b = encode_utf8(cs);
    let n = b.len() as int;
    assert(b == pre + e);
    if has_width_1_encoding(v) {
        assert(b[n - 1] == e[0]);
    } else if has_width_2_encoding(v) {
        assert(b[n - 1] == e[1]);
        assert(b[n - 2] == e[0]);
    } else if has_width_3_encoding(v) {
        assert(b[n - 1] == e[2]);
        assert(b[n - 2] == e[1]);
        assert(b[n - 3] == e[0]);
    } else {
        assert(b[n - 1] == e[3]);
        assert(b[n - 2] == e[2]);
        assert(b[n - 3] == e[1]);
    }
}

/// Encoding commutes with concatenation.
pub proof fn lemma_encode_concat(a: Seq<char>, b: Seq<char>)
    ensures
        encode_utf8(a + b) == encode_utf8(a) + encode_utf8(b),
    decreases b.len(),
{
    if b.len() == 0 {
        assert(a + b =~= a);
        assert(encode_utf8(b) =~= Seq::<u8>::empty());
        assert(encode_utf8(a) + encode_utf8(b) =~= encode_utf8(a));
    } else {
        let c = b.last();
        lemma_encode_concat(a, b.drop_last());
        lemma_encode_push(a + b.drop_last(), c);
        lemma_encode_push(b.drop_last(), c);
        assert((a + b.drop_last()).push(c) =~= a + b);
        assert(b.drop_last().push(c) =~= b);
        assert(encode_utf8(a) + (encode_utf8(b.drop_last()) + char_bytes(c)) =~= (encode_utf8(a)
            + encode_utf8(b.drop_last())) + char_bytes(c));
    }
}

/// Number of bytes in the UTF-8 encoding of `c` (what `char::len_utf8` returns).
pub fn char_len_utf8(c: char) -> (n: usize)
    ensures
        n == char_bytes(c).len(),
        1 <= n <= 4,
{
    proof {
        lemma_char_bytes(c);
    }
    let v = c as u32;
    if v <= 0x7f {
        1
    } else if v <= 0x7ff {
        2
    } else if v <= 0xffff {
        3
    } else {
        4
    }
}

/// Appends the UTF-8 encoding of `c` to `out`.
pub fn push_char(out: &mut Vec<u8>, c: char)
    ensures
        final(out)@ == old(out)@ + char_bytes(c),
{
    proof {
        lemma_char_bytes(c);
    }
    let v = c as u32;
    if v <= 0x7f {
        out.push((v & 0x7F) as u8);
    } else if v <= 0x7ff {
        out.push(0xC0 | ((v >> 6) & 0x1F) as u8);
        out.push(0x80 | (v & 0x3F) as u8);
    } else if v <= 0xffff {
        out.push(0xE0 | ((v >> 12) & 0x0F) as u8);
        out.push(0x80 | ((v >> 6) & 0x3F) as u8);
        out.push(0x80 | (v & 0x3F) as u8);
    } else {
        out.push(0xF0 | ((v >> 18) & 0x7) as u8);
        out.push(0x80 | ((v >> 12) & 0x3F) as u8);
        out.push(0x80 | ((v >> 6) & 0x3F) as u8);
        out.push(0x80 | (v & 0x3F) as u8);
    }
    assert(out@ =~= old(out)@ + char_bytes(c));
}

/// Appends `bytes` to `out`.
pub fn push_bytes(out: &mut Vec<u8>, bytes: &[u8])
    ensures
        final(out)@ == old(out)@ + bytes@,
{
    let n = bytes.len();
    let mut i: usize = 0;
    while i < n
        invariant
            n == bytes@.len(),
            i <= n,
            out@ == old(out)@ + bytes@.take(i as int),
        decreases n - i,
    {
        out.push(bytes[i]);
        i = i + 1;
        assert(out@ =~= old(out)@ + bytes@.take(i as int));
    }
    assert(bytes@.take(n as int) =~= bytes@);
}

/// Appends the UTF-8 encoding of `s` to `out`.
pub fn push_str(out: &mut Vec<u8>, s: &str)
    ensures
        final(out)@ == old(out)@ + encode_utf8(s@),
{
    push_bytes(out, s.as_bytes());
}

/// Whether two byte strings are equal.
pub fn bytes_eq(a: &[u8], b: &[u8]) -> (r: bool)
    ensures
        r == (a@ == b@),
{
    if a.len() != b.len() {
        return false;
    }
    let n = a.len();
    let mut i: usize = 0;
    while i < n
        invariant
            n == a@.len(),
            n == b@.len(),
            i <= n,
            forall|j: int| 0 <= j < i ==> a@[j] == b@[j],
        decreases n - i,
    {
        if a[i] != b[i] {
            return false;
        }
        i = i + 1;
    }
    assert(a@ =~= b@);
    true
}

/// Bytes below 0x80 are valid UTF-8, one character each.
pub proof fn lemma_ascii_valid_utf8(bytes: Seq<u8>)
    requires
        forall|i: int| 0 <= i < bytes.len() ==> #[trigger] bytes[i] < 0x80,
    ensures
        valid_utf8(bytes),
    decreases bytes.len(),
{
    if bytes.len() > 0 {
        let rest = pop_first_scalar(bytes);
        assert(rest =~= bytes.subrange(1, bytes.len() as int));
        assert forall|i: int| 0 <= i < rest.len() implies #[trigger] rest[i] < 0x80 by {
            assert(rest[i] == bytes[i + 1]);
        }
        lemma_ascii_valid_utf8(rest);
    }
}

/// `std::str::from_utf8`: the bytes as a string slice when they are valid
/// UTF-8, none otherwise; the slice's characters are what the bytes encode.
#[verifier::external_body]
pub fn str_from_utf8(bytes: &[u8]) -> (r: Option<&str>)
    ensures
        r is Some <==> valid_utf8(bytes@),
        r matches Some(s) ==> s@ == decode_utf8(bytes@),
{
    std::str::from_utf8(bytes).ok()
}

} // verus!
