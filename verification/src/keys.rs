//! Decoding of the raw bytes that a terminal in raw mode sends into the
//! events of the passphrase editor.
//!
//! The grammar, one event at a time, the keys named as a terminal sends
//! them in raw mode:
//! - `CR` or `LF`: Enter;
//! - `DEL`: Backspace;
//! - `ESC [` and a control sequence (see [`decode_csi`]): some other key
//!   for the arrows, Home, End, Insert, Delete, Page Up, Page Down,
//!   Back-Tab and the function keys, and some other event for mouse reports
//!   and unknown sequences;
//! - `ESC O` and `P` to `S`: a function key, some other key; `ESC O` and
//!   another byte: some other event;
//! - `ESC` and the UTF-8 encoding of a character: that character with Alt,
//!   some other key; `ESC` and a byte that starts no such encoding: some
//!   other key, two bytes long;
//! - `ESC` at the end of input: Escape;
//! - `TAB`: the character tab;
//! - the other bytes 0x01 to 0x1a: Ctrl and the letter (0x03 is Ctrl-C,
//!   0x08 is Ctrl-H);
//! - 0x1c to 0x1f: Ctrl and the digits `4` to `7`;
//! - 0x00: no key at all;
//! - a well-formed UTF-8 encoding of a character: that character;
//! - any other byte on its own: some other event.

use vstd::prelude::*;
use vstd::utf8::*;
use crate::askpass::{Event, Key};

verus! {

broadcast use vstd::utf8::group_utf8_lib;

/// True of the bytes that end a control sequence.
pub open spec fn is_final_byte(b: u8) -> bool {
    0x40 <= b <= 0x7e
}

/// Where the control sequence that starts at `input[0..2] == ESC [` ends:
/// just after its first final byte from index `j` on, or at the end of input.
pub open spec fn csi_end(input: Seq<u8>, j: int) -> int
    decreases input.len() - j,
{
    if j >= input.len() {
        input.len() as int
    } else if is_final_byte(input[j]) {
        j + 1
    } else {
        csi_end(input, j + 1)
    }
}

/// Where a mouse report `ESC [ <` ends: just after its first `m` or `M`
/// from index `j` on, or at the end of input.
pub open spec fn mouse_end(input: Seq<u8>, j: int) -> int
    decreases input.len() - j,
{
    if j >= input.len() {
        input.len() as int
    } else if input[j] == 0x6d || input[j] == 0x4d {
        j + 1
    } else {
        mouse_end(input, j + 1)
    }
}

/// The number that ASCII decimal digits write, or none when another byte
/// is among them.
pub open spec fn digits_value(s: Seq<u8>) -> Option<nat>
    decreases s.len(),
{
    if s.len() == 0 {
        Some(0)
    } else if 0x30 <= s.last() <= 0x39 {
        match digits_value(s.drop_last()) {
            Some(v) => Some(v * 10 + (s.last() - 0x30) as nat),
            None => None,
        }
    } else {
        None
    }
}

/// The numbers of the keys sent as `ESC [ <number> ~`: Home, Insert,
/// Delete, End, Page Up, Page Down and the function keys F1 to F12.
pub open spec fn is_key_number(n: nat) -> bool {
    ||| 1 <= n <= 8
    ||| 11 <= n <= 15
    ||| 17 <= n <= 21
    ||| n == 23
    ||| n == 24
}

/// The event of a control sequence, `input` starting with `ESC [`, and
/// how many bytes it takes:
/// - `ESC [ [` and a byte: that byte `A` to `E` is a function key;
/// - `ESC [` and one of `A B C D F H Z`: an arrow, Home, End or Back-Tab key;
/// - `ESC [ M` and three bytes: a mouse report;
/// - `ESC [ <` up to `m` or `M`: a mouse report;
/// - `ESC [`, a digit, and more up to a final byte (0x40 to 0x7e): a key
///   when it is digits ending in `~` whose number is one of the keys';
/// - `ESC [` and any other byte: an unknown sequence of three bytes;
/// a sequence cut short by the end of input takes the rest of it. Keys
/// are some other key; the rest are other events.
pub open spec fn decode_csi(input: Seq<u8>) -> (Event, int)
    recommends
        input.len() >= 2,
{
    if input.len() < 3 {
        (Event::Other, input.len() as int)
    } else {
        let x = input[2];
        if x == 0x5b {
            if input.len() >= 4 {
                (if 0x41 <= input[3] <= 0x45 {
                    Event::Key(Key::Other)
                } else {
                    Event::Other
                }, 4)
            } else {
                (Event::Other, 3)
            }
        } else if x == 0x41 || x == 0x42 || x == 0x43 || x == 0x44 || x == 0x46 || x == 0x48 || x
            == 0x5a {
            (Event::Key(Key::Other), 3)
        } else if x == 0x4d {
            (Event::Other, if input.len() >= 6 {
                6
            } else {
                input.len() as int
            })
        } else if x == 0x3c {
            (Event::Other, mouse_end(input, 3))
        } else if 0x30 <= x <= 0x39 {
            let e = csi_end(input, 3);
            (if input[e - 1] == 0x7e && match digits_value(input.subrange(2, e - 1)) {
                Some(n) => is_key_number(n),
                None => false,
            } {
                Event::Key(Key::Other)
            } else {
                Event::Other
            }, e)
        } else {
            (Event::Other, 3)
        }
    }
}

/// The event that `input` starts with, and how many bytes it takes.
pub open spec fn decode_event(input: Seq<u8>) -> (Event, int)
    recommends
        input.len() > 0,
{
    let b = input[0];
    if b == 0x0d || b == 0x0a {
        (Event::Key(Key::Enter), 1)
    } else if b == 0x7f {
        (Event::Key(Key::Backspace), 1)
    } else if b == 0x1b {
        if input.len() >= 2 && input[1] == 0x5b {
            decode_csi(input)
        } else if input.len() >= 2 && input[1] == 0x4f {
            if input.len() >= 3 {
                (if 0x50 <= input[2] <= 0x53 {
                    Event::Key(Key::Other)
                } else {
                    Event::Other
                }, 3)
            } else {
                (Event::Other, 2)
            }
        } else if input.len() >= 2 && valid_first_scalar(input.skip(1)) {
            (Event::Key(Key::Other), 1 + length_of_first_scalar(input.skip(1)))
        } else if input.len() >= 2 {
            (Event::Key(Key::Other), 2)
        } else {
            (Event::Key(Key::Escape), 1)
        }
    } else if b == 0x09 {
        (Event::Key(Key::Char('\t')), 1)
    } else if 0x01 <= b <= 0x1a {
        (Event::Key(Key::Ctrl(((b + 0x60) as u8) as char)), 1)
    } else if 0x1c <= b <= 0x1f {
        (Event::Key(Key::Ctrl(((b + 0x18) as u8) as char)), 1)
    } else if b == 0x00 {
        (Event::NoEvent, 1)
    } else if b < 0x20 {
        (Event::Other, 1)
    } else if valid_first_scalar(input) {
        (Event::Key(Key::Char(decode_first_scalar(input) as char)), length_of_first_scalar(input))
    } else {
        (Event::Other, 1)
    }
}

/// Every decoded event takes at least one byte and no more than there are.
pub proof fn lemma_decode_event_progress(input: Seq<u8>)
    requires
        input.len() > 0,
    ensures
        1 <= decode_event(input).1 <= input.len(),
{
    if input[0] == 0x1b && input.len() >= 2 && input[1] == 0x5b && input.len() >= 3 {
        lemma_csi_end_bounds(input, 3);
        lemma_mouse_end_bounds(input, 3);
    }
}

proof fn lemma_mouse_end_bounds(input: Seq<u8>, j: int)
    requires
        0 <= j <= input.len(),
    ensures
        j <= mouse_end(input, j) <= input.len(),
    decreases input.len() - j,
{
    if j < input.len() && !(input[j] == 0x6d || input[j] == 0x4d) {
        lemma_mouse_end_bounds(input, j + 1);
    }
}

proof fn lemma_csi_end_bounds(input: Seq<u8>, j: int)
    requires
        0 <= j <= input.len(),
    ensures
        j <= csi_end(input, j) <= input.len(),
    decreases input.len() - j,
{
    if j < input.len() && !is_final_byte(input[j]) {
        lemma_csi_end_bounds(input, j + 1);
    }
}

/// The events that all of `input` decodes into, in order.
pub open spec fn events_of(input: Seq<u8>) -> Seq<Event>
    decreases input.len(),
{
    if input.len() == 0 {
        Seq::empty()
    } else {
        let (e, n) = decode_event(input);
        if 1 <= n <= input.len() {
            seq![e] + events_of(input.skip(n))
        } else {
            seq![e]
        }
    }
}

/// Decodes the event that starts at `input[at]`.
pub fn next_event(input: &[u8], at: usize) -> (r: (Event, usize))
    requires
        at < input@.len(),
    ensures
        r.0 == decode_event(input@.skip(at as int)).0,
        r.1 == decode_event(input@.skip(at as int)).1,
        1 <= r.1 <= input@.len() - at,
{
    let ghost s = input@.skip(at as int);
    proof {
        lemma_decode_event_progress(s);
    }
    let n = input.len();
    let b = input[at];
    assert(s[0] == b);
    if b == 0x0d || b == 0x0a {
        (Event::Key(Key::Enter), 1)
    } else if b == 0x7f {
        (Event::Key(Key::Backspace), 1)
    } else if b == 0x1b {
        if n - at >= 2 && input[at + 1] == 0x5b {
            assert(s[1] == input@[at + 1]);
            decode_csi_at(input, at)
        } else if n - at >= 2 && input[at + 1] == 0x4f {
            assert(s[1] == input@[at + 1]);
            if n - at >= 3 {
                assert(s[2] == input@[at + 2]);
                let x = input[at + 2];
                if 0x50 <= x && x <= 0x53 {
                    (Event::Key(Key::Other), 3)
                } else {
                    (Event::Other, 3)
                }
            } else {
                (Event::Other, 2)
            }
        } else if n - at >= 2 {
            proof {
                assert(s[1] == input@[at + 1]);
                assert(input@.skip(at + 1) =~= s.skip(1));
            }
            match decode_char(input, at + 1) {
                Some((_, k)) => (Event::Key(Key::Other), 1 + k),
                None => (Event::Key(Key::Other), 2),
            }
        } else {
            (Event::Key(Key::Escape), 1)
        }
    } else if b == 0x09 {
        (Event::Key(Key::Char('\t')), 1)
    } else if 0x01 <= b && b <= 0x1a {
        (Event::Key(Key::Ctrl((b + 0x60) as char)), 1)
    } else if 0x1c <= b && b <= 0x1f {
        (Event::Key(Key::Ctrl((b + 0x18) as char)), 1)
    } else if b == 0x00 {
        (Event::NoEvent, 1)
    } else if b < 0x20 {
        (Event::Other, 1)
    } else {
        match decode_char(input, at) {
            Some((c, k)) => (Event::Key(Key::Char(c)), k),
            None => (Event::Other, 1),
        }
    }
}

/// Where the bytes from `input[j]` on stop being anything but a final
/// byte: just after the first final byte, or at the end of input.
fn find_csi_end(input: &[u8], j: usize) -> (r: usize)
    requires
        j <= input@.len(),
    ensures
        r == csi_end(input@, j as int),
{
    let n = input.len();
    let mut i = j;
    while i < n && !(0x40 <= input[i] && input[i] <= 0x7e)
        invariant
            j <= i <= n,
            n == input@.len(),
            csi_end(input@, i as int) == csi_end(input@, j as int),
        decreases n - i,
    {
        i = i + 1;
    }
    if i < n {
        i + 1
    } else {
        n
    }
}

/// Where a mouse report ends, looking from `input[j]` on.
fn find_mouse_end(input: &[u8], j: usize) -> (r: usize)
    requires
        j <= input@.len(),
    ensures
        r == mouse_end(input@, j as int),
{
    let n = input.len();
    let mut i = j;
    while i < n && !(input[i] == 0x6d || input[i] == 0x4d)
        invariant
            j <= i <= n,
            n == input@.len(),
            mouse_end(input@, i as int) == mouse_end(input@, j as int),
        decreases n - i,
    {
        i = i + 1;
    }
    if i < n {
        i + 1
    } else {
        n
    }
}

/// Whether `input[from..to]` are digits writing the number of a key.
fn key_number_at(input: &[u8], from: usize, to: usize) -> (r: bool)
    requires
        from <= to <= input@.len(),
    ensures
        r == match digits_value(input@.subrange(from as int, to as int)) {
            Some(n) => is_key_number(n),
            None => false,
        },
{
    let ghost s = input@.subrange(from as int, to as int);
    let mut i = from;
    let mut v: u32 = 0;
    while i < to
        invariant
            from <= i <= to <= input@.len(),
            s == input@.subrange(from as int, to as int),
            digits_value(s.take(i - from)) is Some,
            v <= 100,
            v < 100 ==> digits_value(s.take(i - from)) == Some(v as nat),
            v == 100 ==> digits_value(s.take(i - from))->0 >= 100,
        decreases to - i,
    {
        let b = input[i];
        let ghost t = s.take(i + 1 - from);
        assert(t.drop_last() =~= s.take(i - from));
        assert(t.last() == b);
        if !(0x30 <= b && b <= 0x39) {
            assert(digits_value(t) is None);
            assert(s.take(to - from) =~= s);
            proof {
                lemma_digits_none_extends(s, (i + 1 - from) as int);
            }
            return false;
        }
        let d = (b - 0x30) as u32;
        if v < 100 {
            let w = v * 10 + d;
            v = if w < 100 { w } else { 100 };
        }
        i = i + 1;
    }
    assert(s.take(to - from) =~= s);
    v < 100 && (1 <= v && v <= 8 || 11 <= v && v <= 15 || 17 <= v && v <= 21 || v == 23 || v == 24)
}

/// Once a byte other than a digit is among them, no longer run of the
/// bytes writes a number.
proof fn lemma_digits_none_extends(s: Seq<u8>, k: int)
    requires
        0 <= k <= s.len(),
        digits_value(s.take(k)) is None,
    ensures
        digits_value(s) is None,
    decreases s.len() - k,
{
    if k < s.len() {
        let t = s.take(k + 1);
        assert(t.drop_last() =~= s.take(k));
        lemma_digits_none_extends(s, k + 1);
    } else {
        assert(s.take(k) =~= s);
    }
}

/// Decodes the control sequence that starts at `input[at]` with `ESC [`.
fn decode_csi_at(input: &[u8], at: usize) -> (r: (Event, usize))
    requires
        at + 2 <= input@.len(),
        input@[at as int] == 0x1b,
        input@[at + 1] == 0x5b,
    ensures
        r.0 == decode_csi(input@.skip(at as int)).0,
        r.1 == decode_csi(input@.skip(at as int)).1,
{
    let ghost s = input@.skip(at as int);
    let n = input.len();
    if n - at < 3 {
        return (Event::Other, n - at);
    }
    let x = input[at + 2];
    assert(s[2] == x);
    if x == 0x5b {
        if n - at >= 4 {
            let y = input[at + 3];
            assert(s[3] == y);
            if 0x41 <= y && y <= 0x45 {
                (Event::Key(Key::Other), 4)
            } else {
                (Event::Other, 4)
            }
        } else {
            (Event::Other, 3)
        }
    } else if x == 0x41 || x == 0x42 || x == 0x43 || x == 0x44 || x == 0x46 || x == 0x48 || x
        == 0x5a {
        (Event::Key(Key::Other), 3)
    } else if x == 0x4d {
        if n - at >= 6 {
            (Event::Other, 6)
        } else {
            (Event::Other, n - at)
        }
    } else if x == 0x3c {
        let e = find_mouse_end(input, at + 3);
        proof {
            lemma_mouse_end_shift(input@, at as int, at + 3);
            lemma_mouse_end_bounds(input@, at + 3);
        }
        (Event::Other, e - at)
    } else if 0x30 <= x && x <= 0x39 {
        let e = find_csi_end(input, at + 3);
        proof {
            lemma_csi_end_shift(input@, at as int, at + 3);
            lemma_csi_end_bounds(s, 3);
        }
        let last = input[e - 1];
        assert(s[e - at - 1] == last);
        let key = last == 0x7e && key_number_at(input, at + 2, e - 1);
        assert(input@.subrange(at + 2, e - 1) =~= s.subrange(2, e - at - 1));
        if key {
            (Event::Key(Key::Other), e - at)
        } else {
            (Event::Other, e - at)
        }
    } else {
        (Event::Other, 3)
    }
}

/// Looking for the end of a control sequence from an offset into the input.
proof fn lemma_csi_end_shift(input: Seq<u8>, at: int, j: int)
    requires
        0 <= at <= j <= input.len(),
    ensures
        csi_end(input, j) - at == csi_end(input.skip(at), j - at),
    decreases input.len() - j,
{
    if j < input.len() {
        assert(input.skip(at)[j - at] == input[j]);
        lemma_csi_end_shift(input, at, j + 1);
    }
}

/// Looking for the end of a mouse report from an offset into the input.
proof fn lemma_mouse_end_shift(input: Seq<u8>, at: int, j: int)
    requires
        0 <= at <= j <= input.len(),
    ensures
        mouse_end(input, j) - at == mouse_end(input.skip(at), j - at),
    decreases input.len() - j,
{
    if j < input.len() {
        assert(input.skip(at)[j - at] == input[j]);
        lemma_mouse_end_shift(input, at, j + 1);
    }
}

/// Decodes the character whose UTF-8 encoding starts at `input[at]`, if
/// a well-formed one does.
fn decode_char(input: &[u8], at: usize) -> (r: Option<(char, usize)>)
    requires
        at < input@.len(),
    ensures
        ({
            let s = input@.skip(at as int);
            match r {
                Some((c, k)) => valid_first_scalar(s) && c == (decode_first_scalar(s) as char)
                    && k == length_of_first_scalar(s),
                None => !valid_first_scalar(s),
            }
        }),
{
    let ghost s = input@.skip(at as int);
    let n = input.len();
    let b0 = input[at];
    assert(s[0] == b0);
    if b0 <= 0x7f {
        let cp = (b0 & 0x7F) as u32;
        return match scalar_to_char(cp) {
            Some(c) => Some((c, 1)),
            None => None,
        };
    }
    if 0xc0 <= b0 && b0 <= 0xdf {
        if n - at < 2 {
            return None;
        }
        let b1 = input[at + 1];
        assert(s[1] == b1);
        if !(0x80 <= b1 && b1 <= 0xbf) {
            return None;
        }
        let cp = (((b0 & 0x1F) as u32) << 6) | ((b1 & 0x3f) as u32);
        assert(cp <= 0x7ff) by (bit_vector)
            requires
                cp == (((b0 & 0x1F) as u32) << 6) | ((b1 & 0x3f) as u32),
        ;
        assert(cp == codepoint_width_2(b0, b1));
        if cp < 0x80 || (0xD800 <= cp && cp <= 0xDFFF) {
            return None;
        }
        return match scalar_to_char(cp) {
            Some(c) => Some((c, 2)),
            None => None,
        };
    }
    if 0xe0 <= b0 && b0 <= 0xef {
        if n - at < 3 {
            return None;
        }
        let b1 = input[at + 1];
        let b2 = input[at + 2];
        assert(s[1] == b1 && s[2] == b2);
        if !(0x80 <= b1 && b1 <= 0xbf && 0x80 <= b2 && b2 <= 0xbf) {
            return None;
        }
        let cp = (((b0 & 0x0F) as u32) << 12) | (((b1 & 0x3f) as u32) << 6) | ((b2 & 0x3f) as u32);
        assert(cp <= 0xffff) by (bit_vector)
            requires
                cp == (((b0 & 0x0F) as u32) << 12) | (((b1 & 0x3f) as u32) << 6) | ((b2
                    & 0x3f) as u32),
        ;
        assert(cp == codepoint_width_3(b0, b1, b2));
        if cp < 0x800 || (0xD800 <= cp && cp <= 0xDFFF) {
            return None;
        }
        return match scalar_to_char(cp) {
            Some(c) => Some((c, 3)),
            None => None,
        };
    }
    if 0xf0 <= b0 && b0 <= 0xf7 {
        if n - at < 4 {
            return None;
        }
        let b1 = input[at + 1];
        let b2 = input[at + 2];
        let b3 = input[at + 3];
        assert(s[1] == b1 && s[2] == b2 && s[3] == b3);
        if !(0x80 <= b1 && b1 <= 0xbf && 0x80 <= b2 && b2 <= 0xbf && 0x80 <= b3 && b3 <= 0xbf) {
            return None;
        }
        let cp = (((b0 & 0x07) as u32) << 18) | (((b1 & 0x3f) as u32) << 12) | (((b2
            & 0x3f) as u32) << 6) | ((b3 & 0x3f) as u32);
        if cp < 0x10000 || cp > 0x10ffff || (0xD800 <= cp && cp <= 0xDFFF) {
            return None;
        }
        return match scalar_to_char(cp) {
            Some(c) => Some((c, 4)),
            None => None,
        };
    }
    None
}

/// `char::from_u32`: the character whose scalar value is `v`, if `v` is a
/// Unicode scalar value (std documents none for surrogates and values past
/// 0x10FFFF).
#[verifier::external_body]
fn scalar_to_char(v: u32) -> (r: Option<char>)
    ensures
        is_scalar(v) ==> r == Some(v as char),
        !is_scalar(v) ==> r is None,
{
    char::from_u32(v)
}

} // verus!
