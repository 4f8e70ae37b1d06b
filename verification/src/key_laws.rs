//! Which control sequences of a terminal are keys.

use vstd::prelude::*;
use crate::askpass::{Event, Key};
use crate::colorhash::decimal;
use crate::keys::{csi_end, decode_event, digits_value};

verus! {

/// The digits of a number are ASCII digits, at least one, and read back
/// as the number.
proof fn lemma_decimal_digits(n: nat)
    ensures
        decimal(n).len() >= 1,
        forall|i: int| 0 <= i < decimal(n).len() ==> 0x30 <= #[trigger] decimal(n)[i] <= 0x39,
        digits_value(decimal(n)) == Some(n),
    decreases n,
{
    if n < 10 {
        let d = decimal(n);
        assert(d.drop_last() =~= Seq::<u8>::empty());
        assert(d.last() == 48 + n);
        assert(digits_value(d.drop_last()) == Some(0nat));
        assert(((d.last() - 0x30) as nat) == n);
    } else {
        lemma_decimal_digits(n / 10);
        let d = decimal(n);
        let pre = decimal(n / 10);
        assert(d.drop_last() =~= pre);
        assert forall|i: int| 0 <= i < d.len() implies 0x30 <= #[trigger] d[i] <= 0x39 by {
            if i < pre.len() {
                assert(d[i] == pre[i]);
            }
        }
        assert(d.last() == 48 + n % 10);
        assert(((d.last() - 0x30) as nat) == n % 10);
        assert((n / 10) * 10 + n % 10 == n);
        assert(digits_value(d) == Some(((n / 10) * 10 + n % 10) as nat));
    }
}

/// A control sequence ends just after the first final byte past a run of
/// digits.
proof fn lemma_csi_end_over_digits(input: Seq<u8>, j: int, end: int)
    requires
        0 <= j <= end < input.len(),
        forall|i: int| j <= i < end ==> 0x30 <= #[trigger] input[i] <= 0x39,
        0x40 <= input[end] <= 0x7e,
    ensures
        csi_end(input, j) == end + 1,
    decreases end - j,
{
    if j < end {
        lemma_csi_end_over_digits(input, j + 1, end);
    }
}

/// `ESC [ <number> ~` is a key exactly for the numbers of the VT key table:
/// 1 and 7 (Home), 2 (Insert), 3 (Delete), 4 and 8 (End), 5 and 6 (Page
/// Up and Down), and 11 to 15, 17 to 21, 23 and 24 (F1 to F12); any other
/// number is an event that is no key. Either way the sequence is taken
/// whole, whatever follows it.
pub proof fn law_vt_key_numbers(n: nat, rest: Seq<u8>)
    ensures
        decode_event(seq![0x1bu8, 0x5b] + decimal(n) + seq![0x7eu8] + rest) == (
            if 1 <= n <= 8 || 11 <= n <= 15 || 17 <= n <= 21 || n == 23 || n == 24 {
                Event::Key(Key::Other)
            } else {
                Event::Other
            },
            decimal(n).len() + 3int,
        ),
{
    lemma_decimal_digits(n);
    let d = decimal(n);
    let k = d.len() as int;
    let input = seq![0x1bu8, 0x5b] + d + seq![0x7eu8] + rest;
    assert(input[0] == 0x1b);
    assert(input[1] == 0x5b);
    assert forall|i: int| 2 <= i < k + 2 implies 0x30 <= #[trigger] input[i] <= 0x39 by {
        assert(input[i] == d[i - 2]);
    }
    assert(input[k + 2] == 0x7e);
    assert(input[2] == d[0]);
    lemma_csi_end_over_digits(input, 3, k + 2);
    assert(input.subrange(2, k + 2) =~= d);
}

/// The arrows, Home, End and Back-Tab: `ESC [` and `A`, `B`, `C`, `D`, `H`,
/// `F` or `Z` is a key of three bytes, whatever follows.
pub proof fn law_csi_letter_keys(x: u8, rest: Seq<u8>)
    requires
        x == 0x41 || x == 0x42 || x == 0x43 || x == 0x44 || x == 0x48 || x == 0x46 || x == 0x5a,
    ensures
        decode_event(seq![0x1bu8, 0x5b, x] + rest) == (Event::Key(Key::Other), 3int),
{
    let input = seq![0x1bu8, 0x5b, x] + rest;
    assert(input[0] == 0x1b && input[1] == 0x5b && input[2] == x);
}

/// `ESC O` and a byte: a function key (F1 to F4) for `P` to `S`, an event
/// that is no key for any other byte; three bytes either way.
pub proof fn law_ss3_keys(x: u8, rest: Seq<u8>)
    ensures
        decode_event(seq![0x1bu8, 0x4f, x] + rest) == (
            if 0x50 <= x <= 0x53 {
                Event::Key(Key::Other)
            } else {
                Event::Other
            },
            3int,
        ),
{
    let input = seq![0x1bu8, 0x4f, x] + rest;
    assert(input[0] == 0x1b && input[1] == 0x4f && input[2] == x);
}

/// The control bytes 0x01 to 0x1a other than tab, line feed and carriage
/// return are Ctrl and the letter they stand for (0x01 is Ctrl-A, 0x03
/// Ctrl-C), one byte each.
pub proof fn law_control_letters(b: u8, rest: Seq<u8>)
    requires
        1 <= b <= 26,
        b != 9 && b != 10 && b != 13,
    ensures
        decode_event(seq![b] + rest) == (
            Event::Key(Key::Ctrl(((b as u32) - 1 + ('a' as u32)) as char)),
            1int,
        ),
{
    let input = seq![b] + rest;
    assert(input[0] == b);
    assert(((b as u32) - 1 + ('a' as u32)) == (b + 0x60) as u8 as u32);
}

/// Carriage return and line feed are Enter, `DEL` is Backspace, tab is
/// the character tab, and 0x00 is no key at all, one byte each.
pub proof fn law_single_byte_keys(rest: Seq<u8>)
    ensures
        decode_event(seq![0x0du8] + rest) == (Event::Key(Key::Enter), 1int),
        decode_event(seq![0x0au8] + rest) == (Event::Key(Key::Enter), 1int),
        decode_event(seq![0x7fu8] + rest) == (Event::Key(Key::Backspace), 1int),
        decode_event(seq![0x09u8] + rest) == (Event::Key(Key::Char('\t')), 1int),
        decode_event(seq![0x00u8] + rest) == (Event::NoEvent, 1int),
{
    assert((seq![0x0du8] + rest)[0] == 0x0d);
    assert((seq![0x0au8] + rest)[0] == 0x0a);
    assert((seq![0x7fu8] + rest)[0] == 0x7f);
    assert((seq![0x09u8] + rest)[0] == 0x09);
    assert((seq![0x00u8] + rest)[0] == 0x00);
}

} // verus!
