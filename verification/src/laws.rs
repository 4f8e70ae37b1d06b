//! Properties of the library as a whole, proved over the specifications
//! that the functions' contracts use.

use vstd::prelude::*;
use vstd::utf8::*;
use crate::askpass::{edited, edited_buffer, fits, shown_colors, Event, Key};
use crate::colorhash::{digest_colors, is_cube_color};
use crate::encoding::{
    char_bytes, lemma_char_bytes, lemma_char_bytes_ascii, lemma_encode_concat, lemma_encode_push,
    lemma_last_scalar,
};
use crate::keys::{decode_event, events_of, lemma_decode_event_progress};
use crate::pinentry::{
    alpha_end, command_effect, command_of, is_alphabetic, is_space, newline_from, ok_text_line,
    percent_decoded, request_effect, space_end, upper_bytes, ActionView, Command, PinentryView,
};
use crate::prompt::{drawn_transcript, redraw_colors, redraw_texts, run_typed, RAW_BUFFER_LEN};
use crate::utils::CLOSE;

verus! {

broadcast use vstd::utf8::group_utf8_lib, vstd::seq::group_seq_axioms;

/// Typing a character that fits and then Backspace leaves the text as it was.
pub proof fn law_backspace_undoes_typing(typed: Seq<char>, capacity: nat, c: char)
    requires
        fits(capacity, typed, c),
    ensures
        edited(
            edited(typed, capacity, Event::Key(Key::Char(c))),
            capacity,
            Event::Key(Key::Backspace),
        ) == typed,
{
    assert(typed.push(c).drop_last() =~= typed);
}

/// Escape forgets the whole text, whatever it was.
pub proof fn law_escape_clears(typed: Seq<char>, capacity: nat)
    ensures
        edited(typed, capacity, Event::Key(Key::Escape)) == Seq::<char>::empty(),
{
}

/// The encoded text never fills the buffer: when at least one byte is free
/// before an event, at least one is free after it.
pub proof fn law_a_byte_stays_free(typed: Seq<char>, capacity: nat, event: Event)
    requires
        encode_utf8(typed).len() < capacity,
    ensures
        encode_utf8(edited(typed, capacity, event)).len() < capacity,
{
    match event {
        Event::Key(Key::Char(c)) => {
            if fits(capacity, typed, c) {
                lemma_encode_push(typed, c);
            }
        },
        Event::Key(Key::Backspace) => {
            if typed.len() > 0 {
                lemma_last_scalar(typed);
            }
        },
        _ => {},
    }
}

/// The text and the buffer after `events`, handled one after another.
pub open spec fn edit_run(typed: Seq<char>, buffer: Seq<u8>, events: Seq<Event>) -> (Seq<char>, Seq<u8>)
    decreases events.len(),
{
    if events.len() == 0 {
        (typed, buffer)
    } else {
        edit_run(
            edited(typed, buffer.len(), events[0]),
            edited_buffer(buffer, typed, events[0]),
            events.drop_first(),
        )
    }
}

/// The buffer starts with the encoding of the text.
pub open spec fn holds_text(buffer: Seq<u8>, typed: Seq<char>) -> bool {
    &&& encode_utf8(typed).len() <= buffer.len()
    &&& buffer.take(encode_utf8(typed).len() as int) == encode_utf8(typed)
}

proof fn lemma_edit_keeps_text(typed: Seq<char>, buffer: Seq<u8>, event: Event)
    requires
        holds_text(buffer, typed),
    ensures
        edited_buffer(buffer, typed, event).len() == buffer.len(),
        holds_text(edited_buffer(buffer, typed, event), edited(typed, buffer.len(), event)),
{
    let e = encode_utf8(typed);
    match event {
        Event::Key(Key::Char(c)) => {
            if fits(buffer.len(), typed, c) {
                lemma_encode_push(typed, c);
                let p = e.len() as int;
                let b2 = edited_buffer(buffer, typed, event);
                assert(b2.take(p + char_bytes(c).len()) =~= e + char_bytes(c));
            }
        },
        Event::Key(Key::Backspace) => {
            if typed.len() > 0 {
                lemma_last_scalar(typed);
                let n = encode_utf8(typed.drop_last()).len() as int;
                assert(buffer.take(n) =~= e.take(n));
                assert(e.take(n) =~= encode_utf8(typed.drop_last()));
            }
        },
        Event::Key(Key::Escape) => {
            assert(encode_utf8(Seq::<char>::empty()) =~= Seq::<u8>::empty());
            assert(buffer.take(0) =~= Seq::<u8>::empty());
        },
        _ => {},
    }
}

/// Whatever the events, the buffer keeps its length and starts with the
/// encoding of the text: what a prompt gives back is the start of the
/// buffer it was given.
pub proof fn law_buffer_holds_text(typed: Seq<char>, buffer: Seq<u8>, events: Seq<Event>)
    requires
        holds_text(buffer, typed),
    ensures
        edit_run(typed, buffer, events).1.len() == buffer.len(),
        holds_text(edit_run(typed, buffer, events).1, edit_run(typed, buffer, events).0),
    decreases events.len(),
{
    if events.len() > 0 {
        lemma_edit_keeps_text(typed, buffer, events[0]);
        law_buffer_holds_text(
            edited(typed, buffer.len(), events[0]),
            edited_buffer(buffer, typed, events[0]),
            events.drop_first(),
        );
    }
}

/// While one to seven bytes are typed, the colours shown do not depend on
/// what was typed: for the same random draw, any two such texts show the
/// same colours.
pub proof fn law_short_text_not_shown(t1: Seq<u8>, t2: Seq<u8>, draw: Seq<u8>)
    requires
        1 <= t1.len() <= 7,
        1 <= t2.len() <= 7,
    ensures
        shown_colors(t1, draw) == shown_colors(t2, draw),
{
}

/// Before anything is typed, and from eight bytes on, the colours shown do
/// not depend on the random draw.
pub proof fn law_long_text_ignores_draw(typed: Seq<u8>, d1: Seq<u8>, d2: Seq<u8>)
    requires
        typed.len() == 0 || typed.len() >= 8,
    ensures
        shown_colors(typed, d1) == shown_colors(typed, d2),
{
}

/// Every colour shown for a digest lies in the colour cube of the palette.
pub proof fn law_digest_colors_in_cube(digest: Seq<u8>)
    requires
        digest.len() >= 4,
    ensures
        digest_colors(digest).len() == 4,
        forall|i: int| 0 <= i < 4 ==> is_cube_color(#[trigger] digest_colors(digest)[i]),
{
}

/// Percent-decoding leaves bytes without `%` as they are.
pub proof fn law_percent_decoding_without_percent(s: Seq<u8>)
    requires
        forall|i: int| 0 <= i < s.len() ==> #[trigger] s[i] != 0x25,
    ensures
        percent_decoded(s) == s,
    decreases s.len(),
{
    if s.len() > 0 {
        let t = s.skip(1);
        assert forall|i: int| 0 <= i < t.len() implies #[trigger] t[i] != 0x25 by {
            assert(t[i] == s[i + 1]);
        }
        law_percent_decoding_without_percent(t);
        assert(seq![s[0]] + t =~= s);
    }
}


/// Characters that a terminal sends as themselves: anything but the
/// control characters.
pub open spec fn is_printable(c: char) -> bool {
    (c as u32) >= 0x20 && (c as u32) != 0x7f
}

/// The key event of typing `c`.
pub open spec fn char_event(c: char) -> Event {
    Event::Key(Key::Char(c))
}

/// The key events of typing `cs`.
pub open spec fn char_events(cs: Seq<char>) -> Seq<Event>
    decreases cs.len(),
{
    if cs.len() == 0 {
        Seq::empty()
    } else {
        seq![char_event(cs[0])] + char_events(cs.drop_first())
    }
}

/// The first byte of a printable character's encoding is neither a
/// control byte nor `DEL`.
proof fn lemma_printable_first_byte(c: char)
    requires
        is_printable(c),
    ensures
        char_bytes(c)[0] >= 0x20,
        char_bytes(c)[0] != 0x7f,
{
    lemma_char_bytes(c);
    let v = c as u32;
    char_is_scalar(c);
    if has_width_1_encoding(v) {
        assert((v & 0x7F) as u8 == v as u8) by (bit_vector)
            requires
                v <= 0x7f,
        ;
    } else if has_width_2_encoding(v) {
        assert(0xC0 | ((v >> 6) & 0x1F) as u8 >= 0xc0) by (bit_vector);
    } else if has_width_3_encoding(v) {
        assert(0xE0 | ((v >> 12) & 0x0F) as u8 >= 0xe0) by (bit_vector);
    } else {
        assert(0xF0 | ((v >> 18) & 0x7) as u8 >= 0xf0) by (bit_vector);
    }
}

/// Carriage return encodes as itself.
proof fn lemma_cr_bytes()
    ensures
        char_bytes('\r') == seq![0x0du8],
{
    lemma_char_bytes('\r');
    let v = '\r' as u32;
    assert(v == 13);
    assert((v & 0x7F) as u8 == 13u8) by (bit_vector)
        requires
            v == 13,
    ;
    assert(char_bytes('\r') =~= seq![0x0du8]);
}

/// Typed text followed by Enter decodes into a key event per character,
/// then Enter: the key decoder reads back what UTF-8 encoding wrote.
pub proof fn law_typing_decodes(cs: Seq<char>)
    requires
        forall|i: int| 0 <= i < cs.len() ==> is_printable(#[trigger] cs[i]),
    ensures
        events_of(encode_utf8(cs) + seq![0x0du8]) == char_events(cs) + seq![
            Event::Key(Key::Enter),
        ],
    decreases cs.len(),
{
    let s = encode_utf8(cs) + seq![0x0du8];
    if cs.len() == 0 {
        assert(s =~= seq![0x0du8]);
        assert(s.skip(1) =~= Seq::<u8>::empty());
        assert(decode_event(s) == (Event::Key(Key::Enter), 1int));
        assert(events_of(s) == seq![Event::Key(Key::Enter)] + events_of(s.skip(1)));
        assert(events_of(Seq::<u8>::empty()) == Seq::<Event>::empty());
        assert(seq![Event::Key(Key::Enter)] + Seq::<Event>::empty() =~= seq![Event::Key(Key::Enter)]);
        assert(char_events(cs) + seq![Event::Key(Key::Enter)] =~= seq![Event::Key(Key::Enter)]);
    } else {
        let c = cs[0];
        let rest = cs.drop_first();
        let w = cs.push('\r');
        lemma_encode_push(cs, '\r');
        lemma_cr_bytes();
        assert(encode_utf8(w) == s);
        encode_utf8_first_scalar(w);
        assert(w[0] == c);
        lemma_char_bytes(c);
        lemma_printable_first_byte(c);
        let k = char_bytes(c).len() as int;
        assert(encode_utf8(cs) == char_bytes(c) + encode_utf8(rest));
        assert(s[0] == char_bytes(c)[0]);
        assert(valid_first_scalar(s));
        assert(length_of_first_scalar(s) == k);
        let x = decode_first_scalar(s);
        assert(x == c as u32);
        char_u32_cast(c, x);
        assert(x as char == c);
        assert(decode_event(s).1 == k);
        assert(decode_event(s).0 == Event::Key(Key::Char(x as char)));
        assert(decode_event(s) == (char_event(c), k));
        lemma_decode_event_progress(s);
        assert(events_of(s) == seq![char_event(c)] + events_of(s.skip(k)));
        assert(s.skip(k) =~= encode_utf8(rest) + seq![0x0du8]);
        assert forall|i: int| 0 <= i < rest.len() implies is_printable(#[trigger] rest[i]) by {
            assert(rest[i] == cs[i + 1]);
        }
        law_typing_decodes(rest);
            assert(char_events(cs) + seq![Event::Key(Key::Enter)] =~= seq![char_event(c)]
            + (char_events(rest) + seq![Event::Key(Key::Enter)]));
    }
}

proof fn lemma_run_typing(t: Seq<char>, cs: Seq<char>, capacity: nat)
    requires
        encode_utf8(t + cs).len() < capacity,
    ensures
        run_typed(t, capacity, char_events(cs) + seq![Event::Key(Key::Enter)]) == Some(t + cs),
    decreases cs.len(),
{
    let events = char_events(cs) + seq![Event::Key(Key::Enter)];
    if cs.len() == 0 {
        assert(events[0] == Event::Key(Key::Enter));
        assert(t + cs =~= t);
    } else {
        let c = cs[0];
        let rest = cs.drop_first();
        lemma_encode_concat(t, cs);
        lemma_char_bytes(c);
        assert(encode_utf8(cs) == char_bytes(c) + encode_utf8(rest));
        assert(fits(capacity, t, c));
        assert(events[0] == char_event(c));
        assert(events.drop_first() =~= char_events(rest) + seq![Event::Key(Key::Enter)]);
        assert(t.push(c) + rest =~= t + cs);
        lemma_run_typing(t.push(c), rest, capacity);
    }
}

/// What is typed is what is read: printable text that fits the buffer,
/// followed by Enter, runs to exactly that text.
pub proof fn law_typed_text_is_read_back(cs: Seq<char>, capacity: nat)
    requires
        forall|i: int| 0 <= i < cs.len() ==> is_printable(#[trigger] cs[i]),
        encode_utf8(cs).len() < capacity,
    ensures
        run_typed(Seq::empty(), capacity, events_of(encode_utf8(cs) + seq![0x0du8])) == Some(cs),
{
    law_typing_decodes(cs);
    assert(Seq::<char>::empty() + cs =~= cs);
    lemma_run_typing(Seq::empty(), cs, capacity);
}

/// Typed bytes that show the same: none in both, one to seven in both, or
/// the same bytes.
pub open spec fn shown_alike(a: Seq<u8>, b: Seq<u8>) -> bool {
    ||| a.len() == 0 && b.len() == 0
    ||| 1 <= a.len() <= 7 && 1 <= b.len() <= 7
    ||| a.len() >= 8 && a == b
}

/// Two prompt runs whose redraws show texts alike, one for one, write the
/// same bytes to the terminal for the same random draws.
pub proof fn law_alike_runs_write_alike(
    prompt: Seq<char>,
    star: char,
    t1: Seq<Seq<char>>,
    t2: Seq<Seq<char>>,
    draws: Seq<[u8; 4]>,
)
    requires
        t1.len() == t2.len(),
        forall|i: int|
            0 <= i < t1.len() ==> shown_alike(encode_utf8(#[trigger] t1[i]), encode_utf8(t2[i])),
    ensures
        drawn_transcript(prompt, star, t1, draws) == drawn_transcript(prompt, star, t2, draws),
{
    assert(redraw_colors(t1, draws) =~= redraw_colors(t2, draws));
}

proof fn lemma_redraw_typing(t: Seq<char>, cs: Seq<char>, capacity: nat)
    requires
        encode_utf8(t + cs).len() < capacity,
    ensures
        redraw_texts(t, capacity, char_events(cs) + seq![Event::Key(Key::Enter)]) == Seq::new(
            cs.len(),
            |i: int| t + cs.take(i + 1),
        ),
    decreases cs.len(),
{
    let events = char_events(cs) + seq![Event::Key(Key::Enter)];
    if cs.len() == 0 {
        assert(events[0] == Event::Key(Key::Enter));
        assert(redraw_texts(t, capacity, events) =~= Seq::<Seq<char>>::empty());
    } else {
        let c = cs[0];
        let rest = cs.drop_first();
        lemma_encode_concat(t, cs);
        lemma_char_bytes(c);
        assert(encode_utf8(cs) == char_bytes(c) + encode_utf8(rest));
        assert(fits(capacity, t, c));
        assert(events[0] == char_event(c));
        assert(events.drop_first() =~= char_events(rest) + seq![Event::Key(Key::Enter)]);
        assert(t.push(c) + rest =~= t + cs);
        lemma_redraw_typing(t.push(c), rest, capacity);
        let tail = Seq::new(rest.len(), |i: int| t.push(c) + rest.take(i + 1));
        assert(redraw_texts(t, capacity, events) == seq![t.push(c)] + tail);
        assert forall|i: int| 0 <= i < cs.len() implies (seq![t.push(c)] + tail)[i] == t + cs.take(
            i + 1,
        ) by {
            if i == 0 {
                assert(t.push(c) =~= t + cs.take(1));
            } else {
                assert(t.push(c) + rest.take(i) =~= t + cs.take(i + 1));
            }
        }
        assert(seq![t.push(c)] + tail =~= Seq::new(cs.len(), |i: int| t + cs.take(i + 1)));
    }
}

/// A passphrase of fewer than eight bytes is never shown, not even by its
/// colours: with any prompt and any buffer of at least eight bytes, typing
/// any two such texts of as many characters, then Enter, writes the same
/// bytes to the terminal for the same random draws.
pub proof fn law_short_passphrase_never_shown(
    prompt: Seq<char>,
    star: char,
    capacity: nat,
    cs1: Seq<char>,
    cs2: Seq<char>,
    draws: Seq<[u8; 4]>,
)
    requires
        capacity >= 8,
        cs1.len() == cs2.len(),
        encode_utf8(cs1).len() <= 7,
        encode_utf8(cs2).len() <= 7,
    ensures
        drawn_transcript(
            prompt,
            star,
            redraw_texts(Seq::empty(), capacity, char_events(cs1) + seq![Event::Key(Key::Enter)]),
            draws,
        ) == drawn_transcript(
            prompt,
            star,
            redraw_texts(Seq::empty(), capacity, char_events(cs2) + seq![Event::Key(Key::Enter)]),
            draws,
        ),
{
    let e = Seq::<char>::empty();
    assert(e + cs1 =~= cs1);
    assert(e + cs2 =~= cs2);
    lemma_redraw_typing(e, cs1, capacity);
    lemma_redraw_typing(e, cs2, capacity);
    let t1 = Seq::new(cs1.len(), |i: int| e + cs1.take(i + 1));
    let t2 = Seq::new(cs2.len(), |i: int| e + cs2.take(i + 1));
    assert forall|i: int| 0 <= i < t1.len() implies shown_alike(
        encode_utf8(#[trigger] t1[i]),
        encode_utf8(t2[i]),
    ) by {
        assert(e + cs1.take(i + 1) =~= cs1.take(i + 1));
        assert(e + cs2.take(i + 1) =~= cs2.take(i + 1));
        lemma_encode_len_at_least(cs1.take(i + 1));
        lemma_encode_len_at_least(cs2.take(i + 1));
        lemma_encode_concat(cs1.take(i + 1), cs1.skip(i + 1));
        lemma_encode_concat(cs2.take(i + 1), cs2.skip(i + 1));
        assert(cs1.take(i + 1) + cs1.skip(i + 1) =~= cs1);
        assert(cs2.take(i + 1) + cs2.skip(i + 1) =~= cs2);
    }
    law_alike_runs_write_alike(prompt, star, t1, t2, draws);
}

/// The same over the raw bytes of a terminal, as [`crate::prompt::raw_askpass`]
/// reads them: two printable passphrases of fewer than eight bytes and as
/// many characters, each followed by `CR`, are answered with the same bytes.
pub proof fn law_short_raw_passphrase_never_shown(
    star: char,
    cs1: Seq<char>,
    cs2: Seq<char>,
    draws: Seq<[u8; 4]>,
)
    requires
        cs1.len() == cs2.len(),
        forall|i: int| 0 <= i < cs1.len() ==> is_printable(#[trigger] cs1[i]),
        forall|i: int| 0 <= i < cs2.len() ==> is_printable(#[trigger] cs2[i]),
        encode_utf8(cs1).len() <= 7,
        encode_utf8(cs2).len() <= 7,
    ensures
        drawn_transcript(
            "Password:"@,
            star,
            redraw_texts(
                Seq::empty(),
                RAW_BUFFER_LEN as nat,
                events_of(encode_utf8(cs1) + seq![0x0du8]),
            ),
            draws,
        ) == drawn_transcript(
            "Password:"@,
            star,
            redraw_texts(
                Seq::empty(),
                RAW_BUFFER_LEN as nat,
                events_of(encode_utf8(cs2) + seq![0x0du8]),
            ),
            draws,
        ),
{
    law_typing_decodes(cs1);
    law_typing_decodes(cs2);
    law_short_passphrase_never_shown("Password:"@, star, RAW_BUFFER_LEN as nat, cs1, cs2, draws);
}

/// A character other than the ASCII one `b` leaves `b` out of its
/// encoding, and so does a text made of such characters.
proof fn lemma_byte_absent(cs: Seq<char>, b: u8)
    requires
        b < 0x80,
        forall|i: int| 0 <= i < cs.len() ==> (#[trigger] cs[i]) as u32 != b as u32,
    ensures
        forall|j: int| 0 <= j < encode_utf8(cs).len() ==> #[trigger] encode_utf8(cs)[j] != b,
    decreases cs.len(),
{
    if cs.len() > 0 {
        let c = cs.last();
        let pre = cs.drop_last();
        lemma_last_scalar(cs);
        lemma_char_bytes_ascii(c);
        assert(c == cs[cs.len() - 1]);
        assert forall|i: int| 0 <= i < pre.len() implies (#[trigger] pre[i]) as u32 != b as u32 by {
            assert(pre[i] == cs[i]);
        }
        lemma_byte_absent(pre, b);
        let e = encode_utf8(cs);
        let n = encode_utf8(pre).len() as int;
        assert forall|j: int| 0 <= j < e.len() implies #[trigger] e[j] != b by {
            if j < n {
                assert(e[j] == encode_utf8(pre)[j]);
            } else {
                assert(e[j] == char_bytes(c)[j - n]);
            }
        }
    }
}

proof fn lemma_alpha_run(line: Seq<u8>, end: int, i: int)
    requires
        0 <= i <= end < line.len(),
        forall|j: int| 0 <= j < end ==> is_alphabetic(#[trigger] line[j]),
        !is_alphabetic(line[end]),
    ensures
        alpha_end(line, i) == end,
    decreases end - i,
{
    if i < end {
        lemma_alpha_run(line, end, i + 1);
    }
}

proof fn lemma_newline_run(line: Seq<u8>, end: int, i: int)
    requires
        0 <= i <= end < line.len(),
        forall|j: int| i <= j < end ==> #[trigger] line[j] != 0x0a,
        line[end] == 0x0a,
    ensures
        newline_from(line, i) == end,
    decreases end - i,
{
    if i < end {
        lemma_newline_run(line, end, i + 1);
    }
}

/// The parts of a request line written the usual way: a name of ASCII
/// letters, one space, a value without line feeds that does not start with
/// a space or tab, and a line feed. Parsing finds the name and the value.
pub proof fn law_request_line_parts(name: Seq<u8>, value: Seq<u8>)
    requires
        forall|i: int| 0 <= i < name.len() ==> is_alphabetic(#[trigger] name[i]),
        forall|i: int| 0 <= i < value.len() ==> #[trigger] value[i] != 0x0a,
        value.len() > 0 ==> !is_space(value[0]),
    ensures
        ({
            let line = name + seq![0x20u8] + value + seq![0x0au8];
            let k = alpha_end(line, 0);
            let v = space_end(line, k);
            let j = newline_from(line, v);
            &&& k == name.len()
            &&& v == name.len() + 1
            &&& j == name.len() + 1 + value.len()
            &&& line.take(k) == name
            &&& line.subrange(v, j) == value
        }),
{
    let line = name + seq![0x20u8] + value + seq![0x0au8];
    let n = name.len() as int;
    let m = value.len() as int;
    assert forall|j: int| 0 <= j < n implies is_alphabetic(#[trigger] line[j]) by {
        assert(line[j] == name[j]);
    }
    assert(line[n] == 0x20);
    lemma_alpha_run(line, n, 0);
    assert(space_end(line, n + 1) == n + 1) by {
        if m > 0 {
            assert(line[n + 1] == value[0]);
        } else {
            assert(line[n + 1] == 0x0a);
        }
    }
    assert(space_end(line, n) == n + 1);
    assert forall|j: int| n + 1 <= j < n + 1 + m implies #[trigger] line[j] != 0x0a by {
        assert(line[j] == value[j - n - 1]);
    }
    assert(line[n + 1 + m] == 0x0a);
    lemma_newline_run(line, n + 1 + m, n + 1);
    assert(line.take(n) =~= name);
    assert(line.subrange(n + 1, n + 1 + m) =~= value);
}

/// The name of a request line: its leading ASCII letters.
pub open spec fn request_name(line: Seq<u8>) -> Seq<u8> {
    line.take(alpha_end(line, 0))
}

/// The raw value of a request line: what follows the name and the spaces
/// or tabs after it, up to the line feed.
pub open spec fn request_value(line: Seq<u8>) -> Seq<u8> {
    let v = space_end(line, alpha_end(line, 0));
    line.subrange(v, newline_from(line, v))
}

/// The request line ends with a line feed after its value.
pub open spec fn request_complete(line: Seq<u8>) -> bool {
    let v = space_end(line, alpha_end(line, 0));
    newline_from(line, v) != line.len()
}

/// Only the percent-decoded value counts: two complete request lines whose
/// names are the same in any case, and whose values are UTF-8 and decode to
/// the same bytes, do the same.
pub proof fn law_request_depends_on_decoded_value(p: PinentryView, l1: Seq<u8>, l2: Seq<u8>)
    requires
        upper_bytes(request_name(l1)) == upper_bytes(request_name(l2)),
        request_complete(l1),
        request_complete(l2),
        valid_utf8(request_value(l1)),
        valid_utf8(request_value(l2)),
        percent_decoded(request_value(l1)) == percent_decoded(request_value(l2)),
    ensures
        request_effect(p, l1) == request_effect(p, l2),
{
}

pub proof fn lemma_encode_len_at_least(cs: Seq<char>)
    ensures
        encode_utf8(cs).len() >= cs.len(),
    decreases cs.len(),
{
    if cs.len() > 0 {
        lemma_last_scalar(cs);
        lemma_char_bytes(cs.last());
        lemma_encode_len_at_least(cs.drop_last());
    }
}

/// `BYE` closes the session with `OK closing connection`, whatever follows
/// its line.
pub proof fn law_bye_closes(p: PinentryView, rest: Seq<u8>)
    ensures
        request_effect(p, encode_utf8("BYE"@) + seq![0x0au8] + rest) == (
            p,
            ActionView::Close(ok_text_line(CLOSE@)),
        ),
{
    let name = encode_utf8("BYE"@);
    assert(name =~= seq![0x42u8, 0x59, 0x45]) by {
        reveal_strlit("BYE");
        assert("BYE"@ =~= seq!['B', 'Y', 'E']);
        lemma_char_bytes_ascii('B');
        lemma_char_bytes_ascii('Y');
        lemma_char_bytes_ascii('E');
        lemma_encode_push(Seq::<char>::empty(), 'B');
        lemma_encode_push(seq!['B'], 'Y');
        lemma_encode_push(seq!['B', 'Y'], 'E');
        assert(Seq::<char>::empty().push('B') =~= seq!['B']);
        assert(seq!['B'].push('Y') =~= seq!['B', 'Y']);
        assert(seq!['B', 'Y'].push('E') =~= seq!['B', 'Y', 'E']);
        assert(encode_utf8(Seq::<char>::empty()) =~= Seq::<u8>::empty());
    }
    let line = name + seq![0x0au8] + rest;
    assert forall|j: int| 0 <= j < 3 implies is_alphabetic(#[trigger] line[j]) by {
        assert(line[j] == name[j]);
    }
    assert(line[3] == 0x0a);
    lemma_alpha_run(line, 3, 0);
    assert(space_end(line, 3) == 3);
    lemma_newline_run(line, 3, 3);
    assert(line.take(3) =~= name);
    assert(upper_bytes(name) =~= name);
    assert(line.subrange(3, 3) =~= Seq::<u8>::empty());
    assert(percent_decoded(Seq::<u8>::empty()) =~= Seq::<u8>::empty());
    assert(command_of(name) == Command::Bye) by {
        reveal_strlit("SETDESC");
        lemma_encode_len_at_least("SETDESC"@);
        reveal_strlit("SETPROMPT");
        lemma_encode_len_at_least("SETPROMPT"@);
        reveal_strlit("SETKEYINFO");
        lemma_encode_len_at_least("SETKEYINFO"@);
        reveal_strlit("SETREPEAT");
        lemma_encode_len_at_least("SETREPEAT"@);
        reveal_strlit("SETREPEATERROR");
        lemma_encode_len_at_least("SETREPEATERROR"@);
        reveal_strlit("SETERROR");
        lemma_encode_len_at_least("SETERROR"@);
        reveal_strlit("SETOK");
        lemma_encode_len_at_least("SETOK"@);
        reveal_strlit("SETNOTOK");
        lemma_encode_len_at_least("SETNOTOK"@);
        reveal_strlit("SETCANCEL");
        lemma_encode_len_at_least("SETCANCEL"@);
        reveal_strlit("SETQUALITYBAR");
        lemma_encode_len_at_least("SETQUALITYBAR"@);
        reveal_strlit("SETQUALITYBAR_TT");
        lemma_encode_len_at_least("SETQUALITYBAR_TT"@);
        reveal_strlit("SETTITLE");
        lemma_encode_len_at_least("SETTITLE"@);
        reveal_strlit("SETTIMEOUT");
        lemma_encode_len_at_least("SETTIMEOUT"@);
        reveal_strlit("CLEARPASSPHRASE");
        lemma_encode_len_at_least("CLEARPASSPHRASE"@);
        reveal_strlit("OPTION");
        lemma_encode_len_at_least("OPTION"@);
        reveal_strlit("GETPIN");
        lemma_encode_len_at_least("GETPIN"@);
        reveal_strlit("CONFIRM");
        lemma_encode_len_at_least("CONFIRM"@);
        reveal_strlit("MESSAGE");
        lemma_encode_len_at_least("MESSAGE"@);
        reveal_strlit("GETINFO");
        lemma_encode_len_at_least("GETINFO"@);
    }
}

/// A request written the usual way does what its command does with its
/// value: `NAME value` with a name of ASCII letters (in any case) and a
/// value without line feeds, `%` or a leading space or tab.
pub proof fn law_request_is_command(p: PinentryView, name: Seq<u8>, value: Seq<char>)
    requires
        forall|i: int| 0 <= i < name.len() ==> is_alphabetic(#[trigger] name[i]),
        forall|i: int| 0 <= i < value.len() ==> (#[trigger] value[i]) != '\n' && value[i] != '%',
        value.len() > 0 ==> value[0] != ' ' && value[0] != '\t',
    ensures
        request_effect(p, name + seq![0x20u8] + encode_utf8(value) + seq![0x0au8]) == command_effect(
            p,
            command_of(upper_bytes(name)),
            encode_utf8(value),
        ),
{
    let d = encode_utf8(value);
    assert forall|i: int| 0 <= i < value.len() implies (#[trigger] value[i]) as u32 != 0x0au8 as u32 by {
        let x = value[i];
        if x as u32 == 10 {
            char_u32_cast(x, 10);
            char_u32_cast('\n', 10);
        }
    }
    lemma_byte_absent(value, 0x0a);
    assert forall|i: int| 0 <= i < value.len() implies (#[trigger] value[i]) as u32 != 0x25u8 as u32 by {
        let x = value[i];
        if x as u32 == 0x25 {
            char_u32_cast(x, 0x25);
            char_u32_cast('%', 0x25);
        }
    }
    lemma_byte_absent(value, 0x25);
    if value.len() > 0 {
        lemma_char_bytes(value[0]);
        lemma_char_bytes_ascii(value[0]);
        assert(d == char_bytes(value[0]) + encode_utf8(value.drop_first()));
        assert(d[0] == char_bytes(value[0])[0]);
        let x = value[0];
        if x as u32 == 0x20 {
            char_u32_cast(x, 0x20);
            char_u32_cast(' ', 0x20);
        }
        if x as u32 == 0x09 {
            char_u32_cast(x, 0x09);
            char_u32_cast('\t', 0x09);
        }
        assert(!is_space(d[0]));
    }
    law_request_line_parts(name, d);
    law_percent_decoding_without_percent(d);
}

/// A request of a command without a value is what the command does with
/// an empty value.
pub proof fn law_bare_request_is_command(p: PinentryView, name: Seq<u8>)
    requires
        forall|i: int| 0 <= i < name.len() ==> is_alphabetic(#[trigger] name[i]),
    ensures
        request_effect(p, name + seq![0x0au8]) == command_effect(
            p,
            command_of(upper_bytes(name)),
            Seq::empty(),
        ),
{
    let line = name + seq![0x0au8];
    let n = name.len() as int;
    assert forall|j: int| 0 <= j < n implies is_alphabetic(#[trigger] line[j]) by {
        assert(line[j] == name[j]);
    }
    lemma_alpha_run(line, n, 0);
    assert(space_end(line, n) == n);
    lemma_newline_run(line, n, n);
    assert(line.take(n) =~= name);
    assert(line.subrange(n, n) =~= Seq::<u8>::empty());
    assert(percent_decoded(Seq::<u8>::empty()) =~= Seq::<u8>::empty());
}

/// Command names are matched in any case: a request does the same as the
/// request with its name in upper case.
pub proof fn law_requests_ignore_case(p: PinentryView, name: Seq<u8>, value: Seq<char>)
    requires
        forall|i: int| 0 <= i < name.len() ==> is_alphabetic(#[trigger] name[i]),
        forall|i: int| 0 <= i < value.len() ==> (#[trigger] value[i]) != '\n' && value[i] != '%',
        value.len() > 0 ==> value[0] != ' ' && value[0] != '\t',
    ensures
        request_effect(p, name + seq![0x20u8] + encode_utf8(value) + seq![0x0au8])
            == request_effect(p, upper_bytes(name) + seq![0x20u8] + encode_utf8(value) + seq![0x0au8]),
{
    let up = upper_bytes(name);
    assert forall|i: int| 0 <= i < up.len() implies is_alphabetic(#[trigger] up[i]) by {
        assert(is_alphabetic(name[i]));
    }
    law_request_is_command(p, name, value);
    law_request_is_command(p, up, value);
    assert(upper_bytes(up) =~= up);
}

} // verus!
