//! Drawing the prompt line, and a whole passphrase prompt run over the raw
//! bytes that a terminal sends.

use vstd::prelude::*;
use vstd::slice::slice_to_vec;
use vstd::utf8::*;
use crate::askpass::{edited, shown_colors, step_of, AskPass, Event, Step};
use crate::colorhash::{random_bytes, rendered, ColorStar};
use crate::encoding::push_bytes;
use crate::keys::{events_of, lemma_decode_event_progress, next_event};

verus! {

broadcast use vstd::utf8::group_utf8_lib;

/// `CR`, the prompt, a space, then the stars in their colours.
pub open spec fn prompt_line(prompt: Seq<char>, colors: Seq<u8>, star: char) -> Seq<u8> {
    seq![0x0du8] + encode_utf8(prompt) + seq![0x20u8] + rendered(colors, star)
}

/// `ESC [ 2 K` (erase the line), then `CR`.
pub open spec fn clear_line() -> Seq<u8> {
    seq![0x1bu8, 0x5b, 0x32, 0x4b, 0x0d]
}

/// Size of the buffer that [`raw_askpass`] edits the passphrase in.
pub const RAW_BUFFER_LEN: usize = 256;

/// The text that a run over `events` ends with, starting from `typed` in a
/// buffer of `capacity` bytes: the text at the first Enter or at the end of
/// the events, or none when Ctrl-C comes first.
pub open spec fn run_typed(typed: Seq<char>, capacity: nat, events: Seq<Event>) -> Option<Seq<char>>
    decreases events.len(),
{
    if events.len() == 0 {
        Some(typed)
    } else {
        match step_of(events[0]) {
            Step::Finish => Some(typed),
            Step::Interrupt => None,
            _ => run_typed(edited(typed, capacity, events[0]), capacity, events.drop_first()),
        }
    }
}

/// The user gave up with Ctrl-C.
#[derive(Clone, Copy, Debug, PartialEq, Eq, Structural)]
pub struct Interrupted;

/// Appends the prompt line: `CR`, the prompt, a space and the stars.
pub fn write_prompt(out: &mut Vec<u8>, prompt: &str, stars: &ColorStar)
    ensures
        final(out)@ == old(out)@ + prompt_line(prompt@, stars.spec_colors(), stars.spec_star()),
{
    out.push(0x0d);
    push_bytes(out, prompt.as_bytes());
    out.push(0x20);
    stars.write_to(out);
    assert(out@ =~= old(out)@ + prompt_line(prompt@, stars.spec_colors(), stars.spec_star()));
}

/// Appends `ESC [ 2 K` and `CR`, which leave the line empty.
pub fn write_clear_line(out: &mut Vec<u8>)
    ensures
        final(out)@ == old(out)@ + clear_line(),
{
    out.push(0x1b);
    out.push(0x5b);
    out.push(0x32);
    out.push(0x4b);
    out.push(0x0d);
    assert(out@ =~= old(out)@ + clear_line());
}

/// The texts shown in a run over `events`, one per redraw, up to the
/// first Enter or Ctrl-C.
pub open spec fn redraw_texts(typed: Seq<char>, capacity: nat, events: Seq<Event>) -> Seq<Seq<char>>
    decreases events.len(),
{
    if events.len() == 0 {
        Seq::empty()
    } else {
        let next = edited(typed, capacity, events[0]);
        match step_of(events[0]) {
            Step::Redraw => seq![next] + redraw_texts(next, capacity, events.drop_first()),
            Step::Ignore => redraw_texts(next, capacity, events.drop_first()),
            _ => Seq::empty(),
        }
    }
}

/// The prompt lines with the given colours, in order.
pub open spec fn prompt_lines(prompt: Seq<char>, star: char, colors: Seq<Seq<u8>>) -> Seq<u8>
    decreases colors.len(),
{
    if colors.len() == 0 {
        Seq::empty()
    } else {
        prompt_lines(prompt, star, colors.drop_last()) + prompt_line(prompt, colors.last(), star)
    }
}

/// The colours of each redraw: those shown for its text and the draw of
/// the same index.
pub open spec fn redraw_colors(texts: Seq<Seq<char>>, draws: Seq<[u8; 4]>) -> Seq<Seq<u8>> {
    Seq::new(texts.len(), |i: int| shown_colors(encode_utf8(texts[i]), draws[i]@))
}

/// The bytes written to the terminal in a run with `prompt` that shows
/// `texts`, with `draws` as the random bytes of the redraws: the prompt
/// line before anything is typed, one prompt line per text, and the erase
/// of the line.
pub open spec fn drawn_transcript(
    prompt: Seq<char>,
    star: char,
    texts: Seq<Seq<char>>,
    draws: Seq<[u8; 4]>,
) -> Seq<u8> {
    prompt_line(prompt, seq![30u8, 30, 30, 30], star) + prompt_lines(
        prompt,
        star,
        redraw_colors(texts, draws),
    ) + clear_line()
}

/// Prompts for a passphrase with `Password:` over the raw bytes `input`
/// of a terminal, echoing with `star`; the `i`-th redraw takes its random
/// bytes from `draws[i]`. Returns the passphrase and every byte written to
/// the terminal: the prompt line first, again after each event that
/// changes what is shown, and the erase of the line last. Ctrl-C before
/// Enter gives [`Interrupted`].
#[verifier::rlimit(40)]
pub fn raw_askpass_with_draws(input: &[u8], star: char, draws: &[[u8; 4]]) -> (r: Result<
    (Vec<u8>, Vec<u8>),
    Interrupted,
>)
    requires
        draws@.len() >= input@.len(),
    ensures
        ({
            let events = events_of(input@);
            match run_typed(Seq::empty(), RAW_BUFFER_LEN as nat, events) {
                Some(t) => r matches Ok((pw, out)) && pw@ == encode_utf8(t) && out@
                    == drawn_transcript(
                    "Password:"@,
                    star,
                    redraw_texts(Seq::empty(), RAW_BUFFER_LEN as nat, events),
                    draws@,
                ),
                None => r == Err::<(Vec<u8>, Vec<u8>), Interrupted>(Interrupted),
            }
        }),
{
    let prompt = "Password:";
    let mut ask = AskPass::new(vec![0u8; RAW_BUFFER_LEN]).with_star(star);
    let mut out: Vec<u8> = Vec::new();
    let ghost events = events_of(input@);
    let ghost all = run_typed(Seq::empty(), RAW_BUFFER_LEN as nat, events);
    let ghost texts = redraw_texts(Seq::empty(), RAW_BUFFER_LEN as nat, events);
    let _ = ask.handle(Event::NoEvent);
    let stars = ask.colors();
    write_prompt(&mut out, prompt, &stars);
    let ghost first = prompt_line("Password:"@, seq![30u8, 30, 30, 30], star);
    let ghost mut done: Seq<Seq<char>> = Seq::empty();
    let ghost mut shown: Seq<Seq<u8>> = Seq::empty();
    assert(out@ =~= first + prompt_lines("Password:"@, star, shown));
    let n = input.len();
    let mut at: usize = 0;
    let mut redraws: usize = 0;
    let mut finished = false;
    assert(input@.skip(0) =~= input@);
    assert(texts =~= done + texts);
    while at < n && !finished
        invariant
            n == input@.len(),
            n <= draws@.len(),
            at <= n,
            redraws == done.len(),
            redraws <= at,
            prompt@ == "Password:"@,
            ask.spec_star() == star,
            ask.spec_buffer().len() == RAW_BUFFER_LEN,
            events == events_of(input@),
            all == run_typed(Seq::empty(), RAW_BUFFER_LEN as nat, events),
            texts == redraw_texts(Seq::empty(), RAW_BUFFER_LEN as nat, events),
            finished ==> all == Some(ask.typed()),
            finished ==> texts == done,
            !finished ==> all == run_typed(
                ask.typed(),
                RAW_BUFFER_LEN as nat,
                events_of(input@.skip(at as int)),
            ),
            !finished ==> texts == done + redraw_texts(
                ask.typed(),
                RAW_BUFFER_LEN as nat,
                events_of(input@.skip(at as int)),
            ),
            shown.len() == done.len(),
            forall|i: int|
                0 <= i < done.len() ==> #[trigger] shown[i] == shown_colors(
                    encode_utf8(done[i]),
                    draws@[i]@,
                ),
            out@ == first + prompt_lines("Password:"@, star, shown),
        decreases n - at + (if finished { 0int } else { 1int }),
    {
        let (ev, k) = next_event(input, at);
        let ghost rest = events_of(input@.skip(at + k));
        proof {
            let s = input@.skip(at as int);
            lemma_decode_event_progress(s);
            assert(s.skip(k as int) =~= input@.skip(at + k));
            assert(events_of(s) == seq![ev] + rest);
            assert((seq![ev] + rest)[0] == ev);
            assert((seq![ev] + rest).drop_first() =~= rest);
        }
        let ghost out0 = out@;
        let step = ask.handle(ev);
        match step {
            Step::Finish => {
                assert(done + Seq::<Seq<char>>::empty() =~= done);
                finished = true;
            },
            Step::Interrupt => {
                return Err(Interrupted);
            },
            Step::Redraw => {
                let stars = ask.colors_for_draw(&draws[redraws]);
                write_prompt(&mut out, prompt, &stars);
                proof {
                    let t1 = ask.typed();
                    let c1 = stars.spec_colors();
                    assert(out@ == out0 + prompt_line("Password:"@, c1, star));
                    assert(out0 == first + prompt_lines("Password:"@, star, shown));
                    let shown0 = shown;
                    let done0 = done;
                    shown = shown.push(c1);
                    done = done.push(t1);
                    assert(shown.drop_last() =~= shown0);
                    assert(shown.last() == c1);
                    assert(prompt_lines("Password:"@, star, shown) == prompt_lines(
                        "Password:"@,
                        star,
                        shown0,
                    ) + prompt_line("Password:"@, c1, star));
                    assert(out@ =~= first + prompt_lines("Password:"@, star, shown));
                    assert(done0 + (seq![t1] + redraw_texts(t1, RAW_BUFFER_LEN as nat, rest))
                        =~= done + redraw_texts(t1, RAW_BUFFER_LEN as nat, rest));
                    assert forall|i: int| 0 <= i < done.len() implies #[trigger] shown[i]
                        == shown_colors(encode_utf8(done[i]), draws@[i]@) by {
                        if i < done0.len() {
                            assert(done[i] == done0[i]);
                            assert(shown[i] == shown0[i]);
                        }
                    }
                }
                redraws = redraws + 1;
                at = at + k;
            },
            Step::Ignore => {
                at = at + k;
            },
        }
    }
    proof {
        if !finished {
            assert(input@.skip(at as int) =~= Seq::<u8>::empty());
            assert(done + Seq::<Seq<char>>::empty() =~= done);
        }
        assert(shown =~= redraw_colors(texts, draws@));
    }
    write_clear_line(&mut out);
    assert(out@ == drawn_transcript("Password:"@, star, texts, draws@));
    let password = slice_to_vec(ask.password());
    Ok((password, out))
}

/// Prompts for a passphrase with `Password:` over the raw bytes `input`
/// of a terminal, echoing with `star`, as [`raw_askpass_with_draws`] does
/// with random bytes for the redraws.
pub fn raw_askpass(input: &[u8], star: char) -> (r: Result<(Vec<u8>, Vec<u8>), Interrupted>)
    ensures
        ({
            let events = events_of(input@);
            match run_typed(Seq::empty(), RAW_BUFFER_LEN as nat, events) {
                Some(t) => r matches Ok((pw, out)) && pw@ == encode_utf8(t) && exists|
                    draws: Seq<[u8; 4]>,
                |
                    #![trigger drawn_transcript(
                        "Password:"@,
                        star,
                        redraw_texts(Seq::empty(), RAW_BUFFER_LEN as nat, events),
                        draws,
                    )]
                    out@ == drawn_transcript(
                        "Password:"@,
                        star,
                        redraw_texts(Seq::empty(), RAW_BUFFER_LEN as nat, events),
                        draws,
                    ),
                None => r == Err::<(Vec<u8>, Vec<u8>), Interrupted>(Interrupted),
            }
        }),
{
    let n = input.len();
    let mut draws: Vec<[u8; 4]> = Vec::new();
    let mut i: usize = 0;
    while i < n
        invariant
            i <= n,
            n == input@.len(),
            draws@.len() == i,
        decreases n - i,
    {
        draws.push(random_bytes());
        i = i + 1;
    }
    raw_askpass_with_draws(input, star, draws.as_slice())
}

} // verus!
