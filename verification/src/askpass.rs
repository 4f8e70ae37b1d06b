//! The passphrase editor: a fixed buffer that typed characters are encoded
//! into, edited key by key, and the coloured stars that echo it.
//!
//! Reading keys and drawing on the terminal is left to the caller, which
//! hands each event to [`AskPass::handle`] and acts on the returned [`Step`].

use bstr::ByteSlice;
use vstd::prelude::*;
use vstd::slice::slice_subrange;
use vstd::utf8::*;
use crate::colorhash::{
    colors_from_digest, cube_color, digest_colors, hash_chars_as_color, hash_colors, is_cube_color, random_bytes,
    ColorStar,
};
use crate::encoding::{char_bytes, char_len_utf8, lemma_encode_push, lemma_last_scalar, push_char};

verus! {

broadcast use vstd::utf8::group_utf8_lib;

/// A key as the terminal reports it.
#[derive(Clone, Copy, Debug, PartialEq, Eq, Structural)]
pub enum Key {
    Enter,
    Backspace,
    Escape,
    Char(char),
    Ctrl(char),
    /// Any other key (arrows, function keys, ...).
    Other,
}

/// An input event from the terminal.
#[derive(Clone, Copy, Debug, PartialEq, Eq, Structural)]
pub enum Event {
    Key(Key),
    /// No input yet: the prompt is to be drawn.
    NoEvent,
    /// Any other event (resize, mouse, signal, ...).
    Other,
}

/// What the caller does after an event.
#[derive(Clone, Copy, Debug, PartialEq, Eq, Structural)]
pub enum Step {
    /// The passphrase is complete.
    Finish,
    /// The user interrupted with Ctrl-C.
    Interrupt,
    /// Draw the prompt again, with the stars of [`AskPass::colors`].
    Redraw,
    /// Nothing to do.
    Ignore,
}

/// What the caller does after `event`.
pub open spec fn step_of(event: Event) -> Step {
    match event {
        Event::Key(Key::Enter) => Step::Finish,
        Event::Key(Key::Ctrl(c)) => if c == 'c' {
            Step::Interrupt
        } else {
            Step::Ignore
        },
        Event::Key(Key::Char(_)) => Step::Redraw,
        Event::Key(Key::Backspace) => Step::Redraw,
        Event::Key(Key::Escape) => Step::Redraw,
        Event::NoEvent => Step::Redraw,
        _ => Step::Ignore,
    }
}

/// A character is taken when, after it, at least one byte of the buffer
/// would still be free.
pub open spec fn fits(capacity: nat, typed: Seq<char>, c: char) -> bool {
    capacity - encode_utf8(typed).len() > char_bytes(c).len()
}

/// The text after `event`, in a buffer of `capacity` bytes.
pub open spec fn edited(typed: Seq<char>, capacity: nat, event: Event) -> Seq<char> {
    match event {
        Event::Key(Key::Char(c)) => if fits(capacity, typed, c) {
            typed.push(c)
        } else {
            typed
        },
        Event::Key(Key::Backspace) => if typed.len() == 0 {
            typed
        } else {
            typed.drop_last()
        },
        Event::Key(Key::Escape) => Seq::empty(),
        _ => typed,
    }
}

/// The buffer after `event`: a character that is taken is written right
/// after the typed bytes; nothing else writes to the buffer.
pub open spec fn edited_buffer(buffer: Seq<u8>, typed: Seq<char>, event: Event) -> Seq<u8> {
    match event {
        Event::Key(Key::Char(c)) => if fits(buffer.len(), typed, c) {
            let p = encode_utf8(typed).len() as int;
            buffer.take(p) + char_bytes(c) + buffer.skip(p + char_bytes(c).len())
        } else {
            buffer
        },
        _ => buffer,
    }
}

/// A passphrase prompt: the star that echoes each typed byte's colour,
/// and the buffer that the passphrase is written into.
pub struct AskPass {
    star: char,
    buf: Vec<u8>,
    len: usize,
}

impl AskPass {
    #[verifier::type_invariant]
    spec fn inv(self) -> bool {
        &&& self.len <= self.buf@.len()
        &&& valid_utf8(self.buf@.take(self.len as int))
    }

    /// The star.
    pub closed spec fn spec_star(self) -> char {
        self.star
    }

    /// The whole buffer, typed bytes first.
    pub closed spec fn spec_buffer(self) -> Seq<u8> {
        self.buf@
    }

    /// The characters typed so far.
    pub closed spec fn typed(self) -> Seq<char> {
        decode_utf8(self.buf@.take(self.len as int))
    }

    /// A prompt with the default star `*` writing into `buf`.
    pub fn new(buf: Vec<u8>) -> (r: AskPass)
        ensures
            r.spec_star() == '*',
            r.spec_buffer() == buf@,
            r.typed() == Seq::<char>::empty(),
    {
        let r = AskPass { star: '*', buf, len: 0 };
        assert(r.buf@.take(0) =~= Seq::<u8>::empty());
        r
    }

    /// The same prompt with another star.
    pub fn with_star(self, star: char) -> (r: AskPass)
        ensures
            r.spec_star() == star,
            r.spec_buffer() == self.spec_buffer(),
            r.typed() == self.typed(),
    {
        proof {
            use_type_invariant(&self);
        }
        let AskPass { star: _, buf, len } = self;
        AskPass { star, buf, len }
    }

    /// The buffer.
    pub fn as_buffer(&self) -> (r: &Vec<u8>)
        ensures
            r@ == self.spec_buffer(),
    {
        &self.buf
    }

    /// Gives the buffer back.
    pub fn into_buffer(self) -> (r: Vec<u8>)
        ensures
            r@ == self.spec_buffer(),
    {
        proof {
            use_type_invariant(&self);
        }
        let AskPass { star: _, buf, len: _ } = self;
        buf
    }

    /// The star.
    pub fn star(&self) -> (r: char)
        ensures
            r == self.spec_star(),
    {
        self.star
    }

    /// The passphrase typed so far: the UTF-8 encoding of the typed
    /// characters, which is the start of the buffer.
    pub fn password(&self) -> (r: &[u8])
        ensures
            r@ == encode_utf8(self.typed()),
            r@ == self.spec_buffer().take(r@.len() as int),
    {
        proof {
            use_type_invariant(self);
        }
        slice_subrange(self.buf.as_slice(), 0, self.len)
    }

    /// Applies one event to the text and says what to do next.
    pub fn handle(&mut self, event: Event) -> (step: Step)
        ensures
            step == step_of(event),
            final(self).spec_star() == old(self).spec_star(),
            final(self).typed() == edited(old(self).typed(), old(self).spec_buffer().len(), event),
            final(self).spec_buffer() == edited_buffer(
                old(self).spec_buffer(),
                old(self).typed(),
                event,
            ),
    {
        proof {
            use_type_invariant(&*self);
        }
        match event {
            Event::Key(Key::Enter) => Step::Finish,
            Event::Key(Key::Ctrl(c)) => {
                if c == 'c' {
                    Step::Interrupt
                } else {
                    Step::Ignore
                }
            },
            Event::Key(Key::Char(c)) => {
                let k = char_len_utf8(c);
                if self.buf.len() - self.len > k {
                    self.insert(c);
                }
                Step::Redraw
            },
            Event::Key(Key::Backspace) => {
                self.backspace();
                Step::Redraw
            },
            Event::Key(Key::Escape) => {
                self.clear();
                Step::Redraw
            },
            Event::NoEvent => Step::Redraw,
            _ => Step::Ignore,
        }
    }

    /// Writes `c` after the typed bytes.
    fn insert(&mut self, c: char)
        requires
            old(self).spec_buffer().len() - encode_utf8(old(self).typed()).len() > char_bytes(
                c,
            ).len(),
        ensures
            final(self).spec_star() == old(self).spec_star(),
            final(self).typed() == old(self).typed().push(c),
            final(self).spec_buffer() == old(self).spec_buffer().take(
                encode_utf8(old(self).typed()).len() as int,
            ) + char_bytes(c) + old(self).spec_buffer().skip(
                (encode_utf8(old(self).typed()).len() + char_bytes(c).len()) as int,
            ),
    {
        proof {
            use_type_invariant(&*self);
        }
        let ghost typed0 = self.typed();
        let mut enc: Vec<u8> = Vec::new();
        push_char(&mut enc, c);
        assert(enc@ =~= char_bytes(c));
        let mut tmp = AskPass { star: self.star, buf: Vec::new(), len: 0 };
        assert(tmp.buf@.take(0) =~= Seq::<u8>::empty());
        std::mem::swap(self, &mut tmp);
        let AskPass { star, mut buf, len } = tmp;
        proof {
            assert(encode_utf8(typed0) == buf@.take(len as int));
        }
        let total = buf.len();
        assert(len + enc@.len() <= total);
        write_bytes_at(&mut buf, len, &enc);
        let new_len = len + enc.len();
        proof {
            lemma_encode_push(typed0, c);
            assert(buf@.take(new_len as int) =~= encode_utf8(typed0) + char_bytes(c));
            assert(buf@.take(new_len as int) == encode_utf8(typed0.push(c)));
        }
        *self = AskPass { star, buf, len: new_len };
    }

    /// Removes the last typed character, if there is one.
    fn backspace(&mut self)
        ensures
            final(self).spec_star() == old(self).spec_star(),
            final(self).spec_buffer() == old(self).spec_buffer(),
            final(self).typed() == (if old(self).typed().len() == 0 {
                old(self).typed()
            } else {
                old(self).typed().drop_last()
            }),
    {
        proof {
            use_type_invariant(&*self);
        }
        let ghost typed0 = self.typed();
        let ghost bytes0 = self.buf@.take(self.len as int);
        let start = last_char_start(slice_subrange(self.buf.as_slice(), 0, self.len));
        let pos = match start {
            Some(i) => i,
            None => 0,
        };
        proof {
            if typed0.len() == 0 {
                assert(bytes0.len() == 0);
                assert(self.buf@.take(0) =~= bytes0);
            } else {
                lemma_last_scalar(typed0);
                assert(bytes0 == encode_utf8(typed0));
                assert(pos == encode_utf8(typed0.drop_last()).len());
                assert(self.buf@.take(pos as int) =~= bytes0.take(pos as int));
                assert(bytes0.take(pos as int) =~= encode_utf8(typed0.drop_last()));
            }
        }
        self.len = pos;
    }

    /// Forgets everything typed.
    fn clear(&mut self)
        ensures
            final(self).spec_star() == old(self).spec_star(),
            final(self).spec_buffer() == old(self).spec_buffer(),
            final(self).typed() == Seq::<char>::empty(),
    {
        assert(self.buf@.take(0) =~= Seq::<u8>::empty());
        self.len = 0;
    }

    /// The stars to draw for four random bytes `draw`: colour 30 before
    /// anything is typed, the colours of `draw` while fewer than eight
    /// bytes are typed, and from then on the colours of the hash of the
    /// typed bytes.
    pub fn colors_for_draw(&self, draw: &[u8; 4]) -> (r: ColorStar)
        ensures
            r.spec_star() == self.spec_star(),
            r.spec_colors() == shown_colors(encode_utf8(self.typed()), draw@),
    {
        proof {
            use_type_invariant(self);
        }
        if self.len == 0 {
            ColorStar::idle(self.star)
        } else if self.len <= 7 {
            colors_from_digest(self.star, draw)
        } else {
            hash_chars_as_color(self.star, slice_subrange(self.buf.as_slice(), 0, self.len))
        }
    }

    /// The stars to draw: colour 30 before anything is typed, random
    /// colours while fewer than eight bytes are typed (so that a short
    /// prefix cannot be told from its colours), and from then on the
    /// colours of the hash of the typed bytes.
    pub fn colors(&self) -> (r: ColorStar)
        ensures
            r.spec_star() == self.spec_star(),
            exists|draw: Seq<u8>|
                draw.len() == 4 && r.spec_colors() == #[trigger] shown_colors(
                    encode_utf8(self.typed()),
                    draw,
                ),
            r.spec_colors().len() == 4,
            encode_utf8(self.typed()).len() == 0 ==> r.spec_colors() == seq![30u8, 30, 30, 30],
            1 <= encode_utf8(self.typed()).len() <= 7 ==> forall|i: int|
                0 <= i < 4 ==> is_cube_color(#[trigger] r.spec_colors()[i]),
            encode_utf8(self.typed()).len() >= 8 ==> r.spec_colors() == hash_colors(
                encode_utf8(self.typed()),
            ),
    {
        proof {
            use_type_invariant(self);
        }
        let draw = if 1 <= self.len && self.len <= 7 {
            random_bytes()
        } else {
            [0u8; 4]
        };
        let r = self.colors_for_draw(&draw);
        proof {
            let t = encode_utf8(self.typed());
            assert(shown_colors(t, draw@) == r.spec_colors());
            if 1 <= t.len() <= 7 {
                assert forall|i: int| 0 <= i < 4 implies is_cube_color(#[trigger] r.spec_colors()[i]) by {
                    assert(r.spec_colors()[i] == cube_color(draw@[i]));
                }
            }
        }
        r
    }
}

/// The colours shown for the typed bytes `typed` when the random source
/// gave `draw`: colour 30 for none, the bytes of `draw` mapped into the
/// colour cube for one to seven, and the hash colours from eight on.
pub open spec fn shown_colors(typed: Seq<u8>, draw: Seq<u8>) -> Seq<u8> {
    if typed.len() == 0 {
        seq![30u8, 30, 30, 30]
    } else if typed.len() <= 7 {
        digest_colors(draw)
    } else {
        hash_colors(typed)
    }
}

/// Overwrites `buf` from `at` on with `bytes`.
fn write_bytes_at(buf: &mut Vec<u8>, at: usize, bytes: &Vec<u8>)
    requires
        at + bytes@.len() <= old(buf)@.len(),
    ensures
        final(buf)@ == old(buf)@.take(at as int) + bytes@ + old(buf)@.skip(at + bytes@.len()),
{
    let n = bytes.len();
    let total = buf.len();
    let mut i: usize = 0;
    while i < n
        invariant
            n == bytes@.len(),
            total == buf@.len(),
            at + n <= buf@.len(),
            buf@.len() == old(buf)@.len(),
            i <= n,
            buf@ =~= old(buf)@.take(at as int) + bytes@.take(i as int) + old(buf)@.skip(at + i),
        decreases n - i,
    {
        buf.set(at + i, bytes[i]);
        i = i + 1;
    }
    assert(bytes@.take(n as int) =~= bytes@);
}

/// `bstr::ByteSlice::char_indices`, keeping the start offset of the last
/// item. Trusted to give none for no bytes, an offset inside the bytes
/// otherwise, and, on valid UTF-8, the offset where the last character's
/// encoding starts (for invalid UTF-8 bstr's substitution rules decide,
/// which nothing here states).
#[verifier::external_body]
fn last_char_start(bytes: &[u8]) -> (r: Option<usize>)
    ensures
        bytes@.len() == 0 ==> r is None,
        r matches Some(i) ==> i < bytes@.len(),
        valid_utf8(bytes@) && bytes@.len() > 0 ==> r == Some(
            (bytes@.len() - length_of_last_scalar(bytes@)) as usize,
        ),
{
    bytes.char_indices().last().map(|(start, _, _)| start)
}

} // verus!
