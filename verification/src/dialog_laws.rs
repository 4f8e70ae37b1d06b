//! What the dialogs of the pinentry show and decide, stated apart from
//! how they are computed.

use vstd::prelude::*;
use vstd::utf8::*;
use crate::askpass::{Event, Key};
use crate::dialog::{
    button_line, first_set, lemma_trim_colons_valid, lf_to_lfcr, pin_prompt_text, print_line,
    trim_colons, ConfirmDialog, ConfirmStep,
};
use crate::encoding::lemma_ascii_valid_utf8;
use crate::pinentry::{Button, PinentryView};

verus! {

/// The text at the top of a dialog: the description whenever there is one,
/// whatever the title; the title only when there is no description; the
/// dialog's own text only when neither is set. (`pin_intro` and
/// `confirm_intro` show `first_set(description, title, default)`.)
pub proof fn law_description_before_title(
    description: Seq<char>,
    title: Seq<char>,
    default: Seq<char>,
)
    ensures
        description.len() > 0 ==> first_set(description, title, default) == description,
        description.len() == 0 && title.len() > 0 ==> first_set(description, title, default)
            == title,
        description.len() == 0 && title.len() == 0 ==> first_set(description, title, default)
            == default,
{
}

/// How a confirmation dialog answers an event:
/// - only key events end it or are refused; anything else waits;
/// - OK is chosen exactly by any key in a one-button dialog, and otherwise
///   exactly by the OK button's character;
/// - Cancel exactly by Ctrl-C or the Cancel button's character (when it is
///   not OK's), in a dialog with buttons;
/// - Not-OK exactly by the Not-OK button's character (when it is neither
///   OK's nor Cancel's), in a dialog with buttons;
/// - every other key, Escape and Enter among them, is an invalid selection.
pub proof fn law_confirm_choices(d: ConfirmDialog, e: Event)
    ensures
        d.step(e) == ConfirmStep::Wait <==> !(e is Key),
        d.step(e) == ConfirmStep::Chosen(Button::Okay) <==> (e is Key && (d.spec_any_key() || e
            == Event::Key(Key::Char(d.spec_ok_key())))),
        d.step(e) == ConfirmStep::Chosen(Button::Cancel) <==> (!d.spec_any_key() && (e
            == Event::Key(Key::Ctrl('c')) || (e matches Event::Key(Key::Char(c)) && c
            != d.spec_ok_key() && d.spec_cancel_key() == Some(c)))),
        d.step(e) == ConfirmStep::Chosen(Button::NotOk) <==> (!d.spec_any_key() && (e matches Event::Key(
            Key::Char(c),
        ) && c != d.spec_ok_key() && d.spec_cancel_key() != Some(c) && d.spec_notok_key() == Some(
            c,
        ))),
        d.step(e) == ConfirmStep::Invalid <==> (e is Key && !d.spec_any_key() && !(e
            == Event::Key(Key::Char(d.spec_ok_key()))) && !(e == Event::Key(Key::Ctrl('c'))) && !(e matches Event::Key(
            Key::Char(c),
        ) && (d.spec_cancel_key() == Some(c) || d.spec_notok_key() == Some(c)))),
{
}

/// Line feeds become `LF CR` one by one: the conversion of two texts put
/// together is the two conversions put together.
pub proof fn law_lfcr_concat(a: Seq<u8>, b: Seq<u8>)
    ensures
        lf_to_lfcr(a + b) == lf_to_lfcr(a) + lf_to_lfcr(b),
    decreases b.len(),
{
    if b.len() == 0 {
        assert(a + b =~= a);
        assert(lf_to_lfcr(a) + lf_to_lfcr(b) =~= lf_to_lfcr(a));
    } else {
        law_lfcr_concat(a, b.drop_last());
        assert((a + b).drop_last() =~= a + b.drop_last());
        assert((a + b).last() == b.last());
    }
}

/// A line feed alone becomes `LF CR`, and any other byte stays.
pub proof fn law_lfcr_bytes(b: u8)
    ensures
        b == 0x0a ==> lf_to_lfcr(seq![b]) == seq![0x0au8, 0x0d],
        b != 0x0a ==> lf_to_lfcr(seq![b]) == seq![b],
{
    assert(seq![b].drop_last() =~= Seq::<u8>::empty());
    assert(lf_to_lfcr(Seq::<u8>::empty()) == Seq::<u8>::empty());
    assert(seq![b].last() == b);
    assert(lf_to_lfcr(seq![b]) == lf_to_lfcr(seq![b].drop_last()) + (if b == 0x0a {
        seq![0x0au8, 0x0d]
    } else {
        seq![b]
    }));
    assert(Seq::<u8>::empty() + seq![0x0au8, 0x0d] =~= seq![0x0au8, 0x0d]);
    assert(Seq::<u8>::empty() + seq![b] =~= seq![b]);
}

/// The lines of the dialogs: a message is its text with every line feed
/// followed by a carriage return, then `LF CR`; a button is `[k] `, its
/// label as it is, then `LF CR`.
pub proof fn law_dialog_lines(text: Seq<char>, key: char, label: Seq<char>)
    ensures
        print_line(text) == lf_to_lfcr(encode_utf8(text)) + seq![0x0au8, 0x0d],
        button_line(key, label) == encode_utf8(seq!['[', key, ']', ' ']) + encode_utf8(label)
            + seq![0x0au8, 0x0d],
{
    broadcast use vstd::utf8::group_utf8_lib;
    crate::encoding::lemma_encode_concat(seq!['[', key, ']', ' '], label);
}

proof fn lemma_trim_colons_shape(s: Seq<u8>)
    ensures
        trim_colons(s).len() <= s.len(),
        trim_colons(s) == s.take(trim_colons(s).len() as int),
        trim_colons(s).len() == 0 || trim_colons(s).last() != 0x3a,
        forall|i: int| trim_colons(s).len() <= i < s.len() ==> #[trigger] s[i] == 0x3a,
    decreases s.len(),
{
    if s.len() > 0 && s.last() == 0x3a {
        lemma_trim_colons_shape(s.drop_last());
        let t = trim_colons(s);
        assert(s.drop_last().take(t.len() as int) =~= s.take(t.len() as int));
        assert forall|i: int| t.len() <= i < s.len() implies #[trigger] s[i] == 0x3a by {
            if i < s.len() - 1 {
                assert(s.drop_last()[i] == s[i]);
            }
        }
    } else {
        assert(s.take(s.len() as int) =~= s);
    }
}

/// The prompt of the PIN dialog: `Password:` when the agent set none;
/// otherwise the agent's prompt with all its trailing colons replaced by
/// exactly one.
pub proof fn law_pin_prompt_ends_in_one_colon(p: PinentryView)
    ensures
        p.prompt.len() == 0 ==> pin_prompt_text(p) == "Password:"@,
        p.prompt.len() > 0 ==> ({
            let e = encode_utf8(p.prompt);
            let t = encode_utf8(pin_prompt_text(p));
            &&& t.len() >= 1
            &&& t.last() == 0x3a
            &&& (t.len() == 1 || t[t.len() - 2] != 0x3a)
            &&& t.len() - 1 <= e.len()
            &&& t.drop_last() == e.take(t.len() - 1)
            &&& forall|i: int| t.len() - 1 <= i < e.len() ==> #[trigger] e[i] == 0x3a
        }),
{
    broadcast use vstd::utf8::group_utf8_lib;
    if p.prompt.len() > 0 {
        let e = encode_utf8(p.prompt);
        let tr = trim_colons(e);
        lemma_trim_colons_shape(e);
        lemma_trim_colons_valid(e);
        lemma_ascii_valid_utf8(seq![0x3au8]);
        valid_utf8_concat(tr, seq![0x3au8]);
        let full = tr + seq![0x3au8];
        decode_utf8_encode_utf8(full);
        assert(encode_utf8(pin_prompt_text(p)) == full);
        assert(full.drop_last() =~= tr);
        if tr.len() > 0 {
            assert(full[full.len() - 2] == tr.last());
        }
    }
}

} // verus!
