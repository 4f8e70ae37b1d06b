//! What the pinentry shows on its terminal, and the decisions of its PIN
//! and confirmation dialogs. Reading keys and passphrases from the terminal
//! is left to the caller.

use vstd::prelude::*;
use vstd::slice::slice_subrange;
use vstd::string::StrSliceExecFns;
use vstd::utf8::*;
use crate::askpass::{Event, Key};
use crate::encoding::{
    lemma_ascii_valid_utf8, lemma_char_bytes_ascii, lemma_encode_concat, lemma_encode_push, push_bytes,
    push_char, push_str, str_from_utf8,
};
use crate::pinentry::{data_line, ok_line, Button, Pinentry, PinentryView};

verus! {

broadcast use vstd::utf8::group_utf8_lib;

/// The terminal wants `CR` after `LF`: every line feed becomes `LF CR`.
pub open spec fn lf_to_lfcr(s: Seq<u8>) -> Seq<u8>
    decreases s.len(),
{
    if s.len() == 0 {
        Seq::empty()
    } else {
        lf_to_lfcr(s.drop_last()) + if s.last() == 0x0a {
            seq![0x0au8, 0x0d]
        } else {
            seq![s.last()]
        }
    }
}

/// A line of text on the terminal: the text, `LF`, `CR`.
pub open spec fn print_line(text: Seq<char>) -> Seq<u8> {
    lf_to_lfcr(encode_utf8(text)) + seq![0x0au8, 0x0d]
}

/// A line of text written as it is, then `LF`, `CR`: the button labels
/// and fixed texts, whose line feeds stay bare.
pub open spec fn raw_line(text: Seq<char>) -> Seq<u8> {
    encode_utf8(text) + seq![0x0au8, 0x0d]
}

/// A warning: a blank line, then ` *** `, the text in red, ` ***` and a
/// blank line.
pub open spec fn warning_line(text: Seq<char>) -> Seq<u8> {
    seq![0x0au8, 0x0d] + encode_utf8(" *** "@) + seq![0x1bu8, 0x5b, 0x33, 0x38, 0x3b, 0x35, 0x3b, 0x31, 0x6d]
        + lf_to_lfcr(encode_utf8(text)) + seq![0x1bu8, 0x5b, 0x33, 0x39, 0x6d] + encode_utf8(
        " ***"@,
    ) + seq![0x0au8, 0x0a, 0x0d]
}

/// The first text that is not empty, or the default.
pub open spec fn first_set(first: Seq<char>, second: Seq<char>, default: Seq<char>) -> Seq<char> {
    if first.len() > 0 {
        first
    } else if second.len() > 0 {
        second
    } else {
        default
    }
}

/// The bytes without the colons (`:`) they end with.
pub open spec fn trim_colons(s: Seq<u8>) -> Seq<u8>
    decreases s.len(),
{
    if s.len() > 0 && s.last() == 0x3a {
        trim_colons(s.drop_last())
    } else {
        s
    }
}

/// The prompt of the PIN dialog: the one the agent set, ending in exactly
/// one colon, or `Password:`.
pub open spec fn pin_prompt_text(p: PinentryView) -> Seq<char> {
    if p.prompt.len() > 0 {
        decode_utf8(trim_colons(encode_utf8(p.prompt)) + seq![0x3au8])
    } else {
        "Password:"@
    }
}

/// The lowercase mapping of `c`, first character (`char::to_lowercase`).
pub uninterp spec fn lowercase_first(c: char) -> char;

/// `char::to_lowercase`, first character of the mapping. Trusted to be
/// the value named `lowercase_first`, and, as std documents for ASCII, to
/// shift `A` to `Z` down to `a` to `z` and keep every other ASCII character.
#[verifier::external_body]
fn to_lowercase_first(c: char) -> (r: char)
    ensures
        r == lowercase_first(c),
        ('A' <= c <= 'Z') ==> r as u32 == c as u32 + 32,
        (c as u32) < 128 && !('A' <= c <= 'Z') ==> r == c,
{
    c.to_lowercase().next().unwrap_or(c)
}

/// The key that picks a button labelled `label`: the first character of
/// its lower case.
pub open spec fn button_key(label: Seq<char>) -> Option<char> {
    if label.len() > 0 {
        Some(lowercase_first(label[0]))
    } else {
        None
    }
}

/// The lower case of an ASCII character: `A` to `Z` become `a` to `z`,
/// every other character stays.
pub open spec fn ascii_lower(c: char) -> char {
    if 'A' <= c <= 'Z' {
        ((c as u32) + 32) as char
    } else {
        c
    }
}

/// Appends `bytes` with each line feed followed by a carriage return.
fn push_lfcr(out: &mut Vec<u8>, bytes: &[u8])
    ensures
        final(out)@ == old(out)@ + lf_to_lfcr(bytes@),
{
    let n = bytes.len();
    let mut i: usize = 0;
    while i < n
        invariant
            n == bytes@.len(),
            i <= n,
            out@ == old(out)@ + lf_to_lfcr(bytes@.take(i as int)),
        decreases n - i,
    {
        let b = bytes[i];
        out.push(b);
        if b == 0x0a {
            out.push(0x0d);
        }
        proof {
            let t = bytes@.take(i + 1);
            assert(t.drop_last() =~= bytes@.take(i as int));
            assert(t.last() == b);
        }
        i = i + 1;
        assert(out@ =~= old(out)@ + lf_to_lfcr(bytes@.take(i as int)));
    }
    assert(bytes@.take(n as int) =~= bytes@);
}

/// Appends a line of text for the terminal.
fn push_print_line(out: &mut Vec<u8>, text: &str)
    ensures
        final(out)@ == old(out)@ + print_line(text@),
{
    push_lfcr(out, text.as_bytes());
    out.push(0x0a);
    out.push(0x0d);
    assert(out@ =~= old(out)@ + print_line(text@));
}

/// Appends a line of text as it is, then `LF`, `CR`.
fn push_raw_line(out: &mut Vec<u8>, text: &str)
    ensures
        final(out)@ == old(out)@ + raw_line(text@),
{
    push_str(out, text);
    out.push(0x0a);
    out.push(0x0d);
    assert(out@ =~= old(out)@ + raw_line(text@));
}

/// Appends a warning for the terminal.
fn push_warning(out: &mut Vec<u8>, text: &str)
    ensures
        final(out)@ == old(out)@ + warning_line(text@),
{
    out.push(0x0a);
    out.push(0x0d);
    push_str(out, " *** ");
    out.push(0x1b);
    out.push(0x5b);
    out.push(0x33);
    out.push(0x38);
    out.push(0x3b);
    out.push(0x35);
    out.push(0x3b);
    out.push(0x31);
    out.push(0x6d);
    push_lfcr(out, text.as_bytes());
    out.push(0x1b);
    out.push(0x5b);
    out.push(0x33);
    out.push(0x39);
    out.push(0x6d);
    push_str(out, " ***");
    out.push(0x0a);
    out.push(0x0a);
    out.push(0x0d);
    assert(out@ =~= old(out)@ + warning_line(text@));
}

/// The first of the texts that is not empty, or the default.
fn pick_text<'a>(first: &'a str, second: &'a str, default: &'a str) -> (r: &'a str)
    ensures
        r@ == first_set(first@, second@, default@),
{
    if !first.is_empty() {
        first
    } else if !second.is_empty() {
        second
    } else {
        default
    }
}

proof fn lemma_trim_colons(s: Seq<u8>)
    ensures
        trim_colons(s).len() <= s.len(),
        trim_colons(s) == s.take(trim_colons(s).len() as int),
    decreases s.len(),
{
    if s.len() > 0 && s.last() == 0x3a {
        lemma_trim_colons(s.drop_last());
        assert(s.drop_last().take(trim_colons(s).len() as int) =~= s.take(
            trim_colons(s).len() as int,
        ));
    } else {
        assert(s.take(s.len() as int) =~= s);
    }
}

pub proof fn lemma_trim_colons_valid(s: Seq<u8>)
    requires
        valid_utf8(s),
    ensures
        valid_utf8(trim_colons(s)),
    decreases s.len(),
{
    if s.len() > 0 && s.last() == 0x3a {
        is_char_boundary_iff_not_is_continuation_byte(s, s.len() - 1);
        valid_utf8_split(s, s.len() - 1);
        assert(s.subrange(0, s.len() - 1) =~= s.drop_last());
        lemma_trim_colons_valid(s.drop_last());
    }
}

/// What to do after a PIN was read.
#[derive(Clone, Copy, Debug, PartialEq, Eq, Structural)]
pub enum PinStep {
    /// Read it again, with the repeat prompt.
    AskRepeat,
    /// The two did not match: show the repeat warning and start over.
    Mismatch,
    /// The PIN is final.
    Done,
}

/// The state of a confirmation dialog: which keys pick which button.
pub struct ConfirmDialog {
    any_key: bool,
    ok_key: char,
    cancel_key: Option<char>,
    notok_key: Option<char>,
}

/// What a key does in a confirmation dialog.
#[derive(Clone, Copy, Debug, PartialEq, Eq, Structural)]
pub enum ConfirmStep {
    /// Nothing yet: wait for the next key.
    Wait,
    /// A key that picks nothing: show [`invalid_selection`] and wait.
    Invalid,
    /// The dialog ends with this button.
    Chosen(Button),
}

impl ConfirmDialog {
    /// Whether any key confirms.
    pub closed spec fn spec_any_key(self) -> bool {
        self.any_key
    }

    /// The key of the OK button.
    pub closed spec fn spec_ok_key(self) -> char {
        self.ok_key
    }

    /// The key of the Cancel button, if there is one.
    pub closed spec fn spec_cancel_key(self) -> Option<char> {
        self.cancel_key
    }

    /// The key of the Not-OK button, if there is one.
    pub closed spec fn spec_notok_key(self) -> Option<char> {
        self.notok_key
    }

    /// What `event` does: no input waits; with one button any key
    /// confirms; the buttons' keys pick them, OK first; Ctrl-C cancels;
    /// any other key is an invalid selection; other events are ignored.
    pub open spec fn step(self, event: Event) -> ConfirmStep {
        match event {
            Event::NoEvent => ConfirmStep::Wait,
            Event::Other => ConfirmStep::Wait,
            Event::Key(k) => if self.spec_any_key() {
                ConfirmStep::Chosen(Button::Okay)
            } else {
                match k {
                    Key::Char(c) => if c == self.spec_ok_key() {
                        ConfirmStep::Chosen(Button::Okay)
                    } else if Some(c) == self.spec_cancel_key() {
                        ConfirmStep::Chosen(Button::Cancel)
                    } else if Some(c) == self.spec_notok_key() {
                        ConfirmStep::Chosen(Button::NotOk)
                    } else {
                        ConfirmStep::Invalid
                    },
                    Key::Ctrl(c) => if c == 'c' {
                        ConfirmStep::Chosen(Button::Cancel)
                    } else {
                        ConfirmStep::Invalid
                    },
                    _ => ConfirmStep::Invalid,
                }
            },
        }
    }

    /// What `event` does.
    pub fn handle(&self, event: Event) -> (r: ConfirmStep)
        ensures
            r == self.step(event),
    {
        match event {
            Event::NoEvent => ConfirmStep::Wait,
            Event::Other => ConfirmStep::Wait,
            Event::Key(k) => {
                if self.any_key {
                    ConfirmStep::Chosen(Button::Okay)
                } else {
                    match k {
                        Key::Char(c) => {
                            if c == self.ok_key {
                                ConfirmStep::Chosen(Button::Okay)
                            } else if self.cancel_key == Some(c) {
                                ConfirmStep::Chosen(Button::Cancel)
                            } else if self.notok_key == Some(c) {
                                ConfirmStep::Chosen(Button::NotOk)
                            } else {
                                ConfirmStep::Invalid
                            }
                        },
                        Key::Ctrl(c) => {
                            if c == 'c' {
                                ConfirmStep::Chosen(Button::Cancel)
                            } else {
                                ConfirmStep::Invalid
                            }
                        },
                        _ => ConfirmStep::Invalid,
                    }
                }
            },
        }
    }
}

/// `Invalid selection.` as a line for the terminal.
pub fn invalid_selection() -> (r: Vec<u8>)
    ensures
        r@ == raw_line("Invalid selection."@),
{
    let mut out: Vec<u8> = Vec::new();
    push_raw_line(&mut out, "Invalid selection.");
    out
}

/// The key of a button with the given label.
fn label_key(label: &str) -> (r: Option<char>)
    ensures
        r == button_key(label@),
        label@.len() > 0 && (label@[0] as u32) < 128 ==> r == Some(ascii_lower(label@[0])),
{
    if label.is_empty() {
        None
    } else {
        let c = label.get_char(0);
        Some(to_lowercase_first(c))
    }
}

/// `[k] label` as a line for the terminal; the label is written as it is.
pub open spec fn button_line(key: char, label: Seq<char>) -> Seq<u8> {
    raw_line(seq!['[', key, ']', ' '] + label)
}

/// Appends `[k] label` as a line for the terminal.
fn push_button_line(out: &mut Vec<u8>, key: char, label: &str)
    ensures
        final(out)@ == old(out)@ + button_line(key, label@),
{
    let mut text: Vec<u8> = Vec::new();
    text.push(0x5b);
    push_char(&mut text, key);
    text.push(0x5d);
    text.push(0x20);
    push_str(&mut text, label);
    proof {
        let p0 = Seq::<char>::empty();
        let p1 = p0.push('[');
        let p2 = p1.push(key);
        let p3 = p2.push(']');
        let p4 = p3.push(' ');
        lemma_encode_push(p0, '[');
        lemma_encode_push(p1, key);
        lemma_encode_push(p2, ']');
        lemma_encode_push(p3, ' ');
        lemma_char_bytes_ascii('[');
        lemma_char_bytes_ascii(']');
        lemma_char_bytes_ascii(' ');
        lemma_encode_concat(p4, label@);
        assert(p4 =~= seq!['[', key, ']', ' ']);
        assert(encode_utf8(p0) =~= Seq::<u8>::empty());
        assert(text@ =~= encode_utf8(p4 + label@));
    }
    push_bytes(out, text.as_slice());
    out.push(0x0a);
    out.push(0x0d);
    assert(out@ =~= old(out)@ + button_line(key, label@));
}

/// The bytes that answer a PIN request: `S PIN_REPEATED` when the PIN was
/// asked twice, then the PIN as data, then `OK`.
pub open spec fn pin_reply_bytes(p: PinentryView, pin: Seq<u8>) -> Seq<u8> {
    (if p.repeat.len() > 0 {
        encode_utf8("S PIN_REPEATED"@) + seq![0x0au8]
    } else {
        Seq::empty()
    }) + data_line(pin) + ok_line()
}

impl Pinentry {
    /// The warning for the error the agent set, if it set one; the error is
    /// shown once and then forgotten.
    pub fn take_error(&mut self) -> (r: Vec<u8>)
        ensures
            final(self)@ == (PinentryView { error: Seq::empty(), ..old(self)@ }),
            old(self)@.error.len() > 0 ==> r@ == warning_line(old(self)@.error),
            old(self)@.error.len() == 0 ==> r@ == Seq::<u8>::empty(),
    {
        assert(self@.error.len() == 0 ==> self@.error =~= Seq::<char>::empty());
        let mut out: Vec<u8> = Vec::new();
        if !self.error.as_str().is_empty() {
            push_warning(&mut out, self.error.as_str());
            self.error = String::new();
        }
        out
    }

    /// What the PIN dialog shows first: the warning for the agent's error,
    /// if any, then the description, the title, or `Enter your passphrase`.
    pub fn pin_intro(&mut self) -> (r: Vec<u8>)
        ensures
            final(self)@ == (PinentryView { error: Seq::empty(), ..old(self)@ }),
            r@ == (if old(self)@.error.len() > 0 {
                warning_line(old(self)@.error)
            } else {
                Seq::empty()
            }) + print_line(
                first_set(old(self)@.description, old(self)@.title, "Enter your passphrase"@),
            ),
    {
        let mut out = self.take_error();
        let text = pick_text(self.description.as_str(), self.title.as_str(), "Enter your passphrase");
        push_print_line(&mut out, text);
        out
    }

    /// The prompt of the PIN dialog: the agent's prompt ending in exactly
    /// one colon, or `Password:`.
    pub fn pin_prompt(&self) -> (r: String)
        ensures
            r@ == pin_prompt_text(self@),
    {
        let p = self.prompt.as_str();
        if p.is_empty() {
            return "Password:".to_owned();
        }
        let bytes = p.as_bytes();
        let ghost s = bytes@;
        let mut end = bytes.len();
        proof {
            lemma_trim_colons(s);
            assert(s.take(end as int) =~= s);
        }
        while end > 0 && bytes[end - 1] == 0x3a
            invariant
                s == bytes@,
                end <= s.len(),
                trim_colons(s.take(end as int)) == trim_colons(s),
            decreases end,
        {
            assert(s.take(end - 1) =~= s.take(end as int).drop_last());
            end = end - 1;
        }
        assert(trim_colons(s.take(end as int)) == s.take(end as int));
        let mut out: Vec<u8> = Vec::new();
        push_bytes(&mut out, slice_subrange(bytes, 0, end));
        out.push(0x3a);
        proof {
            lemma_trim_colons_valid(s);
            lemma_ascii_valid_utf8(seq![0x3au8]);
            assert(out@ =~= trim_colons(s) + seq![0x3au8]);
        }
        match str_from_utf8(out.as_slice()) {
            Some(t) => t.to_owned(),
            None => {
                assert(false);
                String::new()
            },
        }
    }

    /// The warning shown when the two PINs differ: the agent's text, or
    /// `Passphrases don't match.`.
    pub fn repeat_warning(&self) -> (r: Vec<u8>)
        ensures
            r@ == warning_line(first_set(self@.repeat_error, Seq::empty(), "Passphrases don't match."@)),
    {
        let mut out: Vec<u8> = Vec::new();
        proof {
            reveal_strlit("");
        }
        let text = pick_text(self.repeat_error.as_str(), "", "Passphrases don't match.");
        push_warning(&mut out, text);
        out
    }

    /// After the first PIN: ask again when the agent set a repeat prompt.
    pub fn after_pin(&self) -> (r: PinStep)
        ensures
            r == (if self@.repeat.len() > 0 {
                PinStep::AskRepeat
            } else {
                PinStep::Done
            }),
    {
        if self.repeat.as_str().is_empty() {
            PinStep::Done
        } else {
            PinStep::AskRepeat
        }
    }

    /// The answer to the PIN request.
    pub fn pin_reply(&self, pin: &[u8]) -> (r: Vec<u8>)
        ensures
            r@ == pin_reply_bytes(self@, pin@),
    {
        let mut out: Vec<u8> = Vec::new();
        if !self.repeat.as_str().is_empty() {
            push_str(&mut out, "S PIN_REPEATED");
            out.push(0x0a);
        }
        push_str(&mut out, "D ");
        push_bytes(&mut out, pin);
        out.push(0x0a);
        push_str(&mut out, "OK");
        out.push(0x0a);
        assert(out@ =~= pin_reply_bytes(self@, pin@));
        out
    }

    /// Sets up a confirmation dialog (with one button when `any_key`) and
    /// says what it shows first: the warning for the agent's error, if any,
    /// the description, the title or `Confirm:`, and the buttons.
    pub fn confirm_intro(&mut self, any_key: bool) -> (r: (ConfirmDialog, Vec<u8>))
        ensures
            final(self)@ == (PinentryView { error: Seq::empty(), ..old(self)@ }),
            ({
                let p = old(self)@;
                let ok_label = first_set(p.ok, Seq::empty(), "Ok"@);
                let d = r.0;
                &&& d.spec_any_key() == any_key
                &&& d.spec_ok_key() == lowercase_first(ok_label[0])
                &&& d.spec_cancel_key() == button_key(p.cancel)
                &&& d.spec_notok_key() == button_key(p.notok)
                &&& (ok_label[0] as u32) < 128 ==> d.spec_ok_key() == ascii_lower(ok_label[0])
                &&& p.cancel.len() > 0 && (p.cancel[0] as u32) < 128 ==> d.spec_cancel_key()
                    == Some(ascii_lower(p.cancel[0]))
                &&& p.notok.len() > 0 && (p.notok[0] as u32) < 128 ==> d.spec_notok_key()
                    == Some(ascii_lower(p.notok[0]))
                &&& r.1@ == (if p.error.len() > 0 {
                    warning_line(p.error)
                } else {
                    Seq::empty()
                }) + print_line(first_set(p.description, p.title, "Confirm:"@)) + if any_key {
                    raw_line(ok_label) + raw_line("Press any key to continue."@)
                } else {
                    button_line(d.spec_ok_key(), ok_label) + (match d.spec_cancel_key() {
                        Some(k) => button_line(k, p.cancel),
                        None => Seq::empty(),
                    }) + (match d.spec_notok_key() {
                        Some(k) => button_line(k, p.notok),
                        None => Seq::empty(),
                    })
                }
            }),
    {
        let ghost p = self@;
        let mut out = self.take_error();
        let ok_label = pick_text(self.ok.as_str(), "", "Ok");
        proof {
            reveal_strlit("Ok");
            reveal_strlit("");
        }
        let ok_key = to_lowercase_first(ok_label.get_char(0));
        let cancel_key = label_key(self.cancel.as_str());
        let notok_key = label_key(self.notok.as_str());
        let text = pick_text(self.description.as_str(), self.title.as_str(), "Confirm:");
        push_print_line(&mut out, text);
        if any_key {
            push_raw_line(&mut out, ok_label);
            push_raw_line(&mut out, "Press any key to continue.");
        } else {
            push_button_line(&mut out, ok_key, ok_label);
            match cancel_key {
                Some(k) => push_button_line(&mut out, k, self.cancel.as_str()),
                None => {},
            }
            match notok_key {
                Some(k) => push_button_line(&mut out, k, self.notok.as_str()),
                None => {},
            }
        }
        let d = ConfirmDialog { any_key, ok_key, cancel_key, notok_key };
        assert(out@ =~= (if p.error.len() > 0 {
            warning_line(p.error)
        } else {
            Seq::empty()
        }) + print_line(first_set(p.description, p.title, "Confirm:"@)) + if any_key {
            raw_line(first_set(p.ok, Seq::empty(), "Ok"@)) + raw_line("Press any key to continue."@)
        } else {
            button_line(ok_key, first_set(p.ok, Seq::empty(), "Ok"@)) + (match cancel_key {
                Some(k) => button_line(k, p.cancel),
                None => Seq::empty(),
            }) + (match notok_key {
                Some(k) => button_line(k, p.notok),
                None => Seq::empty(),
            })
        });
        (d, out)
    }
}

/// `seckey::CmpKey`'s `==`, which compares in a time that does not depend
/// on where the bytes differ. Trusted to say whether the two byte strings
/// are equal: the source compares the lengths and, with `memsec::memeq`,
/// every byte up to the shorter length.
#[verifier::external_body]
fn secret_eq(a: &[u8], b: &[u8]) -> (r: bool)
    ensures
        r == (a@ == b@),
{
    seckey::CmpKey(a) == seckey::CmpKey(b)
}

/// After the repeated PIN: done when it is the first PIN again, else warn
/// and start over. The two are compared in constant time.
pub fn after_repeat(first: &[u8], second: &[u8]) -> (r: PinStep)
    ensures
        r == (if first@ == second@ {
            PinStep::Done
        } else {
            PinStep::Mismatch
        }),
{
    if secret_eq(first, second) {
        PinStep::Done
    } else {
        PinStep::Mismatch
    }
}

} // verus!
