//! The pinentry side: the Assuan requests that a gpg-agent sends, and the
//! decisions of the PIN and confirmation dialogs.

use vstd::prelude::*;
use vstd::slice::slice_subrange;
use vstd::utf8::*;
use std::time::Duration;
use crate::encoding::{bytes_eq, lemma_ascii_valid_utf8, push_str, str_from_utf8};
use crate::utils::{
    CLOSE, PINENTRY_NOT_CONFIRMED, PINENTRY_OPERATION_CANCELLED, PINENTRY_PARAMETER_ERROR,
    PINENTRY_UNKNOWN_OPTION, START, USER_NOT_IMPLEMENTED, USER_UNKNOWN_COMMAND,
};

verus! {

broadcast use vstd::utf8::group_utf8_lib;

/// ASCII letters.
pub open spec fn is_alphabetic(b: u8) -> bool {
    (0x41 <= b <= 0x5a) || (0x61 <= b <= 0x7a)
}

/// Space or tab.
pub open spec fn is_space(b: u8) -> bool {
    b == 0x20 || b == 0x09
}

/// End of the run of ASCII letters that starts at `i`.
pub open spec fn alpha_end(s: Seq<u8>, i: int) -> int
    decreases s.len() - i,
{
    if 0 <= i < s.len() && is_alphabetic(s[i]) {
        alpha_end(s, i + 1)
    } else {
        i
    }
}

/// End of the run of spaces and tabs that starts at `i`.
pub open spec fn space_end(s: Seq<u8>, i: int) -> int
    decreases s.len() - i,
{
    if 0 <= i < s.len() && is_space(s[i]) {
        space_end(s, i + 1)
    } else {
        i
    }
}

/// Index of the first line feed at or after `i`, or the length when there
/// is none.
pub open spec fn newline_from(s: Seq<u8>, i: int) -> int
    decreases s.len() - i,
{
    if i < 0 || i >= s.len() {
        s.len() as int
    } else if s[i] == 0x0a {
        i
    } else {
        newline_from(s, i + 1)
    }
}

/// Why a request line was not parsed.
#[derive(Clone, Copy, Debug, PartialEq, Eq, Structural)]
pub enum ParseError {
    /// The value is not valid UTF-8.
    Invalid,
    /// No line feed ends the request yet.
    Incomplete,
}

proof fn lemma_alpha_end(s: Seq<u8>, i: int)
    requires
        0 <= i <= s.len(),
    ensures
        i <= alpha_end(s, i) <= s.len(),
        forall|j: int| i <= j < alpha_end(s, i) ==> #[trigger] is_alphabetic(s[j]),
        alpha_end(s, i) < s.len() ==> !is_alphabetic(s[alpha_end(s, i)]),
    decreases s.len() - i,
{
    if i < s.len() && is_alphabetic(s[i]) {
        lemma_alpha_end(s, i + 1);
    }
}

proof fn lemma_space_end(s: Seq<u8>, i: int)
    requires
        0 <= i <= s.len(),
    ensures
        i <= space_end(s, i) <= s.len(),
    decreases s.len() - i,
{
    if i < s.len() && is_space(s[i]) {
        lemma_space_end(s, i + 1);
    }
}

proof fn lemma_newline_from(s: Seq<u8>, i: int)
    requires
        0 <= i <= s.len(),
    ensures
        i <= newline_from(s, i) <= s.len(),
    decreases s.len() - i,
{
    if i < s.len() && s[i] != 0x0a {
        lemma_newline_from(s, i + 1);
    }
}

/// Where the parts of a request line end: the command, the spaces after
/// it, and the value (at the line feed, or the end of input).
fn split_request(line: &[u8]) -> (r: (usize, usize, usize))
    ensures
        r.0 == alpha_end(line@, 0),
        r.1 == space_end(line@, r.0 as int),
        r.2 == newline_from(line@, r.1 as int),
        r.0 <= r.1 <= r.2 <= line@.len(),
{
    let ghost s = line@;
    let n = line.len();
    proof {
        lemma_alpha_end(s, 0);
    }
    let mut k: usize = 0;
    while k < n && ((0x41 <= line[k] && line[k] <= 0x5a) || (0x61 <= line[k] && line[k] <= 0x7a))
        invariant
            n == s.len(),
            s == line@,
            k <= n,
            alpha_end(s, k as int) == alpha_end(s, 0),
        decreases n - k,
    {
        k = k + 1;
    }
    proof {
        lemma_space_end(s, k as int);
    }
    let mut v: usize = k;
    while v < n && (line[v] == 0x20 || line[v] == 0x09)
        invariant
            n == s.len(),
            s == line@,
            k <= v <= n,
            k == alpha_end(s, 0),
            space_end(s, v as int) == space_end(s, k as int),
        decreases n - v,
    {
        v = v + 1;
    }
    proof {
        lemma_newline_from(s, v as int);
    }
    let mut j: usize = v;
    while j < n && line[j] != 0x0a
        invariant
            n == s.len(),
            s == line@,
            v <= j <= n,
            v == space_end(s, alpha_end(s, 0)),
            newline_from(s, j as int) == newline_from(s, v as int),
        decreases n - j,
    {
        j = j + 1;
    }
    (k, v, j)
}

/// The command of a request line, as a string slice: its letters are ASCII.
fn command_str(line: &[u8], k: usize) -> (r: &str)
    requires
        k == alpha_end(line@, 0),
    ensures
        r@ == decode_utf8(line@.take(k as int)),
        encode_utf8(r@) == line@.take(k as int),
{
    proof {
        lemma_alpha_end(line@, 0);
    }
    let command_bytes = slice_subrange(line, 0, k);
    proof {
        assert forall|i: int| 0 <= i < command_bytes@.len() implies #[trigger] command_bytes@[i]
            < 0x80 by {
            assert(is_alphabetic(line@[i]));
        }
        lemma_ascii_valid_utf8(command_bytes@);
    }
    assert(command_bytes@ =~= line@.take(k as int));
    match str_from_utf8(command_bytes) {
        Some(c) => c,
        None => {
            assert(false);
            ""
        },
    }
}

/// Parses an Assuan request line: a command of ASCII letters, optional
/// spaces or tabs, and a value that runs up to the line feed. The rest of
/// the input, from the line feed on, is returned with them.
pub fn parse_command<'a>(line: &'a [u8]) -> (r: Result<(&'a [u8], (&'a str, &'a str)), ParseError>)
    ensures
        ({
            let s = line@;
            let k = alpha_end(s, 0);
            let v = space_end(s, k);
            let j = newline_from(s, v);
            &&& j == s.len() ==> r == Err::<(&'a [u8], (&'a str, &'a str)), ParseError>(
                ParseError::Incomplete,
            )
            &&& j < s.len() && !valid_utf8(s.subrange(v, j)) ==> r == Err::<
                (&'a [u8], (&'a str, &'a str)),
                ParseError,
            >(ParseError::Invalid)
            &&& j < s.len() && valid_utf8(s.subrange(v, j)) ==> (r matches Ok(
                (rest, (command, value)),
            ) && rest@ == s.skip(j) && command@ == decode_utf8(s.take(k)) && value@
                == decode_utf8(s.subrange(v, j)))
        }),
{
    let (k, v, j) = split_request(line);
    let n = line.len();
    if j == n {
        return Err(ParseError::Incomplete);
    }
    let command = command_str(line, k);
    let value = match str_from_utf8(slice_subrange(line, v, j)) {
        Some(x) => x,
        None => {
            return Err(ParseError::Invalid);
        },
    };
    Ok((slice_subrange(line, j, n), (command, value)))
}


/* Percent-decoding of request values */

/// The value of a hexadecimal digit (either case).
pub open spec fn hex_value(b: u8) -> Option<u8> {
    if 0x30 <= b <= 0x39 {
        Some((b - 0x30) as u8)
    } else if 0x41 <= b <= 0x46 {
        Some((b - 0x41 + 10) as u8)
    } else if 0x61 <= b <= 0x66 {
        Some((b - 0x61 + 10) as u8)
    } else {
        None
    }
}

/// Percent-decoding: `%` and two hexadecimal digits stand for the byte
/// they spell; every other byte, a `%` not followed by two digits
/// included, stands for itself.
pub open spec fn percent_decoded(s: Seq<u8>) -> Seq<u8>
    decreases s.len(),
{
    if s.len() == 0 {
        Seq::empty()
    } else if s[0] == 0x25 && s.len() >= 3 && hex_value(s[1]) is Some && hex_value(s[2]) is Some {
        seq![(hex_value(s[1])->0 * 16 + hex_value(s[2])->0) as u8] + percent_decoded(s.skip(3))
    } else {
        seq![s[0]] + percent_decoded(s.skip(1))
    }
}

/// `url::percent_encoding::percent_decode`, collected into bytes. Trusted to
/// decode as the url crate documents and its source does: `%` with two
/// hexadecimal digits becomes that byte, any other byte is kept.
#[verifier::external_body]
fn percent_decode_bytes(input: &[u8]) -> (r: Vec<u8>)
    ensures
        r@ == percent_decoded(input@),
{
    url::percent_encoding::percent_decode(input).collect()
}

/// Percent-decodes `value`; none when the decoded bytes are not UTF-8.
pub fn percent_decode_str(value: &str) -> (r: Option<String>)
    ensures
        r is Some <==> valid_utf8(percent_decoded(encode_utf8(value@))),
        r matches Some(d) ==> d@ == decode_utf8(percent_decoded(encode_utf8(value@))),
{
    let decoded = percent_decode_bytes(value.as_bytes());
    match str_from_utf8(decoded.as_slice()) {
        Some(s) => Some(s.to_owned()),
        None => None,
    }
}

/* Commands */

/// ASCII upper case.
pub open spec fn ascii_upper(b: u8) -> u8 {
    if 0x61 <= b <= 0x7a {
        (b - 32) as u8
    } else {
        b
    }
}

/// ASCII upper case of every byte.
pub open spec fn upper_bytes(s: Seq<u8>) -> Seq<u8> {
    Seq::new(s.len(), |i: int| ascii_upper(s[i]))
}

/// The commands of the Assuan protocol that the pinentry knows.
#[derive(Clone, Copy, Debug, PartialEq, Eq, Structural)]
pub enum Command {
    SetDesc,
    SetPrompt,
    SetKeyInfo,
    SetRepeat,
    SetRepeatError,
    SetError,
    SetOk,
    SetNotOk,
    SetCancel,
    SetQualityBar,
    SetQualityBarTt,
    SetTitle,
    SetTimeout,
    ClearPassphrase,
    SetOption,
    GetPin,
    Confirm,
    Message,
    GetInfo,
    Bye,
    /// An empty line.
    Empty,
    Unknown,
}

/// The command that an upper-cased command name names.
pub open spec fn command_of(name: Seq<u8>) -> Command {
    if name == encode_utf8("SETDESC"@) {
        Command::SetDesc
    } else if name == encode_utf8("SETPROMPT"@) {
        Command::SetPrompt
    } else if name == encode_utf8("SETKEYINFO"@) {
        Command::SetKeyInfo
    } else if name == encode_utf8("SETREPEAT"@) {
        Command::SetRepeat
    } else if name == encode_utf8("SETREPEATERROR"@) {
        Command::SetRepeatError
    } else if name == encode_utf8("SETERROR"@) {
        Command::SetError
    } else if name == encode_utf8("SETOK"@) {
        Command::SetOk
    } else if name == encode_utf8("SETNOTOK"@) {
        Command::SetNotOk
    } else if name == encode_utf8("SETCANCEL"@) {
        Command::SetCancel
    } else if name == encode_utf8("SETQUALITYBAR"@) {
        Command::SetQualityBar
    } else if name == encode_utf8("SETQUALITYBAR_TT"@) {
        Command::SetQualityBarTt
    } else if name == encode_utf8("SETTITLE"@) {
        Command::SetTitle
    } else if name == encode_utf8("SETTIMEOUT"@) {
        Command::SetTimeout
    } else if name == encode_utf8("CLEARPASSPHRASE"@) {
        Command::ClearPassphrase
    } else if name == encode_utf8("OPTION"@) {
        Command::SetOption
    } else if name == encode_utf8("GETPIN"@) {
        Command::GetPin
    } else if name == encode_utf8("CONFIRM"@) {
        Command::Confirm
    } else if name == encode_utf8("MESSAGE"@) {
        Command::Message
    } else if name == encode_utf8("GETINFO"@) {
        Command::GetInfo
    } else if name == encode_utf8("BYE"@) {
        Command::Bye
    } else if name.len() == 0 {
        Command::Empty
    } else {
        Command::Unknown
    }
}

/// The command named by `name`, in any case.
pub fn command_from(name: &[u8]) -> (r: Command)
    ensures
        r == command_of(upper_bytes(name@)),
{
    let n = name.len();
    let mut upper: Vec<u8> = Vec::new();
    let mut i: usize = 0;
    while i < n
        invariant
            n == name@.len(),
            i <= n,
            upper@ =~= upper_bytes(name@.take(i as int)),
        decreases n - i,
    {
        let b = name[i];
        let u = if 0x61 <= b && b <= 0x7a {
            b - 32
        } else {
            b
        };
        upper.push(u);
        i = i + 1;
        assert(upper@ =~= upper_bytes(name@.take(i as int)));
    }
    assert(name@.take(n as int) =~= name@);
    let u = upper.as_slice();
    if bytes_eq(u, "SETDESC".as_bytes()) {
        Command::SetDesc
    } else if bytes_eq(u, "SETPROMPT".as_bytes()) {
        Command::SetPrompt
    } else if bytes_eq(u, "SETKEYINFO".as_bytes()) {
        Command::SetKeyInfo
    } else if bytes_eq(u, "SETREPEAT".as_bytes()) {
        Command::SetRepeat
    } else if bytes_eq(u, "SETREPEATERROR".as_bytes()) {
        Command::SetRepeatError
    } else if bytes_eq(u, "SETERROR".as_bytes()) {
        Command::SetError
    } else if bytes_eq(u, "SETOK".as_bytes()) {
        Command::SetOk
    } else if bytes_eq(u, "SETNOTOK".as_bytes()) {
        Command::SetNotOk
    } else if bytes_eq(u, "SETCANCEL".as_bytes()) {
        Command::SetCancel
    } else if bytes_eq(u, "SETQUALITYBAR".as_bytes()) {
        Command::SetQualityBar
    } else if bytes_eq(u, "SETQUALITYBAR_TT".as_bytes()) {
        Command::SetQualityBarTt
    } else if bytes_eq(u, "SETTITLE".as_bytes()) {
        Command::SetTitle
    } else if bytes_eq(u, "SETTIMEOUT".as_bytes()) {
        Command::SetTimeout
    } else if bytes_eq(u, "CLEARPASSPHRASE".as_bytes()) {
        Command::ClearPassphrase
    } else if bytes_eq(u, "OPTION".as_bytes()) {
        Command::SetOption
    } else if bytes_eq(u, "GETPIN".as_bytes()) {
        Command::GetPin
    } else if bytes_eq(u, "CONFIRM".as_bytes()) {
        Command::Confirm
    } else if bytes_eq(u, "MESSAGE".as_bytes()) {
        Command::Message
    } else if bytes_eq(u, "GETINFO".as_bytes()) {
        Command::GetInfo
    } else if bytes_eq(u, "BYE".as_bytes()) {
        Command::Bye
    } else if n == 0 {
        Command::Empty
    } else {
        Command::Unknown
    }
}


/* The pinentry's state and the protocol */

/// What the agent has told the pinentry so far.
#[derive(Debug, Clone)]
pub struct Pinentry {
    pub description: String,
    pub prompt: String,
    pub keyinfo: String,
    pub repeat: String,
    pub repeat_error: String,
    pub error: String,
    pub ok: String,
    pub notok: String,
    pub cancel: String,
    pub quality_bar: String,
    pub quality_bar_tt: String,
    pub title: String,
    pub timeout: Option<Duration>,
    pub tty: String,
}

/// The texts of a [`Pinentry`] as character sequences.
pub struct PinentryView {
    pub description: Seq<char>,
    pub prompt: Seq<char>,
    pub keyinfo: Seq<char>,
    pub repeat: Seq<char>,
    pub repeat_error: Seq<char>,
    pub error: Seq<char>,
    pub ok: Seq<char>,
    pub notok: Seq<char>,
    pub cancel: Seq<char>,
    pub quality_bar: Seq<char>,
    pub quality_bar_tt: Seq<char>,
    pub title: Seq<char>,
    pub timeout: Option<Duration>,
    pub tty: Seq<char>,
}

impl View for Pinentry {
    type V = PinentryView;

    open spec fn view(&self) -> PinentryView {
        PinentryView {
            description: self.description@,
            prompt: self.prompt@,
            keyinfo: self.keyinfo@,
            repeat: self.repeat@,
            repeat_error: self.repeat_error@,
            error: self.error@,
            ok: self.ok@,
            notok: self.notok@,
            cancel: self.cancel@,
            quality_bar: self.quality_bar@,
            quality_bar_tt: self.quality_bar_tt@,
            title: self.title@,
            timeout: self.timeout,
            tty: self.tty@,
        }
    }
}

/// A pinentry that has been told nothing.
pub open spec fn blank_pinentry() -> PinentryView {
    PinentryView {
        description: Seq::empty(),
        prompt: Seq::empty(),
        keyinfo: Seq::empty(),
        repeat: Seq::empty(),
        repeat_error: Seq::empty(),
        error: Seq::empty(),
        ok: Seq::empty(),
        notok: Seq::empty(),
        cancel: Seq::empty(),
        quality_bar: Seq::empty(),
        quality_bar_tt: Seq::empty(),
        title: Seq::empty(),
        timeout: None,
        tty: Seq::empty(),
    }
}

impl Default for Pinentry {
    fn default() -> (r: Pinentry)
        ensures
            r@ == blank_pinentry(),
    {
        Pinentry {
            description: String::new(),
            prompt: String::new(),
            keyinfo: String::new(),
            repeat: String::new(),
            repeat_error: String::new(),
            error: String::new(),
            ok: String::new(),
            notok: String::new(),
            cancel: String::new(),
            quality_bar: String::new(),
            quality_bar_tt: String::new(),
            title: String::new(),
            timeout: None,
            tty: String::new(),
        }
    }
}

/// What the caller does after a request.
#[derive(Debug)]
pub enum Action {
    /// Write these bytes to the agent and read the next request.
    Reply(Vec<u8>),
    /// Ask for the PIN on the terminal, then write [`Pinentry::pin_reply`].
    GetPin,
    /// Ask for a confirmation on the terminal (with only one button when
    /// the flag is set), then write [`button_reply`].
    Confirm(bool),
    /// Send this program's version as a `D` line. In answer to a request
    /// ([`Pinentry::handle_request`]) `OK` follows it, as [`data_reply`]
    /// writes them; as the answer of [`Pinentry::get_info`] the `D` line
    /// stands alone.
    InfoVersion,
    /// Send this process's id as a `D` line, followed by `OK` or alone as
    /// for [`Action::InfoVersion`].
    InfoPid,
    /// Write these bytes and end the session.
    Close(Vec<u8>),
    /// The input ended inside a request: end the session, connection aborted.
    Aborted,
    /// A value does not percent-decode to UTF-8: end the session with an error.
    BadEncoding,
}

/// An [`Action`] with its bytes as a sequence.
pub enum ActionView {
    Reply(Seq<u8>),
    GetPin,
    Confirm(bool),
    InfoVersion,
    InfoPid,
    Close(Seq<u8>),
    Aborted,
    BadEncoding,
}

impl View for Action {
    type V = ActionView;

    open spec fn view(&self) -> ActionView {
        match self {
            Action::Reply(b) => ActionView::Reply(b@),
            Action::GetPin => ActionView::GetPin,
            Action::Confirm(one) => ActionView::Confirm(*one),
            Action::InfoVersion => ActionView::InfoVersion,
            Action::InfoPid => ActionView::InfoPid,
            Action::Close(b) => ActionView::Close(b@),
            Action::Aborted => ActionView::Aborted,
            Action::BadEncoding => ActionView::BadEncoding,
        }
    }
}

/// `OK` and a line feed.
pub open spec fn ok_line() -> Seq<u8> {
    encode_utf8("OK"@) + seq![0x0au8]
}

/// `ERR`, the error code and text, and a line feed.
pub open spec fn err_line(code: Seq<char>) -> Seq<u8> {
    encode_utf8("ERR "@) + encode_utf8(code) + seq![0x0au8]
}

/// `D`, the data, and a line feed.
pub open spec fn data_line(data: Seq<u8>) -> Seq<u8> {
    encode_utf8("D "@) + data + seq![0x0au8]
}

/// `OK`, a text, and a line feed.
pub open spec fn ok_text_line(text: Seq<char>) -> Seq<u8> {
    encode_utf8("OK "@) + encode_utf8(text) + seq![0x0au8]
}

/// End of an option's name: the first `=` or space, or the end.
pub open spec fn option_name_end(s: Seq<u8>, i: int) -> int
    decreases s.len() - i,
{
    if i < 0 || i >= s.len() {
        s.len() as int
    } else if s[i] == 0x3d || s[i] == 0x20 {
        i
    } else {
        option_name_end(s, i + 1)
    }
}

/// An option's value: what follows the `=` or space, if anything does.
pub open spec fn option_value(s: Seq<u8>) -> Seq<u8> {
    let e = option_name_end(s, 0);
    if e < s.len() {
        s.skip(e + 1)
    } else {
        Seq::empty()
    }
}

/// `OPTION name[=value]`: an empty name is refused; `ttyname` sets the
/// terminal; other options are accepted and ignored.
pub open spec fn option_effect(p: PinentryView, d: Seq<u8>) -> (PinentryView, ActionView) {
    let e = option_name_end(d, 0);
    if e == 0 {
        (p, ActionView::Reply(err_line(PINENTRY_UNKNOWN_OPTION@)))
    } else if d.take(e) == encode_utf8("ttyname"@) {
        (PinentryView { tty: decode_utf8(option_value(d)), ..p }, ActionView::Reply(ok_line()))
    } else {
        (p, ActionView::Reply(ok_line()))
    }
}

/// `GETINFO`: the data asked for.
pub open spec fn info_action(d: Seq<u8>) -> ActionView {
    if d == encode_utf8("version"@) {
        ActionView::InfoVersion
    } else if d == encode_utf8("pid"@) {
        ActionView::InfoPid
    } else if d == encode_utf8("flavor"@) {
        ActionView::Reply(data_line(encode_utf8("tty"@)) + ok_line())
    } else if d == encode_utf8("ttyinfo"@) {
        ActionView::Reply(data_line(encode_utf8("- - -"@)) + ok_line())
    } else {
        ActionView::Reply(err_line(PINENTRY_PARAMETER_ERROR@) + ok_line())
    }
}

/// What a command with the decoded value `d` does.
pub open spec fn command_effect(p: PinentryView, cmd: Command, d: Seq<u8>) -> (
    PinentryView,
    ActionView,
) {
    let v = decode_utf8(d);
    let ok = ActionView::Reply(ok_line());
    match cmd {
        Command::SetDesc => (PinentryView { description: v, ..p }, ok),
        Command::SetPrompt => (PinentryView { prompt: v, ..p }, ok),
        Command::SetKeyInfo => (PinentryView { keyinfo: v, ..p }, ok),
        Command::SetRepeat => (PinentryView { repeat: v, ..p }, ok),
        Command::SetRepeatError => (PinentryView { repeat_error: v, ..p }, ok),
        Command::SetError => (PinentryView { error: v, ..p }, ok),
        Command::SetOk => (PinentryView { ok: v, ..p }, ok),
        Command::SetNotOk => (PinentryView { notok: v, ..p }, ok),
        Command::SetCancel => (PinentryView { cancel: v, ..p }, ok),
        Command::SetQualityBar => (PinentryView { quality_bar: v, ..p }, ok),
        Command::SetQualityBarTt => (PinentryView { quality_bar_tt: v, ..p }, ok),
        Command::SetTitle => (PinentryView { title: v, ..p }, ok),
        Command::SetTimeout => (p, ActionView::Reply(err_line(USER_NOT_IMPLEMENTED@))),
        Command::ClearPassphrase => (p, ActionView::Reply(err_line(USER_NOT_IMPLEMENTED@))),
        Command::SetOption => option_effect(p, d),
        Command::GetPin => (p, ActionView::GetPin),
        Command::Confirm => (p, ActionView::Confirm(d == encode_utf8("--one-button"@))),
        Command::Message => (p, ActionView::Confirm(true)),
        Command::GetInfo => (p, info_action(d)),
        Command::Bye => (p, ActionView::Close(ok_text_line(CLOSE@))),
        Command::Empty => (p, ActionView::Reply(Seq::empty())),
        Command::Unknown => (p, ActionView::Reply(err_line(USER_UNKNOWN_COMMAND@))),
    }
}

/// What a request line does: a line without its line feed aborts; a value
/// that is not UTF-8 is answered with an error; a value that does not
/// percent-decode to UTF-8 ends the session; anything else is the command's
/// effect, whatever the case of its name.
pub open spec fn request_effect(p: PinentryView, line: Seq<u8>) -> (PinentryView, ActionView) {
    let k = alpha_end(line, 0);
    let v = space_end(line, k);
    let j = newline_from(line, v);
    if j == line.len() {
        (p, ActionView::Aborted)
    } else if !valid_utf8(line.subrange(v, j)) {
        (p, ActionView::Reply(err_line(PINENTRY_PARAMETER_ERROR@)))
    } else if !valid_utf8(percent_decoded(line.subrange(v, j))) {
        (p, ActionView::BadEncoding)
    } else {
        command_effect(p, command_of(upper_bytes(line.take(k))), percent_decoded(line.subrange(v, j)))
    }
}

/// The bytes of `OK` and a line feed.
fn ok_reply() -> (r: Vec<u8>)
    ensures
        r@ == ok_line(),
{
    let mut out: Vec<u8> = Vec::new();
    push_str(&mut out, "OK");
    out.push(0x0a);
    assert(out@ =~= ok_line());
    out
}

/// The bytes of an error line with `code`.
fn err_reply(code: &str) -> (r: Vec<u8>)
    ensures
        r@ == err_line(code@),
{
    let mut out: Vec<u8> = Vec::new();
    push_str(&mut out, "ERR ");
    push_str(&mut out, code);
    out.push(0x0a);
    assert(out@ =~= err_line(code@));
    out
}

/// The first line the pinentry sends: `OK Pleased to meet you`.
pub fn greeting() -> (r: Vec<u8>)
    ensures
        r@ == ok_text_line(START@),
{
    let mut out: Vec<u8> = Vec::new();
    push_str(&mut out, "OK ");
    push_str(&mut out, START);
    out.push(0x0a);
    assert(out@ =~= ok_text_line(START@));
    out
}

/// `D`, the data, then `OK`: the answer to a request for data.
pub fn data_reply(data: &str) -> (r: Vec<u8>)
    ensures
        r@ == data_line(encode_utf8(data@)) + ok_line(),
{
    let mut out: Vec<u8> = Vec::new();
    push_str(&mut out, "D ");
    push_str(&mut out, data);
    out.push(0x0a);
    push_str(&mut out, "OK");
    out.push(0x0a);
    assert(out@ =~= data_line(encode_utf8(data@)) + ok_line());
    out
}

/// The button that ended a confirmation.
#[derive(Clone, Copy, Debug, PartialEq, Eq, Structural)]
pub enum Button {
    Okay,
    Cancel,
    NotOk,
}

/// The answer to a confirmation: `OK`, or the error for a cancelled or
/// refused one.
pub open spec fn button_line(b: Button) -> Seq<u8> {
    match b {
        Button::Okay => ok_line(),
        Button::Cancel => err_line(PINENTRY_OPERATION_CANCELLED@),
        Button::NotOk => err_line(PINENTRY_NOT_CONFIRMED@),
    }
}

/// The answer to a confirmation.
pub fn button_reply(b: Button) -> (r: Vec<u8>)
    ensures
        r@ == button_line(b),
{
    match b {
        Button::Okay => ok_reply(),
        Button::Cancel => err_reply(PINENTRY_OPERATION_CANCELLED),
        Button::NotOk => err_reply(PINENTRY_NOT_CONFIRMED),
    }
}

/// A byte that is not a continuation byte splits valid UTF-8 into two
/// valid parts, and whatever follows an ASCII byte is valid too.
proof fn lemma_valid_after_ascii(d: Seq<u8>, e: int)
    requires
        valid_utf8(d),
        0 <= e < d.len(),
        d[e] < 0x80,
    ensures
        valid_utf8(d.take(e)),
        valid_utf8(d.skip(e + 1)),
{
    is_char_boundary_iff_not_is_continuation_byte(d, e);
    valid_utf8_split(d, e);
    let tail = d.subrange(e, d.len() as int);
    assert(tail[0] == d[e]);
    assert(pop_first_scalar(tail) =~= d.skip(e + 1));
    assert(d.subrange(0, e) =~= d.take(e));
}

proof fn lemma_option_name_end(s: Seq<u8>, i: int)
    requires
        0 <= i <= s.len(),
    ensures
        i <= option_name_end(s, i) <= s.len(),
        option_name_end(s, i) < s.len() ==> (s[option_name_end(s, i)] == 0x3d || s[option_name_end(s, i)] == 0x20),
    decreases s.len() - i,
{
    if i < s.len() && s[i] != 0x3d && s[i] != 0x20 {
        lemma_option_name_end(s, i + 1);
    }
}

impl Pinentry {
    /// Handles one request line from the agent: updates what the agent
    /// has set and says what to answer.
    pub fn handle_request(&mut self, line: &[u8]) -> (action: Action)
        ensures
            (final(self)@, action@) == request_effect(old(self)@, line@),
    {
        let (k, v, j) = split_request(line);
        if j == line.len() {
            return Action::Aborted;
        }
        let raw = slice_subrange(line, v, j);
        match str_from_utf8(raw) {
            Some(_) => {},
            None => {
                return Action::Reply(err_reply(PINENTRY_PARAMETER_ERROR));
            },
        }
        let decoded = percent_decode_bytes(raw);
        let value = match str_from_utf8(decoded.as_slice()) {
            Some(x) => x.to_owned(),
            None => {
                return Action::BadEncoding;
            },
        };
        let name = slice_subrange(line, 0, k);
        assert(name@ =~= line@.take(k as int));
        let command = command_from(name);
        self.apply(command, decoded.as_slice(), value)
    }

    /// Carries out `command` with the decoded value `d` (`value` as a string).
    fn apply(&mut self, command: Command, d: &[u8], value: String) -> (action: Action)
        requires
            valid_utf8(d@),
            value@ == decode_utf8(d@),
        ensures
            (final(self)@, action@) == command_effect(old(self)@, command, d@),
    {
        match command {
            Command::SetDesc => {
                self.description = value;
                Action::Reply(ok_reply())
            },
            Command::SetPrompt => {
                self.prompt = value;
                Action::Reply(ok_reply())
            },
            Command::SetKeyInfo => {
                self.keyinfo = value;
                Action::Reply(ok_reply())
            },
            Command::SetRepeat => {
                self.repeat = value;
                Action::Reply(ok_reply())
            },
            Command::SetRepeatError => {
                self.repeat_error = value;
                Action::Reply(ok_reply())
            },
            Command::SetError => {
                self.error = value;
                Action::Reply(ok_reply())
            },
            Command::SetOk => {
                self.ok = value;
                Action::Reply(ok_reply())
            },
            Command::SetNotOk => {
                self.notok = value;
                Action::Reply(ok_reply())
            },
            Command::SetCancel => {
                self.cancel = value;
                Action::Reply(ok_reply())
            },
            Command::SetQualityBar => {
                self.quality_bar = value;
                Action::Reply(ok_reply())
            },
            Command::SetQualityBarTt => {
                self.quality_bar_tt = value;
                Action::Reply(ok_reply())
            },
            Command::SetTitle => {
                self.title = value;
                Action::Reply(ok_reply())
            },
            Command::SetTimeout => Action::Reply(err_reply(USER_NOT_IMPLEMENTED)),
            Command::ClearPassphrase => Action::Reply(err_reply(USER_NOT_IMPLEMENTED)),
            Command::SetOption => self.set_option(d),
            Command::GetPin => Action::GetPin,
            Command::Confirm => Action::Confirm(bytes_eq(d, "--one-button".as_bytes())),
            Command::Message => Action::Confirm(true),
            Command::GetInfo => {
                if bytes_eq(d, "version".as_bytes()) {
                    Action::InfoVersion
                } else if bytes_eq(d, "pid".as_bytes()) {
                    Action::InfoPid
                } else if bytes_eq(d, "flavor".as_bytes()) {
                    Action::Reply(data_reply("tty"))
                } else if bytes_eq(d, "ttyinfo".as_bytes()) {
                    Action::Reply(data_reply("- - -"))
                } else {
                    let mut out = err_reply(PINENTRY_PARAMETER_ERROR);
                    push_str(&mut out, "OK");
                    out.push(0x0a);
                    assert(out@ =~= err_line(PINENTRY_PARAMETER_ERROR@) + ok_line());
                    Action::Reply(out)
                }
            },
            Command::Bye => {
                let mut out: Vec<u8> = Vec::new();
                push_str(&mut out, "OK ");
                push_str(&mut out, CLOSE);
                out.push(0x0a);
                assert(out@ =~= ok_text_line(CLOSE@));
                Action::Close(out)
            },
            Command::Empty => Action::Reply(Vec::new()),
            Command::Unknown => Action::Reply(err_reply(USER_UNKNOWN_COMMAND)),
        }
    }

    /// `OPTION`: the terminal to use is `ttyname`.
    fn set_option(&mut self, d: &[u8]) -> (action: Action)
        requires
            valid_utf8(d@),
        ensures
            (final(self)@, action@) == option_effect(old(self)@, d@),
    {
        let n = d.len();
        proof {
            lemma_option_name_end(d@, 0);
        }
        let mut e: usize = 0;
        while e < n && d[e] != 0x3d && d[e] != 0x20
            invariant
                n == d@.len(),
                e <= n,
                option_name_end(d@, e as int) == option_name_end(d@, 0),
            decreases n - e,
        {
            e = e + 1;
        }
        if e == 0 {
            return Action::Reply(err_reply(PINENTRY_UNKNOWN_OPTION));
        }
        let name = slice_subrange(d, 0, e);
        assert(name@ =~= d@.take(e as int));
        if bytes_eq(name, "ttyname".as_bytes()) {
            let rest = if e < n {
                slice_subrange(d, e + 1, n)
            } else {
                slice_subrange(d, n, n)
            };
            proof {
                if e < n {
                    lemma_valid_after_ascii(d@, e as int);
                    assert(rest@ =~= d@.skip(e + 1));
                } else {
                    assert(rest@ =~= Seq::<u8>::empty());
                }
            }
            match str_from_utf8(rest) {
                Some(t) => {
                    self.tty = t.to_owned();
                },
                None => {
                    assert(false);
                },
            }
        }
        Action::Reply(ok_reply())
    }
}

/// What `GETINFO` asked of the pinentry itself answers: the version, the
/// process id, the flavour `tty`, or a parameter error.
pub open spec fn get_info_action(value: Seq<char>) -> ActionView {
    if value == "version"@ {
        ActionView::InfoVersion
    } else if value == "pid"@ {
        ActionView::InfoPid
    } else if value == "flavor"@ {
        ActionView::Reply(data_line(encode_utf8("tty"@)))
    } else {
        ActionView::Reply(err_line(PINENTRY_PARAMETER_ERROR@))
    }
}

/// Equal encodings are encodings of equal texts.
proof fn lemma_encode_injective(a: Seq<char>, b: Seq<char>)
    requires
        encode_utf8(a) == encode_utf8(b),
    ensures
        a == b,
{
    encode_utf8_decode_utf8(a);
    encode_utf8_decode_utf8(b);
}

/// Whether a string is the given one.
fn str_is(s: &str, t: &str) -> (r: bool)
    ensures
        r == (s@ == t@),
{
    let r = bytes_eq(s.as_bytes(), t.as_bytes());
    proof {
        if r {
            lemma_encode_injective(s@, t@);
        }
    }
    r
}

impl Pinentry {
    /// Answers a request for information about the pinentry.
    pub fn get_info(&self, value: &str) -> (r: Action)
        ensures
            r@ == get_info_action(value@),
    {
        if str_is(value, "version") {
            Action::InfoVersion
        } else if str_is(value, "pid") {
            Action::InfoPid
        } else if str_is(value, "flavor") {
            let mut out: Vec<u8> = Vec::new();
            push_str(&mut out, "D ");
            push_str(&mut out, "tty");
            out.push(0x0a);
            assert(out@ =~= data_line(encode_utf8("tty"@)));
            Action::Reply(out)
        } else {
            Action::Reply(err_reply(PINENTRY_PARAMETER_ERROR))
        }
    }
}

} // verus!
