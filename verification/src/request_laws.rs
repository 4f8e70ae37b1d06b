//! What each request of the pinentry protocol sets: a `SET` command stores
//! its decoded value in its own field, and nothing else.

use vstd::prelude::*;
use vstd::utf8::*;
use crate::encoding::{lemma_char_bytes_ascii, lemma_last_scalar};
use crate::laws::{lemma_encode_len_at_least, law_request_line_parts, request_complete, request_value};
use crate::pinentry::{
    command_of, data_line, err_line, option_name_end, is_alphabetic, is_space, ok_line, percent_decoded,
    request_effect, upper_bytes, ActionView, Command, PinentryView,
};
use crate::utils::{PINENTRY_PARAMETER_ERROR, USER_NOT_IMPLEMENTED};

verus! {



/// Upper-case ASCII letters.
pub open spec fn upper_letters(cs: Seq<char>) -> bool {
    forall|i: int| 0 <= i < cs.len() ==> 'A' <= #[trigger] cs[i] <= 'Z'
}

/// An upper-case ASCII name encodes as one byte per letter, each a letter
/// that upper-casing keeps.
proof fn lemma_upper_name(cs: Seq<char>)
    requires
        upper_letters(cs),
    ensures
        encode_utf8(cs).len() == cs.len(),
        forall|i: int| 0 <= i < cs.len() ==> #[trigger] encode_utf8(cs)[i] == cs[i] as u32 as u8,
        forall|i: int| 0 <= i < cs.len() ==> is_alphabetic(#[trigger] encode_utf8(cs)[i]),
        upper_bytes(encode_utf8(cs)) == encode_utf8(cs),
    decreases cs.len(),
{
    if cs.len() > 0 {
        let c = cs.last();
        let pre = cs.drop_last();
        assert(upper_letters(pre)) by {
            assert forall|i: int| 0 <= i < pre.len() implies 'A' <= #[trigger] pre[i] <= 'Z' by {
                assert(pre[i] == cs[i]);
            }
        }
        lemma_upper_name(pre);
        lemma_last_scalar(cs);
        lemma_char_bytes_ascii(c);
        assert('A' <= cs[cs.len() - 1] <= 'Z');
        let e = encode_utf8(cs);
        let n = pre.len() as int;
        assert forall|i: int| 0 <= i < cs.len() implies #[trigger] e[i] == cs[i] as u32 as u8 by {
            if i < n {
                assert(e[i] == encode_utf8(pre)[i]);
                assert(pre[i] == cs[i]);
            }
        }
        assert forall|i: int| 0 <= i < cs.len() implies is_alphabetic(#[trigger] e[i]) by {
            assert(e[i] == cs[i] as u32 as u8);
            assert('A' <= cs[i] <= 'Z');
        }
        assert(upper_bytes(e) =~= e);
    } else {
        assert(encode_utf8(cs) =~= Seq::<u8>::empty());
        assert(upper_bytes(encode_utf8(cs)) =~= encode_utf8(cs));
    }
}

/// An ASCII text encodes as one byte per character, its code.
proof fn lemma_ascii_text(cs: Seq<char>)
    requires
        forall|i: int| 0 <= i < cs.len() ==> (#[trigger] cs[i] as u32) < 0x80,
    ensures
        encode_utf8(cs).len() == cs.len(),
        forall|i: int| 0 <= i < cs.len() ==> #[trigger] encode_utf8(cs)[i] == cs[i] as u32 as u8,
    decreases cs.len(),
{
    if cs.len() > 0 {
        let c = cs.last();
        let pre = cs.drop_last();
        assert forall|i: int| 0 <= i < pre.len() implies (#[trigger] pre[i] as u32) < 0x80 by {
            assert(pre[i] == cs[i]);
        }
        lemma_ascii_text(pre);
        lemma_last_scalar(cs);
        lemma_char_bytes_ascii(c);
        assert((cs[cs.len() - 1] as u32) < 0x80);
        let e = encode_utf8(cs);
        assert forall|i: int| 0 <= i < cs.len() implies #[trigger] e[i] == cs[i] as u32 as u8 by {
            if i < pre.len() {
                assert(e[i] == encode_utf8(pre)[i]);
                assert(pre[i] == cs[i]);
            }
        }
    } else {
        assert(encode_utf8(cs) =~= Seq::<u8>::empty());
    }
}


/// A request line: the name, a space, the raw value and a line feed.
pub open spec fn request_line(name: Seq<char>, value: Seq<u8>) -> Seq<u8> {
    encode_utf8(name) + seq![0x20u8] + value + seq![0x0au8]
}

/// A raw value as a request carries it: no line feed, no leading space or
/// tab, UTF-8 before and after percent-decoding.
pub open spec fn plain_value(v: Seq<u8>) -> bool {
    &&& forall|i: int| 0 <= i < v.len() ==> #[trigger] v[i] != 0x0a
    &&& v.len() > 0 ==> !is_space(v[0])
    &&& valid_utf8(v)
    &&& valid_utf8(percent_decoded(v))
}

/// An upper-case ASCII name encodes as one byte per letter.
proof fn lemma_upper_len(cs: Seq<char>)
    requires
        upper_letters(cs),
    ensures
        encode_utf8(cs).len() == cs.len(),
{
    lemma_upper_name(cs);
}

/// Each command name names its command.
proof fn lemma_name_setdesc()
    ensures
        command_of(encode_utf8("SETDESC"@)) == Command::SetDesc,
{
    reveal_strlit("SETDESC");
    lemma_upper_len("SETDESC"@);
}

proof fn lemma_name_setprompt()
    ensures
        command_of(encode_utf8("SETPROMPT"@)) == Command::SetPrompt,
{
    reveal_strlit("SETPROMPT");
    lemma_upper_len("SETPROMPT"@);
    reveal_strlit("SETDESC");
    lemma_upper_len("SETDESC"@);
}

proof fn lemma_name_setkeyinfo()
    ensures
        command_of(encode_utf8("SETKEYINFO"@)) == Command::SetKeyInfo,
{
    reveal_strlit("SETKEYINFO");
    lemma_upper_len("SETKEYINFO"@);
    reveal_strlit("SETDESC");
    lemma_upper_len("SETDESC"@);
    reveal_strlit("SETPROMPT");
    lemma_upper_len("SETPROMPT"@);
}

proof fn lemma_name_setrepeat()
    ensures
        command_of(encode_utf8("SETREPEAT"@)) == Command::SetRepeat,
{
    reveal_strlit("SETREPEAT");
    lemma_upper_name("SETREPEAT"@);
    reveal_strlit("SETDESC");
    lemma_upper_len("SETDESC"@);
    reveal_strlit("SETPROMPT");
    lemma_upper_name("SETPROMPT"@);
    assert(encode_utf8("SETPROMPT"@)[3] != encode_utf8("SETREPEAT"@)[3]);
    reveal_strlit("SETKEYINFO");
    lemma_upper_len("SETKEYINFO"@);
}

proof fn lemma_name_setrepeaterror()
    ensures
        command_of(encode_utf8("SETREPEATERROR"@)) == Command::SetRepeatError,
{
    reveal_strlit("SETREPEATERROR");
    lemma_upper_len("SETREPEATERROR"@);
    reveal_strlit("SETDESC");
    lemma_upper_len("SETDESC"@);
    reveal_strlit("SETPROMPT");
    lemma_upper_len("SETPROMPT"@);
    reveal_strlit("SETKEYINFO");
    lemma_upper_len("SETKEYINFO"@);
    reveal_strlit("SETREPEAT");
    lemma_upper_len("SETREPEAT"@);
}

proof fn lemma_name_seterror()
    ensures
        command_of(encode_utf8("SETERROR"@)) == Command::SetError,
{
    reveal_strlit("SETERROR");
    lemma_upper_len("SETERROR"@);
    reveal_strlit("SETDESC");
    lemma_upper_len("SETDESC"@);
    reveal_strlit("SETPROMPT");
    lemma_upper_len("SETPROMPT"@);
    reveal_strlit("SETKEYINFO");
    lemma_upper_len("SETKEYINFO"@);
    reveal_strlit("SETREPEAT");
    lemma_upper_len("SETREPEAT"@);
    reveal_strlit("SETREPEATERROR");
    lemma_upper_len("SETREPEATERROR"@);
}

proof fn lemma_name_setok()
    ensures
        command_of(encode_utf8("SETOK"@)) == Command::SetOk,
{
    reveal_strlit("SETOK");
    lemma_upper_len("SETOK"@);
    reveal_strlit("SETDESC");
    lemma_upper_len("SETDESC"@);
    reveal_strlit("SETPROMPT");
    lemma_upper_len("SETPROMPT"@);
    reveal_strlit("SETKEYINFO");
    lemma_upper_len("SETKEYINFO"@);
    reveal_strlit("SETREPEAT");
    lemma_upper_len("SETREPEAT"@);
    reveal_strlit("SETREPEATERROR");
    lemma_upper_len("SETREPEATERROR"@);
    reveal_strlit("SETERROR");
    lemma_upper_len("SETERROR"@);
}

proof fn lemma_name_setnotok()
    ensures
        command_of(encode_utf8("SETNOTOK"@)) == Command::SetNotOk,
{
    reveal_strlit("SETNOTOK");
    lemma_upper_name("SETNOTOK"@);
    reveal_strlit("SETDESC");
    lemma_upper_len("SETDESC"@);
    reveal_strlit("SETPROMPT");
    lemma_upper_len("SETPROMPT"@);
    reveal_strlit("SETKEYINFO");
    lemma_upper_len("SETKEYINFO"@);
    reveal_strlit("SETREPEAT");
    lemma_upper_len("SETREPEAT"@);
    reveal_strlit("SETREPEATERROR");
    lemma_upper_len("SETREPEATERROR"@);
    reveal_strlit("SETERROR");
    lemma_upper_name("SETERROR"@);
    assert(encode_utf8("SETERROR"@)[3] != encode_utf8("SETNOTOK"@)[3]);
    reveal_strlit("SETOK");
    lemma_upper_len("SETOK"@);
}

proof fn lemma_name_setcancel()
    ensures
        command_of(encode_utf8("SETCANCEL"@)) == Command::SetCancel,
{
    reveal_strlit("SETCANCEL");
    lemma_upper_name("SETCANCEL"@);
    reveal_strlit("SETDESC");
    lemma_upper_len("SETDESC"@);
    reveal_strlit("SETPROMPT");
    lemma_upper_name("SETPROMPT"@);
    assert(encode_utf8("SETPROMPT"@)[3] != encode_utf8("SETCANCEL"@)[3]);
    reveal_strlit("SETKEYINFO");
    lemma_upper_len("SETKEYINFO"@);
    reveal_strlit("SETREPEAT");
    lemma_upper_name("SETREPEAT"@);
    assert(encode_utf8("SETREPEAT"@)[3] != encode_utf8("SETCANCEL"@)[3]);
    reveal_strlit("SETREPEATERROR");
    lemma_upper_len("SETREPEATERROR"@);
    reveal_strlit("SETERROR");
    lemma_upper_len("SETERROR"@);
    reveal_strlit("SETOK");
    lemma_upper_len("SETOK"@);
    reveal_strlit("SETNOTOK");
    lemma_upper_len("SETNOTOK"@);
}

proof fn lemma_name_setqualitybar()
    ensures
        command_of(encode_utf8("SETQUALITYBAR"@)) == Command::SetQualityBar,
{
    reveal_strlit("SETQUALITYBAR");
    lemma_upper_len("SETQUALITYBAR"@);
    reveal_strlit("SETDESC");
    lemma_upper_len("SETDESC"@);
    reveal_strlit("SETPROMPT");
    lemma_upper_len("SETPROMPT"@);
    reveal_strlit("SETKEYINFO");
    lemma_upper_len("SETKEYINFO"@);
    reveal_strlit("SETREPEAT");
    lemma_upper_len("SETREPEAT"@);
    reveal_strlit("SETREPEATERROR");
    lemma_upper_len("SETREPEATERROR"@);
    reveal_strlit("SETERROR");
    lemma_upper_len("SETERROR"@);
    reveal_strlit("SETOK");
    lemma_upper_len("SETOK"@);
    reveal_strlit("SETNOTOK");
    lemma_upper_len("SETNOTOK"@);
    reveal_strlit("SETCANCEL");
    lemma_upper_len("SETCANCEL"@);
}

proof fn lemma_name_settitle()
    ensures
        command_of(encode_utf8("SETTITLE"@)) == Command::SetTitle,
{
    reveal_strlit("SETTITLE");
    lemma_upper_name("SETTITLE"@);
    reveal_strlit("SETDESC");
    lemma_upper_len("SETDESC"@);
    reveal_strlit("SETPROMPT");
    lemma_upper_len("SETPROMPT"@);
    reveal_strlit("SETKEYINFO");
    lemma_upper_len("SETKEYINFO"@);
    reveal_strlit("SETREPEAT");
    lemma_upper_len("SETREPEAT"@);
    reveal_strlit("SETREPEATERROR");
    lemma_upper_len("SETREPEATERROR"@);
    reveal_strlit("SETERROR");
    lemma_upper_name("SETERROR"@);
    assert(encode_utf8("SETERROR"@)[3] != encode_utf8("SETTITLE"@)[3]);
    reveal_strlit("SETOK");
    lemma_upper_len("SETOK"@);
    reveal_strlit("SETNOTOK");
    lemma_upper_name("SETNOTOK"@);
    assert(encode_utf8("SETNOTOK"@)[3] != encode_utf8("SETTITLE"@)[3]);
    reveal_strlit("SETCANCEL");
    lemma_upper_len("SETCANCEL"@);
    reveal_strlit("SETQUALITYBAR");
    lemma_upper_len("SETQUALITYBAR"@);
    reveal_strlit("SETQUALITYBAR_TT");
    lemma_encode_len_at_least("SETQUALITYBAR_TT"@);
}

proof fn lemma_name_settimeout()
    ensures
        command_of(encode_utf8("SETTIMEOUT"@)) == Command::SetTimeout,
{
    reveal_strlit("SETTIMEOUT");
    lemma_upper_name("SETTIMEOUT"@);
    reveal_strlit("SETDESC");
    lemma_upper_len("SETDESC"@);
    reveal_strlit("SETPROMPT");
    lemma_upper_len("SETPROMPT"@);
    reveal_strlit("SETKEYINFO");
    lemma_upper_name("SETKEYINFO"@);
    assert(encode_utf8("SETKEYINFO"@)[3] != encode_utf8("SETTIMEOUT"@)[3]);
    reveal_strlit("SETREPEAT");
    lemma_upper_len("SETREPEAT"@);
    reveal_strlit("SETREPEATERROR");
    lemma_upper_len("SETREPEATERROR"@);
    reveal_strlit("SETERROR");
    lemma_upper_len("SETERROR"@);
    reveal_strlit("SETOK");
    lemma_upper_len("SETOK"@);
    reveal_strlit("SETNOTOK");
    lemma_upper_len("SETNOTOK"@);
    reveal_strlit("SETCANCEL");
    lemma_upper_len("SETCANCEL"@);
    reveal_strlit("SETQUALITYBAR");
    lemma_upper_len("SETQUALITYBAR"@);
    reveal_strlit("SETQUALITYBAR_TT");
    lemma_encode_len_at_least("SETQUALITYBAR_TT"@);
    reveal_strlit("SETTITLE");
    lemma_upper_len("SETTITLE"@);
}

proof fn lemma_name_clearpassphrase()
    ensures
        command_of(encode_utf8("CLEARPASSPHRASE"@)) == Command::ClearPassphrase,
{
    reveal_strlit("CLEARPASSPHRASE");
    lemma_upper_len("CLEARPASSPHRASE"@);
    reveal_strlit("SETDESC");
    lemma_upper_len("SETDESC"@);
    reveal_strlit("SETPROMPT");
    lemma_upper_len("SETPROMPT"@);
    reveal_strlit("SETKEYINFO");
    lemma_upper_len("SETKEYINFO"@);
    reveal_strlit("SETREPEAT");
    lemma_upper_len("SETREPEAT"@);
    reveal_strlit("SETREPEATERROR");
    lemma_upper_len("SETREPEATERROR"@);
    reveal_strlit("SETERROR");
    lemma_upper_len("SETERROR"@);
    reveal_strlit("SETOK");
    lemma_upper_len("SETOK"@);
    reveal_strlit("SETNOTOK");
    lemma_upper_len("SETNOTOK"@);
    reveal_strlit("SETCANCEL");
    lemma_upper_len("SETCANCEL"@);
    reveal_strlit("SETQUALITYBAR");
    lemma_upper_len("SETQUALITYBAR"@);
    reveal_strlit("SETQUALITYBAR_TT");
    lemma_encode_len_at_least("SETQUALITYBAR_TT"@);
    reveal_strlit("SETTITLE");
    lemma_upper_len("SETTITLE"@);
    reveal_strlit("SETTIMEOUT");
    lemma_upper_len("SETTIMEOUT"@);
}

proof fn lemma_name_option()
    ensures
        command_of(encode_utf8("OPTION"@)) == Command::SetOption,
{
    reveal_strlit("OPTION");
    lemma_upper_len("OPTION"@);
    reveal_strlit("SETDESC");
    lemma_upper_len("SETDESC"@);
    reveal_strlit("SETPROMPT");
    lemma_upper_len("SETPROMPT"@);
    reveal_strlit("SETKEYINFO");
    lemma_upper_len("SETKEYINFO"@);
    reveal_strlit("SETREPEAT");
    lemma_upper_len("SETREPEAT"@);
    reveal_strlit("SETREPEATERROR");
    lemma_upper_len("SETREPEATERROR"@);
    reveal_strlit("SETERROR");
    lemma_upper_len("SETERROR"@);
    reveal_strlit("SETOK");
    lemma_upper_len("SETOK"@);
    reveal_strlit("SETNOTOK");
    lemma_upper_len("SETNOTOK"@);
    reveal_strlit("SETCANCEL");
    lemma_upper_len("SETCANCEL"@);
    reveal_strlit("SETQUALITYBAR");
    lemma_upper_len("SETQUALITYBAR"@);
    reveal_strlit("SETQUALITYBAR_TT");
    lemma_encode_len_at_least("SETQUALITYBAR_TT"@);
    reveal_strlit("SETTITLE");
    lemma_upper_len("SETTITLE"@);
    reveal_strlit("SETTIMEOUT");
    lemma_upper_len("SETTIMEOUT"@);
    reveal_strlit("CLEARPASSPHRASE");
    lemma_upper_len("CLEARPASSPHRASE"@);
}

proof fn lemma_name_getpin()
    ensures
        command_of(encode_utf8("GETPIN"@)) == Command::GetPin,
{
    reveal_strlit("GETPIN");
    lemma_upper_name("GETPIN"@);
    reveal_strlit("SETDESC");
    lemma_upper_len("SETDESC"@);
    reveal_strlit("SETPROMPT");
    lemma_upper_len("SETPROMPT"@);
    reveal_strlit("SETKEYINFO");
    lemma_upper_len("SETKEYINFO"@);
    reveal_strlit("SETREPEAT");
    lemma_upper_len("SETREPEAT"@);
    reveal_strlit("SETREPEATERROR");
    lemma_upper_len("SETREPEATERROR"@);
    reveal_strlit("SETERROR");
    lemma_upper_len("SETERROR"@);
    reveal_strlit("SETOK");
    lemma_upper_len("SETOK"@);
    reveal_strlit("SETNOTOK");
    lemma_upper_len("SETNOTOK"@);
    reveal_strlit("SETCANCEL");
    lemma_upper_len("SETCANCEL"@);
    reveal_strlit("SETQUALITYBAR");
    lemma_upper_len("SETQUALITYBAR"@);
    reveal_strlit("SETQUALITYBAR_TT");
    lemma_encode_len_at_least("SETQUALITYBAR_TT"@);
    reveal_strlit("SETTITLE");
    lemma_upper_len("SETTITLE"@);
    reveal_strlit("SETTIMEOUT");
    lemma_upper_len("SETTIMEOUT"@);
    reveal_strlit("CLEARPASSPHRASE");
    lemma_upper_len("CLEARPASSPHRASE"@);
    reveal_strlit("OPTION");
    lemma_upper_name("OPTION"@);
    assert(encode_utf8("OPTION"@)[0] != encode_utf8("GETPIN"@)[0]);
}

proof fn lemma_name_confirm()
    ensures
        command_of(encode_utf8("CONFIRM"@)) == Command::Confirm,
{
    reveal_strlit("CONFIRM");
    lemma_upper_name("CONFIRM"@);
    reveal_strlit("SETDESC");
    lemma_upper_name("SETDESC"@);
    assert(encode_utf8("SETDESC"@)[0] != encode_utf8("CONFIRM"@)[0]);
    reveal_strlit("SETPROMPT");
    lemma_upper_len("SETPROMPT"@);
    reveal_strlit("SETKEYINFO");
    lemma_upper_len("SETKEYINFO"@);
    reveal_strlit("SETREPEAT");
    lemma_upper_len("SETREPEAT"@);
    reveal_strlit("SETREPEATERROR");
    lemma_upper_len("SETREPEATERROR"@);
    reveal_strlit("SETERROR");
    lemma_upper_len("SETERROR"@);
    reveal_strlit("SETOK");
    lemma_upper_len("SETOK"@);
    reveal_strlit("SETNOTOK");
    lemma_upper_len("SETNOTOK"@);
    reveal_strlit("SETCANCEL");
    lemma_upper_len("SETCANCEL"@);
    reveal_strlit("SETQUALITYBAR");
    lemma_upper_len("SETQUALITYBAR"@);
    reveal_strlit("SETQUALITYBAR_TT");
    lemma_encode_len_at_least("SETQUALITYBAR_TT"@);
    reveal_strlit("SETTITLE");
    lemma_upper_len("SETTITLE"@);
    reveal_strlit("SETTIMEOUT");
    lemma_upper_len("SETTIMEOUT"@);
    reveal_strlit("CLEARPASSPHRASE");
    lemma_upper_len("CLEARPASSPHRASE"@);
    reveal_strlit("OPTION");
    lemma_upper_len("OPTION"@);
    reveal_strlit("GETPIN");
    lemma_upper_len("GETPIN"@);
}

proof fn lemma_name_message()
    ensures
        command_of(encode_utf8("MESSAGE"@)) == Command::Message,
{
    reveal_strlit("MESSAGE");
    lemma_upper_name("MESSAGE"@);
    reveal_strlit("SETDESC");
    lemma_upper_name("SETDESC"@);
    assert(encode_utf8("SETDESC"@)[0] != encode_utf8("MESSAGE"@)[0]);
    reveal_strlit("SETPROMPT");
    lemma_upper_len("SETPROMPT"@);
    reveal_strlit("SETKEYINFO");
    lemma_upper_len("SETKEYINFO"@);
    reveal_strlit("SETREPEAT");
    lemma_upper_len("SETREPEAT"@);
    reveal_strlit("SETREPEATERROR");
    lemma_upper_len("SETREPEATERROR"@);
    reveal_strlit("SETERROR");
    lemma_upper_len("SETERROR"@);
    reveal_strlit("SETOK");
    lemma_upper_len("SETOK"@);
    reveal_strlit("SETNOTOK");
    lemma_upper_len("SETNOTOK"@);
    reveal_strlit("SETCANCEL");
    lemma_upper_len("SETCANCEL"@);
    reveal_strlit("SETQUALITYBAR");
    lemma_upper_len("SETQUALITYBAR"@);
    reveal_strlit("SETQUALITYBAR_TT");
    lemma_encode_len_at_least("SETQUALITYBAR_TT"@);
    reveal_strlit("SETTITLE");
    lemma_upper_len("SETTITLE"@);
    reveal_strlit("SETTIMEOUT");
    lemma_upper_len("SETTIMEOUT"@);
    reveal_strlit("CLEARPASSPHRASE");
    lemma_upper_len("CLEARPASSPHRASE"@);
    reveal_strlit("OPTION");
    lemma_upper_len("OPTION"@);
    reveal_strlit("GETPIN");
    lemma_upper_len("GETPIN"@);
    reveal_strlit("CONFIRM");
    lemma_upper_name("CONFIRM"@);
    assert(encode_utf8("CONFIRM"@)[0] != encode_utf8("MESSAGE"@)[0]);
}

proof fn lemma_name_getinfo()
    ensures
        command_of(encode_utf8("GETINFO"@)) == Command::GetInfo,
{
    reveal_strlit("GETINFO");
    lemma_upper_name("GETINFO"@);
    reveal_strlit("SETDESC");
    lemma_upper_name("SETDESC"@);
    assert(encode_utf8("SETDESC"@)[0] != encode_utf8("GETINFO"@)[0]);
    reveal_strlit("SETPROMPT");
    lemma_upper_len("SETPROMPT"@);
    reveal_strlit("SETKEYINFO");
    lemma_upper_len("SETKEYINFO"@);
    reveal_strlit("SETREPEAT");
    lemma_upper_len("SETREPEAT"@);
    reveal_strlit("SETREPEATERROR");
    lemma_upper_len("SETREPEATERROR"@);
    reveal_strlit("SETERROR");
    lemma_upper_len("SETERROR"@);
    reveal_strlit("SETOK");
    lemma_upper_len("SETOK"@);
    reveal_strlit("SETNOTOK");
    lemma_upper_len("SETNOTOK"@);
    reveal_strlit("SETCANCEL");
    lemma_upper_len("SETCANCEL"@);
    reveal_strlit("SETQUALITYBAR");
    lemma_upper_len("SETQUALITYBAR"@);
    reveal_strlit("SETQUALITYBAR_TT");
    lemma_encode_len_at_least("SETQUALITYBAR_TT"@);
    reveal_strlit("SETTITLE");
    lemma_upper_len("SETTITLE"@);
    reveal_strlit("SETTIMEOUT");
    lemma_upper_len("SETTIMEOUT"@);
    reveal_strlit("CLEARPASSPHRASE");
    lemma_upper_len("CLEARPASSPHRASE"@);
    reveal_strlit("OPTION");
    lemma_upper_len("OPTION"@);
    reveal_strlit("GETPIN");
    lemma_upper_len("GETPIN"@);
    reveal_strlit("CONFIRM");
    lemma_upper_name("CONFIRM"@);
    assert(encode_utf8("CONFIRM"@)[0] != encode_utf8("GETINFO"@)[0]);
    reveal_strlit("MESSAGE");
    lemma_upper_name("MESSAGE"@);
    assert(encode_utf8("MESSAGE"@)[0] != encode_utf8("GETINFO"@)[0]);
}

proof fn lemma_named_request(p: PinentryView, name: Seq<char>, v: Seq<u8>, cmd: Command)
    requires
        upper_letters(name),
        plain_value(v),
        command_of(encode_utf8(name)) == cmd,
    ensures
        request_effect(p, request_line(name, v)) == crate::pinentry::command_effect(
            p,
            cmd,
            percent_decoded(v),
        ),
{
    lemma_upper_name(name);
    let n = encode_utf8(name);
    assert forall|i: int| 0 <= i < n.len() implies is_alphabetic(#[trigger] n[i]) by {}
    law_request_line_parts(n, v);
}

/// `SETDESC value` stores the percent-decoded value as the `description`,
/// leaves every other field as it was, and is answered with `OK`.
pub proof fn law_setdesc_sets_description(p: PinentryView, v: Seq<u8>)
    requires
        plain_value(v),
    ensures
        request_effect(p, request_line("SETDESC"@, v)) == (
            PinentryView { description: decode_utf8(percent_decoded(v)), ..p },
            ActionView::Reply(ok_line()),
        ),
{
    assert(command_of(encode_utf8("SETDESC"@)) == Command::SetDesc) by {
        lemma_name_setdesc();
    }
    reveal_strlit("SETDESC");
    lemma_named_request(p, "SETDESC"@, v, Command::SetDesc);
}

/// `SETPROMPT value` stores the percent-decoded value as the `prompt`,
/// leaves every other field as it was, and is answered with `OK`.
pub proof fn law_setprompt_sets_prompt(p: PinentryView, v: Seq<u8>)
    requires
        plain_value(v),
    ensures
        request_effect(p, request_line("SETPROMPT"@, v)) == (
            PinentryView { prompt: decode_utf8(percent_decoded(v)), ..p },
            ActionView::Reply(ok_line()),
        ),
{
    assert(command_of(encode_utf8("SETPROMPT"@)) == Command::SetPrompt) by {
        lemma_name_setprompt();
    }
    reveal_strlit("SETPROMPT");
    lemma_named_request(p, "SETPROMPT"@, v, Command::SetPrompt);
}

/// `SETKEYINFO value` stores the percent-decoded value as the `keyinfo`,
/// leaves every other field as it was, and is answered with `OK`.
pub proof fn law_setkeyinfo_sets_keyinfo(p: PinentryView, v: Seq<u8>)
    requires
        plain_value(v),
    ensures
        request_effect(p, request_line("SETKEYINFO"@, v)) == (
            PinentryView { keyinfo: decode_utf8(percent_decoded(v)), ..p },
            ActionView::Reply(ok_line()),
        ),
{
    assert(command_of(encode_utf8("SETKEYINFO"@)) == Command::SetKeyInfo) by {
        lemma_name_setkeyinfo();
    }
    reveal_strlit("SETKEYINFO");
    lemma_named_request(p, "SETKEYINFO"@, v, Command::SetKeyInfo);
}

/// `SETREPEAT value` stores the percent-decoded value as the `repeat`,
/// leaves every other field as it was, and is answered with `OK`.
pub proof fn law_setrepeat_sets_repeat(p: PinentryView, v: Seq<u8>)
    requires
        plain_value(v),
    ensures
        request_effect(p, request_line("SETREPEAT"@, v)) == (
            PinentryView { repeat: decode_utf8(percent_decoded(v)), ..p },
            ActionView::Reply(ok_line()),
        ),
{
    assert(command_of(encode_utf8("SETREPEAT"@)) == Command::SetRepeat) by {
        lemma_name_setrepeat();
    }
    reveal_strlit("SETREPEAT");
    lemma_named_request(p, "SETREPEAT"@, v, Command::SetRepeat);
}

/// `SETREPEATERROR value` stores the percent-decoded value as the `repeat_error`,
/// leaves every other field as it was, and is answered with `OK`.
pub proof fn law_setrepeaterror_sets_repeat_error(p: PinentryView, v: Seq<u8>)
    requires
        plain_value(v),
    ensures
        request_effect(p, request_line("SETREPEATERROR"@, v)) == (
            PinentryView { repeat_error: decode_utf8(percent_decoded(v)), ..p },
            ActionView::Reply(ok_line()),
        ),
{
    assert(command_of(encode_utf8("SETREPEATERROR"@)) == Command::SetRepeatError) by {
        lemma_name_setrepeaterror();
    }
    reveal_strlit("SETREPEATERROR");
    lemma_named_request(p, "SETREPEATERROR"@, v, Command::SetRepeatError);
}

/// `SETERROR value` stores the percent-decoded value as the `error`,
/// leaves every other field as it was, and is answered with `OK`.
pub proof fn law_seterror_sets_error(p: PinentryView, v: Seq<u8>)
    requires
        plain_value(v),
    ensures
        request_effect(p, request_line("SETERROR"@, v)) == (
            PinentryView { error: decode_utf8(percent_decoded(v)), ..p },
            ActionView::Reply(ok_line()),
        ),
{
    assert(command_of(encode_utf8("SETERROR"@)) == Command::SetError) by {
        lemma_name_seterror();
    }
    reveal_strlit("SETERROR");
    lemma_named_request(p, "SETERROR"@, v, Command::SetError);
}

/// `SETOK value` stores the percent-decoded value as the `ok`,
/// leaves every other field as it was, and is answered with `OK`.
pub proof fn law_setok_sets_ok(p: PinentryView, v: Seq<u8>)
    requires
        plain_value(v),
    ensures
        request_effect(p, request_line("SETOK"@, v)) == (
            PinentryView { ok: decode_utf8(percent_decoded(v)), ..p },
            ActionView::Reply(ok_line()),
        ),
{
    assert(command_of(encode_utf8("SETOK"@)) == Command::SetOk) by {
        lemma_name_setok();
    }
    reveal_strlit("SETOK");
    lemma_named_request(p, "SETOK"@, v, Command::SetOk);
}

/// `SETNOTOK value` stores the percent-decoded value as the `notok`,
/// leaves every other field as it was, and is answered with `OK`.
pub proof fn law_setnotok_sets_notok(p: PinentryView, v: Seq<u8>)
    requires
        plain_value(v),
    ensures
        request_effect(p, request_line("SETNOTOK"@, v)) == (
            PinentryView { notok: decode_utf8(percent_decoded(v)), ..p },
            ActionView::Reply(ok_line()),
        ),
{
    assert(command_of(encode_utf8("SETNOTOK"@)) == Command::SetNotOk) by {
        lemma_name_setnotok();
    }
    reveal_strlit("SETNOTOK");
    lemma_named_request(p, "SETNOTOK"@, v, Command::SetNotOk);
}

/// `SETCANCEL value` stores the percent-decoded value as the `cancel`,
/// leaves every other field as it was, and is answered with `OK`.
pub proof fn law_setcancel_sets_cancel(p: PinentryView, v: Seq<u8>)
    requires
        plain_value(v),
    ensures
        request_effect(p, request_line("SETCANCEL"@, v)) == (
            PinentryView { cancel: decode_utf8(percent_decoded(v)), ..p },
            ActionView::Reply(ok_line()),
        ),
{
    assert(command_of(encode_utf8("SETCANCEL"@)) == Command::SetCancel) by {
        lemma_name_setcancel();
    }
    reveal_strlit("SETCANCEL");
    lemma_named_request(p, "SETCANCEL"@, v, Command::SetCancel);
}

/// `SETQUALITYBAR value` stores the percent-decoded value as the `quality_bar`,
/// leaves every other field as it was, and is answered with `OK`.
pub proof fn law_setqualitybar_sets_quality_bar(p: PinentryView, v: Seq<u8>)
    requires
        plain_value(v),
    ensures
        request_effect(p, request_line("SETQUALITYBAR"@, v)) == (
            PinentryView { quality_bar: decode_utf8(percent_decoded(v)), ..p },
            ActionView::Reply(ok_line()),
        ),
{
    assert(command_of(encode_utf8("SETQUALITYBAR"@)) == Command::SetQualityBar) by {
        lemma_name_setqualitybar();
    }
    reveal_strlit("SETQUALITYBAR");
    lemma_named_request(p, "SETQUALITYBAR"@, v, Command::SetQualityBar);
}

/// `SETTITLE value` stores the percent-decoded value as the `title`,
/// leaves every other field as it was, and is answered with `OK`.
pub proof fn law_settitle_sets_title(p: PinentryView, v: Seq<u8>)
    requires
        plain_value(v),
    ensures
        request_effect(p, request_line("SETTITLE"@, v)) == (
            PinentryView { title: decode_utf8(percent_decoded(v)), ..p },
            ActionView::Reply(ok_line()),
        ),
{
    assert(command_of(encode_utf8("SETTITLE"@)) == Command::SetTitle) by {
        lemma_name_settitle();
    }
    reveal_strlit("SETTITLE");
    lemma_named_request(p, "SETTITLE"@, v, Command::SetTitle);
}


/// `SETTIMEOUT` changes nothing and is answered that it is not implemented.
pub proof fn law_settimeout_is_not_implemented(p: PinentryView, v: Seq<u8>)
    requires
        plain_value(v),
    ensures
        request_effect(p, request_line("SETTIMEOUT"@, v)) == (p, ActionView::Reply(err_line(USER_NOT_IMPLEMENTED@))),
{
    assert(command_of(encode_utf8("SETTIMEOUT"@)) == Command::SetTimeout) by {
        lemma_name_settimeout();
    }
    reveal_strlit("SETTIMEOUT");
    lemma_named_request(p, "SETTIMEOUT"@, v, Command::SetTimeout);
}

/// `CLEARPASSPHRASE` changes nothing and is answered that it is not
/// implemented.
pub proof fn law_clearpassphrase_is_not_implemented(p: PinentryView, v: Seq<u8>)
    requires
        plain_value(v),
    ensures
        request_effect(p, request_line("CLEARPASSPHRASE"@, v)) == (p, ActionView::Reply(err_line(USER_NOT_IMPLEMENTED@))),
{
    assert(command_of(encode_utf8("CLEARPASSPHRASE"@)) == Command::ClearPassphrase) by {
        lemma_name_clearpassphrase();
    }
    reveal_strlit("CLEARPASSPHRASE");
    lemma_named_request(p, "CLEARPASSPHRASE"@, v, Command::ClearPassphrase);
}

/// `GETPIN` changes nothing and asks for the PIN, whatever its value.
pub proof fn law_getpin_asks_for_the_pin(p: PinentryView, v: Seq<u8>)
    requires
        plain_value(v),
    ensures
        request_effect(p, request_line("GETPIN"@, v)) == (p, ActionView::GetPin),
{
    assert(command_of(encode_utf8("GETPIN"@)) == Command::GetPin) by {
        lemma_name_getpin();
    }
    reveal_strlit("GETPIN");
    lemma_named_request(p, "GETPIN"@, v, Command::GetPin);
}

/// `CONFIRM` changes nothing and asks for a confirmation, with one button
/// exactly when its decoded value is `--one-button`.
pub proof fn law_confirm_asks_for_a_confirmation(p: PinentryView, v: Seq<u8>)
    requires
        plain_value(v),
    ensures
        request_effect(p, request_line("CONFIRM"@, v)) == (p, ActionView::Confirm(percent_decoded(v) == encode_utf8("--one-button"@))),
{
    assert(command_of(encode_utf8("CONFIRM"@)) == Command::Confirm) by {
        lemma_name_confirm();
    }
    reveal_strlit("CONFIRM");
    lemma_named_request(p, "CONFIRM"@, v, Command::Confirm);
}

/// `MESSAGE` changes nothing and shows a dialog with one button, whatever
/// its value.
pub proof fn law_message_shows_one_button(p: PinentryView, v: Seq<u8>)
    requires
        plain_value(v),
    ensures
        request_effect(p, request_line("MESSAGE"@, v)) == (p, ActionView::Confirm(true)),
{
    assert(command_of(encode_utf8("MESSAGE"@)) == Command::Message) by {
        lemma_name_message();
    }
    reveal_strlit("MESSAGE");
    lemma_named_request(p, "MESSAGE"@, v, Command::Message);
}

proof fn lemma_getinfo_request(p: PinentryView, v: Seq<u8>)
    requires
        plain_value(v),
    ensures
        request_effect(p, request_line("GETINFO"@, v)) == (
            p,
            crate::pinentry::info_action(percent_decoded(v)),
        ),
{
    assert(command_of(encode_utf8("GETINFO"@)) == Command::GetInfo) by {
        lemma_name_getinfo();
    }
    reveal_strlit("GETINFO");
    lemma_named_request(p, "GETINFO"@, v, Command::GetInfo);
}

/// `GETINFO version` changes nothing and has the caller send the version.
pub proof fn law_getinfo_version(p: PinentryView, v: Seq<u8>)
    requires
        plain_value(v),
        percent_decoded(v) == encode_utf8("version"@),
    ensures
        request_effect(p, request_line("GETINFO"@, v)) == (p, ActionView::InfoVersion),
{
    lemma_getinfo_request(p, v);
}

/// `GETINFO pid` changes nothing and has the caller send the process id.
pub proof fn law_getinfo_pid(p: PinentryView, v: Seq<u8>)
    requires
        plain_value(v),
        percent_decoded(v) == encode_utf8("pid"@),
    ensures
        request_effect(p, request_line("GETINFO"@, v)) == (p, ActionView::InfoPid),
{
    lemma_getinfo_request(p, v);
    reveal_strlit("version");
    reveal_strlit("pid");
    lemma_ascii_text("version"@);
    lemma_ascii_text("pid"@);
}

/// `GETINFO flavor` changes nothing and is answered with the flavour `tty`.
pub proof fn law_getinfo_flavor(p: PinentryView, v: Seq<u8>)
    requires
        plain_value(v),
        percent_decoded(v) == encode_utf8("flavor"@),
    ensures
        request_effect(p, request_line("GETINFO"@, v)) == (
            p,
            ActionView::Reply(data_line(encode_utf8("tty"@)) + ok_line()),
        ),
{
    lemma_getinfo_request(p, v);
    reveal_strlit("version");
    reveal_strlit("pid");
    reveal_strlit("flavor");
    lemma_ascii_text("version"@);
    lemma_ascii_text("pid"@);
    lemma_ascii_text("flavor"@);
}

/// `GETINFO` with anything but `version`, `pid`, `flavor` or `ttyinfo`
/// changes nothing and is answered with a parameter error.
pub proof fn law_getinfo_other(p: PinentryView, v: Seq<u8>)
    requires
        plain_value(v),
        percent_decoded(v) != encode_utf8("version"@),
        percent_decoded(v) != encode_utf8("pid"@),
        percent_decoded(v) != encode_utf8("flavor"@),
        percent_decoded(v) != encode_utf8("ttyinfo"@),
    ensures
        request_effect(p, request_line("GETINFO"@, v)) == (
            p,
            ActionView::Reply(err_line(PINENTRY_PARAMETER_ERROR@) + ok_line()),
        ),
{
    lemma_getinfo_request(p, v);
}

proof fn lemma_option_name_run(s: Seq<u8>, i: int, end: int)
    requires
        0 <= i <= end < s.len(),
        forall|j: int| i <= j < end ==> #[trigger] s[j] != 0x3d && s[j] != 0x20,
        s[end] == 0x3d,
    ensures
        option_name_end(s, i) == end,
    decreases end - i,
{
    if i < end {
        lemma_option_name_run(s, i + 1, end);
    }
}

/// `OPTION ttyname=<t>` sets the terminal to `t` and nothing else, and is
/// answered with `OK`.
pub proof fn law_option_ttyname_sets_tty(p: PinentryView, v: Seq<u8>, t: Seq<u8>)
    requires
        plain_value(v),
        percent_decoded(v) == encode_utf8("ttyname"@) + seq![0x3du8] + t,
    ensures
        request_effect(p, request_line("OPTION"@, v)) == (
            PinentryView { tty: decode_utf8(t), ..p },
            ActionView::Reply(ok_line()),
        ),
{
    let d = percent_decoded(v);
    assert(request_effect(p, request_line("OPTION"@, v)) == crate::pinentry::option_effect(p, d))
        by {
        assert(command_of(encode_utf8("OPTION"@)) == Command::SetOption) by {
            lemma_name_option();
        }
        reveal_strlit("OPTION");
        lemma_named_request(p, "OPTION"@, v, Command::SetOption);
    }
    let n = encode_utf8("ttyname"@);
    assert(option_name_end(d, 0) == 7 && d.len() >= 8 && d.take(7) == n && d.skip(8) == t) by {
        reveal_strlit("ttyname");
        lemma_ascii_text("ttyname"@);
        assert forall|j: int| 0 <= j < 7 implies #[trigger] d[j] != 0x3d && d[j] != 0x20 by {
            assert(d[j] == n[j]);
        }
        assert(d[7] == 0x3d);
        lemma_option_name_run(d, 0, 7);
        assert(d.take(7) =~= n);
        assert(d.skip(8) =~= t);
    }
}

/// The hexadecimal digit for `n` (below 16), in upper or lower case.
pub open spec fn hex_digit(n: u8, upper: bool) -> u8 {
    if n < 10 {
        (0x30 + n) as u8
    } else if upper {
        (0x41 + n - 10) as u8
    } else {
        (0x61 + n - 10) as u8
    }
}

/// `%` and two hexadecimal digits, in either case, decode to the byte they
/// spell, whatever follows.
pub proof fn law_percent_escape_decodes(hi: u8, lo: u8, upper_hi: bool, upper_lo: bool, rest: Seq<u8>)
    requires
        hi < 16,
        lo < 16,
    ensures
        percent_decoded(seq![0x25u8, hex_digit(hi, upper_hi), hex_digit(lo, upper_lo)] + rest)
            == seq![(hi * 16 + lo) as u8] + percent_decoded(rest),
{
    let s = seq![0x25u8, hex_digit(hi, upper_hi), hex_digit(lo, upper_lo)] + rest;
    assert(s[0] == 0x25 && s[1] == hex_digit(hi, upper_hi) && s[2] == hex_digit(lo, upper_lo));
    assert(s.skip(3) =~= rest);
}

/// A request line cut off before its line feed changes nothing and ends
/// the session as aborted, whatever it holds.
pub proof fn law_unfinished_request_aborts(p: PinentryView, line: Seq<u8>)
    requires
        !request_complete(line),
    ensures
        request_effect(p, line) == (p, ActionView::Aborted),
{
}

/// A complete request whose raw value is not UTF-8 changes nothing and is
/// answered with a parameter error.
pub proof fn law_raw_value_not_utf8_is_refused(p: PinentryView, line: Seq<u8>)
    requires
        request_complete(line),
        !valid_utf8(request_value(line)),
    ensures
        request_effect(p, line) == (p, ActionView::Reply(err_line(PINENTRY_PARAMETER_ERROR@))),
{
}

/// A complete request whose value is UTF-8 but does not percent-decode to
/// UTF-8 changes nothing and ends the session with a decoding error.
pub proof fn law_decoded_value_not_utf8_ends(p: PinentryView, line: Seq<u8>)
    requires
        request_complete(line),
        valid_utf8(request_value(line)),
        !valid_utf8(percent_decoded(request_value(line))),
    ensures
        request_effect(p, line) == (p, ActionView::BadEncoding),
{
}

} // verus!
