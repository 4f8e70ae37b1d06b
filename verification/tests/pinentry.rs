use ttyaskpass::pinentry::parse_command;

#[test]
fn test_parse_command() {
    let (_, (command, value)) = parse_command(b"SETDESC desc value\n").unwrap();

    assert_eq!(command, "SETDESC");
    assert_eq!(value, "desc value");

    let (_, (command, value)) = parse_command(b"GETPIN\n").unwrap();
    assert_eq!(command, "GETPIN");
    assert_eq!(value, "");

    let (_, (command, value)) = parse_command(b"\n").unwrap();
    assert_eq!(command, "");
    assert_eq!(value, "");
}

use ttyaskpass::dialog::{after_repeat, invalid_selection, ConfirmStep, PinStep};
use ttyaskpass::pinentry::{
    button_reply, command_from, data_reply, greeting, percent_decode_str, Action, Button, Command,
    ParseError, Pinentry,
};
use ttyaskpass::keys::next_event;
use ttyaskpass::{Event, Key};

fn reply(a: Action) -> Vec<u8> {
    match a {
        Action::Reply(b) => b,
        other => panic!("not a reply: {:?}", other),
    }
}

#[test]
fn parse_command_errors() {
    assert_eq!(parse_command(b"GETPIN"), Err(ParseError::Incomplete));
    assert_eq!(parse_command(b""), Err(ParseError::Incomplete));
    assert_eq!(parse_command(b"SETDESC \xff\n"), Err(ParseError::Invalid));
}

#[test]
fn parse_command_rest_and_spaces() {
    let (rest, (command, value)) = parse_command(b"OPTION \t ttyname=/dev/tty1\nBYE\n").unwrap();
    assert_eq!(command, "OPTION");
    assert_eq!(value, "ttyname=/dev/tty1");
    assert_eq!(rest, b"\nBYE\n");
    let (_, (command, value)) = parse_command(b"SETQUALITYBAR_TT x\n").unwrap();
    assert_eq!(command, "SETQUALITYBAR");
    assert_eq!(value, "_TT x");
}

#[test]
fn greeting_line() {
    assert_eq!(greeting(), b"OK Pleased to meet you\n");
}

#[test]
fn set_commands_store_decoded_values() {
    let mut p = Pinentry::default();
    assert_eq!(reply(p.handle_request(b"SETDESC Enter%20your%0Apassphrase\n")), b"OK\n");
    assert_eq!(p.description, "Enter your\npassphrase");
    assert_eq!(reply(p.handle_request(b"setprompt PIN\n")), b"OK\n");
    assert_eq!(p.prompt, "PIN");
    assert_eq!(reply(p.handle_request(b"SETTITLE T\n")), b"OK\n");
    assert_eq!(reply(p.handle_request(b"SETREPEAT Again\n")), b"OK\n");
    assert_eq!(reply(p.handle_request(b"SETERROR Bad\n")), b"OK\n");
    assert_eq!(reply(p.handle_request(b"SETOK Yes\n")), b"OK\n");
    assert_eq!(reply(p.handle_request(b"SETCANCEL Abort\n")), b"OK\n");
    assert_eq!(reply(p.handle_request(b"SETNOTOK No\n")), b"OK\n");
    assert_eq!((p.title.as_str(), p.repeat.as_str(), p.error.as_str()), ("T", "Again", "Bad"));
    assert_eq!((p.ok.as_str(), p.cancel.as_str(), p.notok.as_str()), ("Yes", "Abort", "No"));
}

#[test]
fn other_requests() {
    let mut p = Pinentry::default();
    assert_eq!(
        reply(p.handle_request(b"SETTIMEOUT 10\n")),
        b"ERR 536870981 Not implemented <User defined source 1>\n"
    );
    assert_eq!(
        reply(p.handle_request(b"FOO bar\n")),
        b"ERR 536871187 Unknown IPC command <User defined source 1>\n"
    );
    assert_eq!(reply(p.handle_request(b"\n")), b"");
    assert_eq!(reply(p.handle_request(b"GETINFO flavor\n")), b"D tty\nOK\n");
    assert_eq!(reply(p.handle_request(b"GETINFO ttyinfo\n")), b"D - - -\nOK\n");
    assert_eq!(
        reply(p.handle_request(b"GETINFO what\n")),
        b"ERR 83886360 IPC parameter error <Pinentry>\nOK\n"
    );
    assert!(matches!(p.handle_request(b"GETINFO version\n"), Action::InfoVersion));
    assert!(matches!(p.handle_request(b"GETINFO pid\n"), Action::InfoPid));
    assert!(matches!(p.handle_request(b"GETPIN\n"), Action::GetPin));
    assert!(matches!(p.handle_request(b"CONFIRM\n"), Action::Confirm(false)));
    assert!(matches!(p.handle_request(b"CONFIRM --one-button\n"), Action::Confirm(true)));
    assert!(matches!(p.handle_request(b"MESSAGE\n"), Action::Confirm(true)));
    assert!(matches!(p.handle_request(b"GETPIN"), Action::Aborted));
    assert!(matches!(p.handle_request(b"SETDESC %ff\n"), Action::BadEncoding));
    match p.handle_request(b"BYE\n") {
        Action::Close(b) => assert_eq!(b, b"OK closing connection\n"),
        other => panic!("{:?}", other),
    }
}

#[test]
fn option_requests() {
    let mut p = Pinentry::default();
    assert_eq!(reply(p.handle_request(b"OPTION ttyname=/dev/pts/3\n")), b"OK\n");
    assert_eq!(p.tty, "/dev/pts/3");
    assert_eq!(reply(p.handle_request(b"OPTION lc-ctype=C\n")), b"OK\n");
    assert_eq!(p.tty, "/dev/pts/3");
    assert_eq!(reply(p.handle_request(b"OPTION no-grab\n")), b"OK\n");
    assert_eq!(
        reply(p.handle_request(b"OPTION =x\n")),
        b"ERR 83886254 Unknown option <Pinentry>\n"
    );
}

#[test]
fn commands_in_any_case() {
    assert_eq!(command_from(b"getpin"), Command::GetPin);
    assert_eq!(command_from(b"GetInfo"), Command::GetInfo);
    assert_eq!(command_from(b""), Command::Empty);
    assert_eq!(command_from(b"nope"), Command::Unknown);
}

#[test]
fn percent_decoding() {
    assert_eq!(percent_decode_str("a%41%6a%zz%4").unwrap(), "aAj%zz%4");
    assert_eq!(percent_decode_str("plain"), Some("plain".to_string()));
    assert_eq!(percent_decode_str("%C3%A9"), Some("é".to_string()));
    assert_eq!(percent_decode_str("%C3"), None);
}

#[test]
fn get_info_answers() {
    let p = Pinentry::default();
    assert!(matches!(p.get_info("version"), Action::InfoVersion));
    assert!(matches!(p.get_info("pid"), Action::InfoPid));
    assert_eq!(reply(p.get_info("flavor")), b"D tty\n");
    assert_eq!(reply(p.get_info("ttyinfo")), b"ERR 83886360 IPC parameter error <Pinentry>\n");
}

#[test]
fn replies() {
    assert_eq!(button_reply(Button::Okay), b"OK\n");
    assert_eq!(button_reply(Button::Cancel), b"ERR 83886179 Operation cancelled <Pinentry>\n");
    assert_eq!(button_reply(Button::NotOk), b"ERR 83886194 Not confirmed <Pinentry>\n");
    assert_eq!(data_reply("12"), b"D 12\nOK\n");
}

#[test]
fn pin_dialog_texts() {
    let mut p = Pinentry::default();
    assert_eq!(p.pin_intro(), b"Enter your passphrase\n\r");
    assert_eq!(p.pin_prompt(), "Password:");
    p.prompt = "PIN::".to_string();
    assert_eq!(p.pin_prompt(), "PIN:");
    p.prompt = "Clé".to_string();
    assert_eq!(p.pin_prompt(), "Clé:");
    p.title = "Title".to_string();
    p.error = "Bad\nPIN".to_string();
    assert_eq!(
        p.pin_intro(),
        b"\n\r *** \x1b[38;5;1mBad\n\rPIN\x1b[39m ***\n\n\rTitle\n\r".to_vec()
    );
    assert_eq!(p.error, "");
    assert_eq!(p.take_error(), b"");
    assert_eq!(
        p.repeat_warning(),
        b"\n\r *** \x1b[38;5;1mPassphrases don't match.\x1b[39m ***\n\n\r".to_vec()
    );
}

#[test]
fn pin_steps_and_reply() {
    let mut p = Pinentry::default();
    assert_eq!(p.after_pin(), PinStep::Done);
    assert_eq!(p.pin_reply(b"secret"), b"D secret\nOK\n");
    p.repeat = "Again:".to_string();
    assert_eq!(p.after_pin(), PinStep::AskRepeat);
    assert_eq!(after_repeat(b"secret", b"secret"), PinStep::Done);
    assert_eq!(after_repeat(b"secret", b"secreT"), PinStep::Mismatch);
    assert_eq!(after_repeat(b"secret", b"secret!"), PinStep::Mismatch);
    assert_eq!(after_repeat(b"", b""), PinStep::Done);
    assert_eq!(p.pin_reply(b"secret"), b"S PIN_REPEATED\nD secret\nOK\n");
}

#[test]
fn confirm_dialog() {
    let mut p = Pinentry::default();
    p.cancel = "Abbrechen".to_string();
    let (d, intro) = p.confirm_intro(false);
    assert_eq!(intro, b"Confirm:\n\r[o] Ok\n\r[a] Abbrechen\n\r".to_vec());
    assert_eq!(d.handle(Event::NoEvent), ConfirmStep::Wait);
    assert_eq!(d.handle(Event::Key(Key::Char('o'))), ConfirmStep::Chosen(Button::Okay));
    assert_eq!(d.handle(Event::Key(Key::Char('a'))), ConfirmStep::Chosen(Button::Cancel));
    assert_eq!(d.handle(Event::Key(Key::Char('n'))), ConfirmStep::Invalid);
    assert_eq!(d.handle(Event::Key(Key::Ctrl('c'))), ConfirmStep::Chosen(Button::Cancel));
    assert_eq!(d.handle(Event::Key(Key::Enter)), ConfirmStep::Invalid);
    assert_eq!(invalid_selection(), b"Invalid selection.\n\r");

    p.ok = "Weiter".to_string();
    p.notok = "Nein".to_string();
    p.description = "Sure?".to_string();
    let (d, intro) = p.confirm_intro(true);
    assert_eq!(intro, b"Sure?\n\rWeiter\n\rPress any key to continue.\n\r".to_vec());
    assert_eq!(d.handle(Event::Key(Key::Char('x'))), ConfirmStep::Chosen(Button::Okay));
    let (d, _) = p.confirm_intro(false);
    assert_eq!(d.handle(Event::Key(Key::Char('w'))), ConfirmStep::Chosen(Button::Okay));
    assert_eq!(d.handle(Event::Key(Key::Char('n'))), ConfirmStep::Chosen(Button::NotOk));
}

#[test]
fn confirm_labels_are_written_as_they_are() {
    let mut p = Pinentry::default();
    p.description = "Go\non?".to_string();
    p.ok = "Yes\nplease".to_string();
    p.cancel = "No\nthanks".to_string();
    let (d, intro) = p.confirm_intro(false);
    assert_eq!(
        intro,
        b"Go\n\ron?\n\r[y] Yes\nplease\n\r[n] No\nthanks\n\r".to_vec()
    );
    assert_eq!(d.handle(Event::Key(Key::Char('y'))), ConfirmStep::Chosen(Button::Okay));
    assert_eq!(d.handle(Event::Key(Key::Char('n'))), ConfirmStep::Chosen(Button::Cancel));
    assert_eq!(d.handle(Event::Key(Key::Char('Y'))), ConfirmStep::Invalid);
    let (_, intro) = p.confirm_intro(true);
    assert_eq!(
        intro,
        b"Go\n\ron?\n\rYes\nplease\n\rPress any key to continue.\n\r".to_vec()
    );
}

#[test]
fn bye_closes_whatever_follows() {
    let mut p = Pinentry::default();
    match p.handle_request(b"BYE\nGETPIN\n") {
        Action::Close(b) => assert_eq!(b, b"OK closing connection\n"),
        other => panic!("{:?}", other),
    }
}

#[test]
fn only_the_decoded_value_counts() {
    let mut p = Pinentry::default();
    let a = reply(p.handle_request(b"GETINFO flavor\n"));
    let b = reply(p.handle_request(b"GETINFO %66lavor\n"));
    assert_eq!(a, b);
    p.handle_request(b"SETDESC a%20b\n");
    let d1 = p.description.clone();
    p.handle_request(b"SETDESC a b\n");
    assert_eq!(d1, p.description);
}

#[test]
fn arrow_and_function_keys_in_dialogs() {
    let mut p = Pinentry::default();
    let (d, _) = p.confirm_intro(false);
    for seq in [&b"\x1b[A"[..], b"\x1bOP", b"\x1b[15~"] {
        let (event, _) = next_event(seq, 0);
        assert_eq!(d.handle(event), ConfirmStep::Invalid);
    }
    let (one, _) = p.confirm_intro(true);
    let (event, _) = next_event(b"\x1b[A", 0);
    assert_eq!(one.handle(event), ConfirmStep::Chosen(Button::Okay));
    let (event, _) = next_event(b"\x1b[M abc", 0);
    assert_eq!(one.handle(event), ConfirmStep::Wait);
}
