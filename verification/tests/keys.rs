use ttyaskpass::keys::next_event;
use ttyaskpass::{Event, Key};

#[test]
fn control_bytes() {
    assert_eq!(next_event(b"\r", 0), (Event::Key(Key::Enter), 1));
    assert_eq!(next_event(b"\n", 0), (Event::Key(Key::Enter), 1));
    assert_eq!(next_event(b"\x7f", 0), (Event::Key(Key::Backspace), 1));
    assert_eq!(next_event(b"\x08", 0), (Event::Key(Key::Ctrl('h')), 1));
    assert_eq!(next_event(b"\x03", 0), (Event::Key(Key::Ctrl('c')), 1));
    assert_eq!(next_event(b"\t", 0), (Event::Key(Key::Char('\t')), 1));
    assert_eq!(next_event(b"\x00", 0), (Event::NoEvent, 1));
    assert_eq!(next_event(b"\x1c", 0), (Event::Key(Key::Ctrl('4')), 1));
    assert_eq!(next_event(b"\x1f", 0), (Event::Key(Key::Ctrl('7')), 1));
}

#[test]
fn escape_and_sequences() {
    assert_eq!(next_event(b"\x1b", 0), (Event::Key(Key::Escape), 1));
    assert_eq!(next_event(b"\x1bx", 0), (Event::Key(Key::Other), 2));
    assert_eq!(next_event(b"\x1b\x1b", 0), (Event::Key(Key::Other), 2));
    assert_eq!(next_event("\u{1b}é!".as_bytes(), 0), (Event::Key(Key::Other), 3));
    assert_eq!(next_event(b"\x1b\xffx", 0), (Event::Key(Key::Other), 2));
    assert_eq!(next_event(b"\x1bOP", 0), (Event::Key(Key::Other), 3));
    assert_eq!(next_event(b"\x1bOx", 0), (Event::Other, 3));
    assert_eq!(next_event(b"\x1bO", 0), (Event::Other, 2));
}

#[test]
fn control_sequences_of_keys() {
    for seq in [&b"\x1b[A"[..], b"\x1b[B", b"\x1b[C", b"\x1b[D", b"\x1b[H", b"\x1b[F", b"\x1b[Z"] {
        assert_eq!(next_event(seq, 0), (Event::Key(Key::Other), 3));
    }
    assert_eq!(next_event(b"\x1b[[A", 0), (Event::Key(Key::Other), 4));
    assert_eq!(next_event(b"\x1b[[x", 0), (Event::Other, 4));
    assert_eq!(next_event(b"\x1b[3~", 0), (Event::Key(Key::Other), 4));
    assert_eq!(next_event(b"\x1b[15~x", 0), (Event::Key(Key::Other), 5));
    assert_eq!(next_event(b"\x1b[24~", 0), (Event::Key(Key::Other), 5));
    assert_eq!(next_event(b"\x1b[003~", 0), (Event::Key(Key::Other), 6));
}

#[test]
fn control_sequences_of_no_key() {
    assert_eq!(next_event(b"\x1b[", 0), (Event::Other, 2));
    assert_eq!(next_event(b"\x1b[9~", 0), (Event::Other, 4));
    assert_eq!(next_event(b"\x1b[25~", 0), (Event::Other, 5));
    assert_eq!(next_event(b"\x1b[1;5A", 0), (Event::Other, 6));
    assert_eq!(next_event(b"\x1b[12", 0), (Event::Other, 4));
    assert_eq!(next_event(b"\x1b[?1h", 0), (Event::Other, 3));
    assert_eq!(next_event(b"\x1b[M abc", 0), (Event::Other, 6));
    assert_eq!(next_event(b"\x1b[<0;1;2Mz", 0), (Event::Other, 9));
}

#[test]
fn utf8_characters() {
    let s = "aé☃😀".as_bytes();
    assert_eq!(next_event(s, 0), (Event::Key(Key::Char('a')), 1));
    assert_eq!(next_event(s, 1), (Event::Key(Key::Char('é')), 2));
    assert_eq!(next_event(s, 3), (Event::Key(Key::Char('☃')), 3));
    assert_eq!(next_event(s, 6), (Event::Key(Key::Char('😀')), 4));
}

#[test]
fn invalid_utf8_is_one_other_byte() {
    assert_eq!(next_event(b"\xff", 0), (Event::Other, 1));
    assert_eq!(next_event(b"\xc3", 0), (Event::Other, 1));
    assert_eq!(next_event(b"\xc0\x80", 0), (Event::Other, 1));
    assert_eq!(next_event(b"\xed\xa0\x80", 0), (Event::Other, 1));
}
