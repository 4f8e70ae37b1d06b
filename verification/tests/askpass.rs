use ttyaskpass::colorhash::{colors_from_digest, hash_chars_as_color, ColorStar};
use ttyaskpass::prompt::{raw_askpass, raw_askpass_with_draws, write_clear_line, write_prompt, Interrupted};
use ttyaskpass::{AskPass, Event, Key, Step};

fn key(k: Key) -> Event {
    Event::Key(k)
}

#[test]
fn new_prompt_is_empty_with_default_star() {
    let ask = AskPass::new(vec![7; 8]);
    assert_eq!(ask.star(), '*');
    assert_eq!(ask.password(), b"");
    assert_eq!(ask.as_buffer(), &vec![7; 8]);
}

#[test]
fn with_star_keeps_buffer() {
    let ask = AskPass::new(vec![0; 4]).with_star('~');
    assert_eq!(ask.star(), '~');
    assert_eq!(ask.into_buffer(), vec![0; 4]);
}

#[test]
fn typing_writes_utf8_into_the_buffer() {
    let mut ask = AskPass::new(vec![0; 16]);
    assert_eq!(ask.handle(key(Key::Char('a'))), Step::Redraw);
    assert_eq!(ask.handle(key(Key::Char('é'))), Step::Redraw);
    assert_eq!(ask.handle(key(Key::Char('☃'))), Step::Redraw);
    assert_eq!(ask.password(), "aé☃".as_bytes());
    assert_eq!(&ask.as_buffer()[..6], "aé☃".as_bytes());
}

#[test]
fn backspace_removes_a_whole_character() {
    let mut ask = AskPass::new(vec![0; 16]);
    ask.handle(key(Key::Char('a')));
    ask.handle(key(Key::Char('☃')));
    assert_eq!(ask.handle(key(Key::Backspace)), Step::Redraw);
    assert_eq!(ask.password(), b"a");
    ask.handle(key(Key::Backspace));
    assert_eq!(ask.password(), b"");
    ask.handle(key(Key::Backspace));
    assert_eq!(ask.password(), b"");
}

#[test]
fn escape_clears_everything() {
    let mut ask = AskPass::new(vec![0; 16]);
    ask.handle(key(Key::Char('x')));
    ask.handle(key(Key::Char('y')));
    assert_eq!(ask.handle(key(Key::Escape)), Step::Redraw);
    assert_eq!(ask.password(), b"");
}

#[test]
fn one_byte_always_stays_free() {
    let mut ask = AskPass::new(vec![0; 3]);
    ask.handle(key(Key::Char('a')));
    ask.handle(key(Key::Char('b')));
    ask.handle(key(Key::Char('c')));
    assert_eq!(ask.password(), b"ab");
    let mut ask = AskPass::new(vec![0; 3]);
    ask.handle(key(Key::Char('a')));
    ask.handle(key(Key::Char('é')));
    assert_eq!(ask.password(), b"a");
}

#[test]
fn backspace_after_typing_restores_the_text() {
    let mut ask = AskPass::new(vec![0; 16]);
    ask.handle(key(Key::Char('q')));
    ask.handle(key(Key::Char('ü')));
    ask.handle(key(Key::Backspace));
    assert_eq!(ask.password(), b"q");
}

#[test]
fn steps_for_events() {
    let mut ask = AskPass::new(vec![0; 16]);
    assert_eq!(ask.handle(key(Key::Enter)), Step::Finish);
    assert_eq!(ask.handle(key(Key::Ctrl('c'))), Step::Interrupt);
    assert_eq!(ask.handle(key(Key::Ctrl('d'))), Step::Ignore);
    assert_eq!(ask.handle(key(Key::Other)), Step::Ignore);
    assert_eq!(ask.handle(Event::Other), Step::Ignore);
    assert_eq!(ask.handle(Event::NoEvent), Step::Redraw);
    assert_eq!(ask.password(), b"");
}

#[test]
fn colors_follow_the_typed_length() {
    let mut ask = AskPass::new(vec![0; 32]).with_star('#');
    let idle = ask.colors();
    assert_eq!(idle.colors(), [30, 30, 30, 30]);
    assert_eq!(idle.star(), '#');
    for c in "passwor".chars() {
        ask.handle(key(Key::Char(c)));
        let cs = ask.colors();
        for x in cs.colors().iter() {
            assert!(16 <= *x && *x < 232);
        }
    }
    ask.handle(key(Key::Char('d')));
    assert_eq!(ask.colors().colors(), [208, 22, 141, 90]);
}

#[test]
fn raw_askpass_reads_back_typed_text() {
    let (pw, out) = raw_askpass("héllo wörld\r".as_bytes(), '*').unwrap();
    assert_eq!(pw, "héllo wörld".as_bytes());
    assert!(out.ends_with(&[27, 91, 50, 75, 13]));
}

#[test]
fn raw_askpass_interrupted() {
    assert_eq!(raw_askpass(b"abc\x03def\n", '*'), Err(Interrupted));
}

#[test]
fn raw_askpass_edits() {
    let (pw, _) = raw_askpass(b"abc\x7fd\x1bxy\x08z\n", '*').unwrap();
    assert_eq!(pw, b"abdyz");
    let (pw, _) = raw_askpass(b"abc\x1b", '*').unwrap();
    assert_eq!(pw, b"");
}

#[test]
fn raw_askpass_without_enter_takes_everything() {
    let (pw, out) = raw_askpass(b"abc", '*').unwrap();
    assert_eq!(pw, b"abc");
    assert!(out.starts_with(b"\rPassword: "));
}

#[test]
fn raw_askpass_ignores_arrow_keys() {
    let (pw, _) = raw_askpass(b"a\x1b[Db\x1bOAc\n", '*').unwrap();
    assert_eq!(pw, b"abc");
}

#[test]
fn raw_askpass_stops_at_first_enter() {
    let (pw, _) = raw_askpass(b"ab\ncd\n", '*').unwrap();
    assert_eq!(pw, b"ab");
}

#[test]
fn raw_askpass_redraws_once_per_change() {
    let (_, out) = raw_askpass(b"a\n", '*').unwrap();
    let prompt_count = out.windows(11).filter(|w| *w == b"\rPassword: ").count();
    assert_eq!(prompt_count, 2);
}

#[test]
fn colors_for_a_draw() {
    let draw = [1, 2, 216, 250];
    let mut ask = AskPass::new(vec![0; 32]).with_star('#');
    assert_eq!(ask.colors_for_draw(&draw).colors(), [30, 30, 30, 30]);
    ask.handle(key(Key::Char('p')));
    let short = ask.colors_for_draw(&draw);
    assert_eq!(short.colors(), [17, 18, 16, 50]);
    assert_eq!(short.star(), '#');
    for c in "asswor".chars() {
        ask.handle(key(Key::Char(c)));
        assert_eq!(ask.colors_for_draw(&draw).colors(), [17, 18, 16, 50]);
    }
    ask.handle(key(Key::Char('d')));
    assert_eq!(ask.colors_for_draw(&draw).colors(), [208, 22, 141, 90]);
    assert_eq!(ask.colors_for_draw(&[0, 0, 0, 0]).colors(), [208, 22, 141, 90]);
}

#[test]
fn short_texts_show_the_same_colours_for_a_draw() {
    let draw = [7, 100, 215, 0];
    let mut a = AskPass::new(vec![0; 32]);
    let mut b = AskPass::new(vec![0; 32]);
    for c in "abc".chars() {
        a.handle(key(Key::Char(c)));
    }
    for c in "zyxwvut".chars() {
        b.handle(key(Key::Char(c)));
    }
    assert_eq!(a.colors_for_draw(&draw).colors(), b.colors_for_draw(&draw).colors());
}

#[test]
fn buffer_keeps_its_length_and_starts_with_the_text() {
    let mut ask = AskPass::new(vec![9; 8]);
    for e in [
        key(Key::Char('a')),
        key(Key::Char('é')),
        key(Key::Backspace),
        key(Key::Char('b')),
        key(Key::Escape),
        key(Key::Char('c')),
    ] {
        ask.handle(e);
    }
    assert_eq!(ask.password(), b"c");
    let buf = ask.into_buffer();
    assert_eq!(buf.len(), 8);
    assert_eq!(&buf[..1], b"c");
    assert_eq!(AskPass::new(vec![1, 2, 3]).into_buffer(), vec![1, 2, 3]);
}

#[test]
fn short_passphrases_write_the_same_bytes() {
    let draws = vec![[1, 2, 216, 250], [9, 9, 9, 9], [100, 0, 5, 77], [0, 0, 0, 0]];
    let (pw1, out1) = raw_askpass_with_draws(b"abc\r", '*', &draws).unwrap();
    let (pw2, out2) = raw_askpass_with_draws(b"xyz\r", '*', &draws).unwrap();
    assert_eq!(pw1, b"abc");
    assert_eq!(pw2, b"xyz");
    assert_eq!(out1, out2);
    let mut expected = Vec::new();
    write_prompt(&mut expected, "Password:", &ColorStar::idle('*'));
    for d in &draws[..3] {
        write_prompt(&mut expected, "Password:", &colors_from_digest('*', d));
    }
    write_clear_line(&mut expected);
    assert_eq!(out1, expected);
}

#[test]
fn long_passphrases_show_their_hash() {
    let draws = vec![[5, 6, 7, 8]; 9];
    let (_, out1) = raw_askpass_with_draws(b"password\r", '*', &draws).unwrap();
    let (_, out2) = raw_askpass_with_draws(b"passwore\r", '*', &draws).unwrap();
    assert_ne!(out1, out2);
    let mut tail = Vec::new();
    write_prompt(&mut tail, "Password:", &hash_chars_as_color('*', b"password"));
    write_clear_line(&mut tail);
    assert!(out1.ends_with(&tail));
    assert_eq!(raw_askpass_with_draws(b"ab\x03", '*', &draws), Err(Interrupted));
}
