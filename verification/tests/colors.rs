use ttyaskpass::colorhash::{colors_from_digest, hash_chars_as_color, mask_colors, random_color, ColorStar};
use ttyaskpass::prompt::{write_clear_line, write_prompt};

#[test]
fn from_is_colour_zero() {
    let c = ColorStar::from('*');
    assert_eq!(c.colors(), [0, 0, 0, 0]);
    assert_eq!(c.star(), '*');
}

#[test]
fn idle_is_colour_thirty() {
    assert_eq!(ColorStar::idle('+').colors(), [30, 30, 30, 30]);
}

#[test]
fn mask_maps_into_the_cube() {
    let mut b = [0u8, 215, 216, 255];
    mask_colors(&mut b);
    assert_eq!(b, [16, 231, 16, 55]);
}

#[test]
fn digest_colours_are_the_first_four_bytes() {
    let c = colors_from_digest('*', &[1, 2, 216, 250, 9, 9]);
    assert_eq!(c.colors(), [17, 18, 16, 50]);
}

#[test]
fn hash_of_password() {
    let c = hash_chars_as_color('~', b"password");
    assert_eq!(c.colors(), [208, 22, 141, 90]);
    assert_eq!(c.star(), '~');
}

#[test]
fn hash_is_deterministic_and_depends_on_input() {
    let a = hash_chars_as_color('*', b"correct horse");
    let b = hash_chars_as_color('*', b"correct horse");
    let c = hash_chars_as_color('*', b"correct horsf");
    assert_eq!(a.colors(), b.colors());
    assert_ne!(a.colors(), c.colors());
}

#[test]
fn random_colours_are_in_the_cube() {
    for _ in 0..50 {
        let c = random_color('*');
        for x in c.colors().iter() {
            assert!(16 <= *x && *x < 232);
        }
    }
}

#[test]
fn write_to_renders_codes_and_stars() {
    let mut out = b"x".to_vec();
    colors_from_digest('é', &[0, 5, 84, 215]).write_to(&mut out);
    let mut expected = b"x".to_vec();
    for (code, _) in [("16", 0), ("21", 1), ("100", 2), ("231", 3)].iter() {
        expected.extend_from_slice(b"\x1b[38;5;");
        expected.extend_from_slice(code.as_bytes());
        expected.extend_from_slice(b"m");
        expected.extend_from_slice("éé".as_bytes());
    }
    expected.extend_from_slice(b"\x1b[39m");
    assert_eq!(out, expected);
}

#[test]
fn prompt_line_and_clear() {
    let mut out = Vec::new();
    write_prompt(&mut out, "Pass:", &ColorStar::from('*'));
    assert!(out.starts_with(b"\rPass: \x1b[38;5;0m**"));
    assert!(out.ends_with(b"\x1b[39m"));
    let mut out = Vec::new();
    write_clear_line(&mut out);
    assert_eq!(out, b"\x1b[2K\r");
}
