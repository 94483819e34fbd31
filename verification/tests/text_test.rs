//! Numbers, white space and the pieces of a text.

use termplex::color::ansi_to_rgb;
use termplex::text::{
    chars_of, is_whitespace, push_decimal, push_signed_decimal, split, string_of, trim_end,
    Separator,
};

#[test]
fn numbers_are_written_in_decimal() {
    let mut s = String::from("n=");
    push_decimal(&mut s, 0);
    push_decimal(&mut s, 40507);
    assert_eq!(s, "n=040507");
    let mut t = String::new();
    push_decimal(&mut t, u64::MAX);
    assert_eq!(t, "18446744073709551615");
    let mut u = String::new();
    push_signed_decimal(&mut u, -17);
    push_signed_decimal(&mut u, i64::MIN);
    assert_eq!(u, "-17-9223372036854775808");
}

#[test]
fn white_space_is_that_of_unicode() {
    for v in 0..=0x10ffffu32 {
        if let Some(c) = char::from_u32(v) {
            assert_eq!(is_whitespace(c), c.is_whitespace(), "{:?}", c);
        }
    }
}

#[test]
fn trimming_takes_the_end_only() {
    let mut v = chars_of(" a b\t\u{3000} ");
    trim_end(&mut v);
    assert_eq!(string_of(&v), " a b");
    let mut w = chars_of("  ");
    trim_end(&mut w);
    assert!(w.is_empty());
}

#[test]
fn texts_are_split_like_words_lines_and_paths() {
    let text = chars_of("  one two\tthree \n");
    let words: Vec<String> = split(&text, Separator::Space).iter().map(string_of).collect();
    let expected: Vec<&str> = "  one two\tthree \n".split_whitespace().collect();
    assert_eq!(words, expected);
    let lines: Vec<String> =
        split(&chars_of("a b\n\nc"), Separator::LineEnd).iter().map(string_of).collect();
    assert_eq!(lines, vec!["a b", "c"]);
    let parts: Vec<String> =
        split(&chars_of("/usr//bin/"), Separator::Slash).iter().map(string_of).collect();
    assert_eq!(parts, vec!["usr", "bin"]);
}

#[test]
fn characters_return_as_they_were() {
    let s = "h\u{e9}llo \u{1f600}";
    assert_eq!(string_of(&chars_of(s)), s);
}

#[test]
fn numbered_colours() {
    assert_eq!(ansi_to_rgb(0), (0, 0, 0));
    assert_eq!(ansi_to_rgb(1), (205, 0, 0));
    assert_eq!(ansi_to_rgb(7), (229, 229, 229));
    assert_eq!(ansi_to_rgb(15), (255, 255, 255));
    assert_eq!(ansi_to_rgb(16), (0, 0, 0));
    assert_eq!(ansi_to_rgb(208), (255, 102, 0));
    assert_eq!(ansi_to_rgb(231), (255, 255, 255));
    assert_eq!(ansi_to_rgb(232), (8, 8, 8));
    assert_eq!(ansi_to_rgb(255), (238, 238, 238));
}
