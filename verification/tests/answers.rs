use page::commands::accepts;
use page::utilities::{read_stdin, white_space};

#[test]
fn white_space_is_what_the_standard_library_says_it_is() {
    for n in 0..=0x10ffffu32 {
        if let Some(c) = char::from_u32(n) {
            assert_eq!(white_space(c), c.is_whitespace(), "for U+{:04X}", n);
        }
    }
}

#[test]
fn a_line_is_read_without_the_white_space_around_it() {
    assert_eq!(read_stdin("y\n"), "y");
    assert_eq!(read_stdin("  two words \t\r\n"), "two words");
    assert_eq!(read_stdin("plain"), "plain");
    assert_eq!(read_stdin("x"), "x");
    assert_eq!(read_stdin(" x"), "x");
    assert_eq!(read_stdin("x "), "x");
    assert_eq!(read_stdin(""), "");
    assert_eq!(read_stdin("\n"), "");
    assert_eq!(read_stdin(" \u{3000}\u{2028} "), "");
    assert_eq!(read_stdin("\u{a0}\u{e9}t\u{e9}\u{2003}"), "\u{e9}t\u{e9}");
    assert_eq!(read_stdin("\u{200b}y"), "\u{200b}y");
}

#[test]
fn reading_a_line_agrees_with_the_standard_library() {
    let samples = [
        "", " ", "a", " a", "a ", " a ", "\ta\tb\t", "\r\n", "a\r\n", "\u{85}a\u{85}",
        "\u{1680}\u{2000}\u{200a}z\u{202f}\u{205f}\u{3000}", "\u{feff}a", "\u{1f600} ",
        "  \u{0}  ", "\u{b}\u{c}x\u{1c}",
    ];
    for sample in samples {
        assert_eq!(read_stdin(sample), sample.trim(), "for {:?}", sample);
    }
}

#[test]
fn an_answer_of_one_letter_accepts_exactly_if_its_upper_case_is_y() {
    for n in 0..=0x10ffffu32 {
        if let Some(c) = char::from_u32(n) {
            let answer = c.to_string();
            assert_eq!(accepts(&answer), answer.to_uppercase() == "Y", "for U+{:04X}", n);
        }
    }
}
