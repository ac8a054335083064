use wsl_hello::text::{chars_of, is_white_space, split_lines, trim};

#[test]
fn white_space_is_the_unicode_property() {
    for c in '\0'..=char::MAX {
        assert_eq!(is_white_space(c), c.is_whitespace(), "{:?}", c);
    }
}

#[test]
fn characters_keep_their_order() {
    assert_eq!(chars_of("a\u{e9}\u{1f511}"), vec!['a', '\u{e9}', '\u{1f511}']);
    assert_eq!(chars_of(""), Vec::<char>::new());
}

#[test]
fn trimming_agrees_with_the_standard_library() {
    for text in ["", " ", " \t\n", "a", " a", "a ", "\u{3000}a b\u{a0}", "\u{200b}a", "a\u{85}"] {
        assert_eq!(trim(&chars_of(text)), chars_of(text.trim()), "{:?}", text);
    }
}

#[test]
fn lines_agree_with_the_standard_library() {
    let texts =
        ["", "\n", "a", "a\n", "a\n\n", "a\r\nb", "a\r", "\r\n", "\n\r", "a\r\r\nb\rc\n", "\r\n\r\n"];
    for text in texts {
        let expected: Vec<Vec<char>> = text.lines().map(chars_of).collect();
        assert_eq!(split_lines(&chars_of(text)), expected, "{:?}", text);
    }
}
