use kconfig::text::{chars, is_whitespace};

#[test]
fn chars_gives_each_character() {
    assert_eq!(chars("a\u{e9}\u{1f600}="), vec!['a', '\u{e9}', '\u{1f600}', '=']);
    assert_eq!(chars(""), Vec::<char>::new());
}

#[test]
fn whitespace_is_what_unicode_calls_white_space() {
    for c in '\0'..=char::MAX {
        assert_eq!(is_whitespace(c), c.is_whitespace(), "{c:?}");
    }
    for c in [' ', '\t', '\n', '\r', '\u{b}', '\u{c}', '\u{85}', '\u{a0}', '\u{3000}'] {
        assert!(is_whitespace(c), "{c:?}");
    }
    for c in ['a', '=', '#', '"', '\u{200b}', '\u{180e}', '\u{feff}', '\0'] {
        assert!(!is_whitespace(c), "{c:?}");
    }
}
