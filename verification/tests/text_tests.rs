use quran_cli::text::{chars_of, contains_substring, is_white_space_char, str_byte_len};

#[test]
fn substring_search() {
    assert!(contains_substring("in the name of god", "name"));
    assert!(contains_substring("abc", ""));
    assert!(contains_substring("", ""));
    assert!(!contains_substring("", "a"));
    assert!(!contains_substring("abc", "abcd"));
    assert!(contains_substring("aaab", "aab"));
    assert!(!contains_substring("Name", "name"));
    assert!(contains_substring("été", "té"));
}

#[test]
fn white_space_set() {
    for c in [' ', '\t', '\n', '\r', '\u{0B}', '\u{0C}', '\u{85}', '\u{A0}', '\u{1680}', '\u{2000}', '\u{200A}', '\u{2028}', '\u{2029}', '\u{202F}', '\u{205F}', '\u{3000}'] {
        assert!(is_white_space_char(c), "{:?}", c);
        assert!(c.is_whitespace());
    }
    for c in ['a', '0', '\u{200B}', '\u{180E}', '\u{FEFF}', '\u{1F}'] {
        assert!(!is_white_space_char(c), "{:?}", c);
        assert_eq!(is_white_space_char(c), c.is_whitespace());
    }
}

#[test]
fn chars_and_bytes() {
    assert_eq!(chars_of("aé"), vec!['a', 'é']);
    assert_eq!(str_byte_len("aé"), 3);
    assert_eq!(str_byte_len(""), 0);
}

#[test]
fn white_space_agrees_with_std_on_every_char() {
    for u in 0u32..0x110000 {
        if let Some(c) = char::from_u32(u) {
            assert_eq!(is_white_space_char(c), c.is_whitespace(), "U+{:04X}", u);
        }
    }
}
