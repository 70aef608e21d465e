use sip_sbc::text::{
    begins_with, decimal_text, first_word_range, hexadecimal_text, is_white_space, line_end,
    parse_u16, to_chars, trim_range,
};

#[test]
fn numbers_are_written() {
    for n in [0, 7, 10, 99, 100, 5060, 65535, u64::MAX] {
        assert_eq!(decimal_text(n), n.to_string());
        assert_eq!(hexadecimal_text(n), format!("{:x}", n));
    }
    assert_eq!(hexadecimal_text(0xdeadbeef), "deadbeef");
}

#[test]
fn written_ports_read_back() {
    for n in 0..=u16::MAX {
        assert_eq!(parse_u16(&to_chars(&decimal_text(n as u64))), Some(n));
    }
}

#[test]
fn ports_are_read_as_the_standard_library_does() {
    for text in ["", "+", "-", "-1", "+1", "++1", "007", "65536", "70000", "1 ", " 1", "1a", "\u{661}"] {
        assert_eq!(parse_u16(&to_chars(text)), text.parse::<u16>().ok());
    }
}

#[test]
fn white_space_is_the_unicode_property() {
    for n in 0..=0x10ffff {
        if let Some(c) = char::from_u32(n) {
            assert_eq!(is_white_space(c), c.is_whitespace());
        }
    }
}

#[test]
fn ends_are_trimmed() {
    for text in ["", " ", " a b ", "a\r", "\u{3000}x\u{85}", "xyz"] {
        let chars = to_chars(text);
        let (from, to) = trim_range(&chars, 0, chars.len());
        let trimmed: String = chars[from..to].iter().collect();
        assert_eq!(trimmed, text.trim());
    }
}

#[test]
fn first_words_are_found() {
    for text in ["", " ", " a b ", "ab", "a\tb", "\n\nword"] {
        let chars = to_chars(text);
        let (from, to) = first_word_range(&chars, 0, chars.len());
        let word: String = chars[from..to].iter().collect();
        assert_eq!(word, text.split_whitespace().next().unwrap_or(""));
    }
}

#[test]
fn lines_and_prefixes_are_found() {
    let chars = to_chars("ab\ncd");
    assert_eq!(line_end(&chars, 0), 2);
    assert_eq!(line_end(&chars, 2), 2);
    assert_eq!(line_end(&chars, 3), 5);
    assert!(begins_with(&chars, 3, 5, &['c']));
    assert!(begins_with(&chars, 3, 3, &[]));
    assert!(!begins_with(&chars, 3, 5, &['c', 'd', 'e']));
    assert!(!begins_with(&chars, 0, 2, &['c']));
}
