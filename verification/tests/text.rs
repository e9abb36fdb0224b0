use cmio_vsock::text::{
    chars_of, find_blank_line, find_line_end, find_word, find_word_end, find_word_start,
    is_whitespace, lossy_chars, parse_number, same_text,
};

fn chars(s: &str) -> Vec<char> {
    s.chars().collect()
}

#[test]
fn whitespace_is_what_char_says() {
    for v in 0..0x11_0000u32 {
        if let Some(c) = char::from_u32(v) {
            assert_eq!(is_whitespace(c), c.is_whitespace(), "U+{:04X}", v);
        }
    }
}

#[test]
fn line_end_is_the_first_line_feed() {
    assert_eq!(find_line_end(&chars("ab\ncd\n"), 0), 2);
    assert_eq!(find_line_end(&chars("ab\ncd\n"), 3), 5);
    assert_eq!(find_line_end(&chars("abc"), 0), 3);
    assert_eq!(find_line_end(&chars(""), 0), 0);
    assert_eq!(find_line_end(&chars("\n"), 0), 0);
}

#[test]
fn words_are_separated_by_white_space() {
    let text = chars("  GET \t/health  HTTP/1.1 ");
    assert_eq!(find_word_start(&text, 0), 2);
    assert_eq!(find_word_end(&text, 2), 5);
    assert_eq!(find_word(&text, 0), Some((2, 5)));
    assert_eq!(find_word(&text, 1), Some((7, 14)));
    assert_eq!(find_word(&text, 2), Some((16, 24)));
    assert_eq!(find_word(&text, 3), None);
    assert_eq!(find_word(&text, 100), None);
    assert_eq!(find_word(&chars(""), 0), None);
    assert_eq!(find_word(&chars("   "), 0), None);
    assert_eq!(find_word(&chars("x"), 0), Some((0, 1)));
}

#[test]
fn words_match_split_whitespace() {
    for s in ["a b c", " a  b ", "\u{a0}x\u{2003}y", "one", "", "\t\r\n", "a\u{200b}b c"] {
        let text = chars(s);
        let expected: Vec<String> = s.split_whitespace().map(|w| w.to_string()).collect();
        let mut found = Vec::new();
        let mut k = 0;
        while let Some((start, end)) = find_word(&text, k) {
            found.push(text[start..end].iter().collect::<String>());
            k += 1;
        }
        assert_eq!(found, expected, "{:?}", s);
    }
}

#[test]
fn blank_line_is_cr_lf_twice() {
    assert_eq!(find_blank_line(&chars("ab\r\n\r\ncd"), 0), 2);
    assert_eq!(find_blank_line(&chars("ab\r\n\r\ncd\r\n\r\n"), 6), 8);
    assert_eq!(find_blank_line(&chars("ab\r\n\r\ncd"), 3), 8);
    assert_eq!(find_blank_line(&chars("\r\n\r"), 0), 3);
    assert_eq!(find_blank_line(&chars(""), 0), 0);
    assert_eq!(find_blank_line(&chars("\n\n"), 0), 2);
}

#[test]
fn numbers_are_read_as_parse_does() {
    for s in [
        "0", "7", "200", "65535", "65536", "99999", "4294967296", "+200", "+", "", "-1", "-0",
        "007", "0000000000000000000065535", "12a", "a12", " 12", "12 ", "１２", "+-1", "++1", "1+",
        "00000000000000000000000000000000000000000000001",
    ] {
        assert_eq!(parse_number(&chars(s)), s.parse::<u16>().ok(), "{:?}", s);
    }
}

#[test]
fn texts_compare_character_by_character() {
    assert!(same_text(&chars("GET"), "GET"));
    assert!(!same_text(&chars("GET"), "GE"));
    assert!(!same_text(&chars("GE"), "GET"));
    assert!(!same_text(&chars("GEt"), "GET"));
    assert!(same_text(&chars(""), ""));
    assert!(same_text(&chars("caf\u{e9}"), "caf\u{e9}"));
}

#[test]
fn strings_and_characters_convert() {
    assert_eq!(chars_of("h\u{e9}llo"), chars("h\u{e9}llo"));
    assert_eq!(chars_of(""), Vec::<char>::new());
}

#[test]
fn bytes_decode_with_replacement_characters() {
    assert_eq!(lossy_chars(b"abc"), chars("abc"));
    assert_eq!(lossy_chars("h\u{e9}".as_bytes()), chars("h\u{e9}"));
    assert_eq!(lossy_chars(b"a\xffb"), chars("a\u{fffd}b"));
    assert_eq!(lossy_chars(b""), Vec::<char>::new());
}
