use dev_dashboard::text::{
    append_i64, append_u64, chars_of, contains_part, find_char, join_lines, split_chars,
    split_lines, split_words, string_of, trim_chars, CharClass,
};

fn strings(parts: Vec<&[char]>) -> Vec<String> {
    parts.into_iter().map(string_of).collect()
}

#[test]
fn white_space_is_what_the_standard_library_takes_for_it() {
    for code in 0..0x11_0000u32 {
        if let Some(c) = char::from_u32(code) {
            let listed = matches!(c,
                '\u{9}'..='\u{d}' | ' ' | '\u{85}' | '\u{a0}' | '\u{1680}' | '\u{2000}'..='\u{200a}'
                | '\u{2028}' | '\u{2029}' | '\u{202f}' | '\u{205f}' | '\u{3000}');
            assert_eq!(CharClass::White.contains(c), listed, "{:?}", c);
        }
    }
}

#[test]
fn lines_end_as_in_the_standard_library() {
    for text in ["", "\n", "a", "a\n", "a\r\nb", "\r\n\n\r", "a\rb\n\nc\r", "\n\n"] {
        let chars = chars_of(text);
        let expected: Vec<String> = text.lines().map(|s| s.to_string()).collect();
        assert_eq!(strings(split_lines(&chars)), expected, "{:?}", text);
    }
}

#[test]
fn pieces_and_words_are_as_in_the_standard_library() {
    for text in ["", ",", "a", ",a,,b,", " a  b\tc\u{3000}d ", "  ", "a, b"] {
        let chars = chars_of(text);
        let pieces: Vec<String> = text.split(',').map(|s| s.to_string()).collect();
        assert_eq!(strings(split_chars(&chars, ',')), pieces, "{:?}", text);
        let words: Vec<String> = text.split_whitespace().map(|s| s.to_string()).collect();
        assert_eq!(strings(split_words(&chars)), words, "{:?}", text);
        let trimmed = string_of(trim_chars(&chars, CharClass::White));
        assert_eq!(trimmed, text.trim(), "{:?}", text);
        let stripped = string_of(trim_chars(&chars, CharClass::Only(',')));
        assert_eq!(stripped, text.trim_matches(','), "{:?}", text);
    }
}

#[test]
fn parts_are_found() {
    let text = chars_of("aabaab");
    assert!(contains_part(&text, &chars_of("abaa")));
    assert!(contains_part(&text, &[]));
    assert!(!contains_part(&text, &chars_of("bb")));
    assert!(!contains_part(&[], &chars_of("b")));
    assert_eq!(find_char(&text, 'b'), 2);
    assert_eq!(find_char(&text, 'x'), 6);
}

#[test]
fn numbers_are_written_in_decimal() {
    let mut out = String::new();
    for n in [0, 9, 10, 1234567890, u64::MAX] {
        append_u64(&mut out, n);
        out.push(' ');
    }
    for n in [0, -1, i64::MIN, i64::MAX] {
        append_i64(&mut out, n);
        out.push(' ');
    }
    assert_eq!(
        out,
        "0 9 10 1234567890 18446744073709551615 0 -1 -9223372036854775808 9223372036854775807 "
    );
}

#[test]
fn lines_are_joined() {
    let lines = vec!["a".to_string(), String::new(), "b".to_string()];
    assert_eq!(join_lines(&lines, 0, 3), "a\n\nb");
    assert_eq!(join_lines(&lines, 1, 3), "\nb");
    assert_eq!(join_lines(&lines, 2, 2), "");
}
