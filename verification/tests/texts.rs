use ai_native_control_layer::text::{
    glue, glue3, contains, find_last, from_chars, lines, parse_unsigned,
    same_ignoring_ascii_case, same_text, shorten, strip_leading_dots, to_chars, to_decimal, trim,
    white_space,
};

#[test]
fn white_space_is_that_of_unicode() {
    for n in 0u32..=0x10ffff {
        if let Some(c) = char::from_u32(n) {
            assert_eq!(white_space(c), c.is_whitespace(), "{c:?}");
        }
    }
}

#[test]
fn texts_are_trimmed_at_both_ends() {
    for s in ["", " ", "a", " a b ", "\t\u{2003}é \u{1680}x\r\n", "\u{200b}a"] {
        assert_eq!(trim(s), s.trim());
    }
}

#[test]
fn texts_are_found_in_texts() {
    for (s, p) in [("", ""), ("a", ""), ("", "a"), ("abcabc", "bc"), ("aab", "ab"), ("éé", "é")] {
        assert_eq!(contains(s, p), s.contains(p), "{s} {p}");
        let chars = s.rfind(p).map(|at| s[..at].chars().count());
        assert_eq!(find_last(s, p), chars, "{s} {p}");
    }
    assert!(!contains("abc", "ac"));
    assert_eq!(find_last("abc", "x"), None);
}

#[test]
fn numbers_are_written_and_read() {
    for n in [0u64, 7, 10, 99, 100, 65_535, 1_000_000_007, u64::MAX] {
        assert_eq!(to_decimal(n), n.to_string());
        assert_eq!(parse_unsigned(&to_decimal(n), u64::MAX), Some(n));
    }
    for text in ["", "+", "-1", "+5", "05", "1_0", " 1", "18446744073709551615", "18446744073709551616"] {
        assert_eq!(parse_unsigned(text, u64::MAX), text.parse::<u64>().ok(), "{text}");
    }
    assert_eq!(parse_unsigned("200", 200), Some(200));
    assert_eq!(parse_unsigned("201", 200), None);
}

#[test]
fn only_ascii_letters_lose_their_case() {
    for (a, b) in [("TXT", "txt"), ("É", "é"), ("a", "ab"), ("[", "{"), ("@", "`"), ("Z9", "z9")] {
        assert_eq!(same_ignoring_ascii_case(a, b), a.eq_ignore_ascii_case(b), "{a} {b}");
    }
}

#[test]
fn texts_are_split_into_lines() {
    for s in ["", "\n", "a", "a\n", "a\nb", "a\r\nb\r", "\r\n\n", "a\rb\n", "\n\na", "a\r\r\nb"] {
        assert_eq!(lines(s), s.lines().collect::<Vec<&str>>(), "{s:?}");
    }
}

#[test]
fn texts_are_taken_apart_and_put_together() {
    assert_eq!(to_chars("aé"), ['a', 'é']);
    assert_eq!(from_chars(&vec!['a', 'é', 'b'], 1, 3), "éb");
    assert!(same_text("aé", "aé") && !same_text("a", "A"));
    assert_eq!(glue("a", "é"), "aé");
    assert_eq!(glue3("a", "", "é"), "aé");
    assert_eq!(strip_leading_dots("..tar.gz"), "tar.gz");
    assert_eq!(strip_leading_dots("..."), "");
    assert_eq!(shorten("aéb", 2), "aé");
    assert_eq!(shorten("aéb", 3), "aéb");
    assert_eq!(shorten("aéb", 0), "");
}
