use kivio_core::text::{
    chars_of, contains, decimal_text, ends_with_lower, find, head_text, lower_ascii,
    parse_unsigned_text, same_text, slice_text, starts_with, strip_prefix, strip_repeated_text,
    trim_end_char, trim_start_char, trim_text, whitespace, width_of_char,
};

#[test]
fn characters_agree_with_the_standard_library() {
    for code in 0u32..=0x10ffff {
        if let Some(c) = char::from_u32(code) {
            assert_eq!(whitespace(c), c.is_whitespace());
            assert_eq!(lower_ascii(c), c.to_ascii_lowercase());
            assert_eq!(width_of_char(c), c.len_utf8());
        }
    }
}

#[test]
fn trimming_agrees_with_the_standard_library() {
    for s in ["", "  ", "a", " a ", "\u{3000}字 符\n", "//a//", "\n\nx\n"] {
        assert_eq!(trim_text(s), s.trim());
        assert_eq!(trim_end_char(s, '/'), s.trim_end_matches('/'));
        assert_eq!(trim_start_char(s, '\n'), s.trim_start_matches('\n'));
        assert_eq!(strip_repeated_text(s, "/"), s.trim_start_matches("/"));
        assert_eq!(head_text(s, 2), s.chars().take(2).collect::<String>());
        assert_eq!(chars_of(s), s.chars().collect::<Vec<char>>());
    }
    assert_eq!(strip_repeated_text("data:data: x", "data:"), " x");
    assert_eq!(slice_text("字符abc", 1, 3), "符a");
}

#[test]
fn searching_agrees_with_the_standard_library() {
    assert_eq!(find("字符 Error: x", " Error: "), Some(2));
    assert_eq!(find("aaab", "ab"), Some(2));
    assert_eq!(find("abc", ""), Some(0));
    assert_eq!(find("", ""), Some(0));
    assert_eq!(find("ab", "abc"), None);
    assert!(contains("response.web_search_call", "web_search"));
    assert!(!contains("response", "web_search"));
    assert!(starts_with("data: x", "data:"));
    assert!(!starts_with("dat", "data:"));
    assert_eq!(strip_prefix("event: x", "event:"), Some(" x".to_string()));
    assert_eq!(strip_prefix("even", "event:"), None);
    assert!(ends_with_lower("https://H/V1/Responses", "/responses"));
    assert!(!ends_with_lower("/x", "/responses"));
    assert!(same_text("字", "字"));
    assert!(!same_text("a", "ab"));
}

#[test]
fn numbers_are_written_and_read() {
    for n in [0u64, 1, 9, 10, 99, 100, 12_345, u64::MAX] {
        assert_eq!(decimal_text(n), n.to_string());
        assert_eq!(parse_unsigned_text(&n.to_string(), u64::MAX), Some(n));
    }
    assert_eq!(parse_unsigned_text("007", 10), Some(7));
    assert_eq!(parse_unsigned_text("11", 10), None);
    assert_eq!(parse_unsigned_text("+", 10), None);
    assert_eq!(parse_unsigned_text("1 ", 10), None);
}
