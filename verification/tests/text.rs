//! Texts.
use qq_maid_core::text;

#[test]
fn texts_are_trimmed_and_split() {
    assert_eq!(text::trim("\u{3000} a b \n"), "a b");
    assert!(text::is_blank(" \t"));
    assert_eq!(text::split_words(" a  b\u{3000}c "), vec!["a", "b", "c"]);
    assert_eq!(text::split_lines("a\r\nb\n\nc\n"), vec!["a", "b", "", "c"]);
    assert_eq!(text::compact(" a \n b "), "ab");
    assert_eq!(text::trim_chars("。好！", "。！"), "好");
    assert_eq!(text::take_chars("知识库", 2), "知识");
}

#[test]
fn parts_are_found() {
    assert!(text::contains("知识检索", "识检"));
    assert!(!text::contains("知识", "检"));
    assert!(text::has_prefix("rss:1", "rss:"));
    assert!(text::has_suffix("a.md", ".md"));
    assert_eq!(text::strip_prefix("rss:1", "rss:"), Some("1"));
    assert_eq!(text::strip_suffix("a.md", ".txt"), None);
    assert_eq!(text::replace("a-b-c", "-", "+"), "a+b+c");
    assert_eq!(
        text::split_once("a=b=c", '='),
        Some(("a".to_owned(), "b=c".to_owned()))
    );
    assert_eq!(text::split_char("a,,b", ','), vec!["a", "", "b"]);
}

#[test]
fn numbers_are_written_and_read() {
    assert_eq!(text::decimal_string(0), "0");
    assert_eq!(text::decimal_string(u64::MAX), "18446744073709551615");
    assert!(text::reads_as_number("42"));
    assert!(!text::reads_as_number("4x"));
    assert_eq!(text::to_ascii_lowercase("ABÉ"), "abÉ");
    assert!(text::contains_control("a\u{7}"));
}
