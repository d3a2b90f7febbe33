use muxie::pattern::{escape_question_marks, pattern_matches_url, Pattern};

#[test]
fn test_matching() {
    assert!("example.com".to_string().matches("https://www.example.com/"));
    assert!("example.com"
        .to_string()
        .matches("https://domain.com?redirect=https://www.example.com"));
    assert!("https://*.example.com/*".to_string().matches("https://www.example.com/"));
    assert!(!"https://*.example.com/*"
        .to_string()
        .matches("https://domain.com?redirect=https://www.example.com"));
    assert!(!"*.example.com/path?foo"
        .to_string()
        .matches("https://www.example.com/path/foo"));
}

#[test]
fn literal_patterns_are_case_sensitive_substrings() {
    assert!(pattern_matches_url("", "anything"));
    assert!(!pattern_matches_url("Example.com", "https://example.com"));
    assert!(pattern_matches_url("a?b", "xa?bx"));
    assert!(!pattern_matches_url("a?b", "xacbx"));
}

#[test]
fn wildcard_question_mark_is_literal() {
    assert!(pattern_matches_url("*.example.com/path?foo", "https://www.example.com/path?foo"));
    assert!(!pattern_matches_url("*.example.com/path?foo", "https://www.example.com/pathXfoo"));
    assert!(pattern_matches_url("*", ""));
    assert!(!pattern_matches_url("https://*", "http://x"));
}

#[test]
fn escaping_puts_backslash_before_question_marks() {
    assert_eq!(escape_question_marks("a?b?"), "a\\?b\\?");
    assert_eq!(escape_question_marks("none"), "none");
}
