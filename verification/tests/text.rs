use task_picker::error::{ErrorKind, ErrorLog, SourceError};
use task_picker::text::{append_decimal, append_signed_decimal, starts_with, str_eq, str_lt};

#[test]
fn prefixes_are_recognised() {
    assert!(starts_with("https://example.com", "https://"));
    assert!(starts_with("abc", ""));
    assert!(starts_with("abc", "abc"));
    assert!(!starts_with("ab", "abc"));
    assert!(!starts_with("http://example.com", "https://"));
    assert!(starts_with("\u{e9}t\u{e9}", "\u{e9}"));
}

#[test]
fn texts_are_equal_character_by_character() {
    assert!(str_eq("", ""));
    assert!(str_eq("COMPLETED", "COMPLETED"));
    assert!(!str_eq("COMPLETED", "COMPLETE"));
    assert!(!str_eq("COMPLETE", "COMPLETED"));
    assert!(!str_eq("abc", "abd"));
    assert!(str_eq("\u{4e2d}\u{6587}", "\u{4e2d}\u{6587}"));
}

#[test]
fn texts_sort_like_strings() {
    let samples = ["", "A", "Z", "a", "ab", "abc", "b", "\u{e9}", "\u{4e2d}", "GitHub", "GitLab"];
    for a in samples {
        for b in samples {
            assert_eq!(str_lt(a, b), a < b, "{a:?} < {b:?}");
        }
    }
}

#[test]
fn numbers_are_written_in_decimal() {
    let mut out = String::from("n=");
    append_decimal(&mut out, 0);
    assert_eq!(out, "n=0");
    let mut out = String::new();
    append_decimal(&mut out, 33013);
    assert_eq!(out, "33013");
    let mut out = String::new();
    append_decimal(&mut out, u64::MAX);
    assert_eq!(out, "18446744073709551615");
    let mut out = String::new();
    append_signed_decimal(&mut out, -42);
    assert_eq!(out, "-42");
    let mut out = String::new();
    append_signed_decimal(&mut out, i64::MIN);
    assert_eq!(out, "-9223372036854775808");
    let mut out = String::new();
    append_signed_decimal(&mut out, i64::MAX);
    assert_eq!(out, "9223372036854775807");
    let mut out = String::new();
    append_signed_decimal(&mut out, 1090);
    assert_eq!(out, "1090");
}

#[test]
fn a_transport_failure_is_classed_by_its_text() {
    let dns = SourceError::from_transport_text(
        "Transport(Transport { kind: Dns, message: None, url: None })".to_string(),
    );
    assert_eq!(dns.kind, ErrorKind::Unreachable);
    assert!(dns.is_dns_error());
    let refused = SourceError::from_transport_text(
        "Transport(Transport { kind: ConnectionFailed, message: None })".to_string(),
    );
    assert_eq!(refused.kind, ErrorKind::Transport);
    assert!(!refused.is_dns_error());
    assert_eq!(refused.message, "Transport(Transport { kind: ConnectionFailed, message: None })");
    let other = SourceError::new(ErrorKind::Schema, "x".to_string());
    assert!(!other.is_dns_error());
    assert!(SourceError::new(ErrorKind::Unreachable, String::new()).is_dns_error());
}

#[test]
fn the_error_log_keeps_the_latest_failure_of_each_source() {
    let mut log = ErrorLog::new();
    assert!(log.names().is_empty());
    log.insert("a".to_string(), SourceError::new(ErrorKind::Schema, "first".to_string()));
    log.insert("b".to_string(), SourceError::new(ErrorKind::Parse, "other".to_string()));
    log.insert("a".to_string(), SourceError::new(ErrorKind::Transport, "second".to_string()));
    let mut names = log.names();
    names.sort();
    assert_eq!(names, vec!["a", "b"]);
    let a = log.remove("a").unwrap();
    assert_eq!(a.kind, ErrorKind::Transport);
    assert_eq!(a.message, "second");
    assert!(log.remove("a").is_none());
    assert!(log.remove("c").is_none());
    assert_eq!(log.names(), vec!["b"]);
    assert_eq!(log.remove("b").unwrap().message, "other");
    assert!(log.names().is_empty());
}
