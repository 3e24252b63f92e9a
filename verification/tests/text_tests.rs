use codex_core::text::{blank_char, is_blank_str, split_str, strip_cr_string, trim_end_str, trim_str};

#[test]
fn trim_removes_both_ends() {
    assert_eq!(trim_str("  hello world \t\n"), "hello world".to_string());
    assert_eq!(trim_str("hello"), "hello".to_string());
    assert_eq!(trim_str(""), String::new());
    assert_eq!(trim_str(" \t\r\n"), String::new());
    assert_eq!(trim_str("\na b\n\nc\n"), "a b\n\nc".to_string());
}

#[test]
fn trim_end_keeps_the_front() {
    assert_eq!(trim_end_str("  x  "), "  x".to_string());
    assert_eq!(trim_end_str("x"), "x".to_string());
    assert_eq!(trim_end_str("   "), String::new());
    assert_eq!(trim_end_str(""), String::new());
}

#[test]
fn blank_detection() {
    assert!(is_blank_str(""));
    assert!(is_blank_str(" \t\r\n"));
    assert!(!is_blank_str(" a "));
    assert!(blank_char('\t'));
    assert!(!blank_char('a'));
}

#[test]
fn split_keeps_empty_pieces() {
    let v = split_str("a\tb", '\t');
    assert_eq!(v, vec!["a".to_string(), "b".to_string()]);
    let v = split_str("a\t", '\t');
    assert_eq!(v, vec!["a".to_string(), String::new()]);
    let v = split_str("", '\t');
    assert_eq!(v, vec![String::new()]);
    let v = split_str("one\ntwo\n", '\n');
    assert_eq!(v, vec!["one".to_string(), "two".to_string(), String::new()]);
    let v = split_str("a\n\nb", '\n');
    assert_eq!(v, vec!["a".to_string(), String::new(), "b".to_string()]);
}

#[test]
fn strip_cr_drops_one_trailing_carriage_return() {
    assert_eq!(strip_cr_string(&"line\r".to_string()), "line".to_string());
    assert_eq!(strip_cr_string(&"line".to_string()), "line".to_string());
    assert_eq!(strip_cr_string(&String::new()), String::new());
    assert_eq!(strip_cr_string(&"a\r\r".to_string()), "a\r".to_string());
}
