use postoffice::text::{
    decode, encode, ends_with, format_decimal, join, same_text, starts_with, strip_leading, to_chars,
};

#[test]
fn decimal_formatting() {
    assert_eq!(format_decimal(0), "0");
    assert_eq!(format_decimal(7), "7");
    assert_eq!(format_decimal(10), "10");
    assert_eq!(format_decimal(9000), "9000");
    assert_eq!(format_decimal(1234567890), "1234567890");
    assert_eq!(format_decimal(u64::MAX), u64::MAX.to_string());
}

#[test]
fn prefix_and_suffix_tests() {
    assert!(starts_with("/alert/fire", "/alert/"));
    assert!(!starts_with("/status/ok", "/alert/"));
    assert!(starts_with("abc", ""));
    assert!(starts_with("", ""));
    assert!(!starts_with("", "a"));
    assert!(!starts_with("ab", "abc"));
    assert!(starts_with("äbc", "ä"));
    assert!(!starts_with("äbc", "a"));
    assert!(ends_with("a/b/c", "/c"));
    assert!(!ends_with("a/b/c", "/b"));
    assert!(ends_with("abc", ""));
    assert!(!ends_with("bc", "abc"));
    assert!(ends_with("日本語", "語"));
    assert!(same_text("topic", "topic"));
    assert!(!same_text("topic", "topics"));
    assert!(!same_text("topics", "topic"));
    assert!(same_text("", ""));
}

#[test]
fn stripping_leading_characters() {
    assert_eq!(strip_leading("///a/b", '/'), "a/b");
    assert_eq!(strip_leading("a/b", '/'), "a/b");
    assert_eq!(strip_leading("///", '/'), "");
    assert_eq!(strip_leading("", '/'), "");
    assert_eq!(strip_leading("/é/", '/'), "é/");
    assert_eq!(strip_leading("ééa", 'é'), "a");
}

#[test]
fn joining_and_concatenating() {
    assert_eq!(join(&vec![], ", "), "");
    assert_eq!(join(&vec!["a".to_string()], ", "), "a");
    assert_eq!(join(&vec!["a".to_string(), "b".to_string(), "".to_string()], ", "), "a, b, ");
    assert_eq!(postoffice::text::concat("/", "topic"), "/topic");
    assert_eq!(postoffice::text::concat("", ""), "");
    assert_eq!(to_chars("aé😀"), vec!['a', 'é', '😀']);
}

#[test]
fn utf8_encoding_and_decoding() {
    assert_eq!(encode("é"), vec![0xc3, 0xa9]);
    assert_eq!(decode(vec![0xc3, 0xa9]), Some("é".to_string()));
    assert_eq!(decode(vec![0xc3]), None);
    assert_eq!(decode(vec![0xed, 0xa0, 0x80]), None);
    assert_eq!(decode(vec![]), Some(String::new()));
}
