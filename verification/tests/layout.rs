use puid::layout::{find_foreign, starts_with, SEPARATOR};

#[test]
fn separator_is_the_underscore() {
    assert_eq!(SEPARATOR, b'_');
}

#[test]
fn starts_with_a_prefix() {
    assert!(starts_with(b"usr_123", b"usr"));
    assert!(starts_with(b"usr", b"usr"));
    assert!(starts_with(b"usr", b""));
    assert!(starts_with(b"", b""));
}

#[test]
fn does_not_start_with_another_text() {
    assert!(!starts_with(b"usr_123", b"usx"));
    assert!(!starts_with(b"usr_123", b"Usr"));
    assert!(!starts_with(b"usr_123", b"sr_"));
}

#[test]
fn does_not_start_with_a_longer_text() {
    assert!(!starts_with(b"us", b"usr"));
    assert!(!starts_with(b"", b"u"));
}

#[test]
fn finds_no_foreign_byte_in_alphabet_bytes() {
    assert_eq!(find_foreign(b""), None);
    assert_eq!(find_foreign(b"09AZaz"), None);
    assert_eq!(find_foreign(b"45A0IQarTgXyiRM6VQ9YbX"), None);
}

#[test]
fn finds_the_first_foreign_byte() {
    assert_eq!(find_foreign(b"@"), Some(b'@'));
    assert_eq!(find_foreign(b"12@34"), Some(b'@'));
    assert_eq!(find_foreign(b"12#4@"), Some(b'#'));
    assert_eq!(find_foreign(b"abc_"), Some(b'_'));
    assert_eq!(find_foreign(&[b'a', 0xff, 0x00]), Some(0xff));
}
