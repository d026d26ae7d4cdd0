use faulx::parse_pid_from_bytes;

#[test]
fn test_parse_pid_valid() {
    assert_eq!(parse_pid_from_bytes(b"1"), Some(1));
    assert_eq!(parse_pid_from_bytes(b"12345"), Some(12345));
    assert_eq!(parse_pid_from_bytes(b"429496729"), Some(429496729));
}

#[test]
fn test_parse_pid_invalid() {
    assert_eq!(parse_pid_from_bytes(b""), None);
    assert_eq!(parse_pid_from_bytes(b"abc"), None);
    assert_eq!(parse_pid_from_bytes(b"0000"), None);
    assert_eq!(parse_pid_from_bytes(b"18446744073"), None);
}

#[test]
fn test_parse_pid_zero_rejected() {
    assert_eq!(parse_pid_from_bytes(b"0"), None);
}

#[test]
fn test_parse_pid_leading_zeros() {
    assert_eq!(parse_pid_from_bytes(b"007"), Some(7));
    assert_eq!(parse_pid_from_bytes(b"0000000001"), Some(1));
}

#[test]
fn test_parse_pid_identifier_width() {
    assert_eq!(parse_pid_from_bytes(b"2147483647"), Some(i32::MAX));
    assert_eq!(parse_pid_from_bytes(b"2147483648"), None);
    assert_eq!(parse_pid_from_bytes(b"4294967295"), None);
}

#[test]
fn test_parse_pid_overlong() {
    assert_eq!(parse_pid_from_bytes(b"00000000001"), None);
}

#[test]
fn test_parse_pid_mixed_bytes() {
    assert_eq!(parse_pid_from_bytes(b"12a4"), None);
    assert_eq!(parse_pid_from_bytes(b" 123"), None);
    assert_eq!(parse_pid_from_bytes(b"123\n"), None);
}
