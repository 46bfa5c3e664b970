use ssh_bookmarker::decimal::{i64_to_string, parse_i64, u128_to_string};
use ssh_bookmarker::text::{chars_of, join_strings, split_chars, str_blank, string_of, trim_chars};

fn parse(s: &str) -> Option<i64> {
    parse_i64(&chars_of(s))
}

#[test]
fn trim_removes_unicode_whitespace_at_both_ends() {
    let v = chars_of("\u{3000} \t root \r\n\u{a0}");
    assert_eq!(string_of(&trim_chars(&v)), "root");
    assert_eq!(string_of(&trim_chars(&chars_of("  a b  "))), "a b");
    assert_eq!(string_of(&trim_chars(&chars_of(" \n "))), "");
}

#[test]
fn blank_strings_are_only_whitespace() {
    assert!(str_blank(""));
    assert!(str_blank(" \t\n\u{2003}"));
    assert!(!str_blank(" x "));
}

#[test]
fn split_keeps_empty_pieces() {
    let pieces = split_chars(&chars_of("a}}b}"), '}');
    let texts: Vec<String> = pieces.iter().map(|p| string_of(p)).collect();
    assert_eq!(texts, vec!["a", "", "b", ""]);
    let one = split_chars(&chars_of(""), '}');
    assert_eq!(one.len(), 1);
    assert!(one[0].is_empty());
}

#[test]
fn join_puts_separator_between_neighbours() {
    let parts = vec!["ssh".to_string(), "-t".to_string(), "u@h".to_string()];
    assert_eq!(join_strings(&parts, " "), "ssh -t u@h");
    assert_eq!(join_strings(&Vec::new(), " && "), "");
    assert_eq!(join_strings(&vec!["one".to_string()], " && "), "one");
}

#[test]
fn integers_are_written_as_display_writes_them() {
    for n in [0i64, 7, -7, 10, 2222, -100, i64::MAX, i64::MIN] {
        assert_eq!(i64_to_string(n), n.to_string());
    }
    for n in [0u128, 9, 22, 65535, 1_700_000_000_123_456_789, u128::MAX] {
        assert_eq!(u128_to_string(n), n.to_string());
    }
}

#[test]
fn integers_are_read_as_str_parse_reads_them() {
    let cases = [
        "0", "42", "+42", "-42", "-0", "007", "", "+", "-", "1a", " 1", "1 ", "--1",
        "9223372036854775807", "9223372036854775808", "-9223372036854775808",
        "-9223372036854775809", "000000000000000000000000000000000000012",
        "99999999999999999999999999999999999999999999",
    ];
    for c in cases {
        assert_eq!(parse(c), c.parse::<i64>().ok(), "input {:?}", c);
    }
}

#[test]
fn written_integers_read_back() {
    for n in [0i64, 1, -1, 123456789, -987654321, i64::MAX, i64::MIN] {
        assert_eq!(parse(&i64_to_string(n)), Some(n));
    }
}
