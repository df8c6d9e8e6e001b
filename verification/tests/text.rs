use wind::text::{parse_decimal, push_decimal, split_chars, str_chars, string_from_chars};

fn chars(s: &str) -> Vec<char> {
    s.chars().collect()
}

#[test]
fn decimal_round_trip() {
    for n in [0usize, 7, 10, 99, 100, 12345, usize::MAX] {
        let mut out = Vec::new();
        push_decimal(n, &mut out);
        assert_eq!(string_from_chars(&out), n.to_string());
        assert_eq!(parse_decimal(&out), Some(n));
    }
}

#[test]
fn parse_decimal_agrees_with_std() {
    for s in ["", "+", "-", "-1", "+5", "00", "12a", " 1", "1 ", "18446744073709551615", "18446744073709551616", "٣"] {
        assert_eq!(parse_decimal(&chars(s)), s.parse::<usize>().ok(), "{:?}", s);
    }
}

#[test]
fn split_agrees_with_std() {
    for s in ["", "a", "a&b", "&", "a&&b&", "é&ü"] {
        let pieces: Vec<String> = split_chars(&chars(s), '&').iter().map(|p| string_from_chars(p)).collect();
        let expected: Vec<String> = s.split('&').map(String::from).collect();
        assert_eq!(pieces, expected);
    }
}

#[test]
fn str_chars_keeps_every_char() {
    assert_eq!(str_chars("héllo"), vec!['h', 'é', 'l', 'l', 'o']);
}
