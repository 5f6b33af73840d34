use fterm::text::{chars_of, lines_of, parse_u32_chars, push_decimal, string_from_chars, trim_chars};

fn lines(s: &str) -> Vec<String> {
    let c = chars_of(s);
    lines_of(&c).iter().map(|l| string_from_chars(l)).collect()
}

#[test]
fn lines_match_std() {
    for s in ["", "\n", "a", "a\n", "a\r\nb", "a\n\nb\n", "x\r", "x\r\n\r\n", "\r\n"] {
        let expected: Vec<String> = s.lines().map(String::from).collect();
        assert_eq!(lines(s), expected, "input {s:?}");
    }
}

#[test]
fn trim_matches_std() {
    for s in ["", "  a b  ", "\t\n x\u{3000}", "\u{a0}y\u{2028}", "none"] {
        let c = chars_of(s);
        assert_eq!(string_from_chars(&trim_chars(&c)), s.trim(), "input {s:?}");
    }
}

#[test]
fn parse_u32_matches_std() {
    for s in ["0", "42", "+7", "4294967295", "4294967296", "", "+", "-1", "1a", "007", "99999999999"] {
        let c = chars_of(s);
        assert_eq!(parse_u32_chars(&c), s.parse::<u32>().ok(), "input {s:?}");
    }
}

#[test]
fn decimal_matches_std() {
    for n in [0u64, 9, 10, 123, 4294967295, u64::MAX] {
        let mut s = String::new();
        push_decimal(&mut s, n);
        assert_eq!(s, n.to_string());
    }
}
