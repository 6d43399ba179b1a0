use torvpn_control::number::{decimal, parse_u8, push_decimal};
use torvpn_control::split::{
    before_char, index_of, lines, split, split_once, split_whitespace,
};
use torvpn_control::text::{
    eq_ignore_ascii_case, find, is_space_char, join, starts_with, str_eq, strip_prefix, to_chars,
    trim,
};

#[test]
fn white_space_is_the_unicode_property() {
    for c in [' ', '\t', '\n', '\r', '\u{0b}', '\u{0c}', '\u{85}', '\u{a0}', '\u{3000}'] {
        assert!(is_space_char(c));
        assert!(c.is_whitespace());
    }
    for c in ['a', '0', '-', '\u{200b}', '\u{feff}'] {
        assert!(!is_space_char(c));
        assert!(!c.is_whitespace());
    }
}

#[test]
fn white_space_agrees_with_std_on_every_char() {
    let mut n: u32 = 0;
    while n <= 0x10ffff {
        if let Some(c) = char::from_u32(n) {
            assert_eq!(is_space_char(c), c.is_whitespace());
        }
        n += 1;
    }
}

#[test]
fn to_chars_keeps_every_character() {
    assert_eq!(to_chars("aé\u{3000}z"), vec!['a', 'é', '\u{3000}', 'z']);
    assert_eq!(to_chars(""), Vec::<char>::new());
}

#[test]
fn trim_removes_white_space_at_both_ends_only() {
    assert_eq!(trim("  a b \r\n"), "a b");
    assert_eq!(trim("\u{a0}x\u{3000}"), "x");
    assert_eq!(trim(" \t "), "");
    assert_eq!(trim(""), "");
    assert_eq!(trim("abc"), "abc");
}

#[test]
fn prefixes() {
    assert!(starts_with("250 OK", "250 "));
    assert!(!starts_with("250", "250 "));
    assert!(starts_with("abc", ""));
    assert_eq!(strip_prefix("X-Auth: t", "X-Auth:"), Some(" t"));
    assert_eq!(strip_prefix("X-Auth", "X-Auth:"), None);
    assert!(str_eq("é", "é"));
    assert!(!str_eq("a", "ab"));
}

#[test]
fn find_gives_the_first_place() {
    assert_eq!(find("abcabc", "bc"), Some(1));
    assert_eq!(find("abc", "x"), None);
    assert_eq!(find("abc", ""), Some(0));
    assert_eq!(find("", ""), Some(0));
    assert_eq!(find("ab", "abc"), None);
    assert_eq!(find("éé\r\n\r\nx", "\r\n\r\n"), Some(2));
}

#[test]
fn comparison_ignores_ascii_case_only() {
    assert!(eq_ignore_ascii_case("DataDirectory", "datadirectory"));
    assert!(eq_ignore_ascii_case("COOKIEAUTHFILE", "CookieAuthFile"));
    assert!(!eq_ignore_ascii_case("É", "é"));
    assert!(!eq_ignore_ascii_case("a", "ab"));
    assert!(!eq_ignore_ascii_case("[", "{"));
}

#[test]
fn join_puts_the_separator_between_parts() {
    assert_eq!(join(&vec!["a".to_string(), "b".to_string(), "c".to_string()], ","), "a,b,c");
    assert_eq!(join(&vec!["a".to_string()], ","), "a");
    assert_eq!(join(&Vec::new(), ","), "");
    assert_eq!(join(&vec!["".to_string(), "".to_string()], "--"), "--");
}

#[test]
fn split_keeps_empty_parts() {
    assert_eq!(split("a,b,,c", ','), vec!["a", "b", "", "c"]);
    assert_eq!(split("", ','), vec![""]);
    assert_eq!(split(",", ','), vec!["", ""]);
    assert_eq!(split("abc", ','), vec!["abc"]);
}

#[test]
fn split_once_and_before_char() {
    assert_eq!(split_once("k=v=w", '='), Some(("k", "v=w")));
    assert_eq!(split_once("kv", '='), None);
    assert_eq!(split_once("=", '='), Some(("", "")));
    assert_eq!(before_char("1.2.3.4:5678", ':'), "1.2.3.4");
    assert_eq!(before_char("nocolon", ':'), "nocolon");
    assert_eq!(index_of("abc", 'c'), Some(2));
    assert_eq!(index_of("abc", 'x'), None);
}

#[test]
fn lines_drop_terminators() {
    assert_eq!(lines("a\r\nb\nc"), vec!["a", "b", "c"]);
    assert_eq!(lines("a\r\n"), vec!["a"]);
    assert_eq!(lines(""), Vec::<&str>::new());
    assert_eq!(lines("\n\n"), vec!["", ""]);
    assert_eq!(lines("a\r"), vec!["a\r"]);
    assert_eq!(lines("a\r\r\n"), vec!["a\r"]);
    for s in ["a\r\nb\nc", "a\r\n", "", "\n\n", "a\r", "x\n\r\ny\r", "\r\n"] {
        assert_eq!(lines(s), s.lines().collect::<Vec<&str>>());
    }
}

#[test]
fn words_are_runs_without_white_space() {
    assert_eq!(split_whitespace("  GET  /status HTTP/1.1 "), vec!["GET", "/status", "HTTP/1.1"]);
    assert_eq!(split_whitespace(" \t "), Vec::<&str>::new());
    assert_eq!(split_whitespace(""), Vec::<&str>::new());
    assert_eq!(split_whitespace("one"), vec!["one"]);
}

#[test]
fn decimal_notation() {
    assert_eq!(decimal(0), "0");
    assert_eq!(decimal(7), "7");
    assert_eq!(decimal(10), "10");
    assert_eq!(decimal(9050), "9050");
    assert_eq!(decimal(u64::MAX), "18446744073709551615");
    let mut s = String::from("n=");
    push_decimal(&mut s, 405);
    assert_eq!(s, "n=405");
}

#[test]
fn parse_u8_accepts_what_std_accepts() {
    assert_eq!(parse_u8("0"), Some(0));
    assert_eq!(parse_u8("45"), Some(45));
    assert_eq!(parse_u8("255"), Some(255));
    assert_eq!(parse_u8("256"), None);
    assert_eq!(parse_u8("+5"), Some(5));
    assert_eq!(parse_u8("007"), Some(7));
    assert_eq!(parse_u8(""), None);
    assert_eq!(parse_u8("+"), None);
    assert_eq!(parse_u8("-1"), None);
    assert_eq!(parse_u8("1a"), None);
    assert_eq!(parse_u8(" 1"), None);
    assert_eq!(parse_u8("0000000000000000000000255"), Some(255));
    assert_eq!(parse_u8("99999999999999999999999999"), None);
    for s in ["0", "45", "255", "256", "+5", "++5", "007", "", "+", "-", "-1", "1a", "٣"] {
        assert_eq!(parse_u8(s), s.parse::<u8>().ok());
    }
}
