use autoban::text::{chars_of, decimal_text, lines, parse_i32, parse_u16, split_chars, split_words, contains, same_text, string_of};
use autoban::filer_service::service::parse_trigger;

fn v(s: &str) -> Vec<char> {
    s.chars().collect()
}

fn texts(p: &Vec<Vec<char>>) -> Vec<String> {
    p.iter().map(|x| x.iter().collect()).collect()
}

#[test]
fn decimal_text_writes_plain_digits() {
    assert_eq!(decimal_text(0), "0");
    assert_eq!(decimal_text(7), "7");
    assert_eq!(decimal_text(10), "10");
    assert_eq!(decimal_text(65535), "65535");
    assert_eq!(decimal_text(u64::MAX), u64::MAX.to_string());
}

#[test]
fn parse_u16_accepts_what_str_parse_accepts() {
    for s in ["0", "1", "65535", "+7", "007", "65536", "", "+", "-1", "1 ", " 1", "12K", "x"] {
        assert_eq!(parse_u16(&v(s)), s.parse::<u16>().ok(), "{s}");
    }
}

#[test]
fn parse_i32_accepts_what_str_parse_accepts() {
    for s in ["0", "-0", "1", "-1", "+1", "2147483647", "2147483648", "-2147483648", "-2147483649", "", "-", "+", "--1", "1-", "abc", "99999999999999999999"] {
        assert_eq!(parse_i32(&v(s)), s.parse::<i32>().ok(), "{s}");
    }
}

#[test]
fn split_chars_keeps_empty_pieces() {
    assert_eq!(texts(&split_chars(&v("a/b"), '/')), vec!["a", "b"]);
    assert_eq!(texts(&split_chars(&v(""), '/')), vec![""]);
    assert_eq!(texts(&split_chars(&v("/a//"), '/')), vec!["", "a", "", ""]);
}

#[test]
fn split_words_matches_split_whitespace() {
    for s in ["", "  ", "a", " a  b\tc\n", "x\u{a0}y\u{3000}z", "  12  3400 RETURN  "] {
        let expected: Vec<String> = s.split_whitespace().map(|w| w.to_string()).collect();
        assert_eq!(texts(&split_words(&v(s))), expected, "{s:?}");
    }
}

#[test]
fn lines_matches_str_lines() {
    for s in ["", "\n", "a", "a\n", "a\r\nb", "a\n\nb\n", "a\rb\r", "x\r\n\r\n"] {
        let expected: Vec<String> = s.lines().map(|l| l.to_string()).collect();
        assert_eq!(texts(&lines(&v(s))), expected, "{s:?}");
    }
}

#[test]
fn contains_finds_parts() {
    assert!(contains(&v("  10.0.0.0/8  "), &v("10.0.0.0")));
    assert!(!contains(&v("0.0.0.0/0"), &v("10.0.0.0")));
    assert!(contains(&v("abc"), &v("")));
    assert!(!contains(&v("ab"), &v("abc")));
}

#[test]
fn same_text_and_round_trips() {
    assert!(same_text("udp", "udp"));
    assert!(!same_text("udp", "UDP"));
    assert_eq!(string_of(&chars_of("héllo")), "héllo");
}

#[test]
fn parse_trigger_reads_valid_triggers() {
    assert_eq!(parse_trigger(&"10/60".to_string()), ("10".to_string(), "60".to_string(), true));
    assert_eq!(parse_trigger(&"+5/7".to_string()), ("+5".to_string(), "7".to_string(), true));
    assert_eq!(parse_trigger(&"2147483647/1".to_string()), ("2147483647".to_string(), "1".to_string(), true));
}

#[test]
fn parse_trigger_refuses_invalid_triggers() {
    let none = (String::new(), String::new(), false);
    for s in ["", "10", "10/0", "0/10", "a/b", "1/2/3", "-1/5", "2147483648/1", "10/", "/10", " 1/2"] {
        assert_eq!(parse_trigger(&s.to_string()), none, "{s}");
    }
}

#[test]
fn parse_trigger_parts_join_back() {
    for s in ["10/60", "+5/7", "1/1"] {
        let (p, t, valid) = parse_trigger(&s.to_string());
        assert!(valid);
        assert_eq!(format!("{p}/{t}"), s);
    }
}

#[test]
fn counters_read_back() {
    for n in [0u16, 1, 9, 10, 99, 100, 12345, 65535] {
        assert_eq!(parse_u16(&v(&decimal_text(n as u64))), Some(n));
    }
}
