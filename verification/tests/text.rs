use sandbox::text::{
    chars_of, decimal_string, parse_u64, push_decimal, push_hex, push_hex_padded, push_signed,
    same_text, span_is, split_fields, split_lines, split_words, text_starts_with, Span,
};

fn pieces(text: &str, spans: Vec<Span>) -> Vec<String> {
    let chars: Vec<char> = text.chars().collect();
    spans.iter().map(|s| chars[s.start..s.end].iter().collect()).collect()
}

fn whole(text: &str) -> Span {
    Span { start: 0, end: text.chars().count() }
}

#[test]
fn characters() {
    assert_eq!(chars_of("aé\n"), vec!['a', 'é', '\n']);
    assert!(chars_of("").is_empty());
}

#[test]
fn decimals() {
    assert_eq!(decimal_string(0), "0");
    assert_eq!(decimal_string(7), "7");
    assert_eq!(decimal_string(10), "10");
    assert_eq!(decimal_string(4294967295), "4294967295");
    assert_eq!(decimal_string(u64::MAX), "18446744073709551615");
    let mut s = String::from("n=");
    push_decimal(&mut s, 1203);
    assert_eq!(s, "n=1203");
    let mut s = String::new();
    push_signed(&mut s, -17);
    push_signed(&mut s, 0);
    push_signed(&mut s, i32::MIN);
    push_signed(&mut s, i32::MAX);
    assert_eq!(s, "-170-21474836482147483647");
}

#[test]
fn hexadecimals() {
    let mut s = String::new();
    push_hex(&mut s, 0);
    s.push(' ');
    push_hex(&mut s, 0x20000e);
    s.push(' ');
    push_hex(&mut s, u64::MAX);
    assert_eq!(s, "0 20000e ffffffffffffffff");
    let mut s = String::new();
    push_hex_padded(&mut s, 0xab, 8);
    push_hex_padded(&mut s, 0x1_2345_6789, 8);
    push_hex_padded(&mut s, 5, 0);
    assert_eq!(s, "000000ab23456789");
}

fn parse(text: &str) -> Option<u64> {
    parse_u64(&chars_of(text))
}

#[test]
fn numbers_are_read_like_from_str() {
    for text in ["0", "007", "+5", "22", "18446744073709551615", "18446744073709551616", "", "+", "-1", "1x", " 1", "1 ", "++1", "٣", "99999999999999999999999"] {
        assert_eq!(parse(text), text.parse::<u64>().ok(), "{:?}", text);
    }
    assert_eq!(parse("18446744073709551615"), Some(u64::MAX));
    assert_eq!(parse("18446744073709551616"), None);
}

#[test]
fn fields_keep_empty_ones() {
    let split = |text: &str| pieces(text, split_fields(&chars_of(text), whole(text), ','));
    assert_eq!(split("rw,noatime"), vec!["rw", "noatime"]);
    assert_eq!(split(""), vec![""]);
    assert_eq!(split(","), vec!["", ""]);
    assert_eq!(split("a,,b,"), vec!["a", "", "b", ""]);
    for text in ["x", ",x", "a,b,c", ",,,"] {
        let want: Vec<String> = text.split(',').map(|s| s.to_string()).collect();
        assert_eq!(split(text), want);
    }
    let text = "ab,cd;ef,gh";
    assert_eq!(pieces(text, split_fields(&chars_of(text), Span { start: 3, end: 8 }, ';')), vec!["cd", "ef"]);
}

#[test]
fn lines_like_str_lines() {
    for text in ["", "\n", "a", "a\n", "a\nb", "a\nb\n", "a\n\nb\n", "a\r\nb\r\n", "a\r", "\r\n", "a\rb\n", "\n\n"] {
        let want: Vec<String> = text.lines().map(|s| s.to_string()).collect();
        assert_eq!(pieces(text, split_lines(&chars_of(text))), want, "{:?}", text);
    }
}

#[test]
fn words_like_split_ascii_whitespace() {
    for text in ["", " ", "a", " a ", "a b", "a\tb\nc\r\x0cd", "  a   bc  ", "a\u{b}b", "a\u{a0}b c"] {
        let want: Vec<String> = text.split_ascii_whitespace().map(|s| s.to_string()).collect();
        assert_eq!(pieces(text, split_words(&chars_of(text), whole(text))), want, "{:?}", text);
    }
}

#[test]
fn comparing_text() {
    let chars = chars_of("ro,rw");
    assert!(span_is(&chars, Span { start: 0, end: 2 }, "ro"));
    assert!(span_is(&chars, Span { start: 3, end: 5 }, "rw"));
    assert!(!span_is(&chars, Span { start: 0, end: 2 }, "rw"));
    assert!(!span_is(&chars, Span { start: 0, end: 3 }, "ro"));
    assert!(span_is(&chars, Span { start: 2, end: 2 }, ""));
    assert!(same_text("tmpfs", "tmpfs"));
    assert!(!same_text("tmpfs", "tmpf"));
    assert!(!same_text("", "x"));
    assert!(text_starts_with("/dev/sda1", "/dev/"));
    assert!(text_starts_with("/dev/", "/dev/"));
    assert!(!text_starts_with("/dev", "/dev/"));
    assert!(!text_starts_with("devtmpfs", "/dev/"));
    assert!(text_starts_with("x", ""));
}
