//! Numbers, lines, fields, searching and trimming agree with the standard library.

use gritty::rows::{join_texts, split_fields, split_lines};
use gritty::text::{
    chars_of, contains_text, decimal_text, find_first, find_last, hex_text, parse_number,
    same_text, text_of, trim_text,
};

fn as_texts(v: Vec<&[char]>) -> Vec<String> {
    v.iter().map(|p| p.iter().collect()).collect()
}

#[test]
fn numbers_are_written() {
    for n in [0, 1, 9, 10, 11, 99, 100, 12345, u32::MAX as u64, u64::MAX] {
        assert_eq!(decimal_text(n), n.to_string());
    }
    for b in [0u8, 1, 9, 10, 15, 16, 0xa5, 0xff] {
        assert_eq!(hex_text(b), format!("{b:02x}"));
    }
}

#[test]
fn numbers_are_read() {
    let samples = [
        "", "0", "00", "7", "+7", "++7", "+", "-", "-7", " 7", "7 ", "1a", "65535", "65536",
        "4294967295", "4294967296", "18446744073709551615", "18446744073709551616",
        "99999999999999999999999", "\u{661}", "0000000000000000000000001",
    ];
    for s in samples {
        let c = chars_of(s);
        assert_eq!(parse_number(&c, u64::MAX), s.parse::<u64>().ok(), "{s:?}");
        assert_eq!(parse_number(&c, u32::MAX as u64), s.parse::<u32>().ok().map(u64::from));
        assert_eq!(parse_number(&c, u16::MAX as u64), s.parse::<u16>().ok().map(u64::from));
    }
}

#[test]
fn lines_and_fields() {
    let samples = [
        "", "\n", "\r\n", "a", "a\n", "a\nb", "a\r\nb\r\n", "a\r", "\r", "a\n\nb", "a\r\r\nb",
        "\n\n", "a\tb\t\tc", "\t", "\u{e9}\n\u{1f600}",
    ];
    for s in samples {
        let c = chars_of(s);
        let std_lines: Vec<String> = s.lines().map(|l| l.to_string()).collect();
        assert_eq!(as_texts(split_lines(&c)), std_lines, "{s:?}");
        let std_fields: Vec<String> = s.split('\t').map(|l| l.to_string()).collect();
        assert_eq!(as_texts(split_fields(&c, '\t')), std_fields, "{s:?}");
    }
    let parts = ["a".to_string(), String::new(), "c".to_string()];
    assert_eq!(join_texts(&parts, '\t'), "a\t\tc");
    assert_eq!(join_texts(&parts[..1], '\t'), "a");
    assert_eq!(join_texts(&[], '\t'), "");
}

#[test]
fn searching_and_trimming() {
    let samples = [
        "", " ", "a", " a ", "\u{a0}a\u{2003}", "\t\r\n a b \u{85}", "\u{3000}", "a@b@c", "x",
        "no such session: x", "\u{200b}a", "\u{1680}\u{2028}\u{2029}\u{202f}\u{205f}z",
    ];
    for s in samples {
        let c = chars_of(s);
        assert_eq!(text_of(&c), s);
        assert_eq!(text_of(trim_text(&c)), s.trim(), "{s:?}");
        let at = c.iter().position(|x| *x == '@').unwrap_or(c.len());
        assert_eq!(find_first(&c, '@'), at);
        assert_eq!(find_last(&c, '@'), c.iter().rposition(|x| *x == '@'));
        for pat in ["", "a", "a@", "no such session", "session: y", "  "] {
            assert_eq!(contains_text(&c, &chars_of(pat)), s.contains(pat), "{s:?} {pat:?}");
        }
    }
    assert!(same_text("a\u{e9}", "a\u{e9}"));
    assert!(!same_text("a", "b"));
}

#[test]
fn every_space_is_known() {
    for n in 0u32..0x11_0000 {
        if let Some(c) = char::from_u32(n) {
            let trimmed = trim_text(&[c]).is_empty();
            assert_eq!(trimmed, c.is_whitespace(), "{n:x}");
        }
    }
}
