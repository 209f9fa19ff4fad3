use stellar_format::grouping::{MINUS, THIN_SPACE};
use stellar_format::parse::{strip_whitespace_and_normalize, white_space};

fn parse(text: &str) -> Option<f64> {
    strip_whitespace_and_normalize(text).parse().ok()
}

#[test]
fn parses_grouped_number() {
    let text = format!("1{THIN_SPACE}234.5");
    assert_eq!(strip_whitespace_and_normalize(&text), "1234.5");
    assert_eq!(parse(&text), Some(1234.5));
}

#[test]
fn parses_minus_character() {
    let text = format!("{MINUS}5");
    assert_eq!(strip_whitespace_and_normalize(&text), "-5");
    assert_eq!(parse(&text), Some(-5.0));
}

#[test]
fn rejects_non_numbers() {
    assert_eq!(parse("abc"), None);
    assert_eq!(parse(""), None);
    assert_eq!(parse("1.2.3"), None);
}

#[test]
fn strips_all_white_space() {
    assert_eq!(strip_whitespace_and_normalize(" \t1 2\n3\u{a0}\u{3000} "), "123");
    assert_eq!(strip_whitespace_and_normalize("-7"), "-7");
}

#[test]
fn white_space_agrees_with_std() {
    for code in 0u32..0x4000 {
        if let Some(c) = char::from_u32(code) {
            assert_eq!(white_space(c), c.is_whitespace(), "U+{code:04X}");
        }
    }
}
