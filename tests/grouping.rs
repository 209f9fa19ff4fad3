use stellar_format::grouping::{add_thousands_separators, MINUS, THIN_SPACE};

#[test]
fn groups_seven_digits_from_the_end() {
    let expected = format!("1{THIN_SPACE}234{THIN_SPACE}567");
    assert_eq!(add_thousands_separators("1234567"), expected);
}

#[test]
fn short_numbers_get_no_separator() {
    assert_eq!(add_thousands_separators(""), "");
    assert_eq!(add_thousands_separators("1"), "1");
    assert_eq!(add_thousands_separators("12"), "12");
    assert_eq!(add_thousands_separators("123"), "123");
}

#[test]
fn separator_never_comes_first() {
    assert_eq!(add_thousands_separators("1234"), format!("1{THIN_SPACE}234"));
    assert_eq!(add_thousands_separators("123456"), format!("123{THIN_SPACE}456"));
    assert_eq!(
        add_thousands_separators("12345678"),
        format!("12{THIN_SPACE}345{THIN_SPACE}678")
    );
}

#[test]
fn grouping_twice_is_not_grouping_once() {
    let once = add_thousands_separators("1234567");
    let twice = add_thousands_separators(&once);
    assert_ne!(once, twice);
}

#[test]
fn glyphs_are_the_unicode_ones() {
    assert_eq!(MINUS, '\u{2212}');
    assert_eq!(THIN_SPACE, '\u{2009}');
    assert!(THIN_SPACE.is_whitespace());
}
