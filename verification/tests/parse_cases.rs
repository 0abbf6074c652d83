use divide_pair::{parse, parse_i32, ParseError};

fn rejected(text: &str) -> Result<(i32, i32), ParseError> {
    Err(ParseError(text.to_owned()))
}

#[test]
fn parse_i32_reads_plain_digits() {
    assert_eq!(parse_i32("0"), Some(0));
    assert_eq!(parse_i32("7"), Some(7));
    assert_eq!(parse_i32("52"), Some(52));
    assert_eq!(parse_i32("10000"), Some(10000));
    assert_eq!(parse_i32("1234567890"), Some(1234567890));
}

#[test]
fn parse_i32_reads_a_minus_sign() {
    assert_eq!(parse_i32("-1"), Some(-1));
    assert_eq!(parse_i32("-52"), Some(-52));
    assert_eq!(parse_i32("-0"), Some(0));
}

#[test]
fn parse_i32_reads_leading_zeros() {
    assert_eq!(parse_i32("007"), Some(7));
    assert_eq!(parse_i32("-007"), Some(-7));
    assert_eq!(parse_i32("00000000000000000000012"), Some(12));
    assert_eq!(parse_i32("0000000000002147483647"), Some(2147483647));
}

#[test]
fn parse_i32_reads_the_ends_of_the_range() {
    assert_eq!(parse_i32("2147483647"), Some(i32::MAX));
    assert_eq!(parse_i32("-2147483648"), Some(i32::MIN));
    assert_eq!(parse_i32("2147483646"), Some(2147483646));
    assert_eq!(parse_i32("-2147483647"), Some(-2147483647));
}

#[test]
fn parse_i32_rejects_what_is_out_of_range() {
    assert_eq!(parse_i32("2147483648"), None);
    assert_eq!(parse_i32("-2147483649"), None);
    assert_eq!(parse_i32("4294967296"), None);
    assert_eq!(parse_i32("99999999999999999999999999999999"), None);
    assert_eq!(parse_i32("-99999999999999999999999999999999"), None);
}

#[test]
fn parse_i32_rejects_a_text_without_digits() {
    assert_eq!(parse_i32(""), None);
    assert_eq!(parse_i32("-"), None);
    assert_eq!(parse_i32("--"), None);
    assert_eq!(parse_i32("a"), None);
}

#[test]
fn parse_i32_rejects_a_plus_sign() {
    assert_eq!(parse_i32("+5"), None);
    assert_eq!(parse_i32("+"), None);
    assert_eq!(parse_i32("-+5"), None);
}

#[test]
fn parse_i32_rejects_blanks_points_and_separators() {
    assert_eq!(parse_i32(" 5"), None);
    assert_eq!(parse_i32("5 "), None);
    assert_eq!(parse_i32("5\n"), None);
    assert_eq!(parse_i32("1.5"), None);
    assert_eq!(parse_i32("1."), None);
    assert_eq!(parse_i32("1,000"), None);
    assert_eq!(parse_i32("1_000"), None);
    assert_eq!(parse_i32("1e3"), None);
    assert_eq!(parse_i32("0x10"), None);
}

#[test]
fn parse_i32_rejects_a_sign_out_of_place() {
    assert_eq!(parse_i32("5-"), None);
    assert_eq!(parse_i32("--5"), None);
    assert_eq!(parse_i32("5-3"), None);
}

#[test]
fn parse_i32_rejects_characters_next_to_the_digits() {
    assert_eq!(parse_i32("/"), None);
    assert_eq!(parse_i32(":"), None);
    assert_eq!(parse_i32("1/"), None);
    assert_eq!(parse_i32("1:"), None);
}

#[test]
fn parse_i32_rejects_digits_of_other_scripts() {
    assert_eq!(parse_i32("٣"), None);
    assert_eq!(parse_i32("１２"), None);
    assert_eq!(parse_i32("1é"), None);
    assert_eq!(parse_i32("−5"), None);
}

#[test]
fn parse_keeps_the_order() {
    assert_eq!(parse(("52", "3")), Ok((52, 3)));
    assert_eq!(parse(("3", "52")), Ok((3, 52)));
    assert_eq!(parse(("-7", "2")), Ok((-7, 2)));
    assert_eq!(parse(("7", "-2")), Ok((7, -2)));
}

#[test]
fn parse_reads_the_ends_of_the_range() {
    assert_eq!(parse(("-2147483648", "2147483647")), Ok((i32::MIN, i32::MAX)));
}

#[test]
fn parse_reports_the_first_side_when_both_fail() {
    assert_eq!(parse(("a", "b")), rejected("a"));
    assert_eq!(parse(("", "b")), rejected(""));
    assert_eq!(parse(("x1", "")), rejected("x1"));
}

#[test]
fn parse_reports_the_second_side_when_only_it_fails() {
    assert_eq!(parse(("1", "")), rejected(""));
    assert_eq!(parse(("1", "2.0")), rejected("2.0"));
    assert_eq!(parse(("1", " 2")), rejected(" 2"));
}

#[test]
fn parse_carries_the_text_as_it_was() {
    assert_eq!(parse((" 12 ", "3")), rejected(" 12 "));
    assert_eq!(parse(("+5", "1")), rejected("+5"));
    assert_eq!(parse(("2147483648", "1")), rejected("2147483648"));
    assert_eq!(parse(("1", "-2147483649")), rejected("-2147483649"));
    assert_eq!(parse(("grün", "1")), rejected("grün"));
}

#[test]
fn parse_error_holds_its_text() {
    let e = parse(("a", "4")).unwrap_err();
    assert_eq!(e.0, "a");
}
