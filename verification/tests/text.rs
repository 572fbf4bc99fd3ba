use gh_traffic::text::{
    chars_of, digit_of, find_char, first_three_fields, opt_parse, parse_bounded, parse_u8,
    push_decimal, push_decimal_padded, remove_padding, split_once, str_eq,
};

#[test]
fn chars_keep_their_order() {
    assert_eq!(chars_of("a-b"), vec!['a', '-', 'b']);
    assert_eq!(chars_of(""), Vec::<char>::new());
    assert_eq!(chars_of("\u{e9}x"), vec!['\u{e9}', 'x']);
}

#[test]
fn find_char_gives_the_first_position() {
    assert_eq!(find_char(&vec!['a', 'T', 'b', 'T'], 'T'), 1);
    assert_eq!(find_char(&vec!['a', 'b'], 'T'), 2);
    assert_eq!(find_char(&vec![], 'T'), 0);
}

#[test]
fn split_once_cuts_at_the_first_separator() {
    assert_eq!(split_once("a/b/c", '/'), Some(("a", "b/c")));
    assert_eq!(split_once("/", '/'), Some(("", "")));
    assert_eq!(split_once("abc", '/'), None);
    assert_eq!(split_once("", '/'), None);
    assert_eq!(split_once("\u{e9}/\u{e8}", '/'), Some(("\u{e9}", "\u{e8}")));
}

#[test]
fn three_fields_are_the_first_three() {
    assert_eq!(first_three_fields("2024-03-07", '-'), Some(("2024", "03", "07")));
    assert_eq!(first_three_fields("1-2-3-4", '-'), Some(("1", "2", "3")));
    assert_eq!(first_three_fields("--", '-'), Some(("", "", "")));
    assert_eq!(first_three_fields("1-2", '-'), None);
    assert_eq!(first_three_fields("", '-'), None);
}

#[test]
fn digits_have_values() {
    assert_eq!(digit_of('0'), Some(0));
    assert_eq!(digit_of('9'), Some(9));
    assert_eq!(digit_of('/'), None);
    assert_eq!(digit_of(':'), None);
    assert_eq!(digit_of('\u{663}'), None);
}

#[test]
fn numbers_are_read_within_their_bound() {
    assert_eq!(parse_bounded("0", 0), Some(0));
    assert_eq!(parse_bounded("255", 255), Some(255));
    assert_eq!(parse_bounded("256", 255), None);
    assert_eq!(parse_bounded("4294967295", u32::MAX), Some(u32::MAX));
    assert_eq!(parse_bounded("4294967296", u32::MAX), None);
    assert_eq!(parse_bounded("99999999999999999999999", u32::MAX), None);
    assert_eq!(parse_bounded("007", 10), Some(7));
    assert_eq!(parse_bounded("+7", 10), Some(7));
    assert_eq!(parse_bounded("+", 10), None);
    assert_eq!(parse_bounded("", 10), None);
    assert_eq!(parse_bounded("-7", 10), None);
    assert_eq!(parse_bounded("++7", 10), None);
    assert_eq!(parse_bounded("7 ", 10), None);
    assert_eq!(parse_bounded("1e1", 10), None);
}

#[test]
fn sixteen_and_eight_bits() {
    assert_eq!(opt_parse("65535"), Some(65535));
    assert_eq!(opt_parse("65536"), None);
    assert_eq!(opt_parse("x"), None);
    assert_eq!(parse_u8("255"), Some(255));
    assert_eq!(parse_u8("256"), None);
    assert_eq!(parse_u8(""), None);
}

#[test]
fn padding_goes() {
    assert_eq!(remove_padding("007"), Some("7"));
    assert_eq!(remove_padding("700"), Some("700"));
    assert_eq!(remove_padding("000"), Some("0"));
    assert_eq!(remove_padding(""), Some("0"));
    assert_eq!(remove_padding("0x0"), Some("x0"));
}

#[test]
fn numbers_are_written() {
    let mut out = String::from("n=");
    push_decimal(&mut out, 0);
    out.push(',');
    push_decimal(&mut out, 7);
    out.push(',');
    push_decimal(&mut out, 2024);
    out.push(',');
    push_decimal(&mut out, u32::MAX);
    assert_eq!(out, "n=0,7,2024,4294967295");
}

#[test]
fn numbers_are_written_with_two_digits() {
    let mut out = String::new();
    push_decimal_padded(&mut out, 0);
    out.push(',');
    push_decimal_padded(&mut out, 9);
    out.push(',');
    push_decimal_padded(&mut out, 10);
    out.push(',');
    push_decimal_padded(&mut out, 123);
    assert_eq!(out, "00,09,10,123");
}

#[test]
fn strings_compare_by_their_characters() {
    assert!(str_eq("", ""));
    assert!(str_eq("repo", "repo"));
    assert!(!str_eq("repo", "repos"));
    assert!(!str_eq("repo", "rep0"));
}
