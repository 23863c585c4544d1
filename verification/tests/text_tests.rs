use music_library::text::{
    chars_of, contains_ignore_case, find_ignoring_case, fold, parse_i32, parse_u16, same_text,
    string_of,
};

#[test]
fn chars_and_strings_round_trip() {
    let v = chars_of("héllo");
    assert_eq!(v, vec!['h', 'é', 'l', 'l', 'o']);
    assert_eq!(string_of(&v), "héllo");
    assert_eq!(chars_of(""), Vec::<char>::new());
    assert_eq!(string_of(&Vec::new()), "");
}

#[test]
fn same_text_compares_characters() {
    assert!(same_text("abc", "abc"));
    assert!(!same_text("abc", "abd"));
    assert!(!same_text("abc", "ABC"));
    assert!(same_text("", ""));
}

#[test]
fn parse_i32_reads_signed_decimals() {
    assert_eq!(parse_i32("0"), Some(0));
    assert_eq!(parse_i32("185"), Some(185));
    assert_eq!(parse_i32("+7"), Some(7));
    assert_eq!(parse_i32("-12"), Some(-12));
    assert_eq!(parse_i32("-0"), Some(0));
    assert_eq!(parse_i32("007"), Some(7));
    assert_eq!(parse_i32("2147483647"), Some(i32::MAX));
    assert_eq!(parse_i32("-2147483648"), Some(i32::MIN));
}

#[test]
fn parse_i32_refuses_what_is_no_number() {
    assert_eq!(parse_i32(""), None);
    assert_eq!(parse_i32("+"), None);
    assert_eq!(parse_i32("-"), None);
    assert_eq!(parse_i32(" 5"), None);
    assert_eq!(parse_i32("5 "), None);
    assert_eq!(parse_i32("1.5"), None);
    assert_eq!(parse_i32("+-5"), None);
    assert_eq!(parse_i32("12a"), None);
    assert_eq!(parse_i32("2147483648"), None);
    assert_eq!(parse_i32("-2147483649"), None);
    assert_eq!(parse_i32("99999999999999999999999999"), None);
}

#[test]
fn parse_i32_agrees_with_the_standard_parser() {
    for text in ["0", "-1", "+1", "42", "-", "+", "", "2147483647", "2147483648", "x", "1x", "٣"] {
        assert_eq!(parse_i32(text), text.parse::<i32>().ok());
    }
}

#[test]
fn parse_u16_reads_ports() {
    assert_eq!(parse_u16("8080"), Some(8080));
    assert_eq!(parse_u16("+80"), Some(80));
    assert_eq!(parse_u16("0"), Some(0));
    assert_eq!(parse_u16("65535"), Some(65535));
    assert_eq!(parse_u16("65536"), None);
    assert_eq!(parse_u16("-1"), None);
    assert_eq!(parse_u16("-0"), None);
    assert_eq!(parse_u16(""), None);
    assert_eq!(parse_u16("http"), None);
    for text in ["1", "-0", "+0", "65535", "65536", "+", "12 "] {
        assert_eq!(parse_u16(text), text.parse::<u16>().ok());
    }
}

#[test]
fn fold_maps_upper_case_letters_only() {
    assert_eq!(fold('A'), 'a');
    assert_eq!(fold('Z'), 'z');
    assert_eq!(fold('m'), 'm');
    assert_eq!(fold('@'), '@');
    assert_eq!(fold('['), '[');
    assert_eq!(fold('5'), '5');
    assert_eq!(fold('É'), 'É');
}

#[test]
fn contains_ignore_case_finds_substrings() {
    assert!(contains_ignore_case("Abbey Road", "abbey"));
    assert!(contains_ignore_case("Abbey Road", "ROAD"));
    assert!(contains_ignore_case("Abbey Road", "y r"));
    assert!(contains_ignore_case("abc", "abc"));
    assert!(contains_ignore_case("abc", ""));
    assert!(contains_ignore_case("", ""));
    assert!(!contains_ignore_case("", "a"));
    assert!(!contains_ignore_case("abc", "abcd"));
    assert!(!contains_ignore_case("Abbey Road", "abby"));
    assert!(!contains_ignore_case("aab", "aba"));
    assert!(contains_ignore_case("aaab", "aab"));
}

#[test]
fn find_ignoring_case_works_on_characters() {
    let hay = chars_of("The Dark Side");
    assert!(find_ignoring_case(&hay, &chars_of("dark")));
    assert!(!find_ignoring_case(&hay, &chars_of("moon")));
}
