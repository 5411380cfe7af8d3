use miniutils::text::{
    chars_of, contains_slash_dot, decimal_string, find_char, find_char_from, parse_decimal,
    parse_octal, push_decimal, range_has, starts_with_dot,
};

#[test]
fn chars_of_keeps_every_character() {
    assert_eq!(chars_of("a/b"), vec!['a', '/', 'b']);
    assert_eq!(chars_of(""), Vec::<char>::new());
    assert_eq!(chars_of("\u{e9}x"), vec!['\u{e9}', 'x']);
}

#[test]
fn find_char_gives_first_index_or_length() {
    let chars = chars_of("u+x+r");
    assert_eq!(find_char(&chars, '+'), 1);
    assert_eq!(find_char(&chars, 'u'), 0);
    assert_eq!(find_char(&chars, '-'), 5);
    assert_eq!(find_char_from(&chars, '+', 2), 3);
    assert_eq!(find_char_from(&chars, '+', 4), 5);
    assert_eq!(find_char_from(&chars, '+', 5), 5);
}

#[test]
fn range_has_looks_only_inside_the_range() {
    let chars = chars_of("abcabc");
    assert!(range_has(&chars, 0, 3, 'c'));
    assert!(!range_has(&chars, 0, 2, 'c'));
    assert!(range_has(&chars, 3, 6, 'a'));
    assert!(!range_has(&chars, 4, 6, 'a'));
    assert!(!range_has(&chars, 2, 2, 'c'));
}

#[test]
fn starts_with_dot_cases() {
    assert!(starts_with_dot(".hidden"));
    assert!(starts_with_dot("."));
    assert!(!starts_with_dot("a.txt"));
    assert!(!starts_with_dot(""));
}

#[test]
fn contains_slash_dot_cases() {
    assert!(contains_slash_dot("dir/.hidden"));
    assert!(contains_slash_dot("./.git/config"));
    assert!(contains_slash_dot("a/./b"));
    assert!(contains_slash_dot("a/."));
    assert!(!contains_slash_dot(".hidden"));
    assert!(!contains_slash_dot("./a"));
    assert!(!contains_slash_dot("a.b/c.d"));
    assert!(!contains_slash_dot("a/"));
    assert!(!contains_slash_dot("/"));
    assert!(!contains_slash_dot(""));
}

#[test]
fn parse_decimal_cases() {
    let chars = chars_of("x:1000:y");
    assert_eq!(parse_decimal(&chars, 2, 6), Some(1000));
    assert_eq!(parse_decimal(&chars, 2, 5), Some(100));
    assert_eq!(parse_decimal(&chars, 2, 2), None);
    assert_eq!(parse_decimal(&chars, 0, 6), None);
    let chars = chars_of("4294967295");
    assert_eq!(parse_decimal(&chars, 0, 10), Some(u32::MAX));
    let chars = chars_of("4294967296");
    assert_eq!(parse_decimal(&chars, 0, 10), None);
    let chars = chars_of("+7");
    assert_eq!(parse_decimal(&chars, 0, 2), Some(7));
    assert_eq!(parse_decimal(&chars, 0, 1), None);
    let chars = chars_of("-7");
    assert_eq!(parse_decimal(&chars, 0, 2), None);
    let chars = chars_of("007");
    assert_eq!(parse_decimal(&chars, 0, 3), Some(7));
}

#[test]
fn parse_octal_rejects_eight() {
    let chars = chars_of("178");
    assert_eq!(parse_octal(&chars, 0, 2), Some(15));
    assert_eq!(parse_octal(&chars, 0, 3), None);
    assert_eq!(parse_decimal(&chars, 0, 3), Some(178));
}

#[test]
fn decimal_string_values() {
    assert_eq!(decimal_string(0), "0");
    assert_eq!(decimal_string(7), "7");
    assert_eq!(decimal_string(10), "10");
    assert_eq!(decimal_string(4096), "4096");
    assert_eq!(decimal_string(1234567890), "1234567890");
    assert_eq!(decimal_string(u64::MAX), "18446744073709551615");
}

#[test]
fn push_decimal_appends() {
    let mut out = String::from("size ");
    push_decimal(&mut out, 305);
    assert_eq!(out, "size 305");
}
