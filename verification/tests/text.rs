use bili_audio::text::{
    append_decimal, append_signed_decimal, count_leading, count_trailing_spaces, find_char,
    is_space, parse_index, range_equals, split_ranges, to_chars,
};

fn chars(text: &str) -> Vec<char> {
    text.chars().collect()
}

fn decimal(n: u64) -> String {
    let mut out = String::new();
    append_decimal(&mut out, n);
    out
}

fn signed(n: i64) -> String {
    let mut out = String::new();
    append_signed_decimal(&mut out, n);
    out
}

#[test]
fn decimal_of_naturals() {
    assert_eq!(decimal(0), "0");
    assert_eq!(decimal(7), "7");
    assert_eq!(decimal(10), "10");
    assert_eq!(decimal(192), "192");
    assert_eq!(decimal(1000), "1000");
    assert_eq!(decimal(9876543210), "9876543210");
    assert_eq!(decimal(u64::MAX), "18446744073709551615");
    for n in 0..2000u64 {
        assert_eq!(decimal(n), n.to_string());
    }
}

#[test]
fn decimal_of_integers() {
    assert_eq!(signed(0), "0");
    assert_eq!(signed(-1), "-1");
    assert_eq!(signed(123), "123");
    assert_eq!(signed(-120), "-120");
    assert_eq!(signed(i64::MAX), "9223372036854775807");
    assert_eq!(signed(i64::MIN), "-9223372036854775808");
    assert_eq!(signed(i64::MIN + 1), "-9223372036854775807");
}

#[test]
fn decimal_is_appended() {
    let mut out = String::from("cid=");
    append_decimal(&mut out, 42);
    append_signed_decimal(&mut out, -3);
    assert_eq!(out, "cid=42-3");
}

#[test]
fn characters_of_a_string() {
    assert_eq!(to_chars(""), Vec::<char>::new());
    assert_eq!(to_chars("a|b"), vec!['a', '|', 'b']);
    assert_eq!(to_chars("音乐\n"), vec!['音', '乐', '\n']);
}

#[test]
fn white_space_is_the_unicode_property() {
    for code in 0u32..=0x10ffff {
        if let Some(c) = char::from_u32(code) {
            assert_eq!(is_space(c), c.is_whitespace(), "U+{:04X}", code);
        }
    }
}

#[test]
fn first_occurrence() {
    let text = chars("ab|cd|e");
    assert_eq!(find_char(&text, 0, 7, '|'), 2);
    assert_eq!(find_char(&text, 2, 7, '|'), 2);
    assert_eq!(find_char(&text, 3, 7, '|'), 5);
    assert_eq!(find_char(&text, 6, 7, '|'), 7);
    assert_eq!(find_char(&text, 0, 2, '|'), 2);
    assert_eq!(find_char(&text, 4, 4, '|'), 4);
    assert_eq!(find_char(&text, 0, 7, 'z'), 7);
}

#[test]
fn pieces_agree_with_std_split() {
    for text in ["", "|", "a", "a|b", "a||b", "|a|", "||", "音|乐", "a|b|c|d|"] {
        let all = chars(text);
        let bounds = split_ranges(&all, 0, all.len(), '|');
        let pieces: Vec<String> =
            bounds.iter().map(|&(from, to)| all[from..to].iter().collect()).collect();
        let expected: Vec<String> = text.split('|').map(|p| p.to_string()).collect();
        assert_eq!(pieces, expected, "{:?}", text);
    }
}

#[test]
fn pieces_of_a_part() {
    let all = chars("xx|a|b|yy");
    assert_eq!(split_ranges(&all, 3, 6, '|'), vec![(3, 4), (5, 6)]);
    assert_eq!(split_ranges(&all, 2, 7, '|'), vec![(2, 2), (3, 4), (5, 6), (7, 7)]);
    assert_eq!(split_ranges(&all, 4, 4, '|'), vec![(4, 4)]);
}

#[test]
fn part_equality() {
    let all = chars("hello world");
    assert!(range_equals(&all, 0, 5, &chars("hello")));
    assert!(range_equals(&all, 6, 11, &chars("world")));
    assert!(!range_equals(&all, 0, 5, &chars("hellp")));
    assert!(!range_equals(&all, 0, 5, &chars("hell")));
    assert!(!range_equals(&all, 0, 4, &chars("hello")));
    assert!(range_equals(&all, 3, 3, &chars("")));
}

#[test]
fn index_of_a_part() {
    let all = chars("x+12y007");
    assert_eq!(parse_index(&all, 1, 4), Some(12));
    assert_eq!(parse_index(&all, 2, 4), Some(12));
    assert_eq!(parse_index(&all, 5, 8), Some(7));
    assert_eq!(parse_index(&all, 0, 4), None);
    assert_eq!(parse_index(&all, 1, 5), None);
    assert_eq!(parse_index(&all, 1, 2), None);
    assert_eq!(parse_index(&all, 3, 3), None);
    let max = chars(&usize::MAX.to_string());
    assert_eq!(parse_index(&max, 0, max.len()), Some(usize::MAX));
    let beyond = chars(&format!("{}0", usize::MAX));
    assert_eq!(parse_index(&beyond, 0, beyond.len()), None);
    let next = chars("18446744073709551616");
    assert_eq!(parse_index(&next, 0, next.len()), "18446744073709551616".parse::<usize>().ok());
}

#[test]
fn runs_of_white_space() {
    let all = chars("  \tab c \n");
    assert_eq!(count_leading(&all, 0, all.len(), true), 3);
    assert_eq!(count_leading(&all, 0, all.len(), false), 0);
    assert_eq!(count_leading(&all, 3, all.len(), false), 2);
    assert_eq!(count_leading(&all, 3, 4, false), 1);
    assert_eq!(count_leading(&all, 5, all.len(), true), 1);
    assert_eq!(count_trailing_spaces(&all, 0, all.len()), 2);
    assert_eq!(count_trailing_spaces(&all, 0, 7), 0);
    assert_eq!(count_trailing_spaces(&all, 0, 3), 3);
    assert_eq!(count_trailing_spaces(&all, 2, 2), 0);
}
