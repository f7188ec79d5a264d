use venom::text::{i32_to_string, join_from, parse_i32, parse_u32, split_on, str_eq, tokenize,
    u32_to_string};

#[test]
fn tokenize_basic() {
    let toks = tokenize("12 Mar 2024 08:30");
    assert_eq!(toks.len(), 4);
    assert_eq!(toks[0], "12");
    assert_eq!(toks[1], "Mar");
    assert_eq!(toks[2], "2024");
    assert_eq!(toks[3], "08:30");
}

#[test]
fn tokenize_extra_whitespace() {
    let toks = tokenize("  a\t\tbb \n ccc  ");
    assert_eq!(toks, vec!["a".to_string(), "bb".to_string(), "ccc".to_string()]);
}

#[test]
fn tokenize_empty_and_blank() {
    assert_eq!(tokenize("").len(), 0);
    assert_eq!(tokenize(" \t \n ").len(), 0);
}

#[test]
fn split_on_keeps_empties() {
    let parts = split_on("12::3", ':');
    assert_eq!(parts, vec!["12".to_string(), "".to_string(), "3".to_string()]);
    assert_eq!(split_on("", ':'), vec!["".to_string()]);
    assert_eq!(split_on("ab", ':'), vec!["ab".to_string()]);
    assert_eq!(split_on("a\nb\n", '\n'), vec!["a".to_string(), "b".to_string(), "".to_string()]);
}

#[test]
fn parse_u32_basics() {
    assert_eq!(parse_u32("0"), Some(0));
    assert_eq!(parse_u32("42"), Some(42));
    assert_eq!(parse_u32("4294967295"), Some(u32::MAX));
    assert_eq!(parse_u32("4294967296"), None);
    assert_eq!(parse_u32("99999999999999999999"), None);
    assert_eq!(parse_u32(""), None);
    assert_eq!(parse_u32("12a"), None);
    assert_eq!(parse_u32("-1"), None);
    assert_eq!(parse_u32("007"), Some(7));
}

#[test]
fn parse_i32_basics() {
    assert_eq!(parse_i32("2024"), Some(2024));
    assert_eq!(parse_i32("-2024"), Some(-2024));
    assert_eq!(parse_i32("+7"), Some(7));
    assert_eq!(parse_i32("2147483647"), Some(i32::MAX));
    assert_eq!(parse_i32("2147483648"), None);
    assert_eq!(parse_i32("-2147483648"), Some(i32::MIN));
    assert_eq!(parse_i32("-2147483649"), None);
    assert_eq!(parse_i32("-"), None);
    assert_eq!(parse_i32(""), None);
}

#[test]
fn format_numbers() {
    assert_eq!(u32_to_string(0), "0");
    assert_eq!(u32_to_string(7), "7");
    assert_eq!(u32_to_string(2024), "2024");
    assert_eq!(u32_to_string(u32::MAX), "4294967295");
    assert_eq!(i32_to_string(-45), "-45");
    assert_eq!(i32_to_string(i32::MIN), "-2147483648");
    assert_eq!(i32_to_string(0), "0");
}

#[test]
fn string_equality() {
    assert!(str_eq("abc", "abc"));
    assert!(!str_eq("abc", "abd"));
    assert!(!str_eq("abc", "ab"));
    assert!(str_eq("", ""));
}

#[test]
fn join_words() {
    let words = vec!["PSNL".to_string(), "Red".to_string(), "a".to_string(), "b".to_string()];
    assert_eq!(join_from(&words, 2), "a b");
    assert_eq!(join_from(&words, 0), "PSNL Red a b");
    assert_eq!(join_from(&words, 4), "");
}
