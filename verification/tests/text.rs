use shellcore::text::{char_vec, find_char, parse_i32, parse_usize, starts_with_char, str_eq};

#[test]
fn parse_usize_follows_std() {
    for s in ["0", "42", "+7", "", "+", "-1", "1a", " 1", "18446744073709551615", "18446744073709551616", "007"] {
        assert_eq!(parse_usize(s), s.parse::<usize>().ok(), "input {s:?}");
    }
}

#[test]
fn parse_i32_follows_std() {
    for s in ["0", "-0", "42", "+7", "-7", "", "+", "-", "--1", "2147483647", "2147483648", "-2147483648", "-2147483649", "1_0"] {
        assert_eq!(parse_i32(s), s.parse::<i32>().ok(), "input {s:?}");
    }
}

#[test]
fn string_helpers() {
    assert!(str_eq("abc", "abc"));
    assert!(!str_eq("abc", "abd"));
    assert!(!str_eq("ab", "abc"));
    assert!(starts_with_char("-x", '-'));
    assert!(!starts_with_char("", '-'));
    let v = char_vec("a=b=c");
    assert_eq!(find_char(&v, 0, '='), 1);
    assert_eq!(find_char(&v, 2, '='), 3);
    assert_eq!(find_char(&v, 4, '='), 5);
}
