use lcu::order::stable_desc_order;
use lcu::text::{
    chars_eq_ignore_ascii_case, contains_chars, i64_decimal, parse_i32, parse_i64, trim_chars,
    u64_decimal,
};

fn chars(s: &str) -> Vec<char> {
    s.chars().collect()
}

fn text(v: Vec<char>) -> String {
    v.into_iter().collect()
}

#[test]
fn trimming_matches_std() {
    for s in ["  a b  ", "\u{3000}\u{2028}x\u{85}", "", "   ", "x", "\u{200b}y\u{200b}"] {
        assert_eq!(text(trim_chars(&chars(s))), s.trim());
    }
}

#[test]
fn integers_parse_like_std() {
    for s in [
        "0", "42", "+7", "-0", "-12", "", "-", "+", "1a", "٣", "9223372036854775807",
        "9223372036854775808", "-9223372036854775808", "-9223372036854775809", "00012",
        "99999999999999999999999",
    ] {
        assert_eq!(parse_i64(&chars(s)), s.parse::<i64>().ok(), "{s}");
    }
    for s in ["2147483647", "2147483648", "-2147483648", "-2147483649", "8", "x"] {
        assert_eq!(parse_i32(&chars(s)), s.parse::<i32>().ok(), "{s}");
    }
}

#[test]
fn decimals_print_like_std() {
    for n in [0i64, 7, -7, 10, 1234567890, i64::MIN, i64::MAX] {
        assert_eq!(text(i64_decimal(n)), n.to_string());
    }
    for n in [0u64, 9, 100, u64::MAX] {
        assert_eq!(text(u64_decimal(n)), n.to_string());
    }
}

#[test]
fn substring_search_and_case_folding() {
    assert!(contains_chars(&chars("hello"), &chars("")));
    assert!(contains_chars(&chars("hello"), &chars("llo")));
    assert!(!contains_chars(&chars("hello"), &chars("hello!")));
    assert!(!contains_chars(&chars(""), &chars("a")));
    assert!(chars_eq_ignore_ascii_case(&chars("ARAM"), &chars("aram")));
    assert!(!chars_eq_ignore_ascii_case(&chars("ÄRAM"), &chars("äram")));
    assert!(!chars_eq_ignore_ascii_case(&chars("ARAM"), &chars("ARA")));
}

#[test]
fn stable_order_puts_larger_keys_first_and_keeps_ties() {
    assert_eq!(stable_desc_order(&vec![3, 5, 5, 1]), vec![1, 2, 0, 3]);
    assert_eq!(stable_desc_order(&vec![]), Vec::<usize>::new());
    let keys = vec![4u64, 4, 9, 0, 9, 4];
    let mut expected: Vec<usize> = (0..keys.len()).collect();
    expected.sort_by(|a, b| keys[*b].cmp(&keys[*a]));
    assert_eq!(stable_desc_order(&keys), expected);
}
