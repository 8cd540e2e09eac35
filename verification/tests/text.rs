use starlark::text::{hash_str, int_to_string, parse_int_radix, to_chars};

#[test]
fn hash_of_short_strings() {
    assert_eq!(hash_str(""), 0);
    assert_eq!(hash_str("a"), 97);
    assert_eq!(hash_str("ab"), 3105);
    assert_eq!(hash_str("abc"), 96354);
    assert_eq!(hash_str("abcd"), 2987074);
    assert_eq!(hash_str("abcde"), 92599395);
    assert_eq!(hash_str("abcdef"), -1424385949);
}

#[test]
fn hash_goes_by_utf16_units() {
    // U+1F63F is the surrogate pair D83D DE3F.
    let expected = 31i32.wrapping_mul(0xD83D).wrapping_add(0xDE3F);
    assert_eq!(hash_str("\u{1F63F}"), expected);
}

#[test]
fn decimal_text_of_integers() {
    assert_eq!(int_to_string(0), "0");
    assert_eq!(int_to_string(-17), "-17");
    assert_eq!(int_to_string(i32::MIN), "-2147483648");
    assert_eq!(int_to_string(i32::MAX), "2147483647");
}

#[test]
fn integers_from_text() {
    assert_eq!(parse_int_radix(&to_chars("16"), 8), Some(14));
    assert_eq!(parse_int_radix(&to_chars("-2147483648"), 10), Some(i32::MIN));
    assert_eq!(parse_int_radix(&to_chars("2147483648"), 10), None);
    assert_eq!(parse_int_radix(&to_chars("+ff"), 16), Some(255));
    assert_eq!(parse_int_radix(&to_chars(""), 10), None);
    assert_eq!(parse_int_radix(&to_chars("-"), 10), None);
    assert_eq!(parse_int_radix(&to_chars("12a"), 10), None);
}
