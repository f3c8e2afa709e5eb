use rnga::number::{
    format_i64, format_u64, parse_decimal, parse_i32, parse_i64, parse_u32, parse_u64,
};
use rnga::text::{
    chars_of, contains, find_char_from, find_seq_from, is_space, replace_all, rfind_char_in,
    slice, split_chars, starts_with_at, string_of, trim, trim_start,
};

fn cs(s: &str) -> Vec<char> {
    s.chars().collect()
}

fn st(v: &[char]) -> String {
    v.iter().collect()
}

#[test]
fn characters_and_strings() {
    assert_eq!(chars_of("aé\u{1F602}"), vec!['a', 'é', '\u{1F602}']);
    assert_eq!(chars_of(""), Vec::<char>::new());
    assert_eq!(string_of(&cs("aé\u{1F602}")), "aé\u{1F602}");
    assert_eq!(slice(&cs("hello"), 1, 3), cs("el"));
    assert_eq!(slice(&cs("hello"), 5, 5), cs(""));
}

#[test]
fn whitespace_is_what_the_standard_library_says() {
    for code in 0u32..=0x3100 {
        if let Some(c) = char::from_u32(code) {
            assert_eq!(is_space(c), c.is_whitespace(), "U+{:04X}", code);
        }
    }
    assert!(!is_space('\u{FEFF}'));
    for text in ["", "  ", " a b ", "\t\n x\u{3000}", "x", "\u{85}y\u{A0}", " \u{200B} "] {
        assert_eq!(st(&trim(&cs(text))), text.trim());
        assert_eq!(st(&trim_start(&cs(text))), text.trim_start());
    }
}

#[test]
fn searching() {
    let v = cs("abcabc");
    assert_eq!(find_char_from(&v, 'b', 0), Some(1));
    assert_eq!(find_char_from(&v, 'b', 2), Some(4));
    assert_eq!(find_char_from(&v, 'b', 5), None);
    assert_eq!(find_char_from(&v, 'b', 100), None);
    assert_eq!(find_char_from(&v, 'x', 0), None);
    assert_eq!(rfind_char_in(&v, 'a'), Some(3));
    assert_eq!(rfind_char_in(&v, 'x'), None);
    assert_eq!(find_seq_from(&v, &cs("bc"), 0), Some(1));
    assert_eq!(find_seq_from(&v, &cs("bc"), 2), Some(4));
    assert_eq!(find_seq_from(&v, &cs("bc"), 5), None);
    assert_eq!(find_seq_from(&v, &cs(""), 6), Some(6));
    assert_eq!(find_seq_from(&v, &cs(""), 7), None);
    assert_eq!(find_seq_from(&v, &cs("abcabcd"), 0), None);
    assert!(contains(&v, &cs("cab")));
    assert!(!contains(&v, &cs("cc")));
    assert!(starts_with_at(&v, 3, &cs("abc")));
    assert!(!starts_with_at(&v, 4, &cs("abc")));
    assert!(starts_with_at(&v, 6, &cs("")));
    assert!(!starts_with_at(&v, 7, &cs("")));
}

#[test]
fn splitting_and_replacing() {
    for (text, sep) in [("a,b,,c", ','), ("", ','), (",", ','), ("abc", ','), ("a b", ' '), (",a,", ',')] {
        let expected: Vec<String> = text.split(sep).map(|s| s.to_string()).collect();
        let got: Vec<String> = split_chars(&cs(text), sep).iter().map(|p| st(p)).collect();
        assert_eq!(got, expected);
    }
    for (text, pat, rep) in [
        ("a\nb\n", "\n", "<br/>"),
        ("a<br/>b<br/>", "<br/>", "\n"),
        ("aaaa", "aa", "b"),
        ("aaa", "aa", "b"),
        ("abc", "x", "y"),
        ("", "x", "y"),
        ("xx", "x", ""),
        ("<br/<br/>", "<br/>", "\n"),
    ] {
        assert_eq!(st(&replace_all(&cs(text), &cs(pat), &cs(rep))), text.replace(pat, rep));
    }
}

#[test]
fn integers_are_read_as_the_standard_library_reads_them() {
    for text in [
        "0", "7", "-7", "+7", "007", "-0", "+", "-", "", " 1", "1 ", "1_0", "0x10", "12a", "--1", "+-1",
        "9223372036854775807", "9223372036854775808", "-9223372036854775808", "-9223372036854775809",
        "2147483647", "2147483648", "-2147483648", "-2147483649", "4294967295", "4294967296",
        "18446744073709551615", "18446744073709551616", "99999999999999999999999999", "١٢٣",
    ] {
        let v = cs(text);
        assert_eq!(parse_i64(&v), text.parse::<i64>().ok(), "{:?}", text);
        assert_eq!(parse_i32(&v), text.parse::<i32>().ok(), "{:?}", text);
        assert_eq!(parse_u64(&v), text.parse::<u64>().ok(), "{:?}", text);
        assert_eq!(parse_u32(&v), text.parse::<u32>().ok(), "{:?}", text);
    }
}

#[test]
fn decimals_are_truncated() {
    assert_eq!(parse_decimal(&cs("1.5e9")), Some(1500000000));
    assert_eq!(parse_decimal(&cs("123.45")), Some(123));
    assert_eq!(parse_decimal(&cs("-0.5")), Some(0));
    assert_eq!(parse_decimal(&cs("12")), Some(12));
    assert_eq!(parse_decimal(&cs("+.5e1")), Some(5));
    assert_eq!(parse_decimal(&cs("00012.e0")), Some(12));
    assert_eq!(parse_decimal(&cs("")), None);
    assert_eq!(parse_decimal(&cs("+")), None);
    assert_eq!(parse_decimal(&cs("1e1.5")), None);
    assert_eq!(parse_decimal(&cs("1 e1")), None);
    assert_eq!(parse_decimal(&cs("inf")), None);
    assert_eq!(parse_decimal(&cs("NaN")), None);
    assert_eq!(parse_decimal(&cs("123456789e-00000000000000000000000000003")), Some(123456));
    assert_eq!(parse_decimal(&cs("1e00000000000000000000000000003")), Some(1000));
}

#[test]
fn integers_are_written_in_decimal() {
    for n in [0i64, 1, -1, 9, 10, 11, 99, 100, 12345, -12345, i64::MAX, i64::MIN, i64::MIN + 1] {
        assert_eq!(format_i64(n), n.to_string());
    }
    for n in [0u64, 5, 10, 1000, u64::MAX] {
        assert_eq!(format_u64(n), n.to_string());
    }
}
