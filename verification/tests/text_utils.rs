use deadbranch::text::{
    byte_len_exceeds, byte_prefix_chars, char_count, char_is_whitespace, chars_eq, chars_of,
    contains_chars, decimal_string, parse_i64_or_zero, push_padded_left, push_padded_right,
    push_spaces, signed_decimal_string, slice_chars, split_chars, split_lines,
    starts_with_chars, string_of, trim_chars,
};

fn s(v: &[char]) -> String {
    v.iter().collect()
}

const SAMPLES: [&str; 9] = [
    "",
    "plain",
    "  padded\t",
    "a\r\nb\n\nc",
    "trailing\n",
    "\n\nlead",
    "mixed\r\nends\r\n",
    " \u{3000}wide space\u{85}",
    "caf\u{e9}|2|x",
];

#[test]
fn trimming_matches_str_trim() {
    for sample in SAMPLES {
        let trimmed = trim_chars(&chars_of(sample));
        assert_eq!(s(&trimmed), sample.trim(), "input {:?}", sample);
    }
    assert!(char_is_whitespace('\u{3000}'));
    assert!(char_is_whitespace('\n'));
    assert!(!char_is_whitespace('x'));
}

#[test]
fn lines_match_str_lines() {
    for sample in SAMPLES {
        let ours: Vec<String> = split_lines(&chars_of(sample)).iter().map(|l| s(l)).collect();
        let std_lines: Vec<String> = sample.lines().map(|l| l.to_string()).collect();
        assert_eq!(ours, std_lines, "input {:?}", sample);
    }
}

#[test]
fn split_matches_str_split() {
    for sample in ["a|b|c", "|x|", "", "no bar", "||"] {
        let ours: Vec<String> = split_chars(&chars_of(sample), '|').iter().map(|p| s(p)).collect();
        let std_parts: Vec<String> = sample.split('|').map(|p| p.to_string()).collect();
        assert_eq!(ours, std_parts, "input {:?}", sample);
    }
}

#[test]
fn integer_parsing_follows_str_parse() {
    for sample in [
        "0",
        "007",
        "+42",
        "-17",
        "-9223372036854775808",
        "9223372036854775807",
        "9223372036854775808",
        "-9223372036854775809",
        "",
        "-",
        "+",
        " 1",
        "12a",
        "1_000",
    ] {
        let expected: i64 = sample.parse().unwrap_or(0);
        assert_eq!(parse_i64_or_zero(&chars_of(sample)), expected, "input {:?}", sample);
    }
    assert_eq!(parse_i64_or_zero(&chars_of("-9223372036854775808")), i64::MIN);
    assert_eq!(parse_i64_or_zero(&chars_of("9223372036854775808")), 0);
}

#[test]
fn prefix_and_substring_tests() {
    assert!(starts_with_chars(&chars_of("origin/main"), &chars_of("origin/")));
    assert!(!starts_with_chars(&chars_of("orig"), &chars_of("origin/")));
    assert!(starts_with_chars(&chars_of("x"), &chars_of("")));
    assert!(contains_chars(&chars_of("feature/old-merged"), &chars_of("old")));
    assert!(!contains_chars(&chars_of("feature"), &chars_of("Feat")));
    assert!(contains_chars(&chars_of("abc"), &chars_of("")));
    assert!(chars_eq(&chars_of("yes"), &vec!['y', 'e', 's']));
    assert!(!chars_eq(&chars_of("ye"), &vec!['y', 'e', 's']));
    assert_eq!(s(&slice_chars(&chars_of("deadbranch"), 4, 10)), "branch");
    assert_eq!(string_of(&chars_of("round trip")), "round trip");
}

#[test]
fn numbers_and_padding() {
    assert_eq!(decimal_string(0), "0");
    assert_eq!(decimal_string(1234), "1234");
    assert_eq!(signed_decimal_string(-45), "-45");
    assert_eq!(signed_decimal_string(i64::MIN), i64::MIN.to_string());
    let mut t = String::from("[");
    push_padded_left(&mut t, "7", 4);
    push_padded_right(&mut t, "ab", 4);
    push_padded_right(&mut t, "toolong", 3);
    push_spaces(&mut t, 2);
    t.push(']');
    assert_eq!(t, "[   7ab  toolong  ]");
    assert_eq!(char_count("caf\u{e9}"), 4);
}

#[test]
fn byte_prefixes_respect_char_boundaries() {
    let word = chars_of("caf\u{e9}s");
    assert_eq!(byte_prefix_chars(&word, 3).map(|v| s(&v)), Some("caf".to_string()));
    assert_eq!(byte_prefix_chars(&word, 5).map(|v| s(&v)), Some("caf\u{e9}".to_string()));
    assert_eq!(byte_prefix_chars(&word, 4), None);
    assert_eq!(byte_prefix_chars(&word, 7), None);
    assert_eq!(byte_prefix_chars(&word, 6).map(|v| s(&v)), Some("caf\u{e9}s".to_string()));
    assert!(byte_len_exceeds(&word, 5));
    assert!(!byte_len_exceeds(&word, 6));
    assert!(!byte_len_exceeds(&word, usize::MAX));
    assert!(byte_len_exceeds(&word, 0));
    assert!(!byte_len_exceeds(&Vec::new(), 0));
}
