use tikd_r::text::{
    begins_with, chars_of, is_white, matches_at, parse_unsigned, position_from, push_decimal,
    replaced, same_chars, slice_of, split_lines, string_of, trimmed, trimmed_start,
};

fn text(chars: &Vec<char>) -> String {
    chars.iter().collect()
}

fn lines_of(input: &str) -> Vec<String> {
    split_lines(&chars_of(input)).iter().map(text).collect()
}

#[test]
fn chars_round_trip() {
    let chars = chars_of("aé𝄞z");
    assert_eq!(chars, vec!['a', 'é', '𝄞', 'z']);
    assert_eq!(string_of(&chars, 0, 4), "aé𝄞z");
    assert_eq!(string_of(&chars, 1, 3), "é𝄞");
    assert_eq!(slice_of(&chars, 2, 2), Vec::<char>::new());
    assert!(chars_of("").is_empty());
}

#[test]
fn white_space_is_what_std_trims() {
    for code in 0u32..0x3100 {
        if let Some(c) = char::from_u32(code) {
            assert_eq!(is_white(c), c.is_whitespace(), "U+{:04X}", code);
        }
    }
    assert!(!is_white('\u{feff}'));
}

#[test]
fn trimming_matches_std() {
    for input in [
        "",
        "   ",
        "abc",
        "  abc",
        "abc \t\r\n",
        "\u{a0} a b \u{3000}",
        " \u{2028}x\u{2029} ",
    ] {
        assert_eq!(text(&trimmed(&chars_of(input))), input.trim());
        assert_eq!(text(&trimmed_start(&chars_of(input))), input.trim_start());
    }
}

#[test]
fn lines_match_std() {
    for input in [
        "",
        "\n",
        "a",
        "a\n",
        "a\nb",
        "a\r\nb\r\n",
        "a\n\nb\n\n",
        "a\r",
        "a\r\r\nb",
        "\r\n",
        "a\rb\nc",
    ] {
        let expected: Vec<String> = input.lines().map(|l| l.to_string()).collect();
        assert_eq!(lines_of(input), expected, "{:?}", input);
    }
}

#[test]
fn searching_finds_the_first_occurrence() {
    let hay = chars_of("abcabcab");
    assert_eq!(position_from(&hay, &chars_of("bc"), 0), Some(1));
    assert_eq!(position_from(&hay, &chars_of("bc"), 2), Some(4));
    assert_eq!(position_from(&hay, &chars_of("bc"), 5), None);
    assert_eq!(position_from(&hay, &chars_of("ab"), 6), Some(6));
    assert_eq!(position_from(&hay, &chars_of("abcabcabc"), 0), None);
    assert_eq!(position_from(&hay, &chars_of(""), 0), Some(0));
    assert_eq!(position_from(&hay, &chars_of(""), 8), Some(8));
    assert_eq!(position_from(&hay, &chars_of(""), 9), None);
    assert_eq!(position_from(&hay, &chars_of("x"), 0), None);
    assert!(matches_at(&hay, &chars_of("cab"), 2));
    assert!(!matches_at(&hay, &chars_of("cab"), 6));
    assert!(begins_with(&hay, &chars_of("abc")));
    assert!(!begins_with(&hay, &chars_of("bc")));
    assert!(same_chars(&hay, &chars_of("abcabcab")));
    assert!(!same_chars(&hay, &chars_of("abcabca")));
}

#[test]
fn replacing_matches_std() {
    let cases = [
        ("a\\u0026b\\u0026", "\\u0026", "&"),
        ("aaaa", "aa", "b"),
        ("aaa", "aa", "b"),
        ("abc", "x", "y"),
        ("", "x", "y"),
        ("xyx", "x", ""),
        ("abab", "ab", "abab"),
    ];
    for (input, pattern, with) in cases {
        let out = replaced(&chars_of(input), &chars_of(pattern), &chars_of(with));
        assert_eq!(text(&out), input.replace(pattern, with));
    }
}

#[test]
fn numbers_parse_as_std_does() {
    for input in [
        "0",
        "7",
        "+7",
        "007",
        "1200000",
        "18446744073709551615",
        "18446744073709551616",
        "99999999999999999999999",
        "",
        "+",
        "-1",
        "++1",
        "1+",
        "12a",
        " 12",
        "12 ",
        "1_000",
        "١٢",
    ] {
        assert_eq!(
            parse_unsigned(&chars_of(input)),
            input.parse::<u64>().ok(),
            "{:?}",
            input
        );
    }
}

#[test]
fn decimal_is_what_std_prints() {
    for n in [0usize, 1, 9, 10, 11, 99, 100, 12345, usize::MAX] {
        let mut out = String::from("n=");
        push_decimal(&mut out, n);
        assert_eq!(out, format!("n={}", n));
    }
}
