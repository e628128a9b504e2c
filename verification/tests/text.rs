use carbon::text::chars_of;
use carbon::text::concat_all;
use carbon::text::has_char;
use carbon::text::has_text;
use carbon::text::parse_integer;
use carbon::text::push_decimal;
use carbon::text::push_hexadecimal;
use carbon::text::push_signed_decimal;
use carbon::text::reads_as;
use carbon::text::replace_all;
use carbon::text::same_chars;
use carbon::text::split_at;
use carbon::text::starts_at;
use carbon::text::string_of;

fn chars(text: &str) -> Vec<char> {
    text.chars().collect()
}

fn replaced(text: &str, from: &str, to: &str) -> String {
    replace_all(&chars(text), &chars(from), &chars(to)).into_iter().collect()
}

#[test]
fn texts_go_to_characters_and_back() {
    for text in ["", "a", "héllo wörld", "{{ x }}", "日本語\n\t\"\\"] {
        assert_eq!(chars_of(text), chars(text));
        assert_eq!(string_of(&chars(text)), text);
    }
}

#[test]
fn replace_all_does_what_the_standard_replace_does() {
    let texts = ["", "a", "aaa", "abcabc", "ababab", "{{a}} {{b}} {{a}}", "xaax", "é-é", "a\nb"];
    let patterns = ["", "a", "aa", "ab", "abc", "b", "{{a}}", "é", "\n", "zz"];
    let replacements = ["", "a", "x", "aa", "\"{{a}}\""];
    for text in texts {
        for from in patterns {
            for to in replacements {
                assert_eq!(replaced(text, from, to), text.replace(from, to));
            }
        }
    }
}

#[test]
fn replace_all_reads_from_left_to_right() {
    assert_eq!(replaced("aaa", "aa", "b"), "ba");
    assert_eq!(replaced("ab", "", "-"), "-a-b-");
    assert_eq!(replaced("", "", "-"), "-");
    assert_eq!(replaced("abc", "abc", ""), "");
}

#[test]
fn patterns_are_found_where_they_stand() {
    assert!(starts_at(&chars("hello"), 0, &chars("he")));
    assert!(starts_at(&chars("hello"), 3, &chars("lo")));
    assert!(!starts_at(&chars("hello"), 4, &chars("lo")));
    assert!(starts_at(&chars("hello"), 5, &chars("")));
    assert!(!starts_at(&chars("hello"), 6, &chars("")));
    assert!(!starts_at(&chars("he"), 0, &chars("hello")));
    assert!(has_text(&chars("lib.so.1"), &chars(".so")));
    assert!(has_text(&chars(".so"), &chars(".so")));
    assert!(!has_text(&chars("lib.s"), &chars(".so")));
    assert!(has_text(&chars(""), &chars("")));
    assert!(has_text(&chars("abc"), &chars("")));
    assert!(has_char(&chars("3.5"), '.'));
    assert!(!has_char(&chars("35"), '.'));
    assert!(same_chars(&chars("ab"), &chars("ab")));
    assert!(!same_chars(&chars("ab"), &chars("abc")));
    assert!(!same_chars(&chars("ab"), &chars("ac")));
    assert!(reads_as("payload", "payload"));
    assert!(!reads_as("payload", "Payload"));
}

#[test]
fn concat_puts_texts_together() {
    let parts = |texts: &[&str]| texts.iter().map(|t| t.to_string()).collect::<Vec<String>>();
    assert_eq!(concat_all(&parts(&["a", "b", "c"])), "abc");
    assert_eq!(concat_all(&parts(&[])), "");
}

#[test]
fn split_agrees_with_the_standard_split() {
    for text in ["", "a", "a&b", "&", "&&", "a&&b&", "&a", "é&ü"] {
        let expected: Vec<String> = text.split('&').map(|p| p.to_string()).collect();
        let pieces: Vec<String> =
            split_at(&chars(text), '&').into_iter().map(|p| p.into_iter().collect()).collect();
        assert_eq!(pieces, expected);
    }
}

#[test]
fn numbers_are_written_in_decimal_and_hexadecimal() {
    for n in [0u64, 1, 9, 10, 11, 99, 100, 255, 4096, 1234567890, u64::MAX] {
        let mut decimal = chars("n=");
        push_decimal(n, &mut decimal);
        assert_eq!(string_of(&decimal), format!("n={}", n));
        let mut hexadecimal = Vec::new();
        push_hexadecimal(n, &mut hexadecimal);
        assert_eq!(string_of(&hexadecimal), format!("{:x}", n));
    }
    for n in [0i64, 1, -1, 10, -10, i64::MAX, i64::MIN] {
        let mut decimal = Vec::new();
        push_signed_decimal(n, &mut decimal);
        assert_eq!(string_of(&decimal), format!("{}", n));
    }
}

#[test]
fn integers_are_read_as_the_standard_library_reads_them() {
    let texts = [
        "", "0", "-0", "+0", "1", "-1", "+1", "12", "0012", "-", "+", "--1", "+-1", "1-", " 1",
        "1 ", "1.0", "1e3", "abc", "9223372036854775807", "9223372036854775808",
        "-9223372036854775808", "-9223372036854775809", "99999999999999999999999999999999",
        "00000000000000000000000000000000000000001", "2147483647", "2147483648", "-2147483648",
        "-2147483649", "١٢", "1_000",
    ];
    for text in texts {
        assert_eq!(parse_integer(&chars(text), i64::MIN, i64::MAX), text.parse::<i64>().ok());
        assert_eq!(
            parse_integer(&chars(text), i32::MIN as i64, i32::MAX as i64),
            text.parse::<i32>().ok().map(|n| n as i64)
        );
    }
    assert_eq!(parse_integer(&chars("5"), 6, 10), None);
    assert_eq!(parse_integer(&chars("5"), 5, 5), Some(5));
    assert_eq!(parse_integer(&chars("5"), 6, 4), None);
}
