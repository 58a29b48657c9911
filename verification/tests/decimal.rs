use rbpt::mods::decimal::{digit_text, parse_bounded, parse_u32, parse_usize, push_decimal};
use rbpt::mods::text::chars_of;

fn text_of(n: u64) -> String {
    let mut out = String::new();
    push_decimal(&mut out, n);
    out
}

#[test]
fn decimal_text_of_small_numbers() {
    assert_eq!(text_of(0), "0");
    assert_eq!(text_of(7), "7");
    assert_eq!(text_of(10), "10");
    assert_eq!(text_of(255), "255");
    assert_eq!(text_of(1009), "1009");
}

#[test]
fn decimal_text_matches_the_standard_library() {
    for n in [0u64, 1, 9, 10, 11, 99, 100, 12345, 4294967295, u64::MAX] {
        assert_eq!(text_of(n), n.to_string());
    }
}

#[test]
fn push_decimal_appends() {
    let mut out = String::from("x=");
    push_decimal(&mut out, 42);
    push_decimal(&mut out, 0);
    assert_eq!(out, "x=420");
}

#[test]
fn chars_of_keeps_every_character() {
    assert_eq!(chars_of("a+é\n"), vec!['a', '+', 'é', '\n']);
    assert_eq!(chars_of(""), Vec::<char>::new());
}

#[test]
fn parse_reads_back_what_was_written() {
    for n in [0u64, 5, 10, 99, 100, 65535, 4294967295] {
        assert_eq!(parse_usize(&chars_of(&text_of(n))), Some(n as usize));
        assert_eq!(parse_bounded(&chars_of(&text_of(n)), n), Some(n));
    }
}

#[test]
fn parse_bounded_respects_the_limit() {
    assert_eq!(parse_bounded(&chars_of("255"), 255), Some(255));
    assert_eq!(parse_bounded(&chars_of("256"), 255), None);
    assert_eq!(parse_bounded(&chars_of("0"), 0), Some(0));
    assert_eq!(parse_bounded(&chars_of("1"), 0), None);
    assert_eq!(parse_bounded(&chars_of("18446744073709551615"), u64::MAX), Some(u64::MAX));
    assert_eq!(parse_bounded(&chars_of("18446744073709551616"), u64::MAX), None);
    assert_eq!(parse_bounded(&chars_of("000000000000000000000000012"), 12), Some(12));
}

#[test]
fn parse_u32_matches_the_standard_library() {
    for text in ["", "+", "-", "0", "+0", "-0", "12", "+12", "1 2", "12a", "a12", "4294967295", "4294967296", "00000000004294967295", "١٢"] {
        assert_eq!(parse_u32(&chars_of(text)), text.parse::<u32>().ok());
    }
}

#[test]
fn parse_usize_matches_the_standard_library() {
    for text in ["", "7", "+7", "++7", "7+", "18446744073709551615", "18446744073709551616", "99999999999999999999999999"] {
        assert_eq!(parse_usize(&chars_of(text)), text.parse::<usize>().ok());
    }
}

#[test]
fn digits_as_text() {
    let all: Vec<&str> = (0..10).map(digit_text).collect();
    assert_eq!(all, vec!["0", "1", "2", "3", "4", "5", "6", "7", "8", "9"]);
}
