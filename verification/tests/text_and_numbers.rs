use kos_kit_server::number::{parse_usize_chars, push_decimal, IntError};
use kos_kit_server::text::{
    char_is_whitespace, chars_of, find_in, split_chars, str_eq, to_lowercase, trim_chars,
};

fn chars(text: &str) -> Vec<char> {
    text.chars().collect()
}

fn number(text: &str) -> Result<usize, IntError> {
    parse_usize_chars(&chars(text))
}

fn written(n: usize) -> String {
    let mut out = Vec::new();
    push_decimal(n, &mut out);
    out.into_iter().collect()
}

#[test]
fn numbers_are_read_as_decimal() {
    assert_eq!(number("0"), Ok(0));
    assert_eq!(number("10"), Ok(10));
    assert_eq!(number("+7"), Ok(7));
    assert_eq!(number("007"), Ok(7));
    assert_eq!(number(&usize::MAX.to_string()), Ok(usize::MAX));
}

#[test]
fn numbers_fail_as_integer_parsing_does() {
    assert_eq!(number(""), Err(IntError::Empty));
    assert_eq!(number("+"), Err(IntError::InvalidDigit));
    assert_eq!(number("-"), Err(IntError::InvalidDigit));
    assert_eq!(number("-1"), Err(IntError::InvalidDigit));
    assert_eq!(number("12a"), Err(IntError::InvalidDigit));
    assert_eq!(number(" 1"), Err(IntError::InvalidDigit));
    assert_eq!(number("1.5"), Err(IntError::InvalidDigit));
    assert_eq!(number("99999999999999999999999999"), Err(IntError::PosOverflow));
    assert_eq!(number("99999999999999999999999999x"), Err(IntError::PosOverflow));
    assert_eq!(number("x99999999999999999999999999"), Err(IntError::InvalidDigit));
    let beyond = format!("{}0", usize::MAX);
    assert_eq!(number(&beyond), Err(IntError::PosOverflow));
}

#[test]
fn number_errors_agree_with_the_standard_library() {
    for text in ["", "+", "-", "-1", "12a", "99999999999999999999999999", "42", "+0"] {
        match (number(text), text.parse::<usize>()) {
            (Ok(ours), Ok(theirs)) => assert_eq!(ours, theirs),
            (Err(ours), Err(theirs)) => assert_eq!(ours.describe(), theirs.to_string()),
            (ours, theirs) => panic!("{:?} and {:?} for {:?}", ours, theirs, text),
        }
    }
}

#[test]
fn numbers_are_written_as_decimal() {
    assert_eq!(written(0), "0");
    assert_eq!(written(7), "7");
    assert_eq!(written(10), "10");
    assert_eq!(written(1234567890), "1234567890");
    assert_eq!(written(usize::MAX), usize::MAX.to_string());
}

#[test]
fn written_numbers_are_read_back() {
    for n in [0usize, 1, 9, 10, 99, 100, 4096, usize::MAX] {
        assert_eq!(number(&written(n)), Ok(n));
    }
}

#[test]
fn trimming_removes_unicode_whitespace() {
    assert_eq!(trim_chars(&chars("  a b \t\r\n")), chars("a b"));
    assert_eq!(trim_chars(&chars("\u{a0}x\u{3000}")), chars("x"));
    assert_eq!(trim_chars(&chars("   ")), chars(""));
    assert_eq!(trim_chars(&chars("")), chars(""));
    assert_eq!(trim_chars(&chars("\u{200b}x")), chars("\u{200b}x"));
}

#[test]
fn whitespace_is_what_the_standard_library_says() {
    for code in 0u32..0x3100 {
        if let Some(c) = char::from_u32(code) {
            assert_eq!(char_is_whitespace(c), c.is_whitespace(), "U+{:04X}", code);
        }
    }
}

#[test]
fn splitting_keeps_empty_pieces() {
    assert_eq!(split_chars(&chars("a,b,,c"), ','), vec![chars("a"), chars("b"), chars(""), chars("c")]);
    assert_eq!(split_chars(&chars(""), ','), vec![chars("")]);
    assert_eq!(split_chars(&chars(","), ','), vec![chars(""), chars("")]);
    assert_eq!(split_chars(&chars("abc"), ','), vec![chars("abc")]);
}

#[test]
fn first_occurrence_is_found() {
    assert_eq!(find_in(&chars("a;b;c"), ';'), 1);
    assert_eq!(find_in(&chars("abc"), ';'), 3);
    assert_eq!(find_in(&chars(""), ';'), 0);
}

#[test]
fn lower_case_touches_ascii_capitals_only() {
    assert_eq!(to_lowercase(&chars("Content-TYPE")), chars("content-type"));
    assert_eq!(to_lowercase(&chars("\u{c9}T\u{c9}")), chars("\u{c9}t\u{c9}"));
    assert_eq!(to_lowercase(&chars("@[`{")), chars("@[`{"));
}

#[test]
fn characters_of_a_string_come_in_order() {
    assert_eq!(chars_of("h\u{e9}llo"), chars("h\u{e9}llo"));
    assert!(str_eq("abc", "abc"));
    assert!(!str_eq("abc", "abd"));
}
