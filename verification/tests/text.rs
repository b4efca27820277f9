use aoc2019::text::{
    char_of_digit, chars_of, copy_text, is_whitespace, parse_digits, parse_i64_in, parse_int_list,
    parse_numbers_by_line, parse_u64_in, parse_usize_in, push_decimal, same_text, split_bounds,
    split_on_pair_bounds, trim_bounds, DIGITS_CAP,
};

fn pieces(text: &str, bounds: Vec<(usize, usize)>) -> Vec<String> {
    let chars = chars_of(text);
    bounds.iter().map(|(from, to)| chars[*from..*to].iter().collect()).collect()
}

fn split(text: &str, sep: char) -> Vec<String> {
    let chars = chars_of(text);
    pieces(text, split_bounds(&chars, 0, chars.len(), sep))
}

fn split_on(text: &str, a: char, b: char) -> Vec<String> {
    let chars = chars_of(text);
    pieces(text, split_on_pair_bounds(&chars, 0, chars.len(), a, b))
}

fn trimmed(text: &str) -> String {
    let chars = chars_of(text);
    let (from, to) = trim_bounds(&chars, 0, chars.len());
    chars[from..to].iter().collect()
}

fn number(text: &str) -> Option<i64> {
    let chars = chars_of(text);
    parse_i64_in(&chars, 0, chars.len())
}

fn natural(text: &str) -> Option<u64> {
    let chars = chars_of(text);
    parse_u64_in(&chars, 0, chars.len())
}

#[test]
fn characters_of_a_text() {
    assert_eq!(chars_of(""), Vec::<char>::new());
    assert_eq!(chars_of("a\u{e9}\u{4e2d}!"), vec!['a', '\u{e9}', '\u{4e2d}', '!']);
    assert_eq!(copy_text(&chars_of("hello"), 1, 3), vec!['e', 'l']);
    assert!(same_text(&chars_of("ab"), &chars_of("ab")));
    assert!(!same_text(&chars_of("ab"), &chars_of("abc")));
    assert!(!same_text(&chars_of("ab"), &chars_of("ac")));
}

#[test]
fn splitting_keeps_empty_pieces() {
    assert_eq!(split("a,b,c", ','), vec!["a", "b", "c"]);
    assert_eq!(split("", ','), vec![""]);
    assert_eq!(split(",", ','), vec!["", ""]);
    assert_eq!(split(",a,,b,", ','), vec!["", "a", "", "b", ""]);
    assert_eq!(split("abc", ','), vec!["abc"]);
    let chars = chars_of("a,b;c,d");
    assert_eq!(split_bounds(&chars, 2, 5, ','), vec![(2, 5)]);
    assert_eq!(split_bounds(&chars, 2, 7, ','), vec![(2, 5), (6, 7)]);
}

#[test]
fn splitting_on_two_characters() {
    assert_eq!(split_on("7 A, 1 B", ',', ' '), vec!["7 A", "1 B"]);
    assert_eq!(split_on("a => b => c", '=', '>'), vec!["a ", " b ", " c"]);
    assert_eq!(split_on("a,b", ',', ' '), vec!["a,b"]);
    assert_eq!(split_on("", ',', ' '), vec![""]);
    assert_eq!(split_on(", ", ',', ' '), vec!["", ""]);
    assert_eq!(split_on("x,, y", ',', ' '), vec!["x,", "y"]);
    assert_eq!(split_on("==>", '=', '>'), vec!["=", ""]);
    assert_eq!(split_on("=>>", '=', '>'), vec!["", ">"]);
    assert_eq!(split_on(" ,", ',', ' '), vec![" ,"]);
}

#[test]
fn trimming_takes_all_kinds_of_white_space() {
    assert_eq!(trimmed("  a b \t\r\n"), "a b");
    assert_eq!(trimmed("\u{a0}\u{2003}x\u{3000}\u{85}"), "x");
    assert_eq!(trimmed(" \n "), "");
    assert_eq!(trimmed(""), "");
    assert_eq!(trimmed("x"), "x");
    // A zero-width space is no white space.
    assert_eq!(trimmed("\u{200b}x"), "\u{200b}x");
    for c in ['\t', '\n', '\u{b}', '\u{c}', '\r', ' ', '\u{85}', '\u{a0}', '\u{1680}', '\u{2000}',
        '\u{200a}', '\u{2028}', '\u{2029}', '\u{202f}', '\u{205f}', '\u{3000}']
    {
        assert!(is_whitespace(c));
        assert!(c.is_whitespace());
    }
    for c in ['a', '0', '\u{8}', '\u{e}', '\u{200b}', '\u{feff}', '\u{180e}'] {
        assert!(!is_whitespace(c));
        assert!(!c.is_whitespace());
    }
}

#[test]
fn numbers_with_and_without_sign() {
    assert_eq!(number("0"), Some(0));
    assert_eq!(number("-0"), Some(0));
    assert_eq!(number("+17"), Some(17));
    assert_eq!(number("-17"), Some(-17));
    assert_eq!(number("0017"), Some(17));
    assert_eq!(number("9223372036854775807"), Some(i64::MAX));
    assert_eq!(number("-9223372036854775808"), Some(i64::MIN));
    assert_eq!(number("9223372036854775808"), None);
    assert_eq!(number("-9223372036854775809"), None);
    assert_eq!(number("00000000000000000000000000000000000000001"), Some(1));
    assert_eq!(number("99999999999999999999999999999999999999999"), None);
    assert_eq!(number(""), None);
    assert_eq!(number("-"), None);
    assert_eq!(number("+"), None);
    assert_eq!(number("--1"), None);
    assert_eq!(number("1 "), None);
    assert_eq!(number(" 1"), None);
    assert_eq!(number("1_000"), None);
    assert_eq!(number("\u{661}"), None);
}

#[test]
fn natural_numbers_take_no_minus() {
    assert_eq!(natural("0"), Some(0));
    assert_eq!(natural("+5"), Some(5));
    assert_eq!(natural("-5"), None);
    assert_eq!(natural("-0"), None);
    assert_eq!(natural("18446744073709551615"), Some(u64::MAX));
    assert_eq!(natural("18446744073709551616"), None);
    assert_eq!(natural(""), None);
    let chars = chars_of("12");
    assert_eq!(parse_usize_in(&chars, 0, 2), Some(12));
    assert_eq!(parse_usize_in(&chars, 1, 2), Some(2));
    assert_eq!(parse_usize_in(&chars, 1, 1), None);
}

#[test]
fn runs_of_digits() {
    let chars = chars_of("x123y");
    assert_eq!(parse_digits(&chars, 1, 4), Some(123));
    assert_eq!(parse_digits(&chars, 0, 4), None);
    assert_eq!(parse_digits(&chars, 1, 5), None);
    assert_eq!(parse_digits(&chars, 2, 2), None);
    let many = chars_of("340282366920938463463374607431768211455");
    assert_eq!(parse_digits(&many, 0, many.len()), Some(DIGITS_CAP));
    let just = chars_of("18446744073709551615");
    assert_eq!(parse_digits(&just, 0, just.len()), Some(u64::MAX as u128));
    let over = chars_of("18446744073709551616");
    assert_eq!(parse_digits(&over, 0, over.len()), Some(DIGITS_CAP));
}

#[test]
fn lists_of_integers() {
    assert_eq!(parse_int_list("1,2,3"), Some(vec![1, 2, 3]));
    assert_eq!(parse_int_list(" 1 , -2 ,\n3\t"), Some(vec![1, -2, 3]));
    assert_eq!(parse_int_list("7"), Some(vec![7]));
    assert_eq!(parse_int_list(""), None);
    assert_eq!(parse_int_list("1,,2"), None);
    assert_eq!(parse_int_list("1,2,"), None);
    assert_eq!(parse_int_list("1;2"), None);
    assert_eq!(parse_numbers_by_line("1\n22\n333"), Some(vec![1, 22, 333]));
    assert_eq!(parse_numbers_by_line("1\n\n333"), None);
    assert_eq!(parse_numbers_by_line("1\n 2"), None);
}

#[test]
fn numbers_written_out() {
    let mut text = "n = ".to_string();
    push_decimal(&mut text, 0);
    text.push(' ');
    push_decimal(&mut text, 907);
    text.push(' ');
    push_decimal(&mut text, u64::MAX);
    assert_eq!(text, "n = 0 907 18446744073709551615");
    assert_eq!(char_of_digit(0), '0');
    assert_eq!(char_of_digit(9), '9');
}
