use smart_commit::lines::{
    count_lines, find_line_end, lines_of, strip_outer_lines, text_lines_of,
};
use smart_commit::text::{
    chars_of, digit_char, is_whitespace, join, push_decimal, string_of, string_of_range, trimmed,
};

fn owned(items: &[&str]) -> Vec<String> {
    items.iter().map(|s| s.to_string()).collect()
}

#[test]
fn chars_round_trip() {
    let chars = chars_of("a\u{e9}\u{4e2d}\n");
    assert_eq!(chars, vec!['a', '\u{e9}', '\u{4e2d}', '\n']);
    assert_eq!(string_of(&chars), "a\u{e9}\u{4e2d}\n");
    assert_eq!(string_of_range(&chars, 1, 3), "\u{e9}\u{4e2d}");
    assert_eq!(string_of_range(&chars, 2, 2), "");
    assert_eq!(chars_of(""), Vec::<char>::new());
}

#[test]
fn join_puts_separator_between_neighbours_only() {
    assert_eq!(join(&owned(&[]), "\n"), "");
    assert_eq!(join(&owned(&["one"]), "\n"), "one");
    assert_eq!(join(&owned(&["one", "two", "three"]), "\n"), "one\ntwo\nthree");
    assert_eq!(join(&owned(&["a", "", "b"]), ", "), "a, , b");
}

#[test]
fn whitespace_is_the_unicode_property() {
    for c in [' ', '\t', '\n', '\u{b}', '\u{c}', '\r', '\u{85}', '\u{a0}', '\u{1680}', '\u{2000}',
        '\u{200a}', '\u{2028}', '\u{2029}', '\u{202f}', '\u{205f}', '\u{3000}']
    {
        assert!(is_whitespace(c), "{:?}", c);
        assert!(c.is_whitespace());
    }
    for c in ['a', '0', '\u{8}', '\u{e}', '\u{1f}', '\u{84}', '\u{200b}', '\u{feff}', '\u{2060}'] {
        assert!(!is_whitespace(c), "{:?}", c);
        assert!(!c.is_whitespace());
    }
}

#[test]
fn whitespace_agrees_with_std_on_every_char() {
    let mut code = 0u32;
    while code <= 0x10ffff {
        if let Some(c) = char::from_u32(code) {
            assert_eq!(is_whitespace(c), c.is_whitespace(), "{:#x}", code);
        }
        code += 1;
    }
}

#[test]
fn trimmed_takes_white_space_from_both_ends() {
    assert_eq!(trimmed("  Fix bug \t\r"), "Fix bug");
    assert_eq!(trimmed("Fix  bug"), "Fix  bug");
    assert_eq!(trimmed(""), "");
    assert_eq!(trimmed(" \t \u{a0}"), "");
    assert_eq!(trimmed("x"), "x");
    assert_eq!(trimmed("\u{3000}a b\u{2003}"), "a b");
    for text in ["  a ", "\n\na\n", "a", "", "   ", "\u{feff} a"] {
        assert_eq!(trimmed(text), text.trim());
    }
}

#[test]
fn decimal_digits() {
    for d in 0..10usize {
        assert_eq!(digit_char(d), char::from_digit(d as u32, 10).unwrap());
    }
    for n in [0usize, 7, 10, 42, 99, 100, 1905, 65540, usize::MAX] {
        let mut out = String::from("n=");
        push_decimal(&mut out, n);
        assert_eq!(out, format!("n={}", n));
    }
}

#[test]
fn lines_are_split_at_line_feeds() {
    assert_eq!(lines_of(""), owned(&[]));
    assert_eq!(lines_of("a"), owned(&["a"]));
    assert_eq!(lines_of("a\n"), owned(&["a"]));
    assert_eq!(lines_of("a\nb"), owned(&["a", "b"]));
    assert_eq!(lines_of("a\nb\n"), owned(&["a", "b"]));
    assert_eq!(lines_of("\n"), owned(&[""]));
    assert_eq!(lines_of("a\n\nb"), owned(&["a", "", "b"]));
    assert_eq!(lines_of("\n\n"), owned(&["", ""]));
    assert_eq!(lines_of("a\r\nb"), owned(&["a\r", "b"]));
}

#[test]
fn line_count_is_the_number_of_lines() {
    for text in ["", "a", "a\n", "a\nb", "a\nb\n", "\n", "\n\n", "a\n\nb", "x\ny\nz\n"] {
        assert_eq!(count_lines(text), lines_of(text).len(), "{:?}", text);
        assert_eq!(count_lines(text), text.lines().count(), "{:?}", text);
    }
    assert_eq!(count_lines("1\n2\n3\n"), 3);
}

#[test]
fn find_line_end_stops_at_first_line_feed() {
    let chars = chars_of("ab\ncd\n\nef");
    assert_eq!(find_line_end(&chars, 0), 2);
    assert_eq!(find_line_end(&chars, 2), 2);
    assert_eq!(find_line_end(&chars, 3), 5);
    assert_eq!(find_line_end(&chars, 6), 6);
    assert_eq!(find_line_end(&chars, 7), 9);
    assert_eq!(find_line_end(&chars, 9), 9);
}

#[test]
fn strip_outer_lines_drops_first_and_last_line() {
    assert_eq!(strip_outer_lines("1\n2\n3\n4\n"), "2\n3\n");
    assert_eq!(strip_outer_lines("1\n2\n3\n4"), "2\n3\n");
    assert_eq!(strip_outer_lines("1\n2\n3\n"), "2\n");
    assert_eq!(strip_outer_lines("1\n2\n3"), "2\n");
    assert_eq!(strip_outer_lines("first\n\n\nlast\n"), "\n\n");
}

#[test]
fn strip_outer_lines_empties_a_text_of_two_lines_or_fewer() {
    for text in ["", "1", "1\n", "1\n2", "1\n2\n", "\n", "\n\n"] {
        assert_eq!(strip_outer_lines(text), "", "{:?}", text);
    }
}

#[test]
fn strip_outer_lines_leaves_the_lines_between() {
    for text in ["a\nb\nc\nd\ne\n", "a\nb\nc\nd\ne", "\n\n\n\n", "x\n\ny\n\nz"] {
        let all = lines_of(text);
        let inner = lines_of(&strip_outer_lines(text));
        assert_eq!(inner, all[1..all.len() - 1].to_vec(), "{:?}", text);
    }
}

#[test]
fn text_lines_end_with_a_line_feed_or_a_return_and_a_line_feed() {
    assert_eq!(text_lines_of(""), owned(&[]));
    assert_eq!(text_lines_of("a"), owned(&["a"]));
    assert_eq!(text_lines_of("a\r\nb\n"), owned(&["a", "b"]));
    assert_eq!(text_lines_of("\r\na"), owned(&["", "a"]));
    assert_eq!(text_lines_of("a\r"), owned(&["a\r"]));
    assert_eq!(text_lines_of("a\r\r\n"), owned(&["a\r"]));
    assert_eq!(text_lines_of("a\rb\n"), owned(&["a\rb"]));
    assert_eq!(text_lines_of("\n\r\n"), owned(&["", ""]));
}

#[test]
fn text_lines_agree_with_the_lines_of_std() {
    for text in [
        "", "a", "a\n", "a\nb", "\n", "\r\n", "\r", "a\r", "a\r\n", "a\r\nb\r", "\r\r\n",
        "x\n\ny\r\n\r\nz", "a\rb\r\nc", "\n\n\n", " \r\n ",
    ] {
        let expected: Vec<String> = text.lines().map(|l| l.to_string()).collect();
        assert_eq!(text_lines_of(text), expected, "{:?}", text);
    }
}
