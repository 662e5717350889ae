use dirtable::text::{char_count, pad_right, trim_end};

#[test]
fn char_count_counts_scalars_not_bytes() {
    assert_eq!(char_count(""), 0);
    assert_eq!(char_count("hello"), 5);
    assert_eq!(char_count("h\u{e9}llo"), 5);
    assert_eq!(char_count("\u{65e5}\u{672c}"), 2);
    // A combining mark is a character of its own.
    assert_eq!(char_count("e\u{301}"), 2);
}

#[test]
fn pad_right_fills_with_spaces() {
    assert_eq!(pad_right("ab", 4), "ab  ");
    assert_eq!(pad_right("a.txt", 6), "a.txt ");
    assert_eq!(pad_right("", 3), "   ");
}

#[test]
fn pad_right_leaves_long_text_alone() {
    assert_eq!(pad_right("abcd", 4), "abcd");
    assert_eq!(pad_right("abcdef", 4), "abcdef");
    assert_eq!(pad_right("abc", 0), "abc");
    assert_eq!(pad_right("", 0), "");
}

#[test]
fn pad_right_measures_in_characters() {
    // Three characters in six bytes: one space is owed, not none.
    assert_eq!(pad_right("\u{e9}\u{e9}\u{e9}", 4), "\u{e9}\u{e9}\u{e9} ");
}

#[test]
fn trim_end_removes_trailing_whitespace() {
    assert_eq!(trim_end("hi  "), "hi");
    assert_eq!(trim_end("hi \t\r\n"), "hi");
    assert_eq!(trim_end("hi\u{a0}\u{3000}"), "hi");
}

#[test]
fn trim_end_keeps_inner_and_leading_whitespace() {
    assert_eq!(trim_end("  a b  "), "  a b");
    assert_eq!(trim_end("\tx"), "\tx");
}

#[test]
fn trim_end_of_blank_text_is_empty() {
    assert_eq!(trim_end(""), "");
    assert_eq!(trim_end("   "), "");
    assert_eq!(trim_end("\n"), "");
}

#[test]
fn trim_end_keeps_text_without_trailing_whitespace() {
    assert_eq!(trim_end("hello"), "hello");
    // An underscore and a zero-width space are not whitespace.
    assert_eq!(trim_end("a_"), "a_");
    assert_eq!(trim_end("a\u{200b}"), "a\u{200b}");
}

#[test]
fn trim_end_agrees_with_the_standard_library() {
    for text in ["", " ", "a ", " a", "a\u{2003} ", "\u{1680}", "x\u{85}", "tab\t", "z\u{feff}"] {
        assert_eq!(trim_end(text), text.trim_end());
    }
}
