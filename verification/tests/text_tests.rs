use hub::text::decimal_string;
use hub::text::has_suffix;
use hub::text::join2;
use hub::text::join3;
use hub::text::same_text;
use hub::text::split_name;
use hub::text::to_unix_newlines;
use hub::text::trim_char;
use hub::text::trim_suffix;
use hub::text::zero_padded_string;

#[test]
fn decimal_string_writes_numerals() {
    assert_eq!(decimal_string(0), "0");
    assert_eq!(decimal_string(7), "7");
    assert_eq!(decimal_string(10), "10");
    assert_eq!(decimal_string(1234567890), "1234567890");
    assert_eq!(decimal_string(u128::MAX), u128::MAX.to_string());
}

#[test]
fn zero_padded_string_fills_up_to_the_width() {
    assert_eq!(zero_padded_string(5, 2), "05");
    assert_eq!(zero_padded_string(12, 2), "12");
    assert_eq!(zero_padded_string(123, 2), "123");
    assert_eq!(zero_padded_string(0, 4), "0000");
    assert_eq!(zero_padded_string(7, 0), "7");
}

#[test]
fn joins_put_texts_one_after_another() {
    assert_eq!(join2("ab", "cd"), "abcd");
    assert_eq!(join3("a", "", "c"), "ac");
}

#[test]
fn same_text_compares_characters() {
    assert!(same_text("abc", "abc"));
    assert!(!same_text("abc", "abd"));
    assert!(!same_text("abc", "ab"));
}

#[test]
fn trim_char_takes_the_character_off_both_ends() {
    assert_eq!(trim_char("```{\"a\":1}```", '`'), "{\"a\":1}");
    assert_eq!(trim_char("`a`b`", '`'), "a`b");
    assert_eq!(trim_char("````", '`'), "");
    assert_eq!(trim_char("", '`'), "");
    assert_eq!(trim_char("plain", '`'), "plain");
    assert_eq!(trim_char("`é`", '`'), "é");
}

#[test]
fn has_suffix_looks_at_the_end() {
    assert!(has_suffix("file.json", "json"));
    assert!(has_suffix("json", "json"));
    assert!(has_suffix("anything", ""));
    assert!(!has_suffix("son", "json"));
    assert!(!has_suffix("file.json5", "json"));
}

#[test]
fn trim_suffix_takes_every_copy_off_the_end() {
    assert_eq!(trim_suffix("abcxyxy", "xy"), "abc");
    assert_eq!(trim_suffix("xyabc", "xy"), "xyabc");
    assert_eq!(trim_suffix("xyxy", "xy"), "");
    assert_eq!(trim_suffix("abc", ""), "abc");
    assert_eq!(trim_suffix("abc", "abcd"), "abc");
}

#[test]
fn to_unix_newlines_drops_carriage_returns_before_line_feeds() {
    assert_eq!(to_unix_newlines("a\r\nb\r\n"), "a\nb\n");
    assert_eq!(to_unix_newlines("a\rb"), "a\rb");
    assert_eq!(to_unix_newlines("a\r\r\nb"), "a\r\nb");
    assert_eq!(to_unix_newlines("a\nb"), "a\nb");
    assert_eq!(to_unix_newlines(""), "");
    assert_eq!(to_unix_newlines("\r"), "\r");
}

#[test]
fn split_name_cuts_at_the_last_dot() {
    assert_eq!(split_name("2024-01-05.jpg"), ("2024-01-05", "jpg"));
    assert_eq!(split_name("a.b.c"), ("a.b", "c"));
    assert_eq!(split_name("plain"), ("plain", ""));
    assert_eq!(split_name("dot."), ("dot", ""));
    assert_eq!(split_name(".hidden"), ("", "hidden"));
    assert_eq!(split_name(""), ("", ""));
}
