use v2board_wireguard::text::{
    decimal_text, same_text, shell_escape, trim, trim_end, truncate_for_log, CharSet,
};

#[test]
fn decimal_text_has_no_leading_zeros() {
    assert_eq!(decimal_text(0), "0");
    assert_eq!(decimal_text(9), "9");
    assert_eq!(decimal_text(10), "10");
    assert_eq!(decimal_text(907), "907");
    assert_eq!(decimal_text(u128::MAX), u128::MAX.to_string());
}

#[test]
fn same_text_compares_characters() {
    assert!(same_text("", ""));
    assert!(same_text("nat", "nat"));
    assert!(!same_text("nat", "na"));
    assert!(!same_text("nat", "nab"));
}

#[test]
fn quotes_are_escaped() {
    assert_eq!(shell_escape("wg0"), "wg0");
    assert_eq!(shell_escape("a\"b"), "a\\\"b");
    assert_eq!(shell_escape("\"\""), "\\\"\\\"");
    assert_eq!(shell_escape("\\"), "\\");
}

#[test]
fn white_space_is_trimmed_at_both_ends() {
    assert_eq!(trim(" \t a b \n", CharSet::WhiteSpace), "a b");
    assert_eq!(trim("\u{a0}\u{3000}x\u{2028}", CharSet::WhiteSpace), "x");
    assert_eq!(trim(" \n ", CharSet::WhiteSpace), "");
    assert_eq!(trim("", CharSet::WhiteSpace), "");
    assert_eq!(trim("x", CharSet::WhiteSpace), "x");
}

#[test]
fn single_characters_are_trimmed() {
    assert_eq!(trim("__a_b__", CharSet::Only('_')), "a_b");
    assert_eq!(trim_end("http://panel//", CharSet::Only('/')), "http://panel");
    assert_eq!(trim_end("//", CharSet::Only('/')), "");
}

#[test]
fn short_texts_are_logged_whole() {
    assert_eq!(truncate_for_log("", 0), "");
    assert_eq!(truncate_for_log("abc", 3), "abc");
    assert_eq!(truncate_for_log("abc", 4), "abc");
}

#[test]
fn long_texts_are_cut_at_a_character() {
    assert_eq!(truncate_for_log("abcd", 3), "abc...");
    assert_eq!(truncate_for_log("a\u{e9}b", 2), "a...");
    assert_eq!(truncate_for_log("a\u{e9}b", 3), "a\u{e9}...");
    assert_eq!(truncate_for_log("\u{1f600}x", 3), "...");
    assert_eq!(truncate_for_log("abc", 0), "...");
}
