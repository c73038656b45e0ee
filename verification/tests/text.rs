//! Texts, orders and paths.

use capscr::order::{alphabetically, comes_before, newest_first};
use capscr::paths::{file_extension, file_stem, join, lies_below};
use capscr::text::{
    ascii_lowered, ascii_uppered, has_char, has_prefix, has_suffix, has_text, len_of, pieces,
    push_dec, push_int, same_but_for_case, trimmed, utf16_units, without_trailing, words_of,
};

#[test]
fn parts_of_texts() {
    assert!(has_prefix("abc", "ab") && has_suffix("abc", "bc") && has_text("abc", "b"));
    assert!(!has_prefix("a", "ab") && !has_suffix("c", "bc") && !has_text("abc", "ac"));
    assert!(has_text("abc", "") && has_char("aé", 'é'));
    assert_eq!(trimmed(" \u{2003}a b\n"), "a b");
    assert_eq!(without_trailing("a\\\\", '\\'), "a");
    assert_eq!(pieces("a::b", ':'), vec!["a", "", "b"]);
    assert_eq!(pieces("", ':'), vec![""]);
    assert_eq!(words_of("  a\tb \u{a0}c"), vec!["a", "b", "c"]);
    assert_eq!(ascii_lowered("AÉ"), "aÉ");
    assert_eq!(ascii_uppered("aé"), "Aé");
    assert!(same_but_for_case("MP4", "mp4"));
    assert_eq!(len_of("aé𝄞"), 7);
    assert_eq!(utf16_units("é𝄞"), vec![0xE9, 0xD834, 0xDD1E]);
}

#[test]
fn numbers_are_written() {
    let mut s = String::new();
    push_dec(&mut s, 0);
    push_dec(&mut s, u64::MAX);
    push_int(&mut s, -12);
    push_int(&mut s, i64::MIN);
    assert_eq!(s, "018446744073709551615-12-9223372036854775808");
}

#[test]
fn orders_are_stable() {
    assert_eq!(newest_first(&[3, 9, 3, 5]), vec![1, 3, 0, 2]);
    let keys: Vec<String> = ["b", "a", "B", "a"].iter().map(|s| s.to_string()).collect();
    assert_eq!(alphabetically(&keys), vec![2, 1, 3, 0]);
    assert!(comes_before("a", "ab"));
    assert!(!comes_before("b", "ab"));
    assert!(!comes_before("a", "a"));
}

#[test]
fn paths_are_taken_apart() {
    assert_eq!(file_stem("a.b.png"), "a.b");
    assert_eq!(file_extension("a.b.png"), "png");
    assert_eq!(file_extension(".hidden"), "");
    assert_eq!(file_stem(".hidden"), ".hidden");
    assert_eq!(file_extension("a."), "");
    assert_eq!(join("/a", "b", '/'), "/a/b");
    assert_eq!(join("/a/", "b", '/'), "/a/b");
    assert!(lies_below("/a/b/c", "/a/b", '/'));
    assert!(!lies_below("/a/bc", "/a/b", '/'));
}
