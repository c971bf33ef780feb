//! Character-level utilities: trimming, searching, splitting, joining.

use ratcrawler::text::{
    collapse_ws, contains_chars, contains_chars_ci, count_words_chars, decimal_chars, ends_with,
    eq_chars, join_chars, split_char, split_ws, starts_with, starts_with_ci, trim_chars,
};

fn cv(s: &str) -> Vec<char> {
    s.chars().collect()
}

fn sv(v: &Vec<char>) -> String {
    v.iter().collect()
}

#[test]
fn trim_removes_surrounding_whitespace() {
    assert_eq!(sv(&trim_chars(&cv("  hello world \t\n"))), "hello world");
    assert_eq!(sv(&trim_chars(&cv(""))), "");
    assert_eq!(sv(&trim_chars(&cv("   "))), "");
    assert_eq!(sv(&trim_chars(&cv("x"))), "x");
}

#[test]
fn contains_finds_substrings() {
    assert!(contains_chars(&cv("the quick brown fox"), &cv("quick")));
    assert!(!contains_chars(&cv("the quick brown fox"), &cv("slow")));
    assert!(contains_chars(&cv("abc"), &cv("")));
    assert!(!contains_chars(&cv("ab"), &cv("abc")));
}

#[test]
fn case_insensitive_search_folds_ascii() {
    assert!(contains_chars_ci(&cv("Best Online CASINO Bonuses"), &cv("casino")));
    assert!(!contains_chars_ci(&cv("academic research"), &cv("casino")));
    assert!(starts_with_ci(&cv("User-AGENT: bot"), &cv("user-agent:")));
    assert!(!starts_with_ci(&cv("Disallow: /x"), &cv("user-agent:")));
}

#[test]
fn prefix_and_suffix_checks() {
    assert!(starts_with(&cv("http://x"), &cv("http")));
    assert!(!starts_with(&cv("htt"), &cv("http")));
    assert!(ends_with(&cv("file.pdf"), &cv(".pdf")));
    assert!(!ends_with(&cv("file.pdfx"), &cv(".pdf")));
}

#[test]
fn equality_is_character_for_character() {
    assert!(eq_chars(&cv("abc"), &cv("abc")));
    assert!(!eq_chars(&cv("abc"), &cv("abd")));
    assert!(!eq_chars(&cv("abc"), &cv("ab")));
}

#[test]
fn splitting_on_whitespace_drops_empties() {
    let parts = split_ws(&cv("  one two\t three  "));
    let words: Vec<String> = parts.iter().map(|p| sv(p)).collect();
    assert_eq!(words, vec!["one", "two", "three"]);
    assert_eq!(count_words_chars(&cv("  one two\t three  ")), 3);
    assert_eq!(count_words_chars(&cv("")), 0);
    assert_eq!(count_words_chars(&cv("   ")), 0);
}

#[test]
fn splitting_on_a_character_keeps_empties() {
    let parts = split_char(&cv("a:b::c"), ':');
    let words: Vec<String> = parts.iter().map(|p| sv(p)).collect();
    assert_eq!(words, vec!["a", "b", "", "c"]);
    let single = split_char(&cv(""), ':');
    assert_eq!(single.len(), 1);
}

#[test]
fn joining_and_collapsing() {
    let parts = vec![cv("a"), cv("b"), cv("c")];
    assert_eq!(sv(&join_chars(&parts, '-')), "a-b-c");
    assert_eq!(sv(&collapse_ws(&cv("  a   b \n c "))), "a b c");
    assert_eq!(sv(&collapse_ws(&cv(""))), "");
}

#[test]
fn decimal_rendering() {
    assert_eq!(sv(&decimal_chars(0)), "0");
    assert_eq!(sv(&decimal_chars(7)), "7");
    assert_eq!(sv(&decimal_chars(120)), "120");
    assert_eq!(sv(&decimal_chars(18446744073709551615)), "18446744073709551615");
}
