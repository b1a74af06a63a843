use wicli::text::{str_contains_term, str_eq, str_has_suffix};

#[test]
fn containment_is_exact_substring_search() {
    assert!(str_contains_term("hello world", "lo wo"));
    assert!(str_contains_term("hello world", "hello world"));
    assert!(str_contains_term("hello world", "d"));
    assert!(!str_contains_term("hello world", "world!"));
    assert!(!str_contains_term("abc", "abd"));
    assert!(!str_contains_term("short", "much longer than the text"));
}

#[test]
fn containment_is_case_sensitive() {
    assert!(!str_contains_term("Hello", "hello"));
    assert!(str_contains_term("Hello", "Hell"));
}

#[test]
fn the_empty_term_is_contained_in_everything() {
    assert!(str_contains_term("", ""));
    assert!(str_contains_term("anything", ""));
    assert!(!str_contains_term("", "a"));
}

#[test]
fn suffix_test_compares_the_tail() {
    assert!(str_has_suffix("repository.git", ".git"));
    assert!(str_has_suffix(".git", ".git"));
    assert!(!str_has_suffix("git", ".git"));
    assert!(!str_has_suffix("repository.git2", ".git"));
    assert!(str_has_suffix("anything", ""));
}

#[test]
fn string_equality_is_character_for_character() {
    assert!(str_eq("same", "same"));
    assert!(str_eq("", ""));
    assert!(!str_eq("same", "sam"));
    assert!(!str_eq("same", "samE"));
}
