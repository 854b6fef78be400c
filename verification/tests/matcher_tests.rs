use fnr::matcher::{build_matcher, check_match};
use fnr::Error;

fn literal(pattern: &str, replacement: Option<&str>, case_sensitive: bool) -> fnr::matcher::Matcher {
    build_matcher(pattern, replacement, false, case_sensitive).unwrap()
}

#[test]
fn substring_match_search_mode() {
    let m = literal("bar", None, false);
    assert_eq!(check_match(&m, "foobarbaz"), Some(String::from("foobarbaz")));
    assert_eq!(check_match(&m, "fooqux"), None);
}

#[test]
fn case_insensitive_match_by_default() {
    let m = literal("foo", None, false);
    assert!(check_match(&m, "MyFooBar.txt").is_some());
    let cs = literal("foo", None, true);
    assert!(check_match(&cs, "MyFooBar.txt").is_none());
    assert!(check_match(&cs, "Myfoobar.txt").is_some());
}

#[test]
fn case_insensitive_replace_preserves_surrounding_casing() {
    let m = literal("foo", Some("X"), false);
    assert_eq!(check_match(&m, "MyFooBar.txt"), Some(String::from("MyXBar.txt")));
}

#[test]
fn literal_replace_first_occurrence_only() {
    let m = literal("a", Some("b"), false);
    assert_eq!(check_match(&m, "aXa"), Some(String::from("bXa")));
}

#[test]
fn regex_replace_all_occurrences() {
    let m = build_matcher("a+", Some("b"), true, false).unwrap();
    assert_eq!(check_match(&m, "aaXaa"), Some(String::from("bXb")));
}

#[test]
fn regex_search_mode_keeps_name() {
    let m = build_matcher("^ba.", None, true, false).unwrap();
    assert_eq!(check_match(&m, "bar.txt"), Some(String::from("bar.txt")));
    assert_eq!(check_match(&m, "qux.txt"), None);
}

#[test]
fn regex_case_insensitive_unless_requested() {
    let ci = build_matcher("foo", None, true, false).unwrap();
    assert!(check_match(&ci, "FOO.txt").is_some());
    let cs = build_matcher("foo", None, true, true).unwrap();
    assert!(check_match(&cs, "FOO.txt").is_none());
}

#[test]
fn invalid_regex_rejected_before_any_entry_is_seen() {
    let r = build_matcher("(", None, true, false);
    assert!(matches!(r, Err(Error::InvalidPattern)));
}

#[test]
fn one_wildcard_matches_prefix_and_suffix() {
    let m = literal("a*c", None, true);
    assert!(check_match(&m, "abc").is_some());
    assert!(check_match(&m, "axxxc").is_some());
    assert!(check_match(&m, "abd").is_none());
}

#[test]
fn many_wildcards_fall_back_to_stripped_substring() {
    let m = literal("a*b*c", None, true);
    assert!(check_match(&m, "xxabcxx").is_some());
    assert!(check_match(&m, "a-b-c").is_none());
}

#[test]
fn round_trip_restores_original_name() {
    let there = literal("cat", Some("dog"), true);
    let renamed = check_match(&there, "cat.txt").unwrap();
    assert_eq!(renamed, "dog.txt");
    let back = literal("dog", Some("cat"), true);
    assert_eq!(check_match(&back, renamed.as_str()), Some(String::from("cat.txt")));
}

#[test]
fn case_insensitive_round_trip_with_exact_cased_match() {
    // When the matched segment equals the pattern exactly, a
    // case-insensitive rename can be undone by the reverse rename.
    let there = literal("CAT", Some("dog"), false);
    let renamed = check_match(&there, "CAT.txt").unwrap();
    assert_eq!(renamed, "dog.txt");
    let back = literal("dog", Some("CAT"), false);
    assert_eq!(check_match(&back, renamed.as_str()), Some(String::from("CAT.txt")));
}

#[test]
fn replace_without_occurrence_keeps_name() {
    // A wildcard pattern matches by prefix/suffix, but replacement splices
    // at the literal pattern text, which does not occur: name unchanged.
    let m = literal("a*c", Some("z"), true);
    assert_eq!(check_match(&m, "abc"), Some(String::from("abc")));
}
