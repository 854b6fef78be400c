use fnr::collect::Entry;
use fnr::globs::build_glob_set;
use fnr::matcher::build_matcher;
use fnr::{find_matches, Error, FileType};

fn entry(path: &str, is_dir: bool) -> Entry {
    Entry { path: String::from(path), is_dir }
}

fn paths(ms: &Vec<fnr::collect::Match>) -> Vec<String> {
    let mut out = Vec::new();
    for m in ms {
        out.push(m.path.clone());
    }
    out
}

#[test]
fn files_first_then_directories_deepest_first() {
    let m = build_matcher("a", None, false, false).unwrap();
    let globs = build_glob_set(&Vec::new()).unwrap();
    let entries = vec![
        entry("./a", true),
        entry("./a/ca", true),
        entry("./a/ca/da.txt", false),
        entry("./a/ba.txt", false),
    ];
    let ms = find_matches(&m, &globs, FileType::Both, &entries);
    assert_eq!(
        paths(&ms),
        vec![
            String::from("./a/ba.txt"),
            String::from("./a/ca/da.txt"),
            String::from("./a/ca"),
            String::from("./a")
        ]
    );
}

#[test]
fn descendant_renamed_before_ancestor_directory() {
    let m = build_matcher("bar", Some("qux"), false, false).unwrap();
    let globs = build_glob_set(&Vec::new()).unwrap();
    let entries = vec![
        entry("foo", true),
        entry("foo/bar", true),
        entry("foo/bar/baz.txt", false),
        entry("foo/bar/inbar", true),
    ];
    let ms = find_matches(&m, &globs, FileType::Both, &entries);
    // "bar" occurs in the directory "foo/bar" and in "foo/bar/inbar";
    // the deeper directory must be renamed first.
    assert_eq!(paths(&ms), vec![String::from("foo/bar/inbar"), String::from("foo/bar")]);
    assert_eq!(ms[1].new_name, "qux");
}

#[test]
fn glob_filter_restricts_entries() {
    let m = build_matcher("a", None, false, false).unwrap();
    let globs = build_glob_set(&vec![String::from("*.rs")]).unwrap();
    let entries = vec![entry("a.rs", false), entry("a.txt", false)];
    let ms = find_matches(&m, &globs, FileType::Both, &entries);
    assert_eq!(paths(&ms), vec![String::from("a.rs")]);
}

#[test]
fn invalid_glob_rejected() {
    let r = build_glob_set(&vec![String::from("a[")]);
    assert!(matches!(r, Err(Error::InvalidPattern)));
}

#[test]
fn type_filter_files_only() {
    let m = build_matcher("a", None, false, false).unwrap();
    let globs = build_glob_set(&Vec::new()).unwrap();
    let entries = vec![entry("./a", true), entry("./a/ba.txt", false)];
    let ms = find_matches(&m, &globs, FileType::File, &entries);
    assert_eq!(paths(&ms), vec![String::from("./a/ba.txt")]);
    let ds = find_matches(&m, &globs, FileType::Dir, &entries);
    assert_eq!(paths(&ds), vec![String::from("./a")]);
}

#[test]
fn matching_applies_to_base_name_not_full_path() {
    let m = build_matcher("foo", None, false, false).unwrap();
    let globs = build_glob_set(&Vec::new()).unwrap();
    // The path contains "foo" only in an ancestor component, not in the
    // base name: no match.
    let entries = vec![entry("foo/bar.txt", false)];
    let ms = find_matches(&m, &globs, FileType::Both, &entries);
    assert!(ms.is_empty());
}

#[test]
fn search_twice_yields_identical_match_sets() {
    let m = build_matcher("a", None, false, false).unwrap();
    let globs = build_glob_set(&Vec::new()).unwrap();
    let entries = vec![
        entry("./a", true),
        entry("./a/ba.txt", false),
        entry("./a/ca", true),
    ];
    let first = find_matches(&m, &globs, FileType::Both, &entries);
    let second = find_matches(&m, &globs, FileType::Both, &entries);
    assert_eq!(paths(&first), paths(&second));
    assert_eq!(first.len(), second.len());
    for i in 0..first.len() {
        assert_eq!(first[i].new_name, second[i].new_name);
        assert_eq!(first[i].is_dir, second[i].is_dir);
    }
}

#[test]
fn no_matches_is_not_an_error() {
    let m = build_matcher("zzz", None, false, false).unwrap();
    let globs = build_glob_set(&Vec::new()).unwrap();
    let entries = vec![entry("./a", true)];
    let ms = find_matches(&m, &globs, FileType::Both, &entries);
    assert!(ms.is_empty());
}

#[test]
fn match_records_keep_pattern_and_replacement() {
    let m = build_matcher("bar", Some("qux"), false, false).unwrap();
    let globs = build_glob_set(&Vec::new()).unwrap();
    let entries = vec![entry("foo/bar", true)];
    let ms = find_matches(&m, &globs, FileType::Both, &entries);
    assert_eq!(ms.len(), 1);
    assert_eq!(ms[0].pattern, "bar");
    assert_eq!(ms[0].replacement, "qux");
    assert!(ms[0].is_dir);
}

#[test]
fn regex_capture_groups_expand_in_replacement() {
    let m = build_matcher("^(\\w+)\\.rs$", Some("${1}.txt"), true, false).unwrap();
    let globs = build_glob_set(&Vec::new()).unwrap();
    let entries = vec![entry("src/lib.rs", false)];
    let ms = find_matches(&m, &globs, FileType::Both, &entries);
    assert_eq!(ms.len(), 1);
    assert_eq!(ms[0].new_name, "lib.txt");
}

#[test]
fn non_ascii_names_are_handled() {
    let m = build_matcher("ïve", Some("ive"), false, true).unwrap();
    let globs = build_glob_set(&Vec::new()).unwrap();
    let entries = vec![entry("docs/naïve.txt", false)];
    let ms = find_matches(&m, &globs, FileType::Both, &entries);
    assert_eq!(ms.len(), 1);
    assert_eq!(ms[0].new_name, "naive.txt");
}

#[test]
fn pipeline_dry_run_lists_sorted_batch() {
    let m = build_matcher("a", Some("o"), false, false).unwrap();
    let globs = build_glob_set(&Vec::new()).unwrap();
    let entries = vec![
        entry("./a", true),
        entry("./a/ba.txt", false),
    ];
    let ms = find_matches(&m, &globs, FileType::Both, &entries);
    assert!(fnr::apply::validate_batch(&ms).is_ok());
    let plans = fnr::apply::dry_run_pairs(&ms);
    assert_eq!(plans.len(), 2);
    assert_eq!(plans[0].from, "./a/ba.txt");
    assert_eq!(plans[0].to, "bo.txt");
    assert_eq!(plans[1].from, "./a");
    assert_eq!(plans[1].to, "o");
}

#[test]
fn hidden_entry_test() {
    assert!(fnr::paths::is_hidden(".git"));
    assert!(fnr::paths::is_hidden("a/.hidden"));
    assert!(!fnr::paths::is_hidden("a/b.txt"));
    assert!(!fnr::paths::is_hidden(""));
    // The current and parent directory components name no entry of
    // their own, so they are not hidden entries.
    assert!(!fnr::paths::is_hidden("."));
    assert!(!fnr::paths::is_hidden(".."));
    assert!(!fnr::paths::is_hidden("a/.."));
    assert!(!fnr::paths::is_hidden("/"));
    // Trailing separators and trailing dot components are skipped, as
    // std's file_name skips them.
    assert!(fnr::paths::is_hidden(".hidden/"));
    assert!(fnr::paths::is_hidden(".git/."));
    assert!(!fnr::paths::is_hidden("foo/."));
    assert!(!fnr::paths::is_hidden("foo/./"));
    // Three dots, or a dotted name, are ordinary hidden names.
    assert!(fnr::paths::is_hidden("..."));
    assert!(fnr::paths::is_hidden(".a"));
}

#[test]
fn trailing_separator_matches_directory_name() {
    // A path with a trailing separator is matched on the name it refers
    // to, as std's file_name resolves it.
    let m = build_matcher("bar", None, false, false).unwrap();
    let globs = build_glob_set(&Vec::new()).unwrap();
    let entries = vec![entry("foo/bar/", true), entry("foo/..", true)];
    let ms = find_matches(&m, &globs, FileType::Both, &entries);
    assert_eq!(paths(&ms), vec![String::from("foo/bar/")]);
}

#[test]
fn non_ascii_case_insensitive_match() {
    // Case-insensitive matching rests on real Unicode lowercasing:
    // "É" lowercases to "é" and must match it.
    let m = build_matcher("É", None, false, false).unwrap();
    let globs = build_glob_set(&Vec::new()).unwrap();
    let entries = vec![entry("docs/café.txt", false)];
    let ms = find_matches(&m, &globs, FileType::Both, &entries);
    assert_eq!(ms.len(), 1);
    let cs = build_matcher("É", None, false, true).unwrap();
    let none = find_matches(&cs, &globs, FileType::Both, &entries);
    assert!(none.is_empty());
}
