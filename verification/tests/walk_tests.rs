use unify::config::{Config, PartialConfig};
use unify::paths::{relative_to, sort_paths};
use unify::patterns::{pattern_rules, PatternKind, PatternSet};
use unify::walk::{is_binary_content, Verdict, WalkEntry, WalkTally};

fn strings(v: &[&str]) -> Vec<String> {
    v.iter().map(|s| s.to_string()).collect()
}

fn entry(path: &str) -> WalkEntry {
    WalkEntry {
        path: format!("/w/{}", path),
        is_root: false,
        relative: path.to_string(),
        is_dir: false,
        is_config_file: false,
        is_symlink: false,
        canonical: format!("/w/{}", path),
        size: Some(10),
        binary: Some(false),
    }
}

#[test]
fn pattern_rules_from_patterns() {
    let rules = pattern_rules(
        &strings(&["src/**", "  ", "# note", "!gen.rs"]),
        &strings(&[" target/ ", "!keep.log", "#x", "", "*.log", "!!odd"]),
    );
    let got: Vec<(String, PatternKind)> = rules.into_iter().map(|r| (r.pattern, r.kind)).collect();
    assert_eq!(
        got,
        vec![
            ("src/**".to_string(), PatternKind::Include),
            ("!gen.rs".to_string(), PatternKind::NegatedInclude),
            ("target/".to_string(), PatternKind::Ignore),
            ("!keep.log".to_string(), PatternKind::Reinclude),
            ("*.log".to_string(), PatternKind::Ignore),
            ("!!odd".to_string(), PatternKind::DoubleNegated),
        ]
    );
}

#[test]
fn reinclude_keeps_other_files() {
    let ps = PatternSet::build("/w", &vec![], &strings(&["*.log", "!important.log"])).unwrap();
    assert!(!ps.excludes("/w/main.rs", false));
    assert!(!ps.excludes("/w/important.log", false));
    assert!(ps.excludes("/w/debug.log", false));
    assert!(ps.excludes("/w/sub/debug.log", false));
}

#[test]
fn lone_reinclude_excludes_nothing() {
    let ps = PatternSet::build("/w", &vec![], &strings(&["!keep.rs"])).unwrap();
    assert!(!ps.excludes("/w/main.rs", false));
    assert!(!ps.excludes("/w/keep.rs", false));
}

#[test]
fn last_matching_ignore_pattern_decides() {
    let later_ignore = PatternSet::build("/w", &vec![], &strings(&["!a.log", "*.log"])).unwrap();
    assert!(later_ignore.excludes("/w/a.log", false));
    let later_keep = PatternSet::build("/w", &vec![], &strings(&["*.log", "!a.log"])).unwrap();
    assert!(!later_keep.excludes("/w/a.log", false));
    assert!(later_keep.excludes("/w/b.log", false));
}

#[test]
fn includes_whitelist_files_only() {
    let ps = PatternSet::build("/w", &strings(&["*.rs"]), &strings(&["gen.rs"])).unwrap();
    assert!(!ps.excludes("/w/src/main.rs", false));
    assert!(ps.excludes("/w/notes.md", false));
    assert!(!ps.excludes("/w/src", true));
    assert!(ps.excludes("/w/src/gen.rs", false));
}

#[test]
fn directory_patterns_match_directories() {
    let ps = PatternSet::build("/w", &vec![], &strings(&["target/"])).unwrap();
    assert!(ps.excludes("/w/target", true));
    assert!(!ps.excludes("/w/target", false));
}

#[test]
fn invalid_patterns_are_reported() {
    let e = PatternSet::build("/w", &strings(&["ok", "src/{a"]), &vec![]).unwrap_err();
    assert_eq!(e.kind, PatternKind::Include);
    assert_eq!(e.message(), "Invalid include pattern: 'src/{a'");
    let e = PatternSet::build("/w", &vec![], &strings(&["!{x"])).unwrap_err();
    assert_eq!(e.message(), "Invalid pattern: '!{x'");
    let e = PatternSet::build("/w", &vec![], &strings(&["{y", "{z"])).unwrap_err();
    assert_eq!(e.message(), "Invalid ignore pattern: '{y'");
    let e = PatternSet::build("/w", &vec![], &strings(&["!!{x"])).unwrap_err();
    assert_eq!(e.kind, PatternKind::DoubleNegated);
    assert_eq!(e.message(), "Invalid pattern: '!!{x'");
}

#[test]
fn unclosed_classes_are_refused() {
    let e = PatternSet::build("/w", &strings(&["[abc"]), &vec![]).unwrap_err();
    assert_eq!(e.message(), "Invalid include pattern: '[abc'");
    let e = PatternSet::build("/w", &vec![], &strings(&["[abc"])).unwrap_err();
    assert_eq!(e.message(), "Invalid ignore pattern: '[abc'");
    let e = PatternSet::build("/w", &vec![], &strings(&["![abc"])).unwrap_err();
    assert_eq!(e.message(), "Invalid pattern: '![abc'");
    assert!(PatternSet::build("/w", &strings(&["[ab]c"]), &vec![]).is_ok());
}

#[test]
fn negated_include_ignores() {
    let ps = PatternSet::build("/w", &strings(&["!foo"]), &vec![]).unwrap();
    assert!(ps.excludes("/w/foo", false));
    assert!(!ps.excludes("/w/bar", false));
    let ps = PatternSet::build("/w", &strings(&["*.rs", "!gen.rs"]), &vec![]).unwrap();
    assert!(ps.excludes("/w/gen.rs", false));
    assert!(!ps.excludes("/w/main.rs", false));
    assert!(ps.excludes("/w/notes.md", false));
    let ps = PatternSet::build("/w", &strings(&["!foo", "foo"]), &vec![]).unwrap();
    assert!(!ps.excludes("/w/foo", false));
}

#[test]
fn double_negated_ignore_ignores() {
    let ps = PatternSet::build("/w", &vec![], &strings(&["!!foo"])).unwrap();
    assert!(ps.excludes("/w/foo", false));
    assert!(!ps.excludes("/w/bar", false));
}

#[test]
fn binary_detection() {
    assert!(!is_binary_content(b""));
    assert!(!is_binary_content(b"hello world\n"));
    assert!(is_binary_content(b"ab\x00cd"));
    assert!(is_binary_content(b"%PDF-1.4"));
    assert!(is_binary_content(b"\x89PNG\r\n"));
    assert!(!is_binary_content(b"\xFF\xFEa\x00"));
}

#[test]
fn walk_filter_counts_and_dedups() {
    let mut p = PartialConfig::default();
    p.output = Some("unified.txt".to_string());
    p.max_file_size = Some("100".to_string());
    let config = Config::from_partial(p).unwrap();
    let patterns = PatternSet::build("/w", &vec![], &vec![]).unwrap();
    let mut t = WalkTally::new();

    let mut dir = entry("src");
    dir.is_dir = true;
    assert_eq!(t.record_entry(&dir, &config, &patterns), Verdict::Directory);
    let mut cfg = entry(".unify.toml");
    cfg.is_config_file = true;
    assert_eq!(t.record_entry(&cfg, &config, &patterns), Verdict::ConfigFile);
    assert_eq!(t.record_entry(&entry("unified.txt"), &config, &patterns), Verdict::OutputFile);
    let mut link = entry("link");
    link.is_symlink = true;
    assert_eq!(t.record_entry(&link, &config, &patterns), Verdict::Symlink);
    assert_eq!(t.record_entry(&entry("a.rs"), &config, &patterns), Verdict::Accepted);
    assert_eq!(t.record_entry(&entry("a.rs"), &config, &patterns), Verdict::Duplicate);
    let mut big = entry("big.bin");
    big.size = Some(1000);
    assert_eq!(t.record_entry(&big, &config, &patterns), Verdict::TooLarge);
    let mut bin = entry("img.png");
    bin.binary = Some(true);
    assert_eq!(t.record_entry(&bin, &config, &patterns), Verdict::Binary);
    let mut unread = entry("locked");
    unread.binary = None;
    assert_eq!(t.record_entry(&unread, &config, &patterns), Verdict::Unreadable);
    assert_eq!(t.record_entry(&entry("b.rs"), &config, &patterns), Verdict::Accepted);

    assert_eq!(t.accepted, strings(&["/w/a.rs", "/w/b.rs"]));
    assert_eq!((t.skipped_symlink, t.skipped_size, t.skipped_binary), (1, 1, 1));
    assert_eq!(t.seen.len(), 5);
}

#[test]
fn patterns_exclude_entries_but_not_walk_roots() {
    let config = Config::from_partial(PartialConfig::default()).unwrap();
    let patterns = PatternSet::build("/w", &vec![], &strings(&["*.log", "!keep.log"])).unwrap();
    let mut t = WalkTally::new();
    assert_eq!(t.record_entry(&entry("debug.log"), &config, &patterns), Verdict::Excluded);
    assert_eq!(t.record_entry(&entry("keep.log"), &config, &patterns), Verdict::Accepted);
    assert_eq!(t.record_entry(&entry("main.rs"), &config, &patterns), Verdict::Accepted);
    let mut root = entry("given.log");
    root.is_root = true;
    assert_eq!(t.record_entry(&root, &config, &patterns), Verdict::Accepted);
    assert_eq!(t.accepted, strings(&["/w/keep.log", "/w/main.rs", "/w/given.log"]));
    assert_eq!(t.seen.len(), 3);
}

#[test]
fn duplicates_are_found_by_path_equality() {
    let config = Config::from_partial(PartialConfig::default()).unwrap();
    let patterns = PatternSet::build("/w", &vec![], &vec![]).unwrap();
    let mut t = WalkTally::new();
    assert_eq!(t.record_entry(&entry("a.rs"), &config, &patterns), Verdict::Accepted);
    let mut same = entry("link_to_a.rs");
    same.canonical = "/w//a.rs".to_string();
    assert_eq!(t.record_entry(&same, &config, &patterns), Verdict::Duplicate);
    let mut other = entry("b.rs");
    other.canonical = "/w/a.rs/../b.rs".to_string();
    assert_eq!(t.record_entry(&other, &config, &patterns), Verdict::Accepted);
}

#[test]
fn accepted_paths_sort_by_components() {
    let sorted = sort_paths(&strings(&["/w/b.rs", "/w/a-b/x", "/w/a/y", "/w/a.rs"]));
    assert_eq!(sorted, strings(&["/w/a/y", "/w/a-b/x", "/w/a.rs", "/w/b.rs"]));
    let mut expected: Vec<std::path::PathBuf> =
        ["/w/b.rs", "/w/a-b/x", "/w/a/y", "/w/a.rs"].iter().map(std::path::PathBuf::from).collect();
    expected.sort();
    let got: Vec<std::path::PathBuf> = sorted.iter().map(std::path::PathBuf::from).collect();
    assert_eq!(got, expected);
    assert_eq!(sort_paths(&vec![]), Vec::<String>::new());
}

#[test]
fn paths_relative_to_the_working_directory() {
    assert_eq!(relative_to("/w/src/a.rs", "/w"), "src/a.rs");
    assert_eq!(relative_to("/w/src/a.rs", "/w/"), "src/a.rs");
    assert_eq!(relative_to("/wx/a.rs", "/w"), "/wx/a.rs");
    assert_eq!(relative_to("/w", "/w"), "");
}
