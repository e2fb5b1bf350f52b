use marker_sweep::selector::{
    default_includes, is_vcs_dir, normalize_separators, patterns_pass, CandidateFile,
    RelativePath, Selector, WalkEntry,
};

fn strings(items: &[&str]) -> Vec<String> {
    items.iter().map(|s| s.to_string()).collect()
}

fn selector(includes: &[&str], excludes: &[&str]) -> Selector {
    Selector::new(&strings(includes), &strings(excludes)).unwrap()
}

fn file(relative: &str) -> WalkEntry<String> {
    WalkEntry::new(
        format!("/repo/{}", relative),
        false,
        RelativePath::Text(relative.to_string()),
    )
}

fn ignored_file(relative: &str) -> WalkEntry<String> {
    let mut entry = file(relative);
    entry.ignored = true;
    entry
}

fn dir(relative: &str) -> WalkEntry<String> {
    WalkEntry::new(
        format!("/repo/{}", relative),
        true,
        RelativePath::Text(relative.to_string()),
    )
}

fn paths(files: &[CandidateFile<String>]) -> Vec<&str> {
    files.iter().map(|f| f.path.as_str()).collect()
}

#[test]
fn only_the_repository_directory_is_skipped() {
    assert!(is_vcs_dir(".git"));
    assert!(!is_vcs_dir(".gitignore"));
    assert!(!is_vcs_dir("git"));
    assert!(!is_vcs_dir(".GIT"));
    assert!(!is_vcs_dir(""));
}

#[test]
fn separators_become_forward_slashes() {
    assert_eq!(normalize_separators("src\\deep\\a.rs"), "src/deep/a.rs");
    assert_eq!(normalize_separators("src/deep/a.rs"), "src/deep/a.rs");
    assert_eq!(normalize_separators(""), "");
}

#[test]
fn ignore_rules_are_asked_about_files_below_the_root_only() {
    assert!(file("a.rs").needs_ignore_lookup());
    assert!(!dir("src").needs_ignore_lookup());
    assert!(!file("").needs_ignore_lookup());
    assert!(WalkEntry::new("/repo/x", false, RelativePath::NotText).needs_ignore_lookup());
    assert!(!WalkEntry::new("/repo/x", true, RelativePath::NotText).needs_ignore_lookup());
    assert!(!WalkEntry::new("/else/x", false, RelativePath::Outside).needs_ignore_lookup());
}

#[test]
fn only_unignored_files_with_a_text_path_are_eligible() {
    assert!(file("a.rs").is_eligible());
    assert!(!ignored_file("a.rs").is_eligible());
    assert!(!dir("src").is_eligible());
    assert!(!file("").is_eligible());
    assert!(!WalkEntry::new("/repo/x", false, RelativePath::NotText).is_eligible());
    assert!(!WalkEntry::new("/else/x", false, RelativePath::Outside).is_eligible());
}

#[test]
fn new_entry_is_not_ignored() {
    let entry = WalkEntry::new(7u32, false, RelativePath::Text("a".to_string()));
    assert_eq!(entry.path, 7);
    assert!(!entry.is_dir);
    assert!(!entry.ignored);
    assert!(matches!(entry.relative, RelativePath::Text(ref t) if t == "a"));
}

#[test]
fn ignored_files_are_never_selected() {
    let entries = vec![ignored_file("a.rs"), file("b.rs"), ignored_file("src/c.rs")];
    let files = selector(&["*.rs"], &[]).select(entries);
    assert_eq!(paths(&files), vec!["/repo/b.rs"]);
    let entries = vec![ignored_file("a.rs"), file("b.rs"), ignored_file("src/c.rs")];
    let files = selector(&[], &[]).select(entries);
    assert_eq!(paths(&files), vec!["/repo/b.rs"]);
    let entries = vec![ignored_file("a.rs")];
    let files = selector(&["a.rs", "*", "**/*"], &[]).select(entries);
    assert!(files.is_empty());
}

#[test]
fn exclusion_beats_inclusion() {
    let entries = vec![file("src/a.rs"), file("target/b.rs"), file("c.rs")];
    let files = selector(&["*.rs"], &["target/*"]).select(entries);
    assert_eq!(paths(&files), vec!["/repo/src/a.rs", "/repo/c.rs"]);
    let entries = vec![file("a.rs")];
    let files = selector(&["a.rs"], &["a.rs"]).select(entries);
    assert!(files.is_empty());
}

#[test]
fn without_include_patterns_every_other_file_is_selected() {
    let entries = vec![
        file("a.rs"),
        file("notes.txt"),
        dir("src"),
        file("src/b.bin"),
        ignored_file("c.log"),
        file("target/d"),
    ];
    let files = selector(&[], &["target/*"]).select(entries);
    assert_eq!(paths(&files), vec!["/repo/a.rs", "/repo/notes.txt", "/repo/src/b.bin"]);
}

#[test]
fn with_include_patterns_one_must_match() {
    let entries = vec![file("a.rs"), file("b.py"), file("c.txt"), file("web/d.html")];
    let files = selector(&["*.rs", "*.html"], &[]).select(entries);
    assert_eq!(paths(&files), vec!["/repo/a.rs", "/repo/web/d.html"]);
}

#[test]
fn selection_keeps_the_order_of_the_walk() {
    let entries = vec![file("z.rs"), file("a.rs"), file("m/b.rs"), file("a.rs")];
    let files = selector(&["*.rs"], &[]).select(entries);
    assert_eq!(
        paths(&files),
        vec!["/repo/z.rs", "/repo/a.rs", "/repo/m/b.rs", "/repo/a.rs"]
    );
}

#[test]
fn directories_and_the_root_are_never_selected() {
    let entries = vec![dir("src"), dir("a.rs"), file(""), dir("")];
    let files = selector(&[], &[]).select(entries);
    assert!(files.is_empty());
}

#[test]
fn entries_without_a_relative_text_are_never_selected() {
    let entries = vec![
        WalkEntry::new("/else/a.rs".to_string(), false, RelativePath::Outside),
        WalkEntry::new("/repo/b.rs".to_string(), false, RelativePath::NotText),
    ];
    let files = selector(&[], &[]).select(entries);
    assert!(files.is_empty());
}

#[test]
fn patterns_see_forward_slashes() {
    let entries = vec![file("src\\deep\\a.rs"), file("src\\b.py")];
    let files = selector(&["src/deep/*.rs"], &[]).select(entries);
    assert_eq!(files.len(), 1);
    assert_eq!(files[0].path, "/repo/src\\deep\\a.rs");
    assert_eq!(files[0].relative, "src\\deep\\a.rs");
    let entries = vec![file("src\\deep\\a.rs")];
    let files = selector(&[], &["src/deep/*"]).select(entries);
    assert!(files.is_empty());
}

#[test]
fn candidate_keeps_path_and_relative_path() {
    let chosen = selector(&["*.css"], &[]).consider(file("web/site.css")).unwrap();
    assert_eq!(chosen.path, "/repo/web/site.css");
    assert_eq!(chosen.relative, "web/site.css");
    assert!(selector(&["*.css"], &[]).consider(file("web/site.js")).is_none());
    assert!(selector(&["*.css"], &[]).consider(ignored_file("web/site.css")).is_none());
    assert!(selector(&["*.css"], &[]).consider(dir("web/site.css")).is_none());
}

#[test]
fn admits_path_applies_both_pattern_lists() {
    let s = selector(&["*.rs", "*.toml"], &["vendor/**"]);
    assert!(s.admits_path("src/lib.rs"));
    assert!(s.admits_path("Cargo.toml"));
    assert!(!s.admits_path("README.md"));
    assert!(!s.admits_path("vendor/x/lib.rs"));
    assert!(!s.admits_path("vendor\\x\\lib.rs"));
}

#[test]
fn pattern_rule_puts_exclusion_first() {
    assert!(patterns_pass(false, 0, false));
    assert!(patterns_pass(false, 0, true));
    assert!(patterns_pass(false, 3, true));
    assert!(!patterns_pass(false, 3, false));
    assert!(!patterns_pass(true, 0, false));
    assert!(!patterns_pass(true, 0, true));
    assert!(!patterns_pass(true, 3, true));
    assert!(!patterns_pass(true, 3, false));
}

#[test]
fn default_include_set_is_the_seven_patterns() {
    assert_eq!(
        default_includes(),
        vec!["*.rs", "*.toml", "*.py", "*.jsx", "*.tsx", "*.html", "*.css"]
    );
}

#[test]
fn default_include_set_covers_the_usual_sources() {
    let s = Selector::new(&default_includes(), &[]).unwrap();
    for name in ["a.rs", "Cargo.toml", "x/y.py", "ui/App.jsx", "ui/App.tsx", "index.html", "s.css"] {
        assert!(s.admits_path(name), "{}", name);
    }
    for name in ["a.js", "a.ts", "README.md", "rs", "a.rsx"] {
        assert!(!s.admits_path(name), "{}", name);
    }
}

#[test]
fn first_malformed_include_pattern_is_reported() {
    let e = Selector::new(&strings(&["*.rs", "a**b", "***"]), &strings(&["[x"])).unwrap_err();
    assert_eq!(e.pattern, "a**b");
    assert_eq!(e.cause.pos, 0);
}

#[test]
fn malformed_exclude_pattern_is_reported_after_the_includes() {
    let e = Selector::new(&strings(&["*.rs"]), &strings(&["ok/*", "bad["])).unwrap_err();
    assert_eq!(e.pattern, "bad[");
    assert_eq!(e.cause.pos, 3);
    let e = Selector::new(&strings(&["x***"]), &strings(&["bad["])).unwrap_err();
    assert_eq!(e.pattern, "x***");
}

#[test]
fn empty_pattern_lists_are_fine() {
    assert!(Selector::new(&[], &[]).is_ok());
    assert!(selector(&[], &[]).admits_path("anything/at/all"));
}
