use update_downloader::filter::{regex_filter, should_filter, NameFilter, DEFAULT_FILTER};

#[test]
fn names_with_two_dots_are_filtered() {
    let f = NameFilter::new("");
    assert!(should_filter("file.20240428bk.zip", &f));
    assert!(should_filter("a.b.c", &NameFilter::new("will-not-match-anything")));
}

#[test]
fn default_pattern_filters_backup_names() {
    let f = NameFilter::new("");
    assert!(should_filter("patch20240101bk.zip", &f));
    assert!(should_filter("bak2023_core.zip", &f));
    assert!(!should_filter("core.zip", &f));
    assert!(!should_filter("bk.zip", &f));
    assert_eq!(DEFAULT_FILTER, r"\d+(?:bk|bak)|(?:bk|bak)\d+");
}

#[test]
fn user_pattern_replaces_default() {
    let f = NameFilter::new("^test");
    assert!(should_filter("test_module.zip", &f));
    assert!(!should_filter("patch20240101bk.zip", &f));
}

#[test]
fn invalid_pattern_only_dot_rule_applies() {
    let f = NameFilter::new("(unclosed");
    assert!(!should_filter("anything.zip", &f));
    assert!(should_filter("x.y.zip", &f));
}

#[test]
fn regex_filter_uses_default_when_empty() {
    assert!(regex_filter("lib12bak.zip", ""));
    assert!(!regex_filter("lib.zip", ""));
    assert!(regex_filter("lib.zip", "lib"));
}
