use update_downloader::filter::NameFilter;
use update_downloader::whitelist::{admit_names, collect_whitelist, to_archive_name, Whitelist};
use update_downloader::xml::{parse_xml_whitelist, read_xml_tokens, WhitelistError, XmlToken};

#[test]
fn reads_zip_entries_inside_zips() {
    let doc = "<?xml version=\"1.0\"?><root><zips><zip> core </zip><zip>ui.zip</zip><zip>  </zip></zips><zip>outside</zip></root>";
    let names = parse_xml_whitelist(doc).unwrap();
    assert_eq!(names, vec!["core".to_string(), "ui.zip".to_string()]);
}

#[test]
fn other_start_tag_closes_the_list() {
    let doc = "<zips><zip>a</zip><other/><meta>m</meta><zip>b</zip></zips>";
    let names = parse_xml_whitelist(doc).unwrap();
    assert_eq!(names, vec!["a".to_string()]);
}

#[test]
fn entities_are_unescaped() {
    let names = parse_xml_whitelist("<zips><zip>a&amp;b</zip></zips>").unwrap();
    assert_eq!(names, vec!["a&b".to_string()]);
}

#[test]
fn syntax_error_is_reported() {
    match parse_xml_whitelist("<zips><zip>a</zap></zips>") {
        Err(WhitelistError::Syntax(e)) => assert!(!e.is_empty()),
        other => panic!("unexpected {:?}", other),
    }
}

#[test]
fn bad_escape_inside_entry_is_reported() {
    match parse_xml_whitelist("<zips><zip>a&bogus;b</zip></zips>") {
        Err(WhitelistError::Text(e)) => assert!(!e.is_empty()),
        other => panic!("unexpected {:?}", other),
    }
    // the same text outside an entry is ignored
    assert_eq!(parse_xml_whitelist("<r>a&bogus;b</r>").unwrap(), Vec::<String>::new());
}

#[test]
fn token_stream_ends_at_eof() {
    let t = read_xml_tokens("<a>x</a>");
    assert!(matches!(t.last(), Some(XmlToken::Eof)));
    assert!(matches!(t[0], XmlToken::Start(ref n) if n.as_slice() == b"a"));
}

#[test]
fn archive_names_get_zip_suffix() {
    assert_eq!(to_archive_name("core"), "core.zip");
    assert_eq!(to_archive_name("core.zip"), "core.zip");
}

#[test]
fn whitelist_admits_filtered_names_with_suffix() {
    let mut w = Whitelist::new();
    let names = vec!["core".to_string(), "ui.zip".to_string(), "old.2024.zip".to_string(), "lib12bak".to_string(), "core".to_string()];
    admit_names(&mut w, &names, &NameFilter::new(""));
    assert!(w.contains("core.zip"));
    assert!(w.contains("ui.zip"));
    assert!(!w.contains("core"));
    assert!(!w.contains("old.2024.zip"));
    assert!(!w.contains("lib12bak.zip"));
}

#[test]
fn whitelist_insert_and_contains() {
    let mut w = Whitelist::new();
    assert!(!w.contains("a"));
    w.insert("a".to_string());
    w.insert("a".to_string());
    assert!(w.contains("a"));
    assert!(!w.contains("b"));
}

#[test]
fn whitelist_gathered_from_all_documents() {
    let docs = vec![
        "<zips><zip>core</zip><zip>old12bk</zip></zips>".to_string(),
        "<zips><zip>ui".to_string(),
        "<zips><zip>broken</zap></zips>".to_string(),
        "<zips><zip>extra.zip</zip></zips>".to_string(),
    ];
    let (w, failures) = collect_whitelist(&docs, &NameFilter::new(""));
    assert!(w.contains("core.zip"));
    assert!(w.contains("extra.zip"));
    assert!(!w.contains("old12bk.zip"));
    assert!(!w.contains("broken.zip"));
    assert_eq!(failures.len(), 4);
    assert!(failures[0].is_none());
    assert!(matches!(failures[2], Some(WhitelistError::Syntax(_))));
    assert!(failures[3].is_none());
}
