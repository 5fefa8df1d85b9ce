use update_downloader::endpoint::{base_url_from_parts, build_headers, derive_base_url, ensure_update_json, UrlParts};

#[test]
fn manifest_url_is_completed() {
    assert_eq!(ensure_update_json("http://h/app/update.json"), "http://h/app/update.json");
    assert_eq!(ensure_update_json("http://h/app/"), "http://h/app/update.json");
    assert_eq!(ensure_update_json("http://h/app"), "http://h/app/update.json");
    assert_eq!(ensure_update_json(""), "/update.json");
    assert_eq!(ensure_update_json("x-update.json"), "x-update.json");
}

#[test]
fn manifest_url_is_idempotent() {
    for u in ["http://h", "http://h/", "http://h/update.json", "", "/"] {
        let once = ensure_update_json(u);
        assert!(once.ends_with("update.json"));
        assert_eq!(ensure_update_json(&once), once);
    }
}

#[test]
fn base_url_keeps_scheme_host_and_port() {
    assert_eq!(derive_base_url("http://example.com:8080/a/update.json"), Ok("http://example.com:8080".to_string()));
    assert_eq!(derive_base_url("https://example.com/x/y"), Ok("https://example.com".to_string()));
    assert_eq!(derive_base_url("http://example.com:80/update.json"), Ok("http://example.com".to_string()));
    assert_eq!(derive_base_url("HTTP://EXAMPLE.com/"), Ok("http://example.com".to_string()));
}

#[test]
fn base_url_of_bad_url_is_an_error() {
    let e = derive_base_url("not a url").unwrap_err();
    assert!(e.starts_with("Invalid URL: "), "{e}");
    assert!(e.len() > "Invalid URL: ".len());
}

#[test]
fn base_url_from_parts_formats_port() {
    let p = UrlParts { scheme: "ftp".to_string(), host: None, port: Some(21) };
    assert_eq!(base_url_from_parts(&p), "ftp://:21");
    let p = UrlParts { scheme: "http".to_string(), host: Some("h".to_string()), port: None };
    assert_eq!(base_url_from_parts(&p), "http://h");
}

#[test]
fn invalid_headers_are_dropped() {
    let pairs = vec![
        ("Authorization".to_string(), "Bearer abc".to_string()),
        ("Bad Name".to_string(), "v".to_string()),
        ("X-Tab".to_string(), "a\tb".to_string()),
        ("X-Newline".to_string(), "a\nb".to_string()),
        ("".to_string(), "v".to_string()),
        ("X-Unicode".to_string(), "h\u{e9}".to_string()),
        ("X-\u{e9}".to_string(), "v".to_string()),
        ("x-del".to_string(), "a\u{7f}".to_string()),
    ];
    let kept = build_headers(&pairs);
    assert_eq!(
        kept,
        vec![
            ("Authorization".to_string(), "Bearer abc".to_string()),
            ("X-Tab".to_string(), "a\tb".to_string()),
            ("X-Unicode".to_string(), "h\u{e9}".to_string()),
        ]
    );
}
