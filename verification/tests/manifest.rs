use update_downloader::json::JsonValue;
use update_downloader::models::FileItem;
use update_downloader::parser::parse_file_list;

fn s(x: &str) -> JsonValue {
    JsonValue::String(x.to_string())
}

fn obj(members: Vec<(&str, JsonValue)>) -> JsonValue {
    JsonValue::Object(members.into_iter().map(|(k, v)| (k.to_string(), v)).collect())
}

fn item(filename: &str, md5: &str, group: &str, url: &str, local_path: &str) -> FileItem {
    FileItem {
        filename: filename.to_string(),
        md5: md5.to_string(),
        group: group.to_string(),
        url: url.to_string(),
        local_path: local_path.to_string(),
        status: "pending".to_string(),
        progress: 0,
        downloaded_bytes: 0,
        total_bytes: 0,
    }
}

fn sample() -> JsonValue {
    obj(vec![
        (
            "webapp",
            obj(vec![
                ("path", s("/web/v1")),
                ("files", obj(vec![("app.zip", s("aaa")), ("old.20240101bk.zip", s("x")), ("ui.zip", s("bbb"))])),
            ]),
        ),
        (
            "appstore",
            obj(vec![
                ("path", s("store")),
                ("biz", obj(vec![("biz1.zip", s("c1")), ("biz.xml", s("c2"))])),
                ("bos", obj(vec![("bos1.zip", JsonValue::Number("5".to_string()))])),
                ("cus", JsonValue::Array(vec![])),
                ("other", obj(vec![("ignored.zip", s("z"))])),
            ]),
        ),
    ])
}

#[test]
fn lists_webapp_then_appstore_in_subdir_order() {
    let items = parse_file_list(&sample(), "http://h:8080", "");
    assert_eq!(
        items,
        vec![
            item("app.zip", "aaa", "webapp", "http://h:8080/web/v1/app.zip", "webapp/app.zip"),
            item("ui.zip", "bbb", "webapp", "http://h:8080/web/v1/ui.zip", "webapp/ui.zip"),
            item("bos1.zip", "", "appstore/bos", "http://h:8080/store/bos/bos1.zip", "appstore/bos/bos1.zip"),
            item("biz1.zip", "c1", "appstore/biz", "http://h:8080/store/biz/biz1.zip", "appstore/biz/biz1.zip"),
            item("biz.xml", "c2", "appstore/biz", "http://h:8080/store/biz/biz.xml", "appstore/biz/biz.xml"),
        ]
    );
}

#[test]
fn user_pattern_filters_listing() {
    let items = parse_file_list(&sample(), "http://h", "^biz");
    let names: Vec<&str> = items.iter().map(|i| i.filename.as_str()).collect();
    assert_eq!(names, vec!["app.zip", "ui.zip", "bos1.zip"]);
}

#[test]
fn webapp_needs_path_and_files() {
    let json = obj(vec![("webapp", obj(vec![("files", obj(vec![("a.zip", s("1"))]))]))]);
    assert!(parse_file_list(&json, "http://h", "").is_empty());
    let json = obj(vec![("webapp", obj(vec![("path", JsonValue::Null), ("files", obj(vec![("a.zip", s("1"))]))]))]);
    let items = parse_file_list(&json, "http://h", "");
    assert_eq!(items, vec![item("a.zip", "1", "webapp", "http://h/a.zip", "webapp/a.zip")]);
}

#[test]
fn appstore_path_missing_counts_as_empty() {
    let json = obj(vec![("appstore", obj(vec![("trd", obj(vec![("t.zip", s("9"))]))]))]);
    let items = parse_file_list(&json, "http://h", "");
    assert_eq!(items, vec![item("t.zip", "9", "appstore/trd", "http://h//trd/t.zip", "appstore/trd/t.zip")]);
}

#[test]
fn non_object_manifest_lists_nothing() {
    assert!(parse_file_list(&JsonValue::Array(vec![]), "http://h", "").is_empty());
    assert!(parse_file_list(&JsonValue::Bool(true), "http://h", "").is_empty());
}

#[test]
fn json_get_and_as_str() {
    let v = sample();
    assert!(v.get(&"webapp".to_string()).is_some());
    assert!(v.get(&"missing".to_string()).is_none());
    assert!(s("x").get(&"x".to_string()).is_none());
    assert_eq!(s("abc").as_str().map(|x| x.as_str()), Some("abc"));
    assert!(JsonValue::Null.as_str().is_none());
}
