use update_downloader::filter::NameFilter;
use update_downloader::models::{DownloadProgress, FileItem, RunMode};
use update_downloader::process::{
    final_download_batch, is_webapp, is_xml_file, plan_run, plan_xml_filtered_run, split_by_whitelist, split_for_xml_filter, split_ignored,
    Stage, XmlRunStage,
};
use update_downloader::unzip::{admit_archive, relative_archive_path, unzip_percent, unzip_sources};
use update_downloader::whitelist::Whitelist;

fn task(name: &str, group: &str) -> FileItem {
    FileItem {
        filename: name.to_string(),
        md5: String::new(),
        group: group.to_string(),
        url: String::new(),
        local_path: format!("{group}/{name}"),
        status: "pending".to_string(),
        progress: 0,
        downloaded_bytes: 0,
        total_bytes: 0,
    }
}

fn names(v: &[FileItem]) -> Vec<&str> {
    v.iter().map(|t| t.filename.as_str()).collect()
}

#[test]
fn classify_tasks() {
    assert!(is_webapp(&task("a.zip", "webapp")));
    assert!(!is_webapp(&task("a.zip", "appstore/bos")));
    assert!(is_xml_file(&task("a.xml", "appstore/bos")));
    assert!(!is_xml_file(&task("a.xml.zip", "appstore/bos")));
}

#[test]
fn ignored_files_are_split_off_in_order() {
    let tasks = vec![task("a", "webapp"), task("b", "webapp"), task("c", "appstore/bos"), task("b", "appstore/biz")];
    let (kept, skipped) = split_ignored(&tasks, &vec!["b".to_string(), "zz".to_string()]);
    assert_eq!(names(&kept), vec!["a", "c"]);
    assert_eq!(names(&skipped), vec!["b", "b"]);
    assert_eq!(kept.len() + skipped.len(), tasks.len());
}

#[test]
fn xml_filter_sorts_tasks() {
    let tasks = vec![
        task("web.zip", "webapp"),
        task("web12bk.zip", "webapp"),
        task("list.xml", "appstore/bos"),
        task("core.zip", "appstore/bos"),
        task("other.zip", "appstore/biz"),
    ];
    let f = NameFilter::new("");
    let split = split_for_xml_filter(&tasks, false, &f);
    assert_eq!(names(&split.webapp), vec!["web.zip"]);
    assert_eq!(names(&split.webapp_skipped), vec!["web12bk.zip"]);
    assert_eq!(names(&split.xml), vec!["list.xml"]);
    assert_eq!(names(&split.appstore), vec!["core.zip", "other.zip"]);

    let cancelled = split_for_xml_filter(&tasks, true, &f);
    assert!(cancelled.webapp.is_empty());
    assert_eq!(names(&cancelled.webapp_skipped), vec!["web.zip", "web12bk.zip"]);
    assert_eq!(names(&cancelled.xml), vec!["list.xml"]);

    let mut w = Whitelist::new();
    w.insert("core.zip".to_string());
    let (kept, skipped) = split_by_whitelist(&split.appstore, false, &w);
    assert_eq!(names(&kept), vec!["core.zip"]);
    assert_eq!(names(&skipped), vec!["other.zip"]);
    let (kept, skipped) = split_by_whitelist(&split.appstore, true, &w);
    assert!(kept.is_empty());
    assert_eq!(skipped.len(), 2);
}

#[test]
fn run_plans() {
    assert_eq!(plan_run(RunMode::DownloadOnly, false), vec![Stage::Download]);
    assert_eq!(plan_run(RunMode::DownloadOnly, true), vec![Stage::DownloadWithXmlFilter]);
    assert_eq!(plan_run(RunMode::UnzipOnly, false), vec![Stage::Unzip { whitelisted: false }]);
    assert_eq!(plan_run(RunMode::UnzipOnly, true), vec![Stage::CollectWhitelist, Stage::Unzip { whitelisted: true }]);
    assert_eq!(
        plan_run(RunMode::Both, true),
        vec![
            Stage::DownloadWithXmlFilter,
            Stage::StopIfCancelled,
            Stage::AnnounceDownloadComplete,
            Stage::CollectWhitelist,
            Stage::Unzip { whitelisted: true }
        ]
    );
    assert_eq!(
        plan_run(RunMode::Both, false),
        vec![Stage::Download, Stage::StopIfCancelled, Stage::AnnounceDownloadComplete, Stage::Unzip { whitelisted: false }]
    );
}

#[test]
fn unzip_layout_and_admission() {
    let src = unzip_sources();
    let dirs: Vec<(&str, &str, bool)> = src.iter().map(|s| (s.source_dir.as_str(), s.target_dir.as_str(), s.whitelisted)).collect();
    assert_eq!(
        dirs,
        vec![
            ("webapp", "static-file-service", false),
            ("appstore/bos", "mservice-cosmic/lib/bos", true),
            ("appstore/biz", "mservice-cosmic/lib/biz", true),
            ("appstore/trd", "mservice-cosmic/lib/trd", true),
            ("appstore/cus", "mservice-cosmic/lib/cus", true),
        ]
    );
    let f = NameFilter::new("");
    assert!(admit_archive("core.zip", &f, None));
    assert!(!admit_archive(".zip", &f, None));
    assert!(!admit_archive("core.tar", &f, None));
    assert!(!admit_archive("core12bak.zip", &f, None));
    let mut w = Whitelist::new();
    w.insert("core.zip".to_string());
    assert!(admit_archive("core.zip", &f, Some(&w)));
    assert!(!admit_archive("ui.zip", &f, Some(&w)));
}

#[test]
fn relative_paths_and_percent() {
    assert_eq!(relative_archive_path("appstore/bos", "a.zip"), "appstore/bos/a.zip");
    assert_eq!(relative_archive_path("webapp", "a\\b.zip"), "webapp/a/b.zip");
    assert_eq!(unzip_percent(1, 3), 33);
    assert_eq!(unzip_percent(3, 3), 100);
    assert_eq!(unzip_percent(0, 0), 100);
}

#[test]
fn progress_report_fields() {
    let p = DownloadProgress::new("a.zip", "webapp/a.zip", "skipped", 100, 0, 0);
    assert_eq!(p.filename, "a.zip");
    assert_eq!(p.local_path, "webapp/a.zip");
    assert_eq!(p.status, "skipped");
    assert_eq!(p.progress, 100);
}

#[test]
fn skipped_report() {
    let p = DownloadProgress::skipped(&task("a.zip", "webapp"));
    assert_eq!(p, DownloadProgress::new("a.zip", "webapp/a.zip", "skipped", 100, 0, 0));
}

#[test]
fn xml_filtered_run_plan_and_batch() {
    let f = NameFilter::new("");
    let with_xml = split_for_xml_filter(&vec![task("w.zip", "webapp"), task("l.xml", "appstore/bos")], false, &f);
    assert_eq!(
        plan_xml_filtered_run(&with_xml),
        vec![
            XmlRunStage::DownloadXml,
            XmlRunStage::StopIfCancelled,
            XmlRunStage::CollectWhitelist,
            XmlRunStage::SortStore,
            XmlRunStage::DownloadBatch
        ]
    );
    let no_xml = split_for_xml_filter(&vec![task("w.zip", "webapp")], false, &f);
    assert_eq!(plan_xml_filtered_run(&no_xml), vec![XmlRunStage::CollectWhitelist, XmlRunStage::SortStore, XmlRunStage::DownloadBatch]);
    let batch = final_download_batch(&vec![task("w.zip", "webapp")], &vec![task("c.zip", "appstore/bos")]).unwrap();
    assert_eq!(names(&batch), vec!["w.zip", "c.zip"]);
    assert!(final_download_batch(&vec![], &vec![]).is_none());
}
