//! The records that travel between the planner, the downloader and the
//! user interface.

use vstd::prelude::*;

verus! {

/// One file listed by the update manifest, with its download state.
#[derive(Debug, Clone, PartialEq, Eq)]
pub struct FileItem {
    pub filename: String,
    pub md5: String,
    pub group: String,
    pub url: String,
    pub local_path: String,
    pub status: String,
    pub progress: u32,
    pub downloaded_bytes: u64,
    pub total_bytes: u64,
}

/// A progress report for one file.
#[derive(Debug, Clone, PartialEq, Eq)]
pub struct DownloadProgress {
    pub filename: String,
    pub local_path: String,
    pub status: String,
    pub progress: u32,
    pub downloaded_bytes: u64,
    pub total_bytes: u64,
}

/// What a run does: download, unpack, or both in turn.
#[derive(Debug, Clone, Copy, PartialEq, Eq, Structural)]
pub enum RunMode {
    DownloadOnly,
    UnzipOnly,
    Both,
}

impl DownloadProgress {
    /// A report for `filename` at `local_path`.
    pub fn new(
        filename: &str,
        local_path: &str,
        status: &str,
        progress: u32,
        downloaded_bytes: u64,
        total_bytes: u64,
    ) -> (p: DownloadProgress)
        ensures
            p.filename@ == filename@,
            p.local_path@ == local_path@,
            p.status@ == status@,
            p.progress == progress,
            p.downloaded_bytes == downloaded_bytes,
            p.total_bytes == total_bytes,
    {
        DownloadProgress {
            filename: crate::text::copy_str(filename),
            local_path: crate::text::copy_str(local_path),
            status: crate::text::copy_str(status),
            progress,
            downloaded_bytes,
            total_bytes,
        }
    }
}

} // verus!

verus! {

impl FileItem {
    /// A field-by-field copy.
    pub fn duplicate(&self) -> (r: FileItem)
        ensures
            r == *self,
    {
        FileItem {
            filename: self.filename.clone(),
            md5: self.md5.clone(),
            group: self.group.clone(),
            url: self.url.clone(),
            local_path: self.local_path.clone(),
            status: self.status.clone(),
            progress: self.progress,
            downloaded_bytes: self.downloaded_bytes,
            total_bytes: self.total_bytes,
        }
    }
}

impl DownloadProgress {
    /// The report for a task that is skipped: complete, with no bytes.
    pub fn skipped(task: &FileItem) -> (p: DownloadProgress)
        ensures
            p.filename@ == task.filename@,
            p.local_path@ == task.local_path@,
            p.status@ == "skipped"@,
            p.progress == 100,
            p.downloaded_bytes == 0,
            p.total_bytes == 0,
    {
        DownloadProgress::new(task.filename.as_str(), task.local_path.as_str(), "skipped", 100, 0, 0)
    }
}

} // verus!
