//! How a run is organised: which files are skipped, which go in which batch,
//! and in what order downloading and unpacking happen.

use vstd::prelude::*;
use crate::filter::{NameFilter, should_filter, filtered_out};
use crate::models::{FileItem, RunMode};
use crate::text::{copy_str, ends_with, str_ends_with};
use crate::whitelist::Whitelist;

verus! {

/// The items of `items` that satisfy `keep`, in order.
pub open spec fn select(items: Seq<FileItem>, keep: spec_fn(FileItem) -> bool) -> Seq<FileItem>
    decreases items.len(),
{
    if items.len() == 0 {
        Seq::empty()
    } else {
        let earlier = select(items.drop_last(), keep);
        if keep(items.last()) {
            earlier.push(items.last())
        } else {
            earlier
        }
    }
}

/// Copies of the items whose flag in `mask` is `want`, in order.
fn pick(items: &Vec<FileItem>, mask: &Vec<bool>, want: bool, Ghost(keep): Ghost<spec_fn(FileItem) -> bool>) -> (r: Vec<FileItem>)
    requires
        mask@.len() == items@.len(),
        forall|i: int| 0 <= i < items@.len() ==> (#[trigger] mask@[i] == want) == keep(items@[i]),
    ensures
        r@ == select(items@, keep),
{
    let mut r: Vec<FileItem> = Vec::new();
    let mut i: usize = 0;
    while i < items.len()
        invariant
            mask@.len() == items@.len(),
            forall|k: int| 0 <= k < items@.len() ==> (#[trigger] mask@[k] == want) == keep(items@[k]),
            i <= items.len(),
            r@ == select(items@.take(i as int), keep),
        decreases items.len() - i,
    {
        assert(items@.take(i + 1).drop_last() == items@.take(i as int));
        assert(items@.take(i + 1).last() == items@[i as int]);
        if mask[i] == want {
            r.push(items[i].duplicate());
        }
        i += 1;
    }
    assert(items@.take(items.len() as int) == items@);
    r
}

/// Whether a task is an XML file (its name ends with `.xml`).
pub open spec fn xml_task(t: FileItem) -> bool {
    ends_with(t.filename@, ".xml"@)
}

/// Whether a task belongs to the `webapp` group.
pub open spec fn webapp_task(t: FileItem) -> bool {
    t.group@ == "webapp"@
}

/// Whether `task` is an XML file.
pub fn is_xml_file(task: &FileItem) -> (r: bool)
    ensures
        r == xml_task(*task),
{
    str_ends_with(task.filename.as_str(), ".xml")
}

/// Whether `task` belongs to the `webapp` group.
pub fn is_webapp(task: &FileItem) -> (r: bool)
    ensures
        r == webapp_task(*task),
{
    task.group == copy_str("webapp")
}

/// Whether `name` is one of `names`.
fn listed(names: &Vec<String>, name: &String) -> (r: bool)
    ensures
        r == exists|i: int| 0 <= i < names@.len() && (#[trigger] names@[i])@ == name@,
{
    let mut i: usize = 0;
    while i < names.len()
        invariant
            i <= names.len(),
            forall|k: int| 0 <= k < i ==> (#[trigger] names@[k])@ != name@,
        decreases names.len() - i,
    {
        if names[i] == *name {
            return true;
        }
        i += 1;
    }
    false
}

/// Whether the task's file name is among `names`.
pub open spec fn named_in(names: Seq<String>, t: FileItem) -> bool {
    exists|i: int| 0 <= i < names.len() && (#[trigger] names[i])@ == t.filename@
}

/// The tasks to run and the tasks to report as skipped because the user
/// chose to ignore their file names; both keep the given order.
pub fn split_ignored(tasks: &Vec<FileItem>, ignored: &Vec<String>) -> (r: (Vec<FileItem>, Vec<FileItem>))
    ensures
        r.0@ == select(tasks@, |t: FileItem| !named_in(ignored@, t)),
        r.1@ == select(tasks@, |t: FileItem| named_in(ignored@, t)),
{
    let mut mask: Vec<bool> = Vec::new();
    let mut i: usize = 0;
    while i < tasks.len()
        invariant
            i <= tasks.len(),
            mask@.len() == i,
            forall|k: int| 0 <= k < i ==> #[trigger] mask@[k] == named_in(ignored@, tasks@[k]),
        decreases tasks.len() - i,
    {
        mask.push(listed(ignored, &tasks[i].filename));
        i += 1;
    }
    let kept = pick(tasks, &mask, false, Ghost(|t: FileItem| !named_in(ignored@, t)));
    let skipped = pick(tasks, &mask, true, Ghost(|t: FileItem| named_in(ignored@, t)));
    (kept, skipped)
}

/// How the XML-filtered download sorts the tasks.
pub struct XmlFilterSplit {
    /// `webapp` files to download: those the filter lets through.
    pub webapp: Vec<FileItem>,
    /// `webapp` files to report as skipped.
    pub webapp_skipped: Vec<FileItem>,
    /// The store's XML files, downloaded first.
    pub xml: Vec<FileItem>,
    /// The store's other files, sorted later by the whitelist.
    pub appstore: Vec<FileItem>,
}

/// Whether a `webapp` task is downloaded: the run is not cancelled and the
/// filter lets its name through.
pub open spec fn webapp_kept(cancelled: bool, pattern: Seq<char>, t: FileItem) -> bool {
    webapp_task(t) && !cancelled && !filtered_out(pattern, t.filename@)
}

/// Sorts the tasks of an XML-filtered run: `webapp` files are filtered by
/// name alone (all skipped when the run is cancelled); the other files are
/// split into the XML files and the rest.
pub fn split_for_xml_filter(tasks: &Vec<FileItem>, cancelled: bool, filter: &NameFilter) -> (r: XmlFilterSplit)
    ensures
        r.webapp@ == select(tasks@, |t: FileItem| webapp_kept(cancelled, filter.pattern(), t)),
        r.webapp_skipped@ == select(tasks@, |t: FileItem| webapp_task(t) && !webapp_kept(cancelled, filter.pattern(), t)),
        r.xml@ == select(tasks@, |t: FileItem| !webapp_task(t) && xml_task(t)),
        r.appstore@ == select(tasks@, |t: FileItem| !webapp_task(t) && !xml_task(t)),
{
    let mut webapp_mask: Vec<bool> = Vec::new();
    let mut kept_mask: Vec<bool> = Vec::new();
    let mut xml_mask: Vec<bool> = Vec::new();
    let mut store_mask: Vec<bool> = Vec::new();
    let mut i: usize = 0;
    while i < tasks.len()
        invariant
            i <= tasks.len(),
            webapp_mask@.len() == i && kept_mask@.len() == i && xml_mask@.len() == i && store_mask@.len() == i,
            forall|k: int| 0 <= k < i ==> #[trigger] kept_mask@[k] == webapp_kept(cancelled, filter.pattern(), tasks@[k]),
            forall|k: int| 0 <= k < i ==> #[trigger] webapp_mask@[k] == (webapp_task(tasks@[k]) && !webapp_kept(cancelled, filter.pattern(), tasks@[k])),
            forall|k: int| 0 <= k < i ==> #[trigger] xml_mask@[k] == (!webapp_task(tasks@[k]) && xml_task(tasks@[k])),
            forall|k: int| 0 <= k < i ==> #[trigger] store_mask@[k] == (!webapp_task(tasks@[k]) && !xml_task(tasks@[k])),
        decreases tasks.len() - i,
    {
        let t = &tasks[i];
        if is_webapp(t) {
            let keep = !cancelled && !should_filter(t.filename.as_str(), filter);
            kept_mask.push(keep);
            webapp_mask.push(!keep);
            xml_mask.push(false);
            store_mask.push(false);
        } else {
            let xml = is_xml_file(t);
            kept_mask.push(false);
            webapp_mask.push(false);
            xml_mask.push(xml);
            store_mask.push(!xml);
        }
        i += 1;
    }
    XmlFilterSplit {
        webapp: pick(tasks, &kept_mask, true, Ghost(|t: FileItem| webapp_kept(cancelled, filter.pattern(), t))),
        webapp_skipped: pick(
            tasks,
            &webapp_mask,
            true,
            Ghost(|t: FileItem| webapp_task(t) && !webapp_kept(cancelled, filter.pattern(), t)),
        ),
        xml: pick(tasks, &xml_mask, true, Ghost(|t: FileItem| !webapp_task(t) && xml_task(t))),
        appstore: pick(tasks, &store_mask, true, Ghost(|t: FileItem| !webapp_task(t) && !xml_task(t))),
    }
}

/// Whether a store task is downloaded: the run is not cancelled and the
/// whitelist holds its file name.
pub open spec fn store_kept(cancelled: bool, whitelist: Set<Seq<char>>, t: FileItem) -> bool {
    !cancelled && whitelist.contains(t.filename@)
}

/// The store tasks to download and those to report as skipped, by the
/// whitelist (all skipped when the run is cancelled).
pub fn split_by_whitelist(tasks: &Vec<FileItem>, cancelled: bool, whitelist: &Whitelist) -> (r: (Vec<FileItem>, Vec<FileItem>))
    ensures
        r.0@ == select(tasks@, |t: FileItem| store_kept(cancelled, whitelist@, t)),
        r.1@ == select(tasks@, |t: FileItem| !store_kept(cancelled, whitelist@, t)),
{
    let mut mask: Vec<bool> = Vec::new();
    let mut i: usize = 0;
    while i < tasks.len()
        invariant
            i <= tasks.len(),
            mask@.len() == i,
            forall|k: int| 0 <= k < i ==> #[trigger] mask@[k] == store_kept(cancelled, whitelist@, tasks@[k]),
        decreases tasks.len() - i,
    {
        mask.push(!cancelled && whitelist.contains(tasks[i].filename.as_str()));
        i += 1;
    }
    let kept = pick(tasks, &mask, true, Ghost(|t: FileItem| store_kept(cancelled, whitelist@, t)));
    let skipped = pick(tasks, &mask, false, Ghost(|t: FileItem| !store_kept(cancelled, whitelist@, t)));
    (kept, skipped)
}

/// One stage of an XML-filtered download.
#[derive(Debug, PartialEq, Eq, Structural)]
pub enum XmlRunStage {
    /// Download the store's XML files.
    DownloadXml,
    /// End the run here if it was cancelled.
    StopIfCancelled,
    /// Read the whitelist from the downloaded XML files.
    CollectWhitelist,
    /// Sort the store's other files by the whitelist, reporting the rest as skipped.
    SortStore,
    /// Download the kept `webapp` and store files together, if there are any.
    DownloadBatch,
}

/// The stages of an XML-filtered download: the XML files first (when there
/// are any) with a stop if the run was then cancelled, then the whitelist,
/// the sorting of the store files, and the final batch.
pub open spec fn xml_run_stages(has_xml: bool) -> Seq<XmlRunStage> {
    if has_xml {
        seq![
            XmlRunStage::DownloadXml,
            XmlRunStage::StopIfCancelled,
            XmlRunStage::CollectWhitelist,
            XmlRunStage::SortStore,
            XmlRunStage::DownloadBatch,
        ]
    } else {
        seq![XmlRunStage::CollectWhitelist, XmlRunStage::SortStore, XmlRunStage::DownloadBatch]
    }
}

/// The stages of the XML-filtered download of `split`.
pub fn plan_xml_filtered_run(split: &XmlFilterSplit) -> (r: Vec<XmlRunStage>)
    ensures
        r@ == xml_run_stages(split.xml@.len() > 0),
{
    let mut r: Vec<XmlRunStage> = Vec::new();
    if split.xml.len() > 0 {
        r.push(XmlRunStage::DownloadXml);
        r.push(XmlRunStage::StopIfCancelled);
    }
    r.push(XmlRunStage::CollectWhitelist);
    r.push(XmlRunStage::SortStore);
    r.push(XmlRunStage::DownloadBatch);
    assert(r@ =~= xml_run_stages(split.xml@.len() > 0));
    r
}

/// The final batch: the kept `webapp` files followed by the kept store files,
/// or nothing to download when both are empty.
pub fn final_download_batch(webapp: &Vec<FileItem>, store_kept: &Vec<FileItem>) -> (r: Option<Vec<FileItem>>)
    ensures
        match r {
            Some(batch) => batch@ == webapp@ + store_kept@ && batch@.len() > 0,
            None => webapp@.len() == 0 && store_kept@.len() == 0,
        },
{
    if webapp.len() == 0 && store_kept.len() == 0 {
        return None;
    }
    let mut batch: Vec<FileItem> = Vec::new();
    let mut i: usize = 0;
    while i < webapp.len()
        invariant
            i <= webapp.len(),
            batch@ == webapp@.take(i as int),
        decreases webapp.len() - i,
    {
        batch.push(webapp[i].duplicate());
        i += 1;
        assert(batch@ == webapp@.take(i as int));
    }
    let mut j: usize = 0;
    while j < store_kept.len()
        invariant
            i == webapp.len(),
            j <= store_kept.len(),
            batch@ == webapp@ + store_kept@.take(j as int),
        decreases store_kept.len() - j,
    {
        batch.push(store_kept[j].duplicate());
        j += 1;
        assert(batch@ == webapp@ + store_kept@.take(j as int));
    }
    assert(webapp@.take(i as int) == webapp@);
    assert(store_kept@.take(j as int) == store_kept@);
    Some(batch)
}

/// One stage of a run.
#[derive(Debug, PartialEq, Eq, Structural)]
pub enum Stage {
    /// Download the tasks (after the ignored ones are taken out).
    Download,
    /// Download with the XML whitelist: `webapp` files by name, the store's
    /// XML files first, then the store's other files by the whitelist.
    DownloadWithXmlFilter,
    /// End the run here if it was cancelled.
    StopIfCancelled,
    /// Announce that downloading is complete.
    AnnounceDownloadComplete,
    /// Read the whitelist from the downloaded XML files.
    CollectWhitelist,
    /// Unpack the archives, applying the whitelist to the store's if flagged.
    Unzip { whitelisted: bool },
}

/// The stages of a run in `mode`, with or without the XML whitelist.
pub open spec fn run_stages(mode: RunMode, xml_filter: bool) -> Seq<Stage> {
    match mode {
        RunMode::DownloadOnly => if xml_filter {
            seq![Stage::DownloadWithXmlFilter]
        } else {
            seq![Stage::Download]
        },
        RunMode::UnzipOnly => if xml_filter {
            seq![Stage::CollectWhitelist, Stage::Unzip { whitelisted: true }]
        } else {
            seq![Stage::Unzip { whitelisted: false }]
        },
        RunMode::Both => if xml_filter {
            seq![
                Stage::DownloadWithXmlFilter,
                Stage::StopIfCancelled,
                Stage::AnnounceDownloadComplete,
                Stage::CollectWhitelist,
                Stage::Unzip { whitelisted: true },
            ]
        } else {
            seq![
                Stage::Download,
                Stage::StopIfCancelled,
                Stage::AnnounceDownloadComplete,
                Stage::Unzip { whitelisted: false },
            ]
        },
    }
}

/// The stages of a run, in order.
pub fn plan_run(mode: RunMode, xml_filter: bool) -> (r: Vec<Stage>)
    ensures
        r@ == run_stages(mode, xml_filter),
{
    let mut r: Vec<Stage> = Vec::new();
    match mode {
        RunMode::DownloadOnly => {
            r.push(if xml_filter { Stage::DownloadWithXmlFilter } else { Stage::Download });
        },
        RunMode::UnzipOnly => {
            if xml_filter {
                r.push(Stage::CollectWhitelist);
            }
            r.push(Stage::Unzip { whitelisted: xml_filter });
        },
        RunMode::Both => {
            r.push(if xml_filter { Stage::DownloadWithXmlFilter } else { Stage::Download });
            r.push(Stage::StopIfCancelled);
            r.push(Stage::AnnounceDownloadComplete);
            if xml_filter {
                r.push(Stage::CollectWhitelist);
            }
            r.push(Stage::Unzip { whitelisted: xml_filter });
        },
    }
    assert(r@ =~= run_stages(mode, xml_filter));
    r
}

/// What is selected satisfies the condition and comes from the list.
pub proof fn law_selected_satisfy(items: Seq<FileItem>, keep: spec_fn(FileItem) -> bool, i: int)
    requires
        0 <= i < select(items, keep).len(),
    ensures
        keep(select(items, keep)[i]),
        items.contains(select(items, keep)[i]),
    decreases items.len(),
{
    let earlier = select(items.drop_last(), keep);
    if i < earlier.len() {
        law_selected_satisfy(items.drop_last(), keep, i);
        assert(select(items, keep)[i] == earlier[i]);
        let j = choose|j: int| 0 <= j < items.drop_last().len() && items.drop_last()[j] == earlier[i];
        assert(items[j] == items.drop_last()[j]);
    } else {
        assert(items[items.len() - 1] == items.last());
    }
}

/// Every item goes to exactly one side of a split: the two sides together
/// are as long as the list.
pub proof fn law_split_is_partition(items: Seq<FileItem>, keep: spec_fn(FileItem) -> bool)
    ensures
        select(items, keep).len() + select(items, |t: FileItem| !keep(t)).len() == items.len(),
    decreases items.len(),
{
    if items.len() > 0 {
        law_split_is_partition(items.drop_last(), keep);
    }
}

/// The XML-filtered run places every task in exactly one batch: `webapp`
/// downloads, `webapp` skips, store XML files, other store files.
pub proof fn law_xml_split_is_partition(tasks: Seq<FileItem>, cancelled: bool, pattern: Seq<char>)
    ensures
        select(tasks, |t: FileItem| webapp_kept(cancelled, pattern, t)).len()
            + select(tasks, |t: FileItem| webapp_task(t) && !webapp_kept(cancelled, pattern, t)).len()
            + select(tasks, |t: FileItem| !webapp_task(t) && xml_task(t)).len()
            + select(tasks, |t: FileItem| !webapp_task(t) && !xml_task(t)).len() == tasks.len(),
    decreases tasks.len(),
{
    if tasks.len() > 0 {
        law_xml_split_is_partition(tasks.drop_last(), cancelled, pattern);
    }
}

/// In an XML-filtered run, a `webapp` file is downloaded only if the filter
/// lets it through, and any other file in the final batch is a store file
/// that is not XML and whose name the whitelist holds; a cancelled run
/// downloads none of them.
pub proof fn law_xml_run_downloads_only_admitted(
    tasks: Seq<FileItem>,
    cancelled: bool,
    pattern: Seq<char>,
    whitelist: Set<Seq<char>>,
    i: int,
)
    requires
        0 <= i < (select(tasks, |t: FileItem| webapp_kept(cancelled, pattern, t)) + select(
            select(tasks, |t: FileItem| !webapp_task(t) && !xml_task(t)),
            |t: FileItem| store_kept(cancelled, whitelist, t),
        )).len(),
    ensures
        ({
            let batch = select(tasks, |t: FileItem| webapp_kept(cancelled, pattern, t)) + select(
                select(tasks, |t: FileItem| !webapp_task(t) && !xml_task(t)),
                |t: FileItem| store_kept(cancelled, whitelist, t),
            );
            &&& !cancelled
            &&& webapp_task(batch[i]) ==> !filtered_out(pattern, batch[i].filename@)
            &&& !webapp_task(batch[i]) ==> !xml_task(batch[i]) && whitelist.contains(batch[i].filename@)
        }),
{
    let web = select(tasks, |t: FileItem| webapp_kept(cancelled, pattern, t));
    let store = select(tasks, |t: FileItem| !webapp_task(t) && !xml_task(t));
    let kept = select(store, |t: FileItem| store_kept(cancelled, whitelist, t));
    if i < web.len() {
        law_selected_satisfy(tasks, |t: FileItem| webapp_kept(cancelled, pattern, t), i);
        assert((web + kept)[i] == web[i]);
    } else {
        let j = i - web.len();
        law_selected_satisfy(store, |t: FileItem| store_kept(cancelled, whitelist, t), j);
        let item = kept[j];
        assert((web + kept)[i] == item);
        let k = choose|k: int| 0 <= k < store.len() && store[k] == item;
        law_selected_satisfy(tasks, |t: FileItem| !webapp_task(t) && !xml_task(t), k);
    }
}

/// Every item of the list that satisfies the condition is selected.
pub proof fn law_select_keeps_all_that_qualify(items: Seq<FileItem>, keep: spec_fn(FileItem) -> bool, k: int)
    requires
        0 <= k < items.len(),
        keep(items[k]),
    ensures
        select(items, keep).contains(items[k]),
    decreases items.len(),
{
    let earlier = select(items.drop_last(), keep);
    if k == items.len() - 1 {
        assert(items.last() == items[k]);
        assert(select(items, keep)[earlier.len() as int] == items[k]);
    } else {
        assert(items.drop_last()[k] == items[k]);
        law_select_keeps_all_that_qualify(items.drop_last(), keep, k);
        let j = choose|j: int| 0 <= j < earlier.len() && earlier[j] == items[k];
        assert(select(items, keep)[j] == earlier[j]);
    }
}

/// A task is skipped as ignored exactly when its file name equals one of the
/// ignored names, wherever that name stands in the list; otherwise it runs.
pub proof fn law_ignored_iff_named(tasks: Seq<FileItem>, ignored: Seq<String>, k: int)
    requires
        0 <= k < tasks.len(),
    ensures
        (exists|i: int| 0 <= i < ignored.len() && (#[trigger] ignored[i])@ == tasks[k].filename@) ==> {
            &&& select(tasks, |t: FileItem| named_in(ignored, t)).contains(tasks[k])
            &&& !select(tasks, |t: FileItem| !named_in(ignored, t)).contains(tasks[k])
        },
        (forall|i: int| 0 <= i < ignored.len() ==> (#[trigger] ignored[i])@ != tasks[k].filename@) ==> {
            &&& select(tasks, |t: FileItem| !named_in(ignored, t)).contains(tasks[k])
            &&& !select(tasks, |t: FileItem| named_in(ignored, t)).contains(tasks[k])
        },
{
    let skip = |t: FileItem| named_in(ignored, t);
    let run = |t: FileItem| !named_in(ignored, t);
    if exists|i: int| 0 <= i < ignored.len() && (#[trigger] ignored[i])@ == tasks[k].filename@ {
        law_select_keeps_all_that_qualify(tasks, skip, k);
        if select(tasks, run).contains(tasks[k]) {
            let j = choose|j: int| 0 <= j < select(tasks, run).len() && select(tasks, run)[j] == tasks[k];
            law_selected_satisfy(tasks, run, j);
        }
    }
    if forall|i: int| 0 <= i < ignored.len() ==> (#[trigger] ignored[i])@ != tasks[k].filename@ {
        law_select_keeps_all_that_qualify(tasks, run, k);
        if select(tasks, skip).contains(tasks[k]) {
            let j = choose|j: int| 0 <= j < select(tasks, skip).len() && select(tasks, skip)[j] == tasks[k];
            law_selected_satisfy(tasks, skip, j);
        }
    }
}

/// In a run that is not cancelled a store task is downloaded exactly when the
/// whitelist holds its file name, whatever its other fields; in a cancelled
/// run none is downloaded and all are reported skipped.
pub proof fn law_whitelist_decides_store_tasks(tasks: Seq<FileItem>, whitelist: Set<Seq<char>>, k: int)
    requires
        0 <= k < tasks.len(),
    ensures
        select(tasks, |t: FileItem| store_kept(false, whitelist, t)).contains(tasks[k]) <==> whitelist.contains(tasks[k].filename@),
        select(tasks, |t: FileItem| !store_kept(false, whitelist, t)).contains(tasks[k]) <==> !whitelist.contains(tasks[k].filename@),
        select(tasks, |t: FileItem| store_kept(true, whitelist, t)).len() == 0,
        select(tasks, |t: FileItem| !store_kept(true, whitelist, t)) == tasks,
{
    let kept = |t: FileItem| store_kept(false, whitelist, t);
    let dropped = |t: FileItem| !store_kept(false, whitelist, t);
    if whitelist.contains(tasks[k].filename@) {
        law_select_keeps_all_that_qualify(tasks, kept, k);
    } else {
        law_select_keeps_all_that_qualify(tasks, dropped, k);
    }
    if select(tasks, kept).contains(tasks[k]) {
        let j = choose|j: int| 0 <= j < select(tasks, kept).len() && select(tasks, kept)[j] == tasks[k];
        law_selected_satisfy(tasks, kept, j);
    }
    if select(tasks, dropped).contains(tasks[k]) {
        let j = choose|j: int| 0 <= j < select(tasks, dropped).len() && select(tasks, dropped)[j] == tasks[k];
        law_selected_satisfy(tasks, dropped, j);
    }
    lemma_cancelled_store(tasks, whitelist);
}

proof fn lemma_cancelled_store(tasks: Seq<FileItem>, whitelist: Set<Seq<char>>)
    ensures
        select(tasks, |t: FileItem| store_kept(true, whitelist, t)).len() == 0,
        select(tasks, |t: FileItem| !store_kept(true, whitelist, t)) == tasks,
    decreases tasks.len(),
{
    if tasks.len() > 0 {
        lemma_cancelled_store(tasks.drop_last(), whitelist);
        assert(tasks.drop_last().push(tasks.last()) == tasks);
    }
}

/// How the XML-filtered run sorts a task, by its kind alone: a `webapp` task
/// is downloaded exactly when the run is not cancelled and the filter lets
/// its name through, else reported skipped; any other task whose name ends
/// with `.xml` is downloaded first as a whitelist file; every other task
/// waits for the whitelist.
pub proof fn law_xml_split_by_kind(tasks: Seq<FileItem>, cancelled: bool, pattern: Seq<char>, k: int)
    requires
        0 <= k < tasks.len(),
    ensures
        tasks[k].group@ == "webapp"@ ==> (select(tasks, |t: FileItem| webapp_kept(cancelled, pattern, t)).contains(tasks[k])
            <==> (!cancelled && !filtered_out(pattern, tasks[k].filename@))),
        tasks[k].group@ == "webapp"@ ==> (select(tasks, |t: FileItem| webapp_task(t) && !webapp_kept(cancelled, pattern, t)).contains(tasks[k])
            <==> (cancelled || filtered_out(pattern, tasks[k].filename@))),
        tasks[k].group@ != "webapp"@ ==> (select(tasks, |t: FileItem| !webapp_task(t) && xml_task(t)).contains(tasks[k])
            <==> ends_with(tasks[k].filename@, ".xml"@)),
        tasks[k].group@ != "webapp"@ ==> (select(tasks, |t: FileItem| !webapp_task(t) && !xml_task(t)).contains(tasks[k])
            <==> !ends_with(tasks[k].filename@, ".xml"@)),
        tasks[k].group@ != "webapp"@ ==> !select(tasks, |t: FileItem| webapp_kept(cancelled, pattern, t)).contains(tasks[k]),
{
    let p1 = |t: FileItem| webapp_kept(cancelled, pattern, t);
    let p2 = |t: FileItem| webapp_task(t) && !webapp_kept(cancelled, pattern, t);
    let p3 = |t: FileItem| !webapp_task(t) && xml_task(t);
    let p4 = |t: FileItem| !webapp_task(t) && !xml_task(t);
    if p1(tasks[k]) { law_select_keeps_all_that_qualify(tasks, p1, k); }
    if p2(tasks[k]) { law_select_keeps_all_that_qualify(tasks, p2, k); }
    if p3(tasks[k]) { law_select_keeps_all_that_qualify(tasks, p3, k); }
    if p4(tasks[k]) { law_select_keeps_all_that_qualify(tasks, p4, k); }
    if select(tasks, p1).contains(tasks[k]) {
        let j = choose|j: int| 0 <= j < select(tasks, p1).len() && select(tasks, p1)[j] == tasks[k];
        law_selected_satisfy(tasks, p1, j);
    }
    if select(tasks, p2).contains(tasks[k]) {
        let j = choose|j: int| 0 <= j < select(tasks, p2).len() && select(tasks, p2)[j] == tasks[k];
        law_selected_satisfy(tasks, p2, j);
    }
    if select(tasks, p3).contains(tasks[k]) {
        let j = choose|j: int| 0 <= j < select(tasks, p3).len() && select(tasks, p3)[j] == tasks[k];
        law_selected_satisfy(tasks, p3, j);
    }
    if select(tasks, p4).contains(tasks[k]) {
        let j = choose|j: int| 0 <= j < select(tasks, p4).len() && select(tasks, p4)[j] == tasks[k];
        law_selected_satisfy(tasks, p4, j);
    }
}

/// The order of a run: downloading (if any) comes first and unpacking (if
/// any) last; the cancel check and the announcement sit between them only in
/// a run that does both; the whitelist is read, right before unpacking,
/// exactly when the XML filter is on and unpacking happens, and unpacking
/// uses the whitelist exactly when the XML filter is on.
pub proof fn law_run_order(mode: RunMode, xml_filter: bool)
    ensures
        run_stages(mode, xml_filter).len() > 0,
        mode != RunMode::UnzipOnly ==> run_stages(mode, xml_filter)[0] == (if xml_filter { Stage::DownloadWithXmlFilter } else { Stage::Download }),
        mode != RunMode::DownloadOnly ==> run_stages(mode, xml_filter).last() == (Stage::Unzip { whitelisted: xml_filter }),
        mode == RunMode::DownloadOnly ==> run_stages(mode, xml_filter).len() == 1,
        mode != RunMode::DownloadOnly && xml_filter ==> run_stages(mode, xml_filter)[run_stages(mode, xml_filter).len() - 2]
            == Stage::CollectWhitelist,
        mode == RunMode::Both ==> run_stages(mode, xml_filter)[1] == Stage::StopIfCancelled && run_stages(mode, xml_filter)[2]
            == Stage::AnnounceDownloadComplete,
        !xml_filter ==> !run_stages(mode, xml_filter).contains(Stage::CollectWhitelist),
{
    if !xml_filter {
        let st = run_stages(mode, xml_filter);
        if st.contains(Stage::CollectWhitelist) {
            let i = choose|i: int| 0 <= i < st.len() && st[i] == Stage::CollectWhitelist;
        }
    }
}

/// The XML-filtered download always ends with the final batch after reading
/// the whitelist and sorting the store, and downloads the XML files first,
/// with a cancel check after them, exactly when there are XML files.
pub proof fn law_xml_run_order(has_xml: bool)
    ensures
        xml_run_stages(has_xml).last() == XmlRunStage::DownloadBatch,
        xml_run_stages(has_xml)[xml_run_stages(has_xml).len() - 2] == XmlRunStage::SortStore,
        xml_run_stages(has_xml)[xml_run_stages(has_xml).len() - 3] == XmlRunStage::CollectWhitelist,
        has_xml <==> xml_run_stages(has_xml).contains(XmlRunStage::DownloadXml),
        has_xml ==> xml_run_stages(has_xml)[0] == XmlRunStage::DownloadXml && xml_run_stages(has_xml)[1]
            == XmlRunStage::StopIfCancelled,
{
    if has_xml {
        assert(xml_run_stages(has_xml)[0] == XmlRunStage::DownloadXml);
    } else {
        let st = xml_run_stages(has_xml);
        if st.contains(XmlRunStage::DownloadXml) {
            let i = choose|i: int| 0 <= i < st.len() && st[i] == XmlRunStage::DownloadXml;
        }
    }
}

} // verus!
