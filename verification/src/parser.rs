//! Turning the update manifest into the list of files to fetch.
//!
//! The manifest has a `webapp` section (`path` and a `files` object mapping
//! file names to MD5 sums) and an `appstore` section (`path` and one object
//! per sub-directory `bos`, `biz`, `trd`, `cus`). Names that the filter
//! leaves out are not listed.

use vstd::prelude::*;
use crate::filter::{NameFilter, should_filter, filtered_out, effective_pattern};
use crate::json::{JsonValue, json_get, str_or_empty};
use crate::models::FileItem;
use crate::text::{joined, copy_str};

verus! {

/// The fields that the manifest fixes for one listed file.
pub struct ListedFile {
    pub filename: Seq<char>,
    pub md5: Seq<char>,
    pub group: Seq<char>,
    pub url: Seq<char>,
    pub local_path: Seq<char>,
}

/// The listing of file `name` with checksum `md5` in a section whose files
/// belong to `group` and whose URLs and local paths begin with the prefixes.
pub open spec fn listed_file(
    group: Seq<char>,
    url_prefix: Seq<char>,
    path_prefix: Seq<char>,
    name: Seq<char>,
    md5: Seq<char>,
) -> ListedFile {
    ListedFile { filename: name, md5, group, url: url_prefix + name, local_path: path_prefix + name }
}

/// The files that the members of one section's object list, in member
/// order, leaving out the names that `pattern` filters. A checksum that is
/// not a string counts as empty.
pub open spec fn section_files(
    members: Seq<(String, JsonValue)>,
    pattern: Seq<char>,
    group: Seq<char>,
    url_prefix: Seq<char>,
    path_prefix: Seq<char>,
) -> Seq<ListedFile>
    decreases members.len(),
{
    if members.len() == 0 {
        Seq::empty()
    } else {
        let earlier = section_files(members.drop_last(), pattern, group, url_prefix, path_prefix);
        let member = members.last();
        if filtered_out(pattern, member.0@) {
            earlier
        } else {
            earlier.push(
                listed_file(group, url_prefix, path_prefix, member.0@, str_or_empty(Some(member.1))),
            )
        }
    }
}

/// The files of a section value: its members if it is an object, else none.
pub open spec fn object_files(
    section: Option<JsonValue>,
    pattern: Seq<char>,
    group: Seq<char>,
    url_prefix: Seq<char>,
    path_prefix: Seq<char>,
) -> Seq<ListedFile> {
    match section {
        Some(JsonValue::Object(members)) => section_files(members@, pattern, group, url_prefix, path_prefix),
        _ => Seq::empty(),
    }
}

/// The `webapp` files: listed only when the section has both `path` and
/// `files`; the URL is `base + path + "/" + name`, the local path `webapp/name`.
pub open spec fn webapp_files(json: JsonValue, base_url: Seq<char>, pattern: Seq<char>) -> Seq<ListedFile> {
    match json_get(json, "webapp"@) {
        Some(webapp) => if json_get(webapp, "path"@) is Some && json_get(webapp, "files"@) is Some {
            object_files(
                json_get(webapp, "files"@),
                pattern,
                "webapp"@,
                base_url + str_or_empty(json_get(webapp, "path"@)) + "/"@,
                "webapp/"@,
            )
        } else {
            Seq::empty()
        },
        None => Seq::empty(),
    }
}

/// The files of one `appstore` sub-directory: the URL is
/// `base + "/" + store_path + "/" + subdir + "/" + name`, the local path
/// `appstore/subdir/name`, the group `appstore/subdir`.
pub open spec fn subdir_files(
    store: JsonValue,
    base_url: Seq<char>,
    store_path: Seq<char>,
    subdir: Seq<char>,
    pattern: Seq<char>,
) -> Seq<ListedFile> {
    object_files(
        json_get(store, subdir),
        pattern,
        "appstore/"@ + subdir,
        base_url + "/"@ + store_path + "/"@ + subdir + "/"@,
        "appstore/"@ + subdir + "/"@,
    )
}

/// The `appstore` files, sub-directory by sub-directory in the order
/// `bos`, `biz`, `trd`, `cus`; a missing or non-string `path` counts as empty.
pub open spec fn appstore_files(json: JsonValue, base_url: Seq<char>, pattern: Seq<char>) -> Seq<ListedFile> {
    match json_get(json, "appstore"@) {
        Some(store) => {
            let store_path = str_or_empty(json_get(store, "path"@));
            subdir_files(store, base_url, store_path, "bos"@, pattern)
                + subdir_files(store, base_url, store_path, "biz"@, pattern)
                + subdir_files(store, base_url, store_path, "trd"@, pattern)
                + subdir_files(store, base_url, store_path, "cus"@, pattern)
        },
        None => Seq::empty(),
    }
}

/// Everything the manifest lists: the `webapp` files, then the `appstore` files.
pub open spec fn manifest_files(json: JsonValue, base_url: Seq<char>, pattern: Seq<char>) -> Seq<ListedFile> {
    webapp_files(json, base_url, pattern) + appstore_files(json, base_url, pattern)
}

/// `item` is the pending, not yet started entry for `file`.
pub open spec fn is_pending_item(item: FileItem, file: ListedFile) -> bool {
    &&& item.filename@ == file.filename
    &&& item.md5@ == file.md5
    &&& item.group@ == file.group
    &&& item.url@ == file.url
    &&& item.local_path@ == file.local_path
    &&& item.status@ == "pending"@
    &&& item.progress == 0
    &&& item.downloaded_bytes == 0
    &&& item.total_bytes == 0
}

/// `items` are, one for one and in order, the pending entries for `files`.
pub open spec fn items_list(items: Seq<FileItem>, files: Seq<ListedFile>) -> bool {
    items.len() == files.len() && forall|i: int| 0 <= i < items.len() ==> is_pending_item(#[trigger] items[i], files[i])
}

/// The value behind an optional reference.
pub open spec fn owned(section: Option<&JsonValue>) -> Option<JsonValue> {
    match section {
        Some(v) => Some(*v),
        None => None,
    }
}

proof fn lemma_items_join(items: Seq<FileItem>, n: int, first: Seq<ListedFile>, rest: Seq<ListedFile>)
    requires
        0 <= n <= items.len(),
        items_list(items.take(n), first),
        items_list(items.skip(n), rest),
    ensures
        items_list(items, first + rest),
{
    assert forall|i: int| 0 <= i < items.len() implies is_pending_item(#[trigger] items[i], (first + rest)[i]) by {
        if i < n {
            assert(items.take(n)[i] == items[i]);
        } else {
            assert(items.skip(n)[i - n] == items[i]);
        }
    }
}

fn pending_item(
    name: &String,
    checksum: &JsonValue,
    group: &String,
    url_prefix: &String,
    path_prefix: &String,
) -> (item: FileItem)
    ensures
        is_pending_item(item, listed_file(group@, url_prefix@, path_prefix@, name@, str_or_empty(Some(*checksum)))),
{
    let md5 = match checksum.as_str() {
        Some(s) => s.clone(),
        None => String::new(),
    };
    FileItem {
        filename: name.clone(),
        md5,
        group: group.clone(),
        url: joined(url_prefix.as_str(), name.as_str()),
        local_path: joined(path_prefix.as_str(), name.as_str()),
        status: copy_str("pending"),
        progress: 0,
        downloaded_bytes: 0,
        total_bytes: 0,
    }
}

fn push_section(
    items: &mut Vec<FileItem>,
    section: Option<&JsonValue>,
    filter: &NameFilter,
    group: &String,
    url_prefix: &String,
    path_prefix: &String,
)
    ensures
        final(items)@.len() == old(items)@.len() + object_files(
            owned(section),
            filter.pattern(),
            group@,
            url_prefix@,
            path_prefix@,
        ).len(),
        final(items)@.take(old(items)@.len() as int) == old(items)@,
        items_list(
            final(items)@.skip(old(items)@.len() as int),
            object_files(owned(section), filter.pattern(), group@, url_prefix@, path_prefix@),
        ),
{
    let ghost start = items@.len();
    let ghost before = items@;
    match section {
        Some(JsonValue::Object(members)) => {
            let mut i: usize = 0;
            assert(items@.skip(start as int) == Seq::<FileItem>::empty());
            while i < members.len()
                invariant
                    i <= members.len(),
                    start == before.len(),
                    items@.take(start as int) == before,
                    items@.len() >= start,
                    items_list(
                        items@.skip(start as int),
                        section_files(members@.take(i as int), filter.pattern(), group@, url_prefix@, path_prefix@),
                    ),
                decreases members.len() - i,
            {
                assert(members@.take(i + 1).drop_last() == members@.take(i as int));
                let member = &members[i];
                if !should_filter(member.0.as_str(), filter) {
                    let item = pending_item(&member.0, &member.1, group, url_prefix, path_prefix);
                    let ghost prev = items@;
                    items.push(item);
                    assert(items@.skip(start as int) == prev.skip(start as int).push(item));
                    assert(items@.take(start as int) == prev.take(start as int));
                }
                i += 1;
            }
            assert(members@.take(members.len() as int) == members@);
        },
        _ => {
            assert(items@.skip(start as int) == Seq::<FileItem>::empty());
            assert(items@.take(start as int) == before);
        },
    }
}

/// The files that the manifest `json` lists, with URLs under `base_url`,
/// leaving out the names that `filter_pattern` (empty: the default pattern)
/// filters; every entry starts pending.
pub fn parse_file_list(json: &JsonValue, base_url: &str, filter_pattern: &str) -> (items: Vec<FileItem>)
    ensures
        items_list(items@, manifest_files(*json, base_url@, effective_pattern(filter_pattern@))),
{
    let filter = NameFilter::new(filter_pattern);
    let mut items: Vec<FileItem> = Vec::new();
    let ghost pattern = filter.pattern();

    let webapp_key = copy_str("webapp");
    let path_key = copy_str("path");
    let files_key = copy_str("files");
    if let Some(webapp) = json.get(&webapp_key) {
        match (webapp.get(&path_key), webapp.get(&files_key)) {
            (Some(path), Some(files)) => {
                let path_text = match path.as_str() {
                    Some(s) => s.clone(),
                    None => String::new(),
                };
                let url_prefix = joined(joined(base_url, path_text.as_str()).as_str(), "/");
                let group = copy_str("webapp");
                let path_prefix = copy_str("webapp/");
                push_section(&mut items, Some(files), &filter, &group, &url_prefix, &path_prefix);
            },
            _ => {},
        }
    }
    assert(items@.skip(0) == items@);
    assert(items_list(items@, webapp_files(*json, base_url@, pattern)));

    let ghost after_webapp = items@;
    let store_key = copy_str("appstore");
    if let Some(store) = json.get(&store_key) {
        let store_path = match store.get(&path_key) {
            Some(p) => match p.as_str() {
                Some(s) => s.clone(),
                None => String::new(),
            },
            None => String::new(),
        };
        let ghost sp = store_path@;
        let ghost b = base_url@;
        let ghost n0 = items@.len();
        push_subdir(&mut items, store, base_url, &store_path, "bos", &filter);
        proof {
            lemma_items_join(items@, n0 as int, webapp_files(*json, b, pattern), subdir_files(*store, b, sp, "bos"@, pattern));
        }
        let ghost n1 = items@.len();
        let ghost acc1 = webapp_files(*json, b, pattern) + subdir_files(*store, b, sp, "bos"@, pattern);
        push_subdir(&mut items, store, base_url, &store_path, "biz", &filter);
        proof {
            lemma_items_join(items@, n1 as int, acc1, subdir_files(*store, b, sp, "biz"@, pattern));
        }
        let ghost n2 = items@.len();
        let ghost acc2 = acc1 + subdir_files(*store, b, sp, "biz"@, pattern);
        push_subdir(&mut items, store, base_url, &store_path, "trd", &filter);
        proof {
            lemma_items_join(items@, n2 as int, acc2, subdir_files(*store, b, sp, "trd"@, pattern));
        }
        let ghost n3 = items@.len();
        let ghost acc3 = acc2 + subdir_files(*store, b, sp, "trd"@, pattern);
        push_subdir(&mut items, store, base_url, &store_path, "cus", &filter);
        proof {
            lemma_items_join(items@, n3 as int, acc3, subdir_files(*store, b, sp, "cus"@, pattern));
            let webapp = webapp_files(*json, b, pattern);
            let s1 = subdir_files(*store, b, sp, "bos"@, pattern);
            let s2 = subdir_files(*store, b, sp, "biz"@, pattern);
            let s3 = subdir_files(*store, b, sp, "trd"@, pattern);
            let s4 = subdir_files(*store, b, sp, "cus"@, pattern);
            assert(acc3 + s4 == webapp + (s1 + s2 + s3 + s4));
        }
    } else {
        assert(appstore_files(*json, base_url@, pattern) == Seq::<ListedFile>::empty());
        assert(webapp_files(*json, base_url@, pattern) + Seq::<ListedFile>::empty() == webapp_files(*json, base_url@, pattern));
    }
    items
}

fn push_subdir(
    items: &mut Vec<FileItem>,
    store: &JsonValue,
    base_url: &str,
    store_path: &String,
    subdir: &str,
    filter: &NameFilter,
)
    ensures
        final(items)@.len() == old(items)@.len() + subdir_files(*store, base_url@, store_path@, subdir@, filter.pattern()).len(),
        final(items)@.take(old(items)@.len() as int) == old(items)@,
        items_list(
            final(items)@.skip(old(items)@.len() as int),
            subdir_files(*store, base_url@, store_path@, subdir@, filter.pattern()),
        ),
{
    let key = copy_str(subdir);
    let group = joined("appstore/", subdir);
    let url_prefix = joined(
        joined(joined(joined(joined(base_url, "/").as_str(), store_path.as_str()).as_str(), "/").as_str(), subdir).as_str(),
        "/",
    );
    let path_prefix = joined(group.as_str(), "/");
    push_section(items, store.get(&key), filter, &group, &url_prefix, &path_prefix);
}

proof fn lemma_section_files_shape(
    members: Seq<(String, JsonValue)>,
    pattern: Seq<char>,
    group: Seq<char>,
    url_prefix: Seq<char>,
    path_prefix: Seq<char>,
)
    ensures
        forall|i: int|
            0 <= i < section_files(members, pattern, group, url_prefix, path_prefix).len() ==> {
                let f = #[trigger] section_files(members, pattern, group, url_prefix, path_prefix)[i];
                &&& !filtered_out(pattern, f.filename)
                &&& f.group == group
                &&& f.local_path == path_prefix + f.filename
                &&& f.url == url_prefix + f.filename
            },
    decreases members.len(),
{
    if members.len() > 0 {
        let earlier = section_files(members.drop_last(), pattern, group, url_prefix, path_prefix);
        lemma_section_files_shape(members.drop_last(), pattern, group, url_prefix, path_prefix);
        let all = section_files(members, pattern, group, url_prefix, path_prefix);
        assert forall|i: int| 0 <= i < all.len() implies {
            let f = #[trigger] all[i];
            &&& !filtered_out(pattern, f.filename)
            &&& f.group == group
            &&& f.local_path == path_prefix + f.filename
            &&& f.url == url_prefix + f.filename
        } by {
            if i < earlier.len() {
                assert(all[i] == earlier[i]);
            }
        }
    }
}

proof fn lemma_object_files_shape(
    section: Option<JsonValue>,
    pattern: Seq<char>,
    group: Seq<char>,
    url_prefix: Seq<char>,
    path_prefix: Seq<char>,
)
    requires
        path_prefix == group + "/"@,
    ensures
        forall|i: int|
            0 <= i < object_files(section, pattern, group, url_prefix, path_prefix).len() ==> {
                let f = #[trigger] object_files(section, pattern, group, url_prefix, path_prefix)[i];
                &&& !filtered_out(pattern, f.filename)
                &&& f.local_path == f.group + "/"@ + f.filename
            },
{
    match section {
        Some(JsonValue::Object(members)) => {
            lemma_section_files_shape(members@, pattern, group, url_prefix, path_prefix);
            assert forall|i: int|
                0 <= i < object_files(section, pattern, group, url_prefix, path_prefix).len() implies {
                    let f = #[trigger] object_files(section, pattern, group, url_prefix, path_prefix)[i];
                    f.local_path == f.group + "/"@ + f.filename
                } by {
                let f = section_files(members@, pattern, group, url_prefix, path_prefix)[i];
                assert(group + "/"@ + f.filename == path_prefix + f.filename);
            }
        },
        _ => {},
    }
}

proof fn lemma_subdir_shape(
    store: JsonValue,
    base_url: Seq<char>,
    store_path: Seq<char>,
    subdir: Seq<char>,
    pattern: Seq<char>,
)
    ensures
        forall|j: int|
            0 <= j < subdir_files(store, base_url, store_path, subdir, pattern).len() ==> {
                let f = #[trigger] subdir_files(store, base_url, store_path, subdir, pattern)[j];
                &&& !filtered_out(pattern, f.filename)
                &&& f.local_path == f.group + "/"@ + f.filename
            },
{
    assert("appstore/"@ + subdir + "/"@ == ("appstore/"@ + subdir) + "/"@);
    lemma_object_files_shape(
        json_get(store, subdir),
        pattern,
        "appstore/"@ + subdir,
        base_url + "/"@ + store_path + "/"@ + subdir + "/"@,
        "appstore/"@ + subdir + "/"@,
    );
}

/// Every file that the manifest lists passes the filter, and its local path
/// is its group, a slash, and its name.
pub proof fn law_listed_files_pass_filter(json: JsonValue, base_url: Seq<char>, pattern: Seq<char>, i: int)
    requires
        0 <= i < manifest_files(json, base_url, pattern).len(),
    ensures
        !filtered_out(pattern, manifest_files(json, base_url, pattern)[i].filename),
        manifest_files(json, base_url, pattern)[i].local_path == manifest_files(json, base_url, pattern)[i].group
            + "/"@ + manifest_files(json, base_url, pattern)[i].filename,
{
    reveal_strlit("webapp/");
    reveal_strlit("webapp");
    reveal_strlit("/");
    let web = webapp_files(json, base_url, pattern);
    let store = appstore_files(json, base_url, pattern);
    assert("webapp/"@ == "webapp"@ + "/"@);
    match json_get(json, "webapp"@) {
        Some(webapp) => {
            lemma_object_files_shape(
                json_get(webapp, "files"@),
                pattern,
                "webapp"@,
                base_url + str_or_empty(json_get(webapp, "path"@)) + "/"@,
                "webapp/"@,
            );
        },
        None => {},
    }
    match json_get(json, "appstore"@) {
        Some(st) => {
            let sp = str_or_empty(json_get(st, "path"@));
            lemma_subdir_shape(st, base_url, sp, "bos"@, pattern);
            lemma_subdir_shape(st, base_url, sp, "biz"@, pattern);
            lemma_subdir_shape(st, base_url, sp, "trd"@, pattern);
            lemma_subdir_shape(st, base_url, sp, "cus"@, pattern);
            let s1 = subdir_files(st, base_url, sp, "bos"@, pattern);
            let s2 = subdir_files(st, base_url, sp, "biz"@, pattern);
            let s3 = subdir_files(st, base_url, sp, "trd"@, pattern);
            let s4 = subdir_files(st, base_url, sp, "cus"@, pattern);
            let all = web + (s1 + s2 + s3 + s4);
            assert(manifest_files(json, base_url, pattern) == all);
            let f = all[i];
            if i < web.len() {
            } else if i < web.len() + s1.len() {
                assert(f == s1[i - web.len()]);
            } else if i < web.len() + s1.len() + s2.len() {
                assert(f == s2[i - web.len() - s1.len()]);
            } else if i < web.len() + s1.len() + s2.len() + s3.len() {
                assert(f == s3[i - web.len() - s1.len() - s2.len()]);
            } else {
                assert(f == s4[i - web.len() - s1.len() - s2.len() - s3.len()]);
            }
        },
        None => {
            assert(manifest_files(json, base_url, pattern) == web);
        },
    }
}

proof fn lemma_section_files_complete(
    members: Seq<(String, JsonValue)>,
    pattern: Seq<char>,
    group: Seq<char>,
    url_prefix: Seq<char>,
    path_prefix: Seq<char>,
    k: int,
)
    requires
        0 <= k < members.len(),
        !filtered_out(pattern, members[k].0@),
    ensures
        section_files(members, pattern, group, url_prefix, path_prefix).contains(
            listed_file(group, url_prefix, path_prefix, members[k].0@, str_or_empty(Some(members[k].1))),
        ),
    decreases members.len(),
{
    let earlier = section_files(members.drop_last(), pattern, group, url_prefix, path_prefix);
    let all = section_files(members, pattern, group, url_prefix, path_prefix);
    let f = listed_file(group, url_prefix, path_prefix, members[k].0@, str_or_empty(Some(members[k].1)));
    if k == members.len() - 1 {
        assert(members.last() == members[k]);
        assert(all[earlier.len() as int] == f);
    } else {
        assert(members.drop_last()[k] == members[k]);
        lemma_section_files_complete(members.drop_last(), pattern, group, url_prefix, path_prefix, k);
        let j = choose|j: int| 0 <= j < earlier.len() && earlier[j] == f;
        assert(all[j] == earlier[j]);
    }
}

/// Whether `files` lists `name` with checksum `md5`, in `group`, fetched from
/// `url` and stored at `local_path`.
pub open spec fn lists(files: Seq<ListedFile>, name: Seq<char>, md5: Seq<char>, group: Seq<char>, url: Seq<char>, local_path: Seq<char>) -> bool {
    exists|j: int|
        0 <= j < files.len() && (#[trigger] files[j]).filename == name && files[j].md5 == md5 && files[j].group == group
            && files[j].url == url && files[j].local_path == local_path
}

/// The listing is complete for the store: for each sub-directory `bos`,
/// `biz`, `trd` and `cus` whose value is an object, every member whose name
/// passes the filter is listed in group `appstore/<sub>`, with its checksum
/// (empty when not a string), the URL `base/path/<sub>/<name>` and the local
/// path `appstore/<sub>/<name>`.
pub proof fn law_store_members_listed(
    json: JsonValue,
    base_url: Seq<char>,
    pattern: Seq<char>,
    store: JsonValue,
    sub: Seq<char>,
    members: Vec<(String, JsonValue)>,
    k: int,
)
    requires
        json_get(json, "appstore"@) == Some(store),
        sub == "bos"@ || sub == "biz"@ || sub == "trd"@ || sub == "cus"@,
        json_get(store, sub) == Some(JsonValue::Object(members)),
        0 <= k < members@.len(),
        !filtered_out(pattern, members@[k].0@),
    ensures
        lists(
            manifest_files(json, base_url, pattern),
            members@[k].0@,
            str_or_empty(Some(members@[k].1)),
            "appstore/"@ + sub,
            base_url + "/"@ + str_or_empty(json_get(store, "path"@)) + "/"@ + sub + "/"@ + members@[k].0@,
            "appstore/"@ + sub + "/"@ + members@[k].0@,
        ),
{
    let sp = str_or_empty(json_get(store, "path"@));
    let name = members@[k].0@;
    let f = listed_file(
        "appstore/"@ + sub,
        base_url + "/"@ + sp + "/"@ + sub + "/"@,
        "appstore/"@ + sub + "/"@,
        name,
        str_or_empty(Some(members@[k].1)),
    );
    lemma_section_files_complete(
        members@,
        pattern,
        "appstore/"@ + sub,
        base_url + "/"@ + sp + "/"@ + sub + "/"@,
        "appstore/"@ + sub + "/"@,
        k,
    );
    let mine = subdir_files(store, base_url, sp, sub, pattern);
    assert(mine.contains(f));
    let jj = choose|jj: int| 0 <= jj < mine.len() && mine[jj] == f;
    let web = webapp_files(json, base_url, pattern);
    let s1 = subdir_files(store, base_url, sp, "bos"@, pattern);
    let s2 = subdir_files(store, base_url, sp, "biz"@, pattern);
    let s3 = subdir_files(store, base_url, sp, "trd"@, pattern);
    let s4 = subdir_files(store, base_url, sp, "cus"@, pattern);
    let all = web + (s1 + s2 + s3 + s4);
    assert(manifest_files(json, base_url, pattern) == all);
    let j = if sub == "bos"@ {
        jj + web.len()
    } else if sub == "biz"@ {
        jj + web.len() + s1.len()
    } else if sub == "trd"@ {
        jj + web.len() + s1.len() + s2.len()
    } else {
        jj + web.len() + s1.len() + s2.len() + s3.len()
    };
    assert(all[j] == f);
}

/// The listing is complete for the web application: when the `webapp`
/// section has a `path` and a `files` object, every member of `files` whose
/// name passes the filter is listed in group `webapp`, with its checksum, the
/// URL `base + path + "/" + name` and the local path `webapp/<name>`.
pub proof fn law_webapp_members_listed(
    json: JsonValue,
    base_url: Seq<char>,
    pattern: Seq<char>,
    webapp: JsonValue,
    members: Vec<(String, JsonValue)>,
    k: int,
)
    requires
        json_get(json, "webapp"@) == Some(webapp),
        json_get(webapp, "path"@) is Some,
        json_get(webapp, "files"@) == Some(JsonValue::Object(members)),
        0 <= k < members@.len(),
        !filtered_out(pattern, members@[k].0@),
    ensures
        lists(
            manifest_files(json, base_url, pattern),
            members@[k].0@,
            str_or_empty(Some(members@[k].1)),
            "webapp"@,
            base_url + str_or_empty(json_get(webapp, "path"@)) + "/"@ + members@[k].0@,
            "webapp/"@ + members@[k].0@,
        ),
{
    let up = base_url + str_or_empty(json_get(webapp, "path"@)) + "/"@;
    let f = listed_file("webapp"@, up, "webapp/"@, members@[k].0@, str_or_empty(Some(members@[k].1)));
    lemma_section_files_complete(members@, pattern, "webapp"@, up, "webapp/"@, k);
    let web = webapp_files(json, base_url, pattern);
    assert(web.contains(f));
    let j = choose|j: int| 0 <= j < web.len() && web[j] == f;
    let all = manifest_files(json, base_url, pattern);
    assert(all[j] == web[j]);
}

proof fn lemma_section_files_sound(
    members: Seq<(String, JsonValue)>,
    pattern: Seq<char>,
    group: Seq<char>,
    url_prefix: Seq<char>,
    path_prefix: Seq<char>,
    j: int,
)
    requires
        0 <= j < section_files(members, pattern, group, url_prefix, path_prefix).len(),
    ensures
        exists|k: int|
            0 <= k < members.len() && !filtered_out(pattern, (#[trigger] members[k]).0@)
                && section_files(members, pattern, group, url_prefix, path_prefix)[j] == listed_file(
                group,
                url_prefix,
                path_prefix,
                members[k].0@,
                str_or_empty(Some(members[k].1)),
            ),
    decreases members.len(),
{
    let earlier = section_files(members.drop_last(), pattern, group, url_prefix, path_prefix);
    if j < earlier.len() {
        lemma_section_files_sound(members.drop_last(), pattern, group, url_prefix, path_prefix, j);
        let k = choose|k: int|
            0 <= k < members.drop_last().len() && !filtered_out(pattern, (#[trigger] members.drop_last()[k]).0@)
                && earlier[j] == listed_file(
                group,
                url_prefix,
                path_prefix,
                members.drop_last()[k].0@,
                str_or_empty(Some(members.drop_last()[k].1)),
            );
        assert(members.drop_last()[k] == members[k]);
    } else {
        let k = members.len() - 1;
        assert(members[k] == members.last());
    }
}

/// Whether the section value is an object with a member `name` whose
/// checksum text is `md5`, which the filter lets through.
pub open spec fn has_member(section: Option<JsonValue>, pattern: Seq<char>, name: Seq<char>, md5: Seq<char>) -> bool {
    match section {
        Some(JsonValue::Object(members)) => exists|k: int|
            0 <= k < members@.len() && (#[trigger] members@[k]).0@ == name && str_or_empty(Some(members@[k].1)) == md5
                && !filtered_out(pattern, name),
        _ => false,
    }
}

/// Whether `file` is the listing of a member of the store's sub-directory `sub`.
pub open spec fn from_store_subdir(json: JsonValue, base_url: Seq<char>, pattern: Seq<char>, sub: Seq<char>, file: ListedFile) -> bool {
    &&& sub == "bos"@ || sub == "biz"@ || sub == "trd"@ || sub == "cus"@
    &&& json_get(json, "appstore"@) matches Some(store)
    &&& has_member(json_get(store, sub), pattern, file.filename, file.md5)
    &&& file.group == "appstore"@ + "/"@ + sub
    &&& file.url == base_url + "/"@ + str_or_empty(json_get(store, "path"@)) + "/"@ + sub + "/"@ + file.filename
    &&& file.local_path == "appstore/"@ + sub + "/"@ + file.filename
}

/// Whether `file` is the listing of a member of the web application's files.
pub open spec fn from_webapp(json: JsonValue, base_url: Seq<char>, pattern: Seq<char>, file: ListedFile) -> bool {
    &&& json_get(json, "webapp"@) matches Some(webapp)
    &&& json_get(webapp, "path"@) is Some
    &&& has_member(json_get(webapp, "files"@), pattern, file.filename, file.md5)
    &&& file.group == "webapp"@
    &&& file.url == base_url + str_or_empty(json_get(webapp, "path"@)) + "/"@ + file.filename
    &&& file.local_path == "webapp/"@ + file.filename
}

/// The listing is sound: every listed file is a member, let through by the
/// filter, of the web application's files or of one of the store's four
/// sub-directories, with the group, URL and local path of that place.
pub proof fn law_listed_files_come_from_members(json: JsonValue, base_url: Seq<char>, pattern: Seq<char>, j: int)
    requires
        0 <= j < manifest_files(json, base_url, pattern).len(),
    ensures
        from_webapp(json, base_url, pattern, manifest_files(json, base_url, pattern)[j]) || exists|sub: Seq<char>|
            #[trigger] from_store_subdir(json, base_url, pattern, sub, manifest_files(json, base_url, pattern)[j]),
{
    let web = webapp_files(json, base_url, pattern);
    let all = manifest_files(json, base_url, pattern);
    let f = all[j];
    if j < web.len() {
        assert(f == web[j]);
        let webapp = json_get(json, "webapp"@)->0;
        let up = base_url + str_or_empty(json_get(webapp, "path"@)) + "/"@;
        match json_get(webapp, "files"@) {
            Some(JsonValue::Object(members)) => {
                lemma_section_files_sound(members@, pattern, "webapp"@, up, "webapp/"@, j);
                let k = choose|k: int|
                    0 <= k < members@.len() && !filtered_out(pattern, (#[trigger] members@[k]).0@)
                        && web[j] == listed_file("webapp"@, up, "webapp/"@, members@[k].0@, str_or_empty(Some(members@[k].1)));
                assert(members@[k].0@ == f.filename);
            },
            _ => {},
        }
    } else {
        let store = json_get(json, "appstore"@)->0;
        let sp = str_or_empty(json_get(store, "path"@));
        let s1 = subdir_files(store, base_url, sp, "bos"@, pattern);
        let s2 = subdir_files(store, base_url, sp, "biz"@, pattern);
        let s3 = subdir_files(store, base_url, sp, "trd"@, pattern);
        let s4 = subdir_files(store, base_url, sp, "cus"@, pattern);
        assert(all == web + (s1 + s2 + s3 + s4));
        let i = j - web.len();
        let (sub, part, at) = if i < s1.len() {
            ("bos"@, s1, i)
        } else if i < s1.len() + s2.len() {
            ("biz"@, s2, i - s1.len())
        } else if i < s1.len() + s2.len() + s3.len() {
            ("trd"@, s3, i - s1.len() - s2.len())
        } else {
            ("cus"@, s4, i - s1.len() - s2.len() - s3.len())
        };
        assert(f == part[at]);
        let up = base_url + "/"@ + sp + "/"@ + sub + "/"@;
        let pp = "appstore/"@ + sub + "/"@;
        match json_get(store, sub) {
            Some(JsonValue::Object(members)) => {
                lemma_section_files_sound(members@, pattern, "appstore/"@ + sub, up, pp, at);
                let k = choose|k: int|
                    0 <= k < members@.len() && !filtered_out(pattern, (#[trigger] members@[k]).0@)
                        && part[at] == listed_file("appstore/"@ + sub, up, pp, members@[k].0@, str_or_empty(Some(members@[k].1)));
                assert(members@[k].0@ == f.filename);
                reveal_strlit("appstore/");
                reveal_strlit("appstore");
                reveal_strlit("/");
                assert("appstore/"@ == "appstore"@ + "/"@);
                assert(from_store_subdir(json, base_url, pattern, sub, f));
            },
            _ => {},
        }
    }
}

} // verus!
