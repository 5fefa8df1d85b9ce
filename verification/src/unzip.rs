//! Which archives are unpacked, where to, and how progress is counted.

use vstd::prelude::*;
use crate::filter::{NameFilter, should_filter, filtered_out};
use crate::whitelist::Whitelist;
use crate::text::{chars_of, string_of, joined, copy_str, ends_with, str_ends_with};

verus! {

/// One directory whose archives are unpacked: where they lie, where they
/// go, and whether the whitelist applies to them.
pub struct UnzipSource {
    pub source_dir: String,
    pub target_dir: String,
    pub whitelisted: bool,
}

/// The directories, relative to the download directory, in the order they
/// are processed: `webapp` into `static-file-service` (filter only), then
/// `appstore/<sub>` into `mservice-cosmic/lib/<sub>` for `bos`, `biz`, `trd`,
/// `cus` (filter and whitelist).
pub open spec fn unzip_layout() -> Seq<(Seq<char>, Seq<char>, bool)> {
    seq![
        ("webapp"@, "static-file-service"@, false),
        ("appstore/"@ + "bos"@, "mservice-cosmic/lib/"@ + "bos"@, true),
        ("appstore/"@ + "biz"@, "mservice-cosmic/lib/"@ + "biz"@, true),
        ("appstore/"@ + "trd"@, "mservice-cosmic/lib/"@ + "trd"@, true),
        ("appstore/"@ + "cus"@, "mservice-cosmic/lib/"@ + "cus"@, true),
    ]
}

fn source(dir: String, target: String, whitelisted: bool) -> (s: UnzipSource)
    ensures
        s.source_dir == dir,
        s.target_dir == target,
        s.whitelisted == whitelisted,
{
    UnzipSource { source_dir: dir, target_dir: target, whitelisted }
}

/// The directories to unpack from, in order.
pub fn unzip_sources() -> (r: Vec<UnzipSource>)
    ensures
        r@.len() == unzip_layout().len(),
        forall|i: int| 0 <= i < r@.len() ==> ((#[trigger] r@[i]).source_dir@, r@[i].target_dir@, r@[i].whitelisted)
            == unzip_layout()[i],
{
    let mut r: Vec<UnzipSource> = Vec::new();
    r.push(source(copy_str("webapp"), copy_str("static-file-service"), false));
    r.push(source(joined("appstore/", "bos"), joined("mservice-cosmic/lib/", "bos"), true));
    r.push(source(joined("appstore/", "biz"), joined("mservice-cosmic/lib/", "biz"), true));
    r.push(source(joined("appstore/", "trd"), joined("mservice-cosmic/lib/", "trd"), true));
    r.push(source(joined("appstore/", "cus"), joined("mservice-cosmic/lib/", "cus"), true));
    r
}

/// Whether the file name `name` has the extension `zip` in the sense of
/// `Path::extension`: it ends with `.zip` and that dot is not its first
/// character.
pub open spec fn has_zip_extension(name: Seq<char>) -> bool {
    name.len() > 4 && ends_with(name, ".zip"@)
}

/// Whether the archive called `name` in a directory is unpacked: it has the
/// `zip` extension, the filter lets it through, and, where a whitelist
/// applies, the whitelist holds it.
pub open spec fn unpacks(name: Seq<char>, pattern: Seq<char>, whitelist: Option<Set<Seq<char>>>) -> bool {
    &&& has_zip_extension(name)
    &&& !filtered_out(pattern, name)
    &&& match whitelist {
        Some(w) => w.contains(name),
        None => true,
    }
}

/// Whether to unpack the archive called `name`.
pub fn admit_archive(name: &str, filter: &NameFilter, whitelist: Option<&Whitelist>) -> (r: bool)
    ensures
        r == unpacks(
            name@,
            filter.pattern(),
            match whitelist {
                Some(w) => Some(w@),
                None => None,
            },
        ),
{
    proof {
        reveal_strlit(".zip");
    }
    let v = chars_of(name);
    if !(v.len() > 4 && str_ends_with(name, ".zip")) {
        return false;
    }
    if should_filter(name, filter) {
        return false;
    }
    match whitelist {
        Some(w) => w.contains(name),
        None => true,
    }
}

/// `s` with every backslash turned into a slash.
pub open spec fn with_slashes(s: Seq<char>) -> Seq<char> {
    s.map_values(|c: char| if c == '\\' { '/' } else { c })
}

/// The path of archive `name` in `source_dir`, relative to the download
/// directory and written with forward slashes.
pub fn relative_archive_path(source_dir: &str, name: &str) -> (r: String)
    ensures
        r@ == with_slashes(source_dir@ + "/"@ + name@),
{
    let joined = joined(joined(source_dir, "/").as_str(), name);
    let v = chars_of(joined.as_str());
    let mut out: Vec<char> = Vec::new();
    let mut i: usize = 0;
    while i < v.len()
        invariant
            i <= v.len(),
            out@ == with_slashes(v@.take(i as int)),
        decreases v.len() - i,
    {
        let c = v[i];
        out.push(if c == '\\' { '/' } else { c });
        i += 1;
        assert(with_slashes(v@.take(i as int)) =~= with_slashes(v@.take(i - 1)).push(
            if c == '\\' { '/' } else { c },
        ));
    }
    assert(v@.take(v.len() as int) == v@);
    string_of(&out)
}

/// The progress, in percent, after `done` of `total` archives are unpacked
/// (100 when there are none).
pub fn unzip_percent(done: u32, total: u32) -> (r: u32)
    requires
        done * 100 <= u32::MAX,
    ensures
        r == (if total > 0 { (done * 100) / (total as int) } else { 100 }),
{
    if total > 0 {
        done * 100 / total
    } else {
        100
    }
}

/// An archive is unpacked only if its name ends with `.zip` after at least
/// one other character, the filter lets it through, and any whitelist that
/// applies holds it; without a whitelist the first two alone decide.
pub proof fn law_unpack_rule(name: Seq<char>, pattern: Seq<char>, whitelist: Set<Seq<char>>)
    ensures
        unpacks(name, pattern, None) <==> (name.len() > 4 && ends_with(name, ".zip"@) && !filtered_out(pattern, name)),
        unpacks(name, pattern, Some(whitelist)) <==> (unpacks(name, pattern, None) && whitelist.contains(name)),
{
}

/// The relative path has the same length as the directory, a slash and the
/// name, holds no backslash, and agrees with them at every place that is not
/// a backslash.
pub proof fn law_relative_path_uses_slashes(source_dir: Seq<char>, name: Seq<char>)
    ensures
        with_slashes(source_dir + "/"@ + name).len() == (source_dir + "/"@ + name).len(),
        forall|i: int| 0 <= i < with_slashes(source_dir + "/"@ + name).len() ==> #[trigger] with_slashes(
            source_dir + "/"@ + name,
        )[i] != '\\',
        forall|i: int| 0 <= i < (source_dir + "/"@ + name).len() && (#[trigger] (source_dir + "/"@ + name)[i]) != '\\'
            ==> with_slashes(source_dir + "/"@ + name)[i] == (source_dir + "/"@ + name)[i],
{
}

/// The progress is a percentage: never above 100 while no more archives are
/// done than there are, and exactly 100 once all are done.
pub proof fn law_percent_in_range(done: u32, total: u32)
    requires
        done <= total,
        done * 100 <= u32::MAX,
    ensures
        (if total > 0 { (done * 100) / (total as int) } else { 100 }) <= 100,
        done == total ==> (if total > 0 { (done * 100) / (total as int) } else { 100 }) == 100,
{
    if total > 0 {
        assert((done * 100) / (total as int) <= 100) by (nonlinear_arith)
            requires
                done <= total,
                total > 0,
        ;
        if done == total {
            assert((total * 100) / (total as int) == 100) by (nonlinear_arith)
                requires
                    total > 0,
            ;
        }
    }
}

} // verus!
