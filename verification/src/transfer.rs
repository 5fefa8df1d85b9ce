//! Decisions of a single file's download: whether to fetch it in ranged
//! chunks, which byte ranges the chunks cover, when to report progress, how
//! temporary files are named and recognised, and when to retry.

use vstd::prelude::*;
use crate::decimal::{decimal, lemma_decimal_digits, parsed_u64, parse_u64, push_decimal, all_digits, is_digit};
use crate::text::{chars_of, copy_str, contains_seq, find_last, occurs_at};

verus! {

/// Files this large or larger are fetched in chunks when the server allows it.
pub const MIN_CHUNKED_SIZE: u64 = 1_048_576;

/// Progress is reported about once per this many bytes.
pub const CHUNK_SIZE: u64 = 65536;

/// The size that the answer to a `HEAD` request offers for ranged fetching:
/// `Accept-Ranges` must be exactly `bytes` (a missing header counts as empty)
/// and `Content-Length` must parse as a `u64`.
pub open spec fn offered_range_size(accept_ranges: Option<Seq<char>>, content_length: Option<Seq<char>>) -> Option<u64> {
    let ranges = match accept_ranges {
        Some(a) => a,
        None => Seq::empty(),
    };
    if ranges != "bytes"@ {
        None
    } else {
        match content_length {
            Some(c) => parsed_u64(c),
            None => None,
        }
    }
}

/// The file size to fetch in chunks, given the text of the `Accept-Ranges`
/// and `Content-Length` headers of a `HEAD` answer.
pub fn check_range_support(accept_ranges: Option<&str>, content_length: Option<&str>) -> (r: Option<u64>)
    ensures
        r == offered_range_size(
            match accept_ranges { Some(a) => Some(a@), None => None },
            match content_length { Some(c) => Some(c@), None => None },
        ),
{
    let ranges = match accept_ranges {
        Some(a) => copy_str(a),
        None => String::new(),
    };
    let bytes = copy_str("bytes");
    if ranges != bytes {
        return None;
    }
    match content_length {
        Some(c) => parse_u64(c),
        None => None,
    }
}

/// Whether to try a chunked fetch at all: more than one chunk thread and a
/// non-empty URL.
pub fn wants_chunked(chunk_threads: usize, url: &str) -> (r: bool)
    ensures
        r == (chunk_threads > 1 && url@.len() > 0),
{
    chunk_threads > 1 && !url.is_empty()
}

/// The inclusive byte range of chunk `i` of `threads` for a file of `total`
/// bytes: equal shares, the last chunk taking the remainder.
pub open spec fn chunk_range(total: nat, threads: nat, i: nat) -> (nat, nat) {
    let share = total / threads;
    (
        i * share,
        if i == threads - 1 { (total - 1) as nat } else { ((i + 1) * share - 1) as nat },
    )
}

/// The byte ranges of the chunks, in order.
pub fn chunk_ranges(total: u64, threads: usize) -> (r: Vec<(u64, u64)>)
    requires
        0 < threads <= total,
    ensures
        r@.len() == threads,
        forall|i: int| 0 <= i < threads ==> ((#[trigger] r@[i]).0 as nat, r@[i].1 as nat) == chunk_range(
            total as nat,
            threads as nat,
            i as nat,
        ),
{
    let share: u64 = total / (threads as u64);
    let mut r: Vec<(u64, u64)> = Vec::new();
    let mut i: usize = 0;
    proof {
        assert(share >= 1) by (nonlinear_arith)
            requires
                share == total / (threads as u64),
                0 < threads <= total,
        ;
        assert(share * threads <= total) by (nonlinear_arith)
            requires
                share == total / (threads as u64),
                0 < threads,
        ;
    }
    while i < threads
        invariant
            0 < threads <= total,
            share == total / (threads as u64),
            share >= 1,
            share * threads <= total,
            i <= threads,
            r@.len() == i,
            forall|j: int| 0 <= j < i ==> ((#[trigger] r@[j]).0 as nat, r@[j].1 as nat) == chunk_range(
                total as nat,
                threads as nat,
                j as nat,
            ),
        decreases threads - i,
    {
        proof {
            assert((i + 1) * share <= total && i * share <= (i + 1) * share && (i + 1) * share >= 1) by (nonlinear_arith)
                requires
                    i < threads,
                    share >= 1,
                    share * threads <= total,
            ;
        }
        let start: u64 = (i as u64) * share;
        let end: u64 = if i == threads - 1 {
            total - 1
        } else {
            ((i as u64) + 1) * share - 1
        };
        r.push((start, end));
        i += 1;
    }
    r
}

/// The chunks cover the file exactly: the first starts at byte 0, each starts
/// right after the one before ends, no chunk is empty, and the last ends at
/// the file's last byte.
pub proof fn law_chunks_tile_the_file(total: nat, threads: nat)
    requires
        0 < threads <= total,
    ensures
        chunk_range(total, threads, 0).0 == 0,
        chunk_range(total, threads, (threads - 1) as nat).1 == total - 1,
        forall|i: nat| i < threads ==> (#[trigger] chunk_range(total, threads, i)).0 <= chunk_range(total, threads, i).1,
        forall|i: nat| i + 1 < threads ==> (#[trigger] chunk_range(total, threads, i + 1)).0 == chunk_range(total, threads, i).1 + 1,
{
    let share = total / threads;
    assert(share >= 1 && share * threads <= total) by (nonlinear_arith)
        requires
            share == total / threads,
            0 < threads <= total,
    ;
    assert forall|i: nat| i < threads implies (#[trigger] chunk_range(total, threads, i)).0 <= chunk_range(total, threads, i).1 by {
        assert(i * share + share <= total && (i + 1) * share == i * share + share) by (nonlinear_arith)
            requires
                i < threads,
                share * threads <= total,
        ;
    }
    assert forall|i: nat| i + 1 < threads implies (#[trigger] chunk_range(total, threads, i + 1)).0 == chunk_range(total, threads, i).1 + 1 by {
        assert((i + 1) * share >= 1) by (nonlinear_arith)
            requires
                share >= 1,
        ;
    }
}

/// Whether a chunk writer reports progress after its running count moved
/// from `before` to `after`: the file size is known and a multiple of
/// `CHUNK_SIZE` was passed.
pub fn chunk_progress_due(before: u64, after: u64, total: u64) -> (r: bool)
    ensures
        r == (total > 0 && after / CHUNK_SIZE > before / CHUNK_SIZE),
{
    total > 0 && after / CHUNK_SIZE > before / CHUNK_SIZE
}

/// Whether a single-stream download reports progress: the file size is known
/// and either `CHUNK_SIZE` bytes came since the last report or the file is
/// complete.
pub fn stream_progress_due(downloaded: u64, last_reported: u64, total: u64) -> (r: bool)
    requires
        last_reported <= downloaded,
    ensures
        r == (total > 0 && (downloaded - last_reported >= CHUNK_SIZE || downloaded == total)),
{
    total > 0 && (downloaded - last_reported >= CHUNK_SIZE || downloaded == total)
}

/// The extension given to the temporary file of a download started at
/// `millis` milliseconds after the epoch: `tmp.<millis>`.
pub fn tmp_extension(millis: u128) -> (r: String)
    ensures
        r@ == "tmp."@ + decimal(millis as nat),
{
    let mut r = copy_str("tmp.");
    push_decimal(&mut r, millis);
    r
}

/// The extension given to the file of chunk `i`: `part<i>`.
pub fn part_extension(i: usize) -> (r: String)
    ensures
        r@ == "part"@ + decimal(i as nat),
{
    let mut r = copy_str("part");
    push_decimal(&mut r, i as u128);
    r
}

/// What `Path::with_extension` makes of `path` and `extension` (both taken as
/// text; the result is the lossless text of the new path), under the path
/// rules of the platform the library is built for.
pub uninterp spec fn path_with_extension(path: Seq<char>, extension: Seq<char>) -> Seq<char>;

/// Calls `std::path::Path::new(path).with_extension(extension)` and takes the
/// text of the result; the claim is that this is
/// `path_with_extension(path, extension)`. `Path::with_extension` panics
/// when the extension holds a path separator, so such extensions are left out.
#[verifier::external_body]
fn with_extension(path: &str, extension: &str) -> (r: String)
    requires
        no_path_separator(extension@),
    ensures
        r@ == path_with_extension(path@, extension@),
{
    std::path::Path::new(path).with_extension(extension).to_string_lossy().into_owned()
}

/// Whether `text` holds neither `/` nor a backslash (a path separator on some platform).
pub open spec fn no_path_separator(text: Seq<char>) -> bool {
    forall|i: int| 0 <= i < text.len() ==> #[trigger] text[i] != '/' && text[i] != '\\'
}

proof fn lemma_word_and_number_have_no_separator(word: Seq<char>, n: nat)
    requires
        no_path_separator(word),
    ensures
        no_path_separator(word + decimal(n)),
{
    lemma_decimal_digits(n);
    let t = word + decimal(n);
    assert forall|i: int| 0 <= i < t.len() implies #[trigger] t[i] != '/' && t[i] != '\\' by {
        if i >= word.len() {
            assert(t[i] == decimal(n)[i - word.len()]);
            assert(is_digit(decimal(n)[i - word.len()]));
        }
    }
}

/// The temporary file that a download to `local_path` started at `millis`
/// milliseconds after the epoch writes to.
pub fn get_tmp_path(local_path: &str, millis: u128) -> (r: String)
    ensures
        r@ == path_with_extension(local_path@, "tmp."@ + decimal(millis as nat)),
{
    let ext = tmp_extension(millis);
    proof {
        reveal_strlit("tmp.");
        lemma_word_and_number_have_no_separator("tmp."@, millis as nat);
    }
    with_extension(local_path, ext.as_str())
}

/// The file that chunk `i` of a download to `local_path` writes to.
pub fn get_part_path(local_path: &str, i: usize) -> (r: String)
    ensures
        r@ == path_with_extension(local_path@, "part"@ + decimal(i as nat)),
{
    let ext = part_extension(i);
    proof {
        reveal_strlit("part");
        lemma_word_and_number_have_no_separator("part"@, i as nat);
    }
    with_extension(local_path, ext.as_str())
}

/// Whether a file name is left over from an interrupted download: it holds
/// `.tmp.`, or its text after the last `.part` is all ASCII digits (possibly
/// none).
pub open spec fn is_leftover_name(name: Seq<char>) -> bool {
    ||| contains_seq(name, ".tmp."@)
    ||| exists|i: int| {
        &&& #[trigger] occurs_at(name, ".part"@, i)
        &&& forall|j: int| i < j ==> !occurs_at(name, ".part"@, j)
        &&& all_digits(name.skip(i + 5))
    }
}

/// Whether the file called `name` is a leftover to delete before a run.
pub fn is_leftover_file(name: &str) -> (r: bool)
    ensures
        r == is_leftover_name(name@),
{
    let v = chars_of(name);
    let tmp = chars_of(".tmp.");
    if find_last(&v, &tmp).is_some() {
        return true;
    }
    let part = chars_of(".part");
    proof {
        reveal_strlit(".part");
    }
    match find_last(&v, &part) {
        None => false,
        Some(i) => {
            assert(part@.len() == 5);
            assert(occurs_at(v@, part@, i as int));
            assert(i + 5 <= v@.len());
            assert(v@.len() == v.len());
            let r = digits_from(&v, i + 5);
            r
        },
    }
}

/// Whether every character of `v` from position `start` on is an ASCII digit.
fn digits_from(v: &Vec<char>, start: usize) -> (r: bool)
    requires
        start <= v.len(),
    ensures
        r == all_digits(v@.skip(start as int)),
{
    let mut k: usize = start;
    while k < v.len()
        invariant
            start <= k <= v.len(),
            forall|m: int| start <= m < k ==> is_digit(#[trigger] v@[m]),
        decreases v.len() - k,
    {
        if v[k] < '0' || v[k] > '9' {
            assert(!is_digit(v@.skip(start as int)[k - start]));
            return false;
        }
        k += 1;
    }
    assert forall|m: int| 0 <= m < v@.skip(start as int).len() implies is_digit(#[trigger] v@.skip(start as int)[m]) by {
        assert(v@.skip(start as int)[m] == v@[m + start]);
    }
    true
}

/// A temporary file named by `tmp_extension` or a chunk file named by
/// `part_extension`, whatever the name before the extension, is recognised
/// as a leftover by `is_leftover_file`.
pub proof fn law_temporary_names_are_leftovers(stem: Seq<char>, millis: nat, index: nat)
    ensures
        is_leftover_name(stem + "."@ + ("tmp."@ + decimal(millis))),
        is_leftover_name(stem + "."@ + ("part"@ + decimal(index))),
{
    reveal_strlit(".");
    reveal_strlit("tmp.");
    reveal_strlit(".tmp.");
    reveal_strlit("part");
    reveal_strlit(".part");
    let n = stem.len() as int;
    let tmp_name = stem + "."@ + ("tmp."@ + decimal(millis));
    assert(tmp_name.subrange(n, n + 5) =~= ".tmp."@);
    assert(occurs_at(tmp_name, ".tmp."@, n));

    let digits = decimal(index);
    lemma_decimal_digits(index);
    let part_name = stem + "."@ + ("part"@ + digits);
    assert(part_name.subrange(n, n + 5) =~= ".part"@);
    assert(occurs_at(part_name, ".part"@, n));
    assert(part_name.skip(n + 5) =~= digits);
    assert forall|j: int| n < j implies !occurs_at(part_name, ".part"@, j) by {
        if occurs_at(part_name, ".part"@, j) {
            assert(part_name.subrange(j, j + 5)[0] == '.');
            assert(part_name[j] == '.');
            if j < n + 5 {
                assert(part_name[j] == "part"@[j - n - 1]);
            } else {
                assert(part_name[j] == digits[j - n - 5]);
                assert(is_digit(digits[j - n - 5]));
            }
        }
    }
}

/// A name that holds neither `.tmp.` nor `.part` is never deleted as a
/// leftover; one that holds `.tmp.` always is; one whose last `.part` is
/// followed by digits only (or nothing) always is, and one whose last `.part`
/// is followed by anything else, with no `.tmp.`, is not.
pub proof fn law_leftover_rule(name: Seq<char>, i: int)
    ensures
        !contains_seq(name, ".tmp."@) && !contains_seq(name, ".part"@) ==> !is_leftover_name(name),
        contains_seq(name, ".tmp."@) ==> is_leftover_name(name),
        (occurs_at(name, ".part"@, i) && (forall|j: int| i < j ==> !occurs_at(name, ".part"@, j))) ==> (
            is_leftover_name(name) <==> (contains_seq(name, ".tmp."@) || all_digits(name.skip(i + 5)))),
{
    if occurs_at(name, ".part"@, i) && (forall|j: int| i < j ==> !occurs_at(name, ".part"@, j)) {
        if is_leftover_name(name) && !contains_seq(name, ".tmp."@) {
            let k = choose|k: int| {
                &&& #[trigger] occurs_at(name, ".part"@, k)
                &&& forall|j: int| k < j ==> !occurs_at(name, ".part"@, j)
                &&& all_digits(name.skip(k + 5))
            };
            if k < i {
            } else if i < k {
            }
            assert(k == i);
        }
    }
    if !contains_seq(name, ".tmp."@) && !contains_seq(name, ".part"@) {
        if is_leftover_name(name) {
            let k = choose|k: int| {
                &&& #[trigger] occurs_at(name, ".part"@, k)
                &&& forall|j: int| k < j ==> !occurs_at(name, ".part"@, j)
                &&& all_digits(name.skip(k + 5))
            };
            assert(contains_seq(name, ".part"@));
        }
    }
}

/// A server offers ranged fetching of `n` bytes only when it answers
/// `Accept-Ranges: bytes` and a `Content-Length` that reads as `n`; any other
/// `Accept-Ranges`, or a missing or unreadable length, offers nothing.
pub proof fn law_range_offer(accept_ranges: Option<Seq<char>>, content_length: Option<Seq<char>>, n: u64)
    ensures
        offered_range_size(accept_ranges, content_length) == Some(n) <==> (accept_ranges == Some("bytes"@)
            && content_length is Some && parsed_u64(content_length->0) == Some(n)),
        accept_ranges != Some("bytes"@) ==> offered_range_size(accept_ranges, content_length) is None,
{
    reveal_strlit("bytes");
    assert(Seq::<char>::empty() != "bytes"@) by {
        assert("bytes"@.len() == 5);
    }
}

} // verus!
