use update_downloader::retry::{checksum_matches, retry_step, RetryAction, RetryEvent, RetryState};
use update_downloader::transfer::{get_part_path, get_tmp_path, 
    check_range_support, chunk_progress_due, chunk_ranges, is_leftover_file, part_extension, stream_progress_due,
    tmp_extension, wants_chunked, CHUNK_SIZE, MIN_CHUNKED_SIZE,
};

#[test]
fn range_support_needs_bytes_and_length() {
    assert_eq!(check_range_support(Some("bytes"), Some("2097152")), Some(2_097_152));
    assert_eq!(check_range_support(Some("none"), Some("10")), None);
    assert_eq!(check_range_support(None, Some("10")), None);
    assert_eq!(check_range_support(Some("bytes"), None), None);
    assert_eq!(check_range_support(Some("bytes"), Some("12x")), None);
    assert_eq!(check_range_support(Some("Bytes"), Some("10")), None);
}

#[test]
fn chunked_only_with_threads_and_url() {
    assert!(wants_chunked(4, "http://h/a"));
    assert!(!wants_chunked(1, "http://h/a"));
    assert!(!wants_chunked(4, ""));
}

#[test]
fn chunks_tile_the_file() {
    assert_eq!(chunk_ranges(10, 3), vec![(0, 2), (3, 5), (6, 9)]);
    assert_eq!(chunk_ranges(4, 4), vec![(0, 0), (1, 1), (2, 2), (3, 3)]);
    assert_eq!(chunk_ranges(7, 1), vec![(0, 6)]);
    let total = 3 * MIN_CHUNKED_SIZE + 5;
    let r = chunk_ranges(total, 4);
    assert_eq!(r[0].0, 0);
    assert_eq!(r[3].1, total - 1);
    for w in r.windows(2) {
        assert_eq!(w[1].0, w[0].1 + 1);
    }
}

#[test]
fn progress_reporting_points() {
    assert!(chunk_progress_due(CHUNK_SIZE - 1, CHUNK_SIZE, 1000));
    assert!(!chunk_progress_due(1, 2, 1000));
    assert!(!chunk_progress_due(CHUNK_SIZE - 1, CHUNK_SIZE, 0));
    assert!(stream_progress_due(CHUNK_SIZE, 0, 1_000_000));
    assert!(stream_progress_due(10, 5, 10));
    assert!(!stream_progress_due(10, 5, 20));
    assert!(!stream_progress_due(CHUNK_SIZE, 0, 0));
}

#[test]
fn temporary_names() {
    assert_eq!(tmp_extension(1_700_000_000_123), "tmp.1700000000123");
    assert_eq!(part_extension(0), "part0");
    assert_eq!(part_extension(12), "part12");
    assert!(is_leftover_file(&format!("core.{}", tmp_extension(42))));
    assert!(is_leftover_file(&format!("core.{}", part_extension(3))));
}

#[test]
fn leftover_names() {
    assert!(is_leftover_file("a.tmp.123"));
    assert!(is_leftover_file("a.part7"));
    assert!(is_leftover_file("a.part"));
    assert!(is_leftover_file("x.part1.part22"));
    assert!(!is_leftover_file("a.part7b"));
    assert!(!is_leftover_file("a.zip"));
    assert!(!is_leftover_file("a.partial.zip"));
    assert!(!is_leftover_file("a.tmp"));
}

#[test]
fn checksums_compare_exactly() {
    assert!(checksum_matches(Some("abc"), "abc"));
    assert!(!checksum_matches(Some("abc"), "ABC"));
    assert!(!checksum_matches(None, ""));
}

#[test]
fn retries_until_the_last_attempt() {
    let mut s = RetryState::new(1, false);
    assert_eq!(retry_step(&mut s, RetryEvent::Ready { cancelled: false }), RetryAction::FetchStream { warn_no_range: false, clean_parts: false });
    assert_eq!(s.attempt, 1);
    assert_eq!(retry_step(&mut s, RetryEvent::StreamDone(None)), RetryAction::Retry { pause: true });
    assert_eq!(retry_step(&mut s, RetryEvent::Ready { cancelled: false }), RetryAction::FetchStream { warn_no_range: false, clean_parts: false });
    assert_eq!(s.attempt, 2);
    assert_eq!(retry_step(&mut s, RetryEvent::StreamDone(Some(false))), RetryAction::ReportFailed);
    assert_eq!(retry_step(&mut s, RetryEvent::Ready { cancelled: false }), RetryAction::Stop);
    assert_eq!(s.attempt, 2);
}

#[test]
fn chunked_attempt_paths() {
    let mut s = RetryState::new(0, true);
    assert_eq!(retry_step(&mut s, RetryEvent::Ready { cancelled: false }), RetryAction::ProbeRange);
    assert_eq!(retry_step(&mut s, RetryEvent::RangeProbed(None)), RetryAction::FetchStream { warn_no_range: true, clean_parts: false });
    assert_eq!(retry_step(&mut s, RetryEvent::RangeProbed(Some(10))), RetryAction::FetchStream { warn_no_range: false, clean_parts: false });
    assert_eq!(retry_step(&mut s, RetryEvent::RangeProbed(Some(MIN_CHUNKED_SIZE))), RetryAction::FetchChunked(MIN_CHUNKED_SIZE));
    assert_eq!(retry_step(&mut s, RetryEvent::ChunkedDone(None)), RetryAction::FetchStream { warn_no_range: false, clean_parts: true });
    assert_eq!(retry_step(&mut s, RetryEvent::ChunkedDone(Some(true))), RetryAction::ReportCompleted);
    assert_eq!(retry_step(&mut s, RetryEvent::ChunkedDone(Some(false))), RetryAction::ReportFailed);
}

#[test]
fn cancelled_run_reports_pending() {
    let mut s = RetryState::new(3, true);
    assert_eq!(retry_step(&mut s, RetryEvent::Ready { cancelled: true }), RetryAction::ReportPending);
    assert_eq!(s.attempt, 0);
}

#[test]
fn temporary_paths_replace_the_extension() {
    assert_eq!(get_tmp_path("dest/webapp/core.zip", 17), "dest/webapp/core.tmp.17");
    assert_eq!(get_part_path("dest/webapp/core.zip", 2), "dest/webapp/core.part2");
    assert_eq!(get_part_path("dest/noext", 0), "dest/noext.part0");
    assert!(is_leftover_file("core.tmp.17"));
}
