use update_downloader::control::{
    add_received, is_cancelled, mark_all_done, request_cancel, reset_cancel, speed_reporter_stops, speed_tick, DownloadFlags,
};

#[test]
fn cancel_sticks_until_reset() {
    let mut f = DownloadFlags::new();
    assert!(!is_cancelled(&f));
    request_cancel(&mut f);
    assert!(is_cancelled(&f));
    add_received(&mut f, 100);
    mark_all_done(&mut f);
    assert!(is_cancelled(&f));
    assert_eq!(f.total_bytes, 100);
    reset_cancel(&mut f);
    assert!(!is_cancelled(&f));
    assert!(!f.all_done);
    assert_eq!(f.total_bytes, 0);
}

#[test]
fn byte_counter_wraps() {
    let mut f = DownloadFlags::new();
    add_received(&mut f, u64::MAX);
    add_received(&mut f, 2);
    assert_eq!(f.total_bytes, 1);
}

#[test]
fn speed_is_difference_never_negative() {
    assert_eq!(speed_tick(100, 350), (250, 350));
    assert_eq!(speed_tick(500, 0), (0, 0));
    let mut f = DownloadFlags::new();
    assert!(!speed_reporter_stops(&f));
    mark_all_done(&mut f);
    assert!(speed_reporter_stops(&f));
    let mut g = DownloadFlags::new();
    request_cancel(&mut g);
    assert!(speed_reporter_stops(&g));
}
