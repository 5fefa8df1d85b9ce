//! The run-wide flags that the downloader consults: whether the user asked
//! to cancel, whether all downloads are done, and how many bytes have come in.

use vstd::prelude::*;

verus! {

/// The run-wide download flags.
pub struct DownloadFlags {
    pub cancel: bool,
    pub all_done: bool,
    pub total_bytes: u64,
}

/// The flags of a fresh run: nothing cancelled, nothing done, no bytes.
pub open spec fn fresh_flags() -> DownloadFlags {
    DownloadFlags { cancel: false, all_done: false, total_bytes: 0 }
}

/// `flags` with a cancel request recorded.
pub open spec fn cancelled(flags: DownloadFlags) -> DownloadFlags {
    DownloadFlags { cancel: true, ..flags }
}

/// `flags` with the end of all downloads recorded.
pub open spec fn finished(flags: DownloadFlags) -> DownloadFlags {
    DownloadFlags { all_done: true, ..flags }
}

/// `flags` with `n` more bytes counted; the counter wraps as an atomic one does.
pub open spec fn received(flags: DownloadFlags, n: u64) -> DownloadFlags {
    DownloadFlags { total_bytes: ((flags.total_bytes + n) % 0x1_0000_0000_0000_0000) as u64, ..flags }
}

impl DownloadFlags {
    /// Flags for a fresh run.
    pub fn new() -> (f: DownloadFlags)
        ensures
            f == fresh_flags(),
    {
        DownloadFlags { cancel: false, all_done: false, total_bytes: 0 }
    }
}

/// Asks the run to stop; nothing else changes.
pub fn request_cancel(flags: &mut DownloadFlags)
    ensures
        *final(flags) == cancelled(*old(flags)),
{
    flags.cancel = true;
}

/// Clears the flags before a new run.
pub fn reset_cancel(flags: &mut DownloadFlags)
    ensures
        *final(flags) == fresh_flags(),
{
    flags.cancel = false;
    flags.all_done = false;
    flags.total_bytes = 0;
}

/// Whether the run has been asked to stop.
pub fn is_cancelled(flags: &DownloadFlags) -> (r: bool)
    ensures
        r == flags.cancel,
{
    flags.cancel
}

/// Records that every download of the run has finished.
pub fn mark_all_done(flags: &mut DownloadFlags)
    ensures
        *final(flags) == finished(*old(flags)),
{
    flags.all_done = true;
}

/// Counts `n` more received bytes.
pub fn add_received(flags: &mut DownloadFlags, n: u64)
    ensures
        *final(flags) == received(*old(flags), n),
{
    flags.total_bytes = flags.total_bytes.wrapping_add(n);
}

/// One tick of the speed reporter: the bytes received since the last tick
/// (never negative), and the total to compare against at the next tick.
pub fn speed_tick(last_total: u64, current_total: u64) -> (r: (u64, u64))
    ensures
        r.0 == (if current_total >= last_total { current_total - last_total } else { 0 }),
        r.1 == current_total,
{
    (current_total.saturating_sub(last_total), current_total)
}

/// Whether the speed reporter stops after this tick: the run was cancelled or
/// every download is done.
pub fn speed_reporter_stops(flags: &DownloadFlags) -> (r: bool)
    ensures
        r == (flags.cancel || flags.all_done),
{
    flags.cancel || flags.all_done
}

/// Once cancelled, a run stays cancelled while bytes arrive and downloads
/// finish, until a reset; a reset clears the request and the byte count.
pub proof fn law_cancel_sticks_until_reset(flags: DownloadFlags, n: u64)
    ensures
        cancelled(flags).cancel,
        received(cancelled(flags), n).cancel,
        finished(cancelled(flags)).cancel,
        !fresh_flags().cancel,
        fresh_flags().total_bytes == 0,
        !fresh_flags().all_done,
{
}

/// A cancel request leaves the byte count and the done flag as they were.
pub proof fn law_cancel_keeps_counts(flags: DownloadFlags)
    ensures
        cancelled(flags).total_bytes == flags.total_bytes,
        cancelled(flags).all_done == flags.all_done,
{
}

} // verus!
