//! The retry loop of one file's download, as a state machine: the caller
//! performs each action (probe, fetch, report, wait) and feeds back what
//! happened as the next event.

use vstd::prelude::*;
use crate::transfer::MIN_CHUNKED_SIZE;
use crate::text::copy_str;

verus! {

/// Where one file's download stands.
pub struct RetryState {
    /// Attempts begun so far.
    pub attempt: usize,
    /// Further attempts allowed after the first.
    pub retries: usize,
    /// Whether each attempt first tries a chunked fetch.
    pub chunked: bool,
}

/// What the caller observed since the last action.
pub enum RetryEvent {
    /// The loop is at its top; `cancelled` is the run's cancel flag.
    Ready { cancelled: bool },
    /// The `HEAD` probe offered this size for ranged fetching, or nothing.
    RangeProbed(Option<u64>),
    /// A chunked fetch ended: `None` if the transfer failed, else whether the
    /// checksum of the assembled file matched.
    ChunkedDone(Option<bool>),
    /// A single-stream fetch ended, likewise.
    StreamDone(Option<bool>),
}

/// What the caller does next.
#[derive(Debug, PartialEq, Eq, Structural)]
pub enum RetryAction {
    /// The run was cancelled before another attempt: report the file as
    /// pending and stop.
    ReportPending,
    /// An attempt has begun (report it as downloading); probe the server for
    /// ranged fetching.
    ProbeRange,
    /// Fetch this many bytes in chunks.
    FetchChunked(u64),
    /// Fetch in a single stream; first warn that ranges are unsupported, or
    /// delete the chunk files of a failed chunked fetch, as flagged.
    FetchStream { warn_no_range: bool, clean_parts: bool },
    /// The file arrived intact: report it completed and stop.
    ReportCompleted,
    /// The last attempt failed: report the file failed and stop.
    ReportFailed,
    /// Try again, after a pause if flagged.
    Retry { pause: bool },
    /// No attempts are left: stop.
    Stop,
}

/// A state that the loop can be in: at most one attempt beyond the retries.
pub open spec fn retry_wf(s: RetryState) -> bool {
    s.retries < usize::MAX && s.attempt <= s.retries + 1
}

/// The answer to a failed attempt: give up after the last one, else retry.
pub open spec fn after_failure(s: RetryState, pause: bool) -> RetryAction {
    if s.attempt > s.retries {
        RetryAction::ReportFailed
    } else {
        RetryAction::Retry { pause }
    }
}

/// The next state and action of the loop in state `s` on event `e`.
pub open spec fn retry_next(s: RetryState, e: RetryEvent) -> (RetryState, RetryAction) {
    match e {
        RetryEvent::Ready { cancelled } => if s.attempt > s.retries {
            (s, RetryAction::Stop)
        } else if cancelled {
            (s, RetryAction::ReportPending)
        } else {
            let next = RetryState { attempt: (s.attempt + 1) as usize, ..s };
            if s.chunked {
                (next, RetryAction::ProbeRange)
            } else {
                (next, RetryAction::FetchStream { warn_no_range: false, clean_parts: false })
            }
        },
        RetryEvent::RangeProbed(offer) => match offer {
            Some(size) => if size >= MIN_CHUNKED_SIZE {
                (s, RetryAction::FetchChunked(size))
            } else {
                (s, RetryAction::FetchStream { warn_no_range: false, clean_parts: false })
            },
            None => (s, RetryAction::FetchStream { warn_no_range: true, clean_parts: false }),
        },
        RetryEvent::ChunkedDone(result) => match result {
            Some(true) => (s, RetryAction::ReportCompleted),
            Some(false) => (s, after_failure(s, false)),
            None => (s, RetryAction::FetchStream { warn_no_range: false, clean_parts: true }),
        },
        RetryEvent::StreamDone(result) => match result {
            Some(true) => (s, RetryAction::ReportCompleted),
            Some(false) => (s, after_failure(s, false)),
            None => (s, after_failure(s, true)),
        },
    }
}

impl RetryState {
    /// The state before the first attempt.
    pub fn new(retries: usize, chunked: bool) -> (s: RetryState)
        requires
            retries < usize::MAX,
        ensures
            s.attempt == 0,
            s.retries == retries,
            s.chunked == chunked,
            retry_wf(s),
    {
        RetryState { attempt: 0, retries, chunked }
    }
}

/// Advances the loop on event `e` and says what to do next.
pub fn retry_step(s: &mut RetryState, e: RetryEvent) -> (a: RetryAction)
    requires
        retry_wf(*old(s)),
    ensures
        (*final(s), a) == retry_next(*old(s), e),
        retry_wf(*final(s)),
{
    match e {
        RetryEvent::Ready { cancelled } => {
            if s.attempt > s.retries {
                RetryAction::Stop
            } else if cancelled {
                RetryAction::ReportPending
            } else {
                s.attempt = s.attempt + 1;
                if s.chunked {
                    RetryAction::ProbeRange
                } else {
                    RetryAction::FetchStream { warn_no_range: false, clean_parts: false }
                }
            }
        },
        RetryEvent::RangeProbed(offer) => match offer {
            Some(size) => if size >= MIN_CHUNKED_SIZE {
                RetryAction::FetchChunked(size)
            } else {
                RetryAction::FetchStream { warn_no_range: false, clean_parts: false }
            },
            None => RetryAction::FetchStream { warn_no_range: true, clean_parts: false },
        },
        RetryEvent::ChunkedDone(result) => match result {
            Some(true) => RetryAction::ReportCompleted,
            Some(false) => failure_action(s, false),
            None => RetryAction::FetchStream { warn_no_range: false, clean_parts: true },
        },
        RetryEvent::StreamDone(result) => match result {
            Some(true) => RetryAction::ReportCompleted,
            Some(false) => failure_action(s, false),
            None => failure_action(s, true),
        },
    }
}

fn failure_action(s: &RetryState, pause: bool) -> (a: RetryAction)
    ensures
        a == after_failure(*s, pause),
{
    if s.attempt > s.retries {
        RetryAction::ReportFailed
    } else {
        RetryAction::Retry { pause }
    }
}

/// Whether a computed checksum (absent when it could not be computed in
/// time) equals the expected one.
pub fn checksum_matches(computed: Option<&str>, expected: &str) -> (r: bool)
    ensures
        r == match computed {
            Some(c) => c@ == expected@,
            None => false,
        },
{
    match computed {
        Some(c) => copy_str(c) == copy_str(expected),
        None => false,
    }
}

/// Attempts never exceed the retries plus one: an attempt begins only while
/// one is left, and with none left the loop stops.
pub proof fn law_attempts_bounded(s: RetryState, e: RetryEvent)
    requires
        retry_wf(s),
    ensures
        retry_wf(retry_next(s, e).0),
        retry_next(s, e).0.attempt > s.attempt ==> s.attempt <= s.retries && retry_next(s, e).0.attempt == s.attempt + 1,
        (s.attempt > s.retries && (e is Ready)) ==> (retry_next(s, e).1 == RetryAction::Stop),
{
}

/// A fetch whose checksum matches always completes the file; a failed fetch
/// is retried while attempts remain and reported failed on the last one; a
/// cancelled run never begins another attempt.
pub proof fn law_outcomes(s: RetryState, verified: bool, transfer_ok: bool, chunked_fetch: bool)
    requires
        retry_wf(s),
    ensures
        retry_next(s, if chunked_fetch { RetryEvent::ChunkedDone(Some(true)) } else { RetryEvent::StreamDone(Some(true)) }).1
            == RetryAction::ReportCompleted,
        s.attempt <= s.retries ==> retry_next(s, RetryEvent::StreamDone(None)).1 == (RetryAction::Retry { pause: true }),
        s.attempt <= s.retries ==> retry_next(s, RetryEvent::StreamDone(Some(false))).1 == (RetryAction::Retry { pause: false }),
        s.attempt <= s.retries ==> retry_next(s, RetryEvent::ChunkedDone(Some(false))).1 == (RetryAction::Retry { pause: false }),
        s.attempt > s.retries ==> retry_next(s, RetryEvent::StreamDone(None)).1 == RetryAction::ReportFailed,
        s.attempt > s.retries ==> retry_next(s, RetryEvent::StreamDone(Some(false))).1 == RetryAction::ReportFailed,
        s.attempt > s.retries ==> retry_next(s, RetryEvent::ChunkedDone(Some(false))).1 == RetryAction::ReportFailed,
        retry_next(s, (RetryEvent::Ready { cancelled: true })).0 == s,
        retry_next(s, (RetryEvent::Ready { cancelled: true })).1 != RetryAction::ProbeRange,
{
}

/// A cancelled run never fetches again: on reaching the top of the loop with
/// the cancel flag set, whatever attempt it is at, the file is reported
/// pending (while attempts remain) or the loop stops, and the state is left
/// as it was.
pub proof fn law_cancel_stops_every_attempt(s: RetryState)
    requires
        retry_wf(s),
    ensures
        s.attempt <= s.retries ==> retry_next(s, (RetryEvent::Ready { cancelled: true })) == (s, RetryAction::ReportPending),
        s.attempt > s.retries ==> retry_next(s, (RetryEvent::Ready { cancelled: true })) == (s, RetryAction::Stop),
        !(retry_next(s, (RetryEvent::Ready { cancelled: true })).1 is ProbeRange),
        !(retry_next(s, (RetryEvent::Ready { cancelled: true })).1 is FetchStream),
        !(retry_next(s, (RetryEvent::Ready { cancelled: true })).1 is FetchChunked),
{
}

/// Without a cancel, every attempt that is left is begun: the attempt count
/// goes up by one, and the attempt starts with a range probe exactly when
/// chunked fetching is on, else with a plain single-stream fetch.
pub proof fn law_uncancelled_attempt_begins(s: RetryState)
    requires
        retry_wf(s),
        s.attempt <= s.retries,
    ensures
        retry_next(s, (RetryEvent::Ready { cancelled: false })).0.attempt == s.attempt + 1,
        retry_next(s, (RetryEvent::Ready { cancelled: false })).0.retries == s.retries,
        retry_next(s, (RetryEvent::Ready { cancelled: false })).0.chunked == s.chunked,
        s.chunked ==> retry_next(s, (RetryEvent::Ready { cancelled: false })).1 == RetryAction::ProbeRange,
        !s.chunked ==> retry_next(s, (RetryEvent::Ready { cancelled: false })).1
            == (RetryAction::FetchStream { warn_no_range: false, clean_parts: false }),
{
}

/// A range offer of at least `MIN_CHUNKED_SIZE` bytes is fetched in chunks of
/// exactly that size; a smaller offer falls back to one stream silently; no
/// offer falls back with a warning; a failed chunked fetch falls back after
/// cleaning its chunk files. None of these changes the attempt count.
pub proof fn law_chunk_fallbacks(s: RetryState, size: u64)
    ensures
        size >= MIN_CHUNKED_SIZE ==> retry_next(s, RetryEvent::RangeProbed(Some(size))) == (s, RetryAction::FetchChunked(size)),
        size < MIN_CHUNKED_SIZE ==> retry_next(s, RetryEvent::RangeProbed(Some(size)))
            == (s, (RetryAction::FetchStream { warn_no_range: false, clean_parts: false })),
        retry_next(s, RetryEvent::RangeProbed(None)) == (s, (RetryAction::FetchStream { warn_no_range: true, clean_parts: false })),
        retry_next(s, RetryEvent::ChunkedDone(None)) == (s, (RetryAction::FetchStream { warn_no_range: false, clean_parts: true })),
{
}

} // verus!
