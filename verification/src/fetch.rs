//! Chunk-fetch retry policy.
//!
//! Fetching a chunk from the remote source can fail three ways: transiently
//! (connection reset, server error, timeout), permanently (client error,
//! local write failure), or by delivering corrupt bytes (a digest mismatch
//! after the transfer). Transient failures are retried with exponential
//! backoff up to a fixed budget; permanent failures propagate at once;
//! corrupt data earns exactly one extra attempt before it is fatal.
//!
//! The policy is a pure step function from state and event to next state
//! and decision; the caller performs the transfer and the waiting.

use vstd::prelude::*;

verus! {

/// How many transient failures are retried before giving up.
pub const RETRY_BUDGET: u32 = 3;

/// How many corrupt transfers are retried before giving up: one extra
/// attempt, then fatal.
pub const CORRUPT_RETRY_BUDGET: u32 = 1;

/// First retry delay, in milliseconds.
pub const BACKOFF_BASE_MS: u64 = 500;

/// Retry delays never exceed this, in milliseconds.
pub const BACKOFF_CAP_MS: u64 = 8000;

/// What one transfer attempt reported.
#[derive(Clone, Copy, PartialEq, Eq, Structural, Debug)]
pub enum FetchEvent {
    /// The bytes arrived and their digest matched.
    Received,
    /// Connection reset, server-side error, or timeout.
    TransientError,
    /// Client-side error or local write failure.
    PermanentError,
    /// The bytes arrived but their digest did not match.
    CorruptData,
}

/// Why a fetch was abandoned.
#[derive(Clone, Copy, PartialEq, Eq, Structural, Debug)]
pub enum FetchFailure {
    /// The transient-failure retry budget ran out.
    Exhausted,
    /// A permanent failure: no retry is allowed.
    Permanent,
    /// The data was corrupt again after its one retry.
    Corrupt,
}

/// Retry bookkeeping for one chunk.
#[derive(Clone, Copy, PartialEq, Eq, Structural, Debug)]
pub struct FetchState {
    /// Transient failures seen so far.
    pub transient_seen: u32,
    /// Corrupt transfers seen so far.
    pub corrupt_seen: u32,
}

/// What the fetcher does after an attempt.
#[derive(Clone, Copy, PartialEq, Eq, Structural, Debug)]
pub enum FetchDecision {
    /// The chunk is done; hand its bytes on.
    Deliver,
    /// Try again after this many milliseconds.
    RetryAfter { delay_ms: u64 },
    /// Give up for this reason.
    Fail { reason: FetchFailure },
}

/// The delay before retry number `n` (counting from zero): exponential
/// backoff from the base delay, capped.
pub open spec fn backoff_spec(n: u32) -> u64 {
    if n < 5 && (BACKOFF_BASE_MS << n) < BACKOFF_CAP_MS {
        BACKOFF_BASE_MS << n
    } else {
        BACKOFF_CAP_MS
    }
}

/// The delay before retry number `n`.
pub fn backoff_ms(n: u32) -> (d: u64)
    ensures
        d == backoff_spec(n),
{
    if n < 5 {
        let d = BACKOFF_BASE_MS << n;
        assert(BACKOFF_BASE_MS << n < BACKOFF_CAP_MS || BACKOFF_BASE_MS << n >= BACKOFF_CAP_MS)
            by (bit_vector);
        if d < BACKOFF_CAP_MS {
            return d;
        }
        BACKOFF_CAP_MS
    } else {
        BACKOFF_CAP_MS
    }
}

/// A fresh retry state: nothing failed yet.
pub fn fetch_start() -> (s: FetchState)
    ensures
        s == (FetchState { transient_seen: 0, corrupt_seen: 0 }),
{
    FetchState { transient_seen: 0, corrupt_seen: 0 }
}

/// Decide what follows one transfer attempt.
///
/// Delivered bytes are final. A permanent error fails at once. A transient
/// error is retried with backoff while the budget lasts, then fails as
/// exhausted. Corrupt data is retried once, then fails as corrupt.
pub fn next_fetch_step(state: FetchState, event: FetchEvent) -> (r: (FetchState, FetchDecision))
    ensures
        event is Received ==> r == (state, FetchDecision::Deliver),
        event is PermanentError ==> r == (
            state,
            FetchDecision::Fail { reason: FetchFailure::Permanent },
        ),
        event is TransientError && state.transient_seen < RETRY_BUDGET ==> r == (
            FetchState { transient_seen: (state.transient_seen + 1) as u32, ..state },
            FetchDecision::RetryAfter { delay_ms: backoff_spec(state.transient_seen) },
        ),
        event is TransientError && state.transient_seen >= RETRY_BUDGET ==> r == (
            state,
            FetchDecision::Fail { reason: FetchFailure::Exhausted },
        ),
        event is CorruptData && state.corrupt_seen < CORRUPT_RETRY_BUDGET ==> r == (
            FetchState { corrupt_seen: (state.corrupt_seen + 1) as u32, ..state },
            FetchDecision::RetryAfter { delay_ms: backoff_spec(state.transient_seen) },
        ),
        event is CorruptData && state.corrupt_seen >= CORRUPT_RETRY_BUDGET ==> r == (
            state,
            FetchDecision::Fail { reason: FetchFailure::Corrupt },
        ),
{
    match event {
        FetchEvent::Received => (state, FetchDecision::Deliver),
        FetchEvent::PermanentError => (state, FetchDecision::Fail {
            reason: FetchFailure::Permanent,
        }),
        FetchEvent::TransientError => {
            if state.transient_seen < RETRY_BUDGET {
                let delay_ms = backoff_ms(state.transient_seen);
                (
                    FetchState { transient_seen: state.transient_seen + 1, ..state },
                    FetchDecision::RetryAfter { delay_ms },
                )
            } else {
                (state, FetchDecision::Fail { reason: FetchFailure::Exhausted })
            }
        },
        FetchEvent::CorruptData => {
            if state.corrupt_seen < CORRUPT_RETRY_BUDGET {
                let delay_ms = backoff_ms(state.transient_seen);
                (
                    FetchState { corrupt_seen: state.corrupt_seen + 1, ..state },
                    FetchDecision::RetryAfter { delay_ms },
                )
            } else {
                (state, FetchDecision::Fail { reason: FetchFailure::Corrupt })
            }
        },
    }
}

/// What a whole fetch concludes, given the attempts' events in order:
/// the index of the delivering attempt, or the first fatal failure.
pub open spec fn resolve_spec(state: FetchState, events: Seq<FetchEvent>) -> Result<
    int,
    FetchFailure,
>
    decreases events.len(),
{
    if events.len() == 0 {
        Err(FetchFailure::Exhausted)
    } else {
        match events[0] {
            FetchEvent::Received => Ok(0),
            FetchEvent::PermanentError => Err(FetchFailure::Permanent),
            FetchEvent::TransientError => {
                if state.transient_seen < RETRY_BUDGET {
                    match resolve_spec(
                        FetchState { transient_seen: (state.transient_seen + 1) as u32, ..state },
                        events.drop_first(),
                    ) {
                        Ok(i) => Ok(i + 1),
                        Err(f) => Err(f),
                    }
                } else {
                    Err(FetchFailure::Exhausted)
                }
            },
            FetchEvent::CorruptData => {
                if state.corrupt_seen < CORRUPT_RETRY_BUDGET {
                    match resolve_spec(
                        FetchState { corrupt_seen: (state.corrupt_seen + 1) as u32, ..state },
                        events.drop_first(),
                    ) {
                        Ok(i) => Ok(i + 1),
                        Err(f) => Err(f),
                    }
                } else {
                    Err(FetchFailure::Corrupt)
                }
            },
        }
    }
}

/// Run the retry policy over the attempts' events in order, starting from
/// a fresh state: the index of the attempt whose bytes are delivered, or
/// the failure that abandons the fetch. Attempts past the decisive one are
/// never looked at.
#[verifier::loop_isolation(false)]
pub fn resolve_fetch(events: &Vec<FetchEvent>) -> (r: Result<usize, FetchFailure>)
    ensures
        r matches Ok(i) ==> resolve_spec(
            FetchState { transient_seen: 0, corrupt_seen: 0 },
            events@,
        ) == Ok::<int, FetchFailure>(i as int),
        r matches Err(f) ==> resolve_spec(
            FetchState { transient_seen: 0, corrupt_seen: 0 },
            events@,
        ) == Err::<int, FetchFailure>(f),
{
    let mut state = fetch_start();
    let mut i: usize = 0;
    let ghost start = FetchState { transient_seen: 0, corrupt_seen: 0 };
    assert(events@.skip(0) =~= events@);
    while i < events.len()
        invariant
            i <= events.len(),
            ({
                let whole = resolve_spec(start, events@);
                let rest = resolve_spec(state, events@.skip(i as int));
                &&& (rest matches Ok(k) ==> whole == Ok::<int, FetchFailure>(k + i))
                &&& (rest matches Err(f) ==> whole == Err::<int, FetchFailure>(f))
            }),
        decreases events.len() - i,
    {
        let ghost rest = events@.skip(i as int);
        assert(rest[0] == events@[i as int]);
        assert(rest.drop_first() =~= events@.skip(i as int + 1));
        let (next, decision) = next_fetch_step(state, events[i]);
        match decision {
            FetchDecision::Deliver => {
                return Ok(i);
            },
            FetchDecision::Fail { reason } => {
                return Err(reason);
            },
            FetchDecision::RetryAfter { .. } => {
                state = next;
                i += 1;
            },
        }
    }
    assert(events@.skip(events.len() as int) =~= Seq::<FetchEvent>::empty());
    Err(FetchFailure::Exhausted)
}

} // verus!
