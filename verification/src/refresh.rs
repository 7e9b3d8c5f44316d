//! The fetch-with-fallback rule that every polled feed goes through.
//!
//! A successful fetch replaces the held snapshot and clears any prior error;
//! a failed fetch keeps the previous snapshot and its update time untouched
//! and only attaches the new error, so a transient outage never erases
//! previously discovered links. The polling loop around the actual fetch is
//! unverified plumbing; it feeds every outcome through `apply_refresh`.

use vstd::prelude::*;

verus! {

/// What the presentation layer shows about a feed: when it last succeeded,
/// and what its most recent failure was, if any.
#[derive(Debug, Clone)]
pub struct Tracker<E> {
    pub update_time: Option<i64>,
    pub update_error: Option<E>,
}

/// One step of the refresh cache: fold a fetch outcome into the held state.
pub fn apply_refresh<T, E>(
    previous: Option<T>,
    previous_tracker: Tracker<E>,
    outcome: Result<T, E>,
    now: i64,
) -> (r: (Option<T>, Tracker<E>))
    ensures
        match outcome {
            Result::Ok(v) => {
                &&& r.0 == Some(v)
                &&& r.1.update_time == Some(now)
                &&& r.1.update_error is None
            },
            Result::Err(e) => {
                &&& r.0 == previous
                &&& r.1.update_time == previous_tracker.update_time
                &&& r.1.update_error == Some(e)
            },
        },
{
    match outcome {
        Ok(v) => (Some(v), Tracker { update_time: Some(now), update_error: None }),
        Err(e) => (
            previous,
            Tracker { update_time: previous_tracker.update_time, update_error: Some(e) },
        ),
    }
}

} // verus!
