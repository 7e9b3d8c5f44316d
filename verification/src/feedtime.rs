//! Feed timestamps, modelled as Unix timestamps in whole seconds.
//!
//! Each feed reports wall-clock text in its own fixed format; parsing is
//! delegated to chrono and the parsed instant is carried around as an `i64`.

use chrono::NaiveDateTime;
use vstd::prelude::*;

verus! {

/// The instant denoted by `s` in the stateful feed's format
/// `%Y-%m-%d %H:%M:%S`, as a Unix timestamp, where `s` is well-formed.
pub uninterp spec fn tripwire_time_of(s: Seq<char>) -> Option<i64>;

/// The instant denoted by `s` in the capacity feed's format
/// `%Y-%m-%dT%H:%M:%S.000Z`, as a Unix timestamp, where `s` is well-formed.
pub uninterp spec fn eve_scout_time_of(s: Seq<char>) -> Option<i64>;

/// Relies on chrono's `NaiveDateTime::parse_from_str` with the fixed format
/// `%Y-%m-%d %H:%M:%S`, reduced to whole seconds since the Unix epoch: the
/// result depends on the characters alone.
#[verifier::external_body]
pub fn parse_tripwire_time(s: &str) -> (r: Option<i64>)
    ensures
        r == tripwire_time_of(s@),
{
    NaiveDateTime::parse_from_str(s, "%Y-%m-%d %H:%M:%S").ok().map(|t| t.and_utc().timestamp())
}

/// Relies on chrono's `NaiveDateTime::parse_from_str` with the fixed format
/// `%Y-%m-%dT%H:%M:%S.000Z`, reduced to whole seconds since the Unix epoch:
/// the result depends on the characters alone.
#[verifier::external_body]
pub fn parse_eve_scout_time(s: &str) -> (r: Option<i64>)
    ensures
        r == eve_scout_time_of(s@),
{
    NaiveDateTime::parse_from_str(s, "%Y-%m-%dT%H:%M:%S.000Z").ok().map(
        |t| t.and_utc().timestamp(),
    )
}

} // verus!
