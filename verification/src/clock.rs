//! The wall-clock reference instant, and resolving against it.
//!
//! The resolver itself takes the reference as an argument; this module
//! holds the one place where the local clock is read.

use vstd::prelude::*;
use vstd::string::StringSliceAdditionalSpecFns;

use crate::model::Duration;
use crate::model::Instant;
use crate::resolve::spec_resolve;
use crate::resolve::parse_timespec;
use crate::resolve::ParseError;

verus! {

/// Relies on time::OffsetDateTime::now_local and to_hms: the local
/// wall-clock time of day, whose hour, minute and second components
/// are always in range.  None when the local UTC offset cannot be
/// determined.
#[verifier::external_body]
fn now_instant() -> (r: Option<Instant>)
    ensures
        r matches Some(t) ==> t.wf(),
{
    match time::OffsetDateTime::now_local() {
        Ok(t) => {
            let (hour, minute, second) = t.to_hms();
            Some(Instant { hour, minute, second })
        },
        Err(_) => None,
    }
}

/// The local time of day at the moment of the call, or None when the
/// local clock's offset cannot be determined.
pub fn current_instant() -> (r: Option<Instant>)
    ensures
        r matches Some(t) ==> t.wf(),
{
    now_instant()
}

/// Resolve a timespec string against the local wall clock, captured
/// once at the moment of the call.
///
/// None when the local clock is unavailable; otherwise exactly the
/// result of resolving the input against the instant the clock showed.
pub fn parse_current_timespec(input: &str) -> (r: Option<Result<Duration, ParseError>>)
    ensures
        r matches Some(res) ==> exists|now: Instant|
            now.wf() && res == #[trigger] spec_resolve(input.spec_bytes(), now),
{
    match now_instant() {
        Some(now) => {
            let res = parse_timespec(input, now);
            proof {
                assert(now.wf() && res == spec_resolve(input.spec_bytes(), now));
            }
            Some(res)
        },
        None => None,
    }
}

} // verus!
