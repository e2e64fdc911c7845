//! The alarm request: a pending duration paired with a message.

use vstd::prelude::*;
use vstd::string::StringSliceAdditionalSpecFns;

use crate::model::Duration;
use crate::model::Instant;
use crate::resolve::parse_timespec;
use crate::resolve::spec_resolve;

verus! {

/// A resolved duration -- or none, meaning "not yet supplied" -- and
/// the message to display once the alarm fires.
#[derive(Debug, Clone)]
pub struct AlarmRequest {
    pub timespec: Option<Duration>,
    pub message: String,
}

impl AlarmRequest {
    pub fn new(timespec: Option<Duration>, message: String) -> (r: AlarmRequest)
        ensures
            r.timespec == timespec,
            r.message == message,
    {
        AlarmRequest { timespec, message }
    }

    /// Take interactively entered input: validate it through the
    /// resolver against the given reference.  On success the duration
    /// is populated and the message replaced; on failure the request
    /// comes back unchanged, which cancels the entry.
    pub fn supply(self, input: &str, message: String, reference: Instant) -> (r: AlarmRequest)
        requires
            reference.wf(),
        ensures
            match spec_resolve(input.spec_bytes(), reference) {
                Ok(d) => r.timespec == Some(d) && r.message == message,
                Err(_) => r == self,
            },
    {
        match parse_timespec(input, reference) {
            Ok(d) => AlarmRequest { timespec: Some(d), message },
            Err(_) => self,
        }
    }
}

} // verus!
