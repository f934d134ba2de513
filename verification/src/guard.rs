//! The credential guard: no request leaves with a token that has expired.
use crate::schema::{Job, JobView};
use vstd::prelude::*;

verus! {

/// The token is stale. Nothing here can mint a fresh one, so the record
/// fails in this run and recovers, if at all, by redelivery.
#[derive(Clone, Copy, Debug, PartialEq, Eq, Structural)]
pub enum GuardError {
    TokenExpired,
}

/// A token has expired from the instant `expires_at` on.
pub open spec fn expired(job: JobView, now: u64) -> bool {
    now >= job.auth.expires_at
}

/// Holds the job's expiry against `now`, both in seconds since the epoch.
///
/// `now` is to be read from the clock for each call: the check runs before
/// every attempt, and time spent on retries can carry a job past its expiry.
pub fn check_expiry(job: &Job, now: u64) -> (out: Result<(), GuardError>)
    ensures
        expired(job@, now) ==> out == Err::<(), GuardError>(GuardError::TokenExpired),
        !expired(job@, now) ==> out == Ok::<(), GuardError>(()),
{
    if now >= job.auth().expires_at as u64 {
        Err(GuardError::TokenExpired)
    } else {
        Ok(())
    }
}

} // verus!
