//! How one record can end.
use crate::decode::DecodeError;
use crate::guard::GuardError;
use vstd::prelude::*;

verus! {

/// What the last attempt ran into.
#[derive(Clone, Copy, Debug, PartialEq, Eq, Structural)]
pub enum Cause {
    /// The endpoint answered with this status code.
    Status(u16),
    /// No answer: the connection failed or timed out.
    Network,
    /// The transport could not address the destination at all.
    InvalidDestination,
    /// The job's event kind names no operation.
    UnknownEventKind,
}

/// Why a job was not delivered.
#[derive(Clone, Copy, Debug, PartialEq, Eq, Structural)]
pub enum DispatchError {
    /// Worth another try; surfaced once the tries were used up or time ran out.
    Transient(Cause),
    /// Rejected. Another try would be rejected again.
    Permanent(Cause),
}

/// Why a record failed.
#[derive(Clone, Copy, Debug, PartialEq, Eq, Structural)]
pub enum Failure {
    Decode(DecodeError),
    Guard(GuardError),
    Dispatch(DispatchError),
    /// The batch ran out of time before the record was started.
    DeadlineExceeded,
}

} // verus!
