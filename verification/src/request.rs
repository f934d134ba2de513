//! What goes to the remote layer, and how its answer is read.
use crate::key::IdempotencyKey;
use crate::outcome::Cause;
use crate::payload::{RawValue, Tree};
use crate::schema::{EventKind, Job, JobView};
use vstd::prelude::*;

verus! {

/// The operation asked of the remote layer.
#[derive(Clone, Copy, Debug, PartialEq, Eq, Structural)]
pub enum Operation {
    /// Write the feature under the job's id, replacing what is there.
    Upsert,
    /// Remove what is stored under the job's id.
    Remove,
}

impl Operation {
    /// Create and update write the feature, delete removes it, and a kind
    /// that is not known asks for nothing.
    pub open spec fn of_kind(kind: EventKind) -> Option<Operation> {
        match kind {
            EventKind::Create => Some(Operation::Upsert),
            EventKind::Update => Some(Operation::Upsert),
            EventKind::Delete => Some(Operation::Remove),
            EventKind::Unknown => None,
        }
    }

    pub fn for_kind(kind: EventKind) -> (operation: Option<Operation>)
        ensures
            operation == Self::of_kind(kind),
    {
        match kind {
            EventKind::Create => Some(Operation::Upsert),
            EventKind::Update => Some(Operation::Upsert),
            EventKind::Delete => Some(Operation::Remove),
            EventKind::Unknown => None,
        }
    }
}

/// One authenticated request to the remote layer endpoint.
///
/// The bearer token is the primary authorization. The user name and the
/// password are transport credentials, for an endpoint that asks for basic
/// authentication besides.
#[derive(Debug, PartialEq)]
pub struct Request {
    pub operation: Operation,
    pub url: String,
    pub layer: String,
    pub token: String,
    pub referer: String,
    pub username: String,
    pub password: String,
    pub key: IdempotencyKey,
    /// The feature, for an upsert; nothing, for a removal.
    pub payload: Option<RawValue>,
}

/// A request as a mathematical value.
pub struct RequestView {
    pub operation: Operation,
    pub url: Seq<char>,
    pub layer: Seq<char>,
    pub token: Seq<char>,
    pub referer: Seq<char>,
    pub username: Seq<char>,
    pub password: Seq<char>,
    pub key: IdempotencyKey,
    pub payload: Option<Tree>,
}

impl View for Request {
    type V = RequestView;

    open spec fn view(&self) -> RequestView {
        RequestView {
            operation: self.operation,
            url: self.url@,
            layer: self.layer@,
            token: self.token@,
            referer: self.referer@,
            username: self.username@,
            password: self.password@,
            key: self.key,
            payload: match self.payload {
                Some(feature) => Some(feature@),
                None => None,
            },
        }
    }
}

/// The request that carries out a job; none for a job of unknown kind.
pub open spec fn request_for(job: JobView) -> Option<RequestView> {
    match Operation::of_kind(job.event_kind) {
        None => None,
        Some(operation) => Some(
            RequestView {
                operation,
                url: job.destination.url,
                layer: job.destination.layer,
                token: job.auth.token,
                referer: job.auth.referer,
                username: job.destination.username,
                password: job.destination.password,
                key: IdempotencyKey { id: job.id as i32, kind: job.event_kind },
                payload: match operation {
                    Operation::Upsert => Some(job.feature),
                    Operation::Remove => None,
                },
            },
        ),
    }
}

/// What a request says, by its view.
pub open spec fn request_view(request: Option<Request>) -> Option<RequestView> {
    match request {
        Some(request) => Some(request@),
        None => None,
    }
}

/// Builds the request that carries out the job.
pub fn build_request(job: &Job) -> (request: Option<Request>)
    ensures
        request_view(request) == request_for(job@),
{
    match Operation::for_kind(job.event_kind()) {
        None => None,
        Some(operation) => {
            let payload = match operation {
                Operation::Upsert => Some(job.feature().clone()),
                Operation::Remove => None,
            };
            Some(
                Request {
                    operation,
                    url: job.destination().url.clone(),
                    layer: job.destination().layer.clone(),
                    token: job.auth().token.clone(),
                    referer: job.auth().referer.clone(),
                    username: job.destination().username.clone(),
                    password: job.destination().password.clone(),
                    key: IdempotencyKey { id: job.id(), kind: job.event_kind() },
                    payload,
                },
            )
        },
    }
}

/// What came back for one request.
#[derive(Clone, Copy, Debug, PartialEq, Eq, Structural)]
pub enum Reply {
    /// The endpoint answered with this status code.
    Status(u16),
    /// No answer: the connection failed or timed out.
    NetworkError,
    /// The transport could not address the destination.
    InvalidDestination,
}

/// How one attempt went.
#[derive(Clone, Copy, Debug, PartialEq, Eq, Structural)]
pub enum Verdict {
    Delivered,
    Transient,
    Permanent,
}

impl Reply {
    /// 2xx delivers. 429, 5xx and a network error are transient. Every
    /// other answer is a rejection.
    pub open spec fn verdict(self) -> Verdict {
        match self {
            Reply::Status(code) => if 200 <= code <= 299 {
                Verdict::Delivered
            } else if code == 429 || 500 <= code <= 599 {
                Verdict::Transient
            } else {
                Verdict::Permanent
            },
            Reply::NetworkError => Verdict::Transient,
            Reply::InvalidDestination => Verdict::Permanent,
        }
    }

    pub open spec fn cause(self) -> Cause {
        match self {
            Reply::Status(code) => Cause::Status(code),
            Reply::NetworkError => Cause::Network,
            Reply::InvalidDestination => Cause::InvalidDestination,
        }
    }

    pub fn classify(self) -> (verdict: Verdict)
        ensures
            verdict == self.verdict(),
    {
        match self {
            Reply::Status(code) => if 200 <= code && code <= 299 {
                Verdict::Delivered
            } else if code == 429 || (500 <= code && code <= 599) {
                Verdict::Transient
            } else {
                Verdict::Permanent
            },
            Reply::NetworkError => Verdict::Transient,
            Reply::InvalidDestination => Verdict::Permanent,
        }
    }

    /// The reply as the cause of a failure.
    pub fn as_cause(self) -> (cause: Cause)
        ensures
            cause == self.cause(),
    {
        match self {
            Reply::Status(code) => Cause::Status(code),
            Reply::NetworkError => Cause::Network,
            Reply::InvalidDestination => Cause::InvalidDestination,
        }
    }
}

} // verus!
