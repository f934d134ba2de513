//! The layer dispatcher: one job, sent with bounded retry.
//!
//! The dispatcher does no network and reads no clock. It is a state machine
//! in two states. A [`Dispatcher`] is ready to try: given the time, it hands
//! out the request to send, or ends. An [`InFlight`] has a request out: given
//! the reply, it ends, or hands back a `Dispatcher` and the time to wait
//! before trying again. Each state is used up by its step, so a reply cannot
//! be fed to a job that sent nothing, nor a job tried twice at once.
use crate::guard::{check_expiry, expired, GuardError};
use crate::outcome::{Cause, DispatchError, Failure};
use crate::policy::{PolicyView, RetryPolicy};
use crate::request::{build_request, request_for, Reply, Request, RequestView, Verdict};
use crate::schema::{EventKind, Job, JobView};
use vstd::prelude::*;

verus! {

/// How a record ended: delivered, or failed and why.
pub type Outcome = Result<(), Failure>;

/// The second that an instant in milliseconds falls in. The dispatcher is
/// given instants in milliseconds since the epoch; a token's expiry is held
/// in seconds.
pub open spec fn seconds(now: u64) -> u64 {
    now / 1000
}

/// A job that is ready for its next attempt, as a mathematical value.
pub struct DispatcherView {
    pub job: JobView,
    pub policy: PolicyView,
    /// No attempt starts at or after this instant (milliseconds since the epoch).
    pub deadline: u64,
    /// Requests sent so far.
    pub attempts: nat,
    /// What the last attempt ran into, once there was one.
    pub last: Option<Cause>,
}

/// A job with a request out, as a mathematical value.
pub struct InFlightView {
    pub job: JobView,
    pub policy: PolicyView,
    pub deadline: u64,
    /// Requests sent so far, the one that is out included.
    pub attempts: nat,
}

/// What a ready job does next, as a mathematical value.
pub enum AttemptView {
    Send(InFlightView, RequestView),
    Done(Outcome),
}

/// What a job does after a reply, as a mathematical value; the wait in milliseconds.
pub enum SettledView {
    Retry(DispatcherView, nat),
    Done(Outcome),
}

/// One line of the trace that a job with logging enabled leaves per attempt.
#[derive(Clone, Copy, Debug, PartialEq, Eq, Structural)]
pub struct TraceRecord {
    pub job_id: i32,
    pub kind: EventKind,
    /// 1 for the first request of the job, 2 for the first retry, and so on.
    pub attempt: u32,
    pub reply: Reply,
    pub verdict: Verdict,
}

impl DispatcherView {
    pub open spec fn fresh(job: JobView, policy: PolicyView, deadline: u64) -> DispatcherView {
        DispatcherView { job, policy, deadline, attempts: 0, last: None }
    }

    pub open spec fn wf(self) -> bool {
        &&& self.policy.wf()
        &&& self.attempts < self.policy.max_attempts
        &&& self.attempts == 0 <==> self.last is None
    }

    /// The step of a job that is ready to try, at time `now`.
    ///
    /// Past the deadline nothing is sent: a job that was never tried ends
    /// with `DeadlineExceeded`, one that was ends with the transient failure
    /// of its last attempt. Then the guard: an expired token ends the job.
    /// Then the operation: a job of unknown kind is rejected for good.
    /// Otherwise the request goes out.
    pub open spec fn attempt(self, now: u64) -> AttemptView {
        if now >= self.deadline {
            match self.last {
                Some(cause) => AttemptView::Done(
                    Err(Failure::Dispatch(DispatchError::Transient(cause))),
                ),
                None => AttemptView::Done(Err(Failure::DeadlineExceeded)),
            }
        } else if expired(self.job, seconds(now)) {
            AttemptView::Done(Err(Failure::Guard(GuardError::TokenExpired)))
        } else {
            match request_for(self.job) {
                None => AttemptView::Done(
                    Err(Failure::Dispatch(DispatchError::Permanent(Cause::UnknownEventKind))),
                ),
                Some(request) => AttemptView::Send(
                    InFlightView {
                        job: self.job,
                        policy: self.policy,
                        deadline: self.deadline,
                        attempts: self.attempts + 1,
                    },
                    request,
                ),
            }
        }
    }
}

impl InFlightView {
    pub open spec fn wf(self) -> bool {
        &&& self.policy.wf()
        &&& 1 <= self.attempts <= self.policy.max_attempts
    }

    /// The step of a job whose request was answered by `reply` at time `now`.
    ///
    /// A delivery ends the job well, a rejection ends it for good. After a
    /// transient failure the job is tried again, unless its attempts are
    /// used up or the wait would end at or after the deadline; then the
    /// transient failure is the outcome.
    pub open spec fn settle(self, reply: Reply, now: u64, entropy: u64) -> SettledView {
        match reply.verdict() {
            Verdict::Delivered => SettledView::Done(Ok(())),
            Verdict::Permanent => SettledView::Done(
                Err(Failure::Dispatch(DispatchError::Permanent(reply.cause()))),
            ),
            Verdict::Transient => {
                let wait = self.policy.backoff(self.attempts, entropy);
                if self.attempts >= self.policy.max_attempts || now + wait >= self.deadline {
                    SettledView::Done(Err(Failure::Dispatch(DispatchError::Transient(reply.cause()))))
                } else {
                    SettledView::Retry(
                        DispatcherView {
                            job: self.job,
                            policy: self.policy,
                            deadline: self.deadline,
                            attempts: self.attempts,
                            last: Some(reply.cause()),
                        },
                        wait,
                    )
                }
            },
        }
    }

    /// The trace of the attempt: one record where the job asks for logging.
    pub open spec fn trace(self, reply: Reply) -> Option<TraceRecord> {
        if self.job.options.logging_enabled {
            Some(
                TraceRecord {
                    job_id: self.job.id as i32,
                    kind: self.job.event_kind,
                    attempt: self.attempts as u32,
                    reply,
                    verdict: reply.verdict(),
                },
            )
        } else {
            None
        }
    }
}

/// What the clock and the endpoint showed for one attempt.
#[derive(Clone, Copy, Debug, PartialEq, Eq, Structural)]
pub struct Exchange {
    /// The time just before the attempt.
    pub started_at: u64,
    /// What the endpoint answered, had the request gone out.
    pub reply: Reply,
    /// The time of the reply.
    pub replied_at: u64,
    /// The number that places the wait before the next attempt.
    pub entropy: u64,
}

/// Where a job stands after a script of exchanges.
pub struct RunView {
    /// How the job ended; `None` while it has not.
    pub outcome: Option<Outcome>,
    /// Requests sent during the script.
    pub requests: nat,
}

impl DispatcherView {
    /// The job stepped through a script, one exchange per attempt, until it
    /// ends or the script does.
    pub open spec fn run(self, script: Seq<Exchange>) -> RunView
        decreases script.len(),
    {
        if script.len() == 0 {
            RunView { outcome: None, requests: 0 }
        } else {
            let x = script[0];
            match self.attempt(x.started_at) {
                AttemptView::Done(outcome) => RunView { outcome: Some(outcome), requests: 0 },
                AttemptView::Send(flight, _) => match flight.settle(x.reply, x.replied_at, x.entropy) {
                    SettledView::Done(outcome) => RunView { outcome: Some(outcome), requests: 1 },
                    SettledView::Retry(next, _) => {
                        let rest = next.run(script.drop_first());
                        RunView { outcome: rest.outcome, requests: rest.requests + 1 }
                    },
                },
            }
        }
    }
}

/// A job that is ready for its next attempt.
#[derive(Debug)]
pub struct Dispatcher {
    job: Job,
    policy: RetryPolicy,
    deadline: u64,
    attempts: u32,
    last: Option<Cause>,
}

/// A job with a request out.
#[derive(Debug)]
pub struct InFlight {
    job: Job,
    policy: RetryPolicy,
    deadline: u64,
    attempts: u32,
}

impl View for Dispatcher {
    type V = DispatcherView;

    closed spec fn view(&self) -> DispatcherView {
        DispatcherView {
            job: self.job@,
            policy: self.policy@,
            deadline: self.deadline,
            attempts: self.attempts as nat,
            last: self.last,
        }
    }
}

impl View for InFlight {
    type V = InFlightView;

    closed spec fn view(&self) -> InFlightView {
        InFlightView {
            job: self.job@,
            policy: self.policy@,
            deadline: self.deadline,
            attempts: self.attempts as nat,
        }
    }
}

/// What a ready job does next.
#[derive(Debug)]
pub enum Attempt {
    /// Send the request, then feed the reply to the job in flight.
    Send(InFlight, Request),
    /// The job has ended without another request.
    Done(Outcome),
}

impl View for Attempt {
    type V = AttemptView;

    open spec fn view(&self) -> AttemptView {
        match self {
            Attempt::Send(flight, request) => AttemptView::Send(flight@, request@),
            Attempt::Done(outcome) => AttemptView::Done(*outcome),
        }
    }
}

/// What a job does after a reply.
#[derive(Debug)]
pub enum Settled {
    /// Wait this many milliseconds, then let the job try again.
    Retry(Dispatcher, u64),
    /// The job has ended.
    Done(Outcome),
}

impl View for Settled {
    type V = SettledView;

    open spec fn view(&self) -> SettledView {
        match self {
            Settled::Retry(dispatcher, wait) => SettledView::Retry(dispatcher@, *wait as nat),
            Settled::Done(outcome) => SettledView::Done(*outcome),
        }
    }
}

/// The step after a reply, and the trace record to emit for the attempt.
/// Emitting it is the caller's side effect; the step does not depend on it.
#[derive(Debug)]
pub struct Settlement {
    pub next: Settled,
    pub trace: Option<TraceRecord>,
}

impl Dispatcher {
    #[verifier::type_invariant]
    closed spec fn inv(self) -> bool {
        self@.wf()
    }

    /// A job that was not tried yet.
    pub fn new(job: Job, policy: RetryPolicy, deadline: u64) -> (dispatcher: Dispatcher)
        ensures
            dispatcher@ == DispatcherView::fresh(job@, policy@, deadline),
            dispatcher@.wf(),
    {
        let _ = policy.max_attempts();
        Dispatcher { job, policy, deadline, attempts: 0, last: None }
    }

    /// The job this dispatcher carries.
    pub fn job(&self) -> (job: &Job)
        ensures
            job@ == self@.job,
            self@.wf(),
    {
        proof {
            use_type_invariant(self);
        }
        &self.job
    }

    /// Requests sent so far.
    pub fn attempts(&self) -> (n: u32)
        ensures
            n == self@.attempts,
    {
        self.attempts
    }

    /// Decides, at time `now`, whether the job is tried and with what request.
    /// `now` is in milliseconds since the epoch and is to be read from the
    /// clock just before the call.
    pub fn attempt(self, now: u64) -> (step: Attempt)
        ensures
            step@ == self@.attempt(now),
            step matches Attempt::Send(flight, _) ==> flight@.wf(),
    {
        proof {
            use_type_invariant(&self);
        }
        if now >= self.deadline {
            return match self.last {
                Some(cause) => Attempt::Done(Err(Failure::Dispatch(DispatchError::Transient(cause)))),
                None => Attempt::Done(Err(Failure::DeadlineExceeded)),
            };
        }
        if check_expiry(&self.job, now / 1000).is_err() {
            return Attempt::Done(Err(Failure::Guard(GuardError::TokenExpired)));
        }
        match build_request(&self.job) {
            None => Attempt::Done(
                Err(Failure::Dispatch(DispatchError::Permanent(Cause::UnknownEventKind))),
            ),
            Some(request) => {
                let _ = self.policy.max_attempts();
                Attempt::Send(
                    InFlight {
                        job: self.job,
                        policy: self.policy,
                        deadline: self.deadline,
                        attempts: self.attempts + 1,
                    },
                    request,
                )
            },
        }
    }
}

impl InFlight {
    #[verifier::type_invariant]
    closed spec fn inv(self) -> bool {
        self@.wf()
    }

    /// The job whose request is out.
    pub fn job(&self) -> (job: &Job)
        ensures
            job@ == self@.job,
            self@.wf(),
    {
        proof {
            use_type_invariant(self);
        }
        &self.job
    }

    /// Requests sent so far, the one that is out included.
    pub fn attempts(&self) -> (n: u32)
        ensures
            n == self@.attempts,
    {
        self.attempts
    }

    /// Decides what follows the reply to the request that is out.
    ///
    /// `now` is the time of the reply, in milliseconds since the epoch. `entropy`
    /// places the wait before a retry between half its ceiling and the
    /// ceiling; any number will do, a random one spreads retries best.
    pub fn on_reply(self, reply: Reply, now: u64, entropy: u64) -> (settlement: Settlement)
        ensures
            settlement.next@ == self@.settle(reply, now, entropy),
            settlement.trace == self@.trace(reply),
            settlement.next matches Settled::Retry(dispatcher, _) ==> dispatcher@.wf(),
    {
        proof {
            use_type_invariant(&self);
        }
        let verdict = reply.classify();
        let trace = if self.job.options().logging_enabled {
            Some(
                TraceRecord {
                    job_id: self.job.id(),
                    kind: self.job.event_kind(),
                    attempt: self.attempts,
                    reply,
                    verdict,
                },
            )
        } else {
            None
        };
        let next = match verdict {
            Verdict::Delivered => Settled::Done(Ok(())),
            Verdict::Permanent => Settled::Done(
                Err(Failure::Dispatch(DispatchError::Permanent(reply.as_cause()))),
            ),
            Verdict::Transient => {
                let wait = self.policy.backoff(self.attempts, entropy);
                let spent = self.attempts >= self.policy.max_attempts();
                let late = now >= self.deadline || wait >= self.deadline - now;
                if spent || late {
                    Settled::Done(Err(Failure::Dispatch(DispatchError::Transient(reply.as_cause()))))
                } else {
                    Settled::Retry(
                        Dispatcher {
                            job: self.job,
                            policy: self.policy,
                            deadline: self.deadline,
                            attempts: self.attempts,
                            last: Some(reply.as_cause()),
                        },
                        wait,
                    )
                }
            },
        };
        Settlement { next, trace }
    }
}

/// Where a job stands after a replay.
#[derive(Clone, Copy, Debug, PartialEq, Eq)]
pub struct Replay {
    /// How the job ended; `None` while it has not.
    pub outcome: Option<Outcome>,
    /// Requests sent during the replay.
    pub requests: u32,
}

impl Dispatcher {
    /// Steps the job through a script of exchanges, as a run against the
    /// endpoint and the clock that the script records would have gone.
    pub fn replay(self, script: &Vec<Exchange>) -> (replay: Replay)
        ensures
            replay.outcome == self@.run(script@).outcome,
            replay.requests == self@.run(script@).requests,
    {
        let ghost start = self@;
        let mut current = self;
        let mut requests: u32 = 0;
        let mut i: usize = 0;
        assert(script@.skip(0) =~= script@);
        while i < script.len()
            invariant
                i <= script.len(),
                start == self@,
                requests <= current@.attempts,
                start.run(script@).outcome == current@.run(script@.skip(i as int)).outcome,
                start.run(script@).requests == requests + current@.run(
                    script@.skip(i as int),
                ).requests,
            decreases script.len() - i,
        {
            let x = script[i];
            proof {
                let tail = script@.skip(i as int);
                assert(tail.len() > 0);
                assert(tail[0] == script@[i as int]);
                assert(tail.drop_first() =~= script@.skip(i as int + 1));
            }
            match current.attempt(x.started_at) {
                Attempt::Done(outcome) => {
                    return Replay { outcome: Some(outcome), requests };
                },
                Attempt::Send(flight, _) => {
                    let sent = flight.attempts();
                    let settlement = flight.on_reply(x.reply, x.replied_at, x.entropy);
                    match settlement.next {
                        Settled::Done(outcome) => {
                            return Replay { outcome: Some(outcome), requests: requests + 1 };
                        },
                        Settled::Retry(next, _) => {
                            current = next;
                            requests = requests + 1;
                        },
                    }
                },
            }
            i = i + 1;
        }
        Replay { outcome: None, requests }
    }
}

} // verus!
