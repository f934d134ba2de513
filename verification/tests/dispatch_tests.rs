use hooks::decode::decode;
use hooks::dispatch::{Attempt, Dispatcher, Exchange, Outcome, Replay, Settled, TraceRecord};
use hooks::guard::{check_expiry, GuardError};
use hooks::outcome::{Cause, DispatchError, Failure};
use hooks::payload::{RawMember, RawValue};
use hooks::policy::RetryPolicy;
use hooks::key::IdempotencyKey;
use hooks::request::{build_request, Operation, Reply, Request, Verdict};
use hooks::schema::{EventKind, Job};
use std::collections::BTreeMap;

const EXPIRES_S: i64 = 1_700_000_000;
const EXPIRES_MS: u64 = 1_700_000_000_000;
const START_MS: u64 = 1_699_999_000_000;
const FAR_MS: u64 = u64::MAX;

fn d_text(s: &str) -> RawValue {
    RawValue::Text(s.to_string())
}

fn d_member(name: &str, value: RawValue) -> RawMember {
    RawMember { name: name.to_string(), value }
}

fn d_feature(label: &str) -> RawValue {
    RawValue::Record(vec![
        d_member("type", d_text("Feature")),
        d_member(
            "geometry",
            RawValue::Record(vec![
                d_member("type", d_text("Point")),
                d_member(
                    "coordinates",
                    RawValue::List(vec![RawValue::Integer(4), RawValue::Decimal("5.5".to_string())]),
                ),
            ]),
        ),
        d_member("properties", RawValue::Record(vec![d_member("label", d_text(label))])),
    ])
}

fn d_job_with(id: i64, kind: &str, label: &str, logging: bool) -> Job {
    decode(&RawValue::Record(vec![
        d_member("id", RawValue::Integer(id)),
        d_member("type", d_text(kind)),
        d_member("feat", d_feature(label)),
        d_member(
            "body",
            RawValue::Record(vec![
                d_member("url", d_text("https://maps.example/rest")),
                d_member("username", d_text("svc")),
                d_member("password", d_text("pw")),
                d_member("layer", d_text("wells")),
            ]),
        ),
        d_member(
            "secrets",
            RawValue::Record(vec![
                d_member("token", d_text("tok-1")),
                d_member("expires", RawValue::Integer(EXPIRES_S)),
                d_member("referer", d_text("https://portal.example")),
            ]),
        ),
        d_member("options", RawValue::Record(vec![d_member("logging", RawValue::Bool(logging))])),
    ]))
    .unwrap()
}

fn d_job(kind: &str) -> Job {
    d_job_with(42, kind, "well", false)
}

fn policy(max_attempts: u32) -> RetryPolicy {
    RetryPolicy::new(max_attempts, 100, 1_000).unwrap()
}

struct Driven {
    outcome: Outcome,
    requests: Vec<Request>,
    waits: Vec<u64>,
    traces: Vec<TraceRecord>,
    ended_at: u64,
}

/// Runs a job to its end against `endpoint`. A round trip takes `latency`
/// milliseconds, and each wait is slept in full.
fn drive(
    job: Job,
    policy: RetryPolicy,
    deadline: u64,
    start: u64,
    latency: u64,
    entropy: u64,
    mut endpoint: impl FnMut(&Request) -> Reply,
) -> Driven {
    let mut now = start;
    let mut requests = Vec::new();
    let mut waits = Vec::new();
    let mut traces = Vec::new();
    let mut ready = Dispatcher::new(job, policy, deadline);
    loop {
        match ready.attempt(now) {
            Attempt::Done(outcome) => {
                return Driven { outcome, requests, waits, traces, ended_at: now };
            }
            Attempt::Send(flight, request) => {
                let reply = endpoint(&request);
                requests.push(request);
                now += latency;
                let settlement = flight.on_reply(reply, now, entropy);
                traces.extend(settlement.trace);
                match settlement.next {
                    Settled::Done(outcome) => {
                        return Driven { outcome, requests, waits, traces, ended_at: now };
                    }
                    Settled::Retry(next, wait) => {
                        waits.push(wait);
                        now += wait;
                        ready = next;
                    }
                }
            }
        }
    }
}

fn transient(cause: Cause) -> Outcome {
    Err(Failure::Dispatch(DispatchError::Transient(cause)))
}

fn permanent(cause: Cause) -> Outcome {
    Err(Failure::Dispatch(DispatchError::Permanent(cause)))
}

#[test]
fn a_token_expires_at_its_instant() {
    let job = d_job("create");
    let expires = EXPIRES_S as u64;
    assert_eq!(check_expiry(&job, 0), Ok(()));
    assert_eq!(check_expiry(&job, expires - 1), Ok(()));
    assert_eq!(check_expiry(&job, expires), Err(GuardError::TokenExpired));
    assert_eq!(check_expiry(&job, expires + 1), Err(GuardError::TokenExpired));
    assert_eq!(check_expiry(&job, u64::MAX), Err(GuardError::TokenExpired));
}

#[test]
fn a_policy_needs_an_attempt_and_ordered_delays() {
    assert!(RetryPolicy::new(0, 100, 1_000).is_none());
    assert!(RetryPolicy::new(1, 1_001, 1_000).is_none());
    let p = RetryPolicy::new(1, 1_000, 1_000).unwrap();
    assert_eq!((p.max_attempts(), p.base_delay_ms(), p.max_delay_ms()), (1, 1_000, 1_000));
    let p = RetryPolicy::new(u32::MAX, 0, 0).unwrap();
    assert_eq!((p.max_attempts(), p.base_delay_ms(), p.max_delay_ms()), (u32::MAX, 0, 0));
    let s = RetryPolicy::standard();
    assert_eq!((s.max_attempts(), s.base_delay_ms(), s.max_delay_ms()), (3, 200, 5_000));
}

#[test]
fn the_ceiling_doubles_up_to_the_cap() {
    let p = RetryPolicy::new(10, 100, 1_000).unwrap();
    let ceilings: Vec<u64> = (0..8).map(|failures| p.ceiling(failures)).collect();
    assert_eq!(ceilings, vec![100, 100, 200, 400, 800, 1_000, 1_000, 1_000]);
    assert_eq!(p.ceiling(u32::MAX), 1_000);
    let still = RetryPolicy::new(3, 0, 1_000).unwrap();
    assert_eq!(still.ceiling(1), 0);
    assert_eq!(still.ceiling(u32::MAX), 0);
    let wide = RetryPolicy::new(3, 1, u64::MAX).unwrap();
    assert_eq!(wide.ceiling(64), 1 << 63);
    assert_eq!(wide.ceiling(65), u64::MAX);
    assert_eq!(wide.ceiling(200), u64::MAX);
}

#[test]
fn the_wait_lies_in_the_upper_half_of_the_ceiling() {
    let p = RetryPolicy::new(10, 100, 1_000).unwrap();
    assert_eq!(p.backoff(1, 0), 50);
    assert_eq!(p.backoff(1, 7), 57);
    assert_eq!(p.backoff(1, 50), 100);
    assert_eq!(p.backoff(1, 51), 50);
    assert_eq!(p.backoff(3, 0), 200);
    assert_eq!(p.backoff(3, 200), 400);
    assert_eq!(p.backoff(9, u64::MAX), 500 + u64::MAX % 501);
    let odd = RetryPolicy::new(2, 7, 7).unwrap();
    assert_eq!(odd.backoff(1, 0), 4);
    assert_eq!(odd.backoff(1, 3), 7);
    for entropy in 0..2_000u64 {
        let wait = p.backoff(4, entropy * 7919);
        assert!((400..=800).contains(&wait));
    }
}

#[test]
fn replies_are_classified_by_status() {
    let cases = [
        (100, Verdict::Permanent),
        (199, Verdict::Permanent),
        (200, Verdict::Delivered),
        (204, Verdict::Delivered),
        (299, Verdict::Delivered),
        (300, Verdict::Permanent),
        (301, Verdict::Permanent),
        (400, Verdict::Permanent),
        (401, Verdict::Permanent),
        (404, Verdict::Permanent),
        (428, Verdict::Permanent),
        (429, Verdict::Transient),
        (430, Verdict::Permanent),
        (499, Verdict::Permanent),
        (500, Verdict::Transient),
        (503, Verdict::Transient),
        (599, Verdict::Transient),
        (600, Verdict::Permanent),
        (0, Verdict::Permanent),
        (u16::MAX, Verdict::Permanent),
    ];
    for (code, verdict) in cases {
        assert_eq!(Reply::Status(code).classify(), verdict, "{}", code);
        assert_eq!(Reply::Status(code).as_cause(), Cause::Status(code));
    }
    assert_eq!(Reply::NetworkError.classify(), Verdict::Transient);
    assert_eq!(Reply::NetworkError.as_cause(), Cause::Network);
    assert_eq!(Reply::InvalidDestination.classify(), Verdict::Permanent);
    assert_eq!(Reply::InvalidDestination.as_cause(), Cause::InvalidDestination);
}

#[test]
fn the_request_carries_the_job() {
    let job = d_job("create");
    let request = build_request(&job).unwrap();
    assert_eq!(
        request,
        Request {
            operation: Operation::Upsert,
            url: "https://maps.example/rest".to_string(),
            layer: "wells".to_string(),
            token: "tok-1".to_string(),
            referer: "https://portal.example".to_string(),
            username: "svc".to_string(),
            password: "pw".to_string(),
            key: IdempotencyKey { id: 42, kind: EventKind::Create },
            payload: Some(d_feature("well")),
        }
    );
    let update = build_request(&d_job("update")).unwrap();
    assert_eq!(update.operation, Operation::Upsert);
    assert_eq!(update.key, IdempotencyKey { id: 42, kind: EventKind::Update });
    assert_eq!(update.payload, Some(d_feature("well")));
    let delete = build_request(&d_job("delete")).unwrap();
    assert_eq!(delete.operation, Operation::Remove);
    assert_eq!(delete.key, IdempotencyKey { id: 42, kind: EventKind::Delete });
    assert_eq!(delete.payload, None);
    assert_eq!(build_request(&d_job("archive")), None);
    assert_eq!(Operation::for_kind(EventKind::Unknown), None);
}

#[test]
fn a_good_job_is_delivered_with_one_request() {
    let run = drive(d_job("create"), policy(3), FAR_MS, START_MS, 10, 0, |_| Reply::Status(200));
    assert_eq!(run.outcome, Ok(()));
    assert_eq!(run.requests.len(), 1);
    assert_eq!(run.requests[0], build_request(&d_job("create")).unwrap());
    assert!(run.waits.is_empty());
}

#[test]
fn an_endpoint_that_always_fails_is_tried_as_often_as_configured() {
    for max_attempts in [1u32, 2, 3, 5, 8] {
        let mut calls = 0u32;
        let run = drive(d_job("update"), policy(max_attempts), FAR_MS, 0, 1, 0, |_| {
            calls += 1;
            Reply::Status(503)
        });
        assert_eq!(calls, max_attempts);
        assert_eq!(run.requests.len() as u32, max_attempts);
        assert_eq!(run.waits.len() as u32, max_attempts - 1);
        assert_eq!(run.outcome, transient(Cause::Status(503)));
    }
}

#[test]
fn the_last_transient_failure_is_the_one_reported() {
    let replies = [Reply::NetworkError, Reply::Status(429), Reply::Status(502)];
    let mut next = 0;
    let run = drive(d_job("create"), policy(3), FAR_MS, 0, 1, 0, |_| {
        next += 1;
        replies[next - 1]
    });
    assert_eq!(run.outcome, transient(Cause::Status(502)));
    assert_eq!(run.requests.len(), 3);
    assert_eq!(run.waits, vec![50, 100]);
}

#[test]
fn a_transient_failure_is_retried_until_delivery() {
    let mut calls = 0;
    let run = drive(d_job("delete"), policy(4), FAR_MS, 0, 1, 0, |_| {
        calls += 1;
        if calls < 3 {
            Reply::NetworkError
        } else {
            Reply::Status(204)
        }
    });
    assert_eq!(run.outcome, Ok(()));
    assert_eq!(run.requests.len(), 3);
    assert_eq!(run.ended_at, 1 + 50 + 1 + 100 + 1);
}

#[test]
fn a_rejection_is_not_retried() {
    for reply in [Reply::Status(400), Reply::Status(403), Reply::Status(404), Reply::InvalidDestination] {
        let run = drive(d_job("create"), policy(5), FAR_MS, 0, 1, 0, |_| reply);
        assert_eq!(run.outcome, permanent(reply.as_cause()));
        assert_eq!(run.requests.len(), 1);
    }
}

#[test]
fn a_job_of_unknown_kind_is_rejected_without_a_request() {
    let run = drive(d_job("archive"), policy(3), FAR_MS, START_MS, 1, 0, |_| Reply::Status(200));
    assert_eq!(run.outcome, permanent(Cause::UnknownEventKind));
    assert!(run.requests.is_empty());
}

#[test]
fn the_dispatcher_reads_its_clock_in_milliseconds() {
    let last = drive(d_job("create"), policy(3), FAR_MS, EXPIRES_MS - 1, 1, 0, |_| Reply::Status(200));
    assert_eq!(last.outcome, Ok(()));
    let first = drive(d_job("create"), policy(3), FAR_MS, EXPIRES_MS, 1, 0, |_| Reply::Status(200));
    assert_eq!(first.outcome, Err(Failure::Guard(GuardError::TokenExpired)));
    assert!(first.requests.is_empty());
}

#[test]
fn an_expired_token_sends_nothing() {
    for now in [EXPIRES_MS, EXPIRES_MS + 1, EXPIRES_MS + 86_400_000] {
        let run = drive(d_job("create"), policy(3), FAR_MS, now, 1, 0, |_| Reply::Status(200));
        assert_eq!(run.outcome, Err(Failure::Guard(GuardError::TokenExpired)));
        assert!(run.requests.is_empty());
    }
    let run = drive(d_job("archive"), policy(3), FAR_MS, EXPIRES_MS, 1, 0, |_| Reply::Status(200));
    assert_eq!(run.outcome, Err(Failure::Guard(GuardError::TokenExpired)));
}

#[test]
fn the_guard_runs_again_before_each_retry() {
    let start = EXPIRES_MS - 40;
    let run = drive(d_job("create"), policy(5), FAR_MS, start, 10, 0, |_| Reply::Status(500));
    assert_eq!(run.requests.len(), 1);
    assert_eq!(run.waits, vec![50]);
    assert_eq!(run.ended_at, start + 10 + 50);
    assert_eq!(run.outcome, Err(Failure::Guard(GuardError::TokenExpired)));
}

#[test]
fn a_job_not_started_by_the_deadline_is_out_of_time() {
    for now in [5_000u64, 5_001, EXPIRES_MS + 5] {
        let run = drive(d_job("create"), policy(3), 5_000, now, 1, 0, |_| Reply::Status(200));
        assert_eq!(run.outcome, Err(Failure::DeadlineExceeded));
        assert!(run.requests.is_empty());
    }
    let run = drive(d_job("create"), policy(3), 5_000, 4_999, 1, 0, |_| Reply::Status(200));
    assert_eq!(run.outcome, Ok(()));
}

#[test]
fn no_retry_is_started_that_would_begin_at_the_deadline() {
    let run = drive(d_job("create"), policy(5), 1_060, 1_000, 10, 0, |_| Reply::Status(503));
    assert_eq!(run.requests.len(), 1);
    assert!(run.waits.is_empty());
    assert_eq!(run.outcome, transient(Cause::Status(503)));
    let run = drive(d_job("create"), policy(5), 1_061, 1_000, 10, 0, |_| Reply::Status(503));
    assert_eq!(run.waits, vec![50]);
    assert_eq!(run.requests.len(), 2);
    assert_eq!(run.outcome, transient(Cause::Status(503)));
}

#[test]
fn an_attempt_in_flight_at_the_deadline_completes() {
    let run = drive(d_job("create"), policy(3), 1_005, 1_000, 10, 0, |_| Reply::Status(200));
    assert_eq!(run.outcome, Ok(()));
    let run = drive(d_job("create"), policy(3), 1_005, 1_000, 10, 0, |_| Reply::NetworkError);
    assert_eq!(run.outcome, transient(Cause::Network));
    assert_eq!(run.requests.len(), 1);
}

#[test]
fn a_wait_that_overran_the_deadline_ends_with_the_last_failure() {
    let ready = Dispatcher::new(d_job("create"), policy(3), 2_000);
    let flight = match ready.attempt(1_000) {
        Attempt::Send(flight, _) => flight,
        Attempt::Done(outcome) => panic!("ended with {:?}", outcome),
    };
    assert_eq!(flight.attempts(), 1);
    let ready = match flight.on_reply(Reply::Status(429), 1_010, 0).next {
        Settled::Retry(ready, wait) => {
            assert_eq!(wait, 50);
            ready
        }
        Settled::Done(outcome) => panic!("ended with {:?}", outcome),
    };
    assert_eq!(ready.attempts(), 1);
    assert_eq!(ready.job(), &d_job("create"));
    match ready.attempt(2_000) {
        Attempt::Done(outcome) => assert_eq!(outcome, transient(Cause::Status(429))),
        Attempt::Send(..) => panic!("sent after the deadline"),
    }
}

#[test]
fn every_attempt_is_traced_where_logging_is_enabled() {
    let job = d_job_with(9, "update", "well", true);
    let replies = [Reply::Status(500), Reply::NetworkError, Reply::Status(201)];
    let mut next = 0;
    let run = drive(job, policy(3), FAR_MS, 0, 1, 0, |_| {
        next += 1;
        replies[next - 1]
    });
    assert_eq!(run.outcome, Ok(()));
    let trace = |attempt: u32, reply: Reply, verdict: Verdict| TraceRecord {
        job_id: 9,
        kind: EventKind::Update,
        attempt,
        reply,
        verdict,
    };
    assert_eq!(
        run.traces,
        vec![
            trace(1, Reply::Status(500), Verdict::Transient),
            trace(2, Reply::NetworkError, Verdict::Transient),
            trace(3, Reply::Status(201), Verdict::Delivered),
        ]
    );
}

#[test]
fn nothing_is_traced_where_logging_is_disabled() {
    let job = d_job_with(9, "update", "well", false);
    let run = drive(job, policy(3), FAR_MS, 0, 1, 0, |_| Reply::Status(500));
    assert_eq!(run.requests.len(), 3);
    assert!(run.traces.is_empty());
}

#[test]
fn tracing_does_not_change_the_outcome() {
    for reply in [Reply::Status(200), Reply::Status(404), Reply::Status(503), Reply::NetworkError] {
        let traced = drive(d_job_with(1, "create", "w", true), policy(3), FAR_MS, 0, 1, 5, |_| reply);
        let silent = drive(d_job_with(1, "create", "w", false), policy(3), FAR_MS, 0, 1, 5, |_| reply);
        assert_eq!(traced.outcome, silent.outcome);
        assert_eq!(traced.requests.len(), silent.requests.len());
        assert_eq!(traced.waits, silent.waits);
    }
}

fn exchange(started_at: u64, reply: Reply, replied_at: u64) -> Exchange {
    Exchange { started_at, reply, replied_at, entropy: 0 }
}

#[test]
fn a_replay_goes_as_the_run_did() {
    let script = vec![
        exchange(0, Reply::Status(503), 10),
        exchange(60, Reply::NetworkError, 70),
        exchange(170, Reply::Status(200), 180),
        exchange(999, Reply::Status(500), 1_000),
    ];
    let replay = Dispatcher::new(d_job("create"), policy(5), FAR_MS).replay(&script);
    assert_eq!(replay, Replay { outcome: Some(Ok(())), requests: 3 });
    let short = Dispatcher::new(d_job("create"), policy(5), FAR_MS).replay(&script[..2].to_vec());
    assert_eq!(short, Replay { outcome: None, requests: 2 });
    let none = Dispatcher::new(d_job("create"), policy(5), FAR_MS).replay(&vec![]);
    assert_eq!(none, Replay { outcome: None, requests: 0 });
    let capped = Dispatcher::new(d_job("create"), policy(2), FAR_MS).replay(&script);
    assert_eq!(capped, Replay { outcome: Some(transient(Cause::Network)), requests: 2 });
    let expired = Dispatcher::new(d_job("create"), policy(2), FAR_MS)
        .replay(&vec![exchange(EXPIRES_MS, Reply::Status(200), EXPIRES_MS + 1)]);
    assert_eq!(
        expired,
        Replay { outcome: Some(Err(Failure::Guard(GuardError::TokenExpired))), requests: 0 }
    );
}

/// A layer that keeps one feature per id and counts what it was sent.
struct Layer {
    features: BTreeMap<i32, RawValue>,
    received: u32,
}

impl Layer {
    fn serve(&mut self, request: &Request) -> Reply {
        self.received += 1;
        match request.operation {
            Operation::Upsert => {
                self.features.insert(request.key.id, request.payload.clone().unwrap());
            }
            Operation::Remove => {
                self.features.remove(&request.key.id);
            }
        }
        Reply::Status(200)
    }
}

#[test]
fn a_redelivered_job_leaves_the_layer_as_it_was() {
    for kind in ["create", "update", "delete"] {
        let mut layer = Layer { features: BTreeMap::new(), received: 0 };
        layer.features.insert(42, d_feature("old"));
        layer.features.insert(43, d_feature("other"));
        let first = drive(d_job(kind), policy(3), FAR_MS, 0, 1, 0, |r| layer.serve(r));
        let once: Vec<(i32, RawValue)> = layer.features.iter().map(|(k, v)| (*k, v.clone())).collect();
        let second = drive(d_job(kind), policy(3), FAR_MS, 500, 1, 0, |r| layer.serve(r));
        let twice: Vec<(i32, RawValue)> = layer.features.iter().map(|(k, v)| (*k, v.clone())).collect();
        assert_eq!(first.outcome, Ok(()));
        assert_eq!(second.outcome, Ok(()));
        assert_eq!(layer.received, 2);
        assert_eq!(once, twice);
        assert_eq!(first.requests, second.requests);
        assert_eq!(layer.features.len(), if kind == "delete" { 1 } else { 2 });
    }
}

#[test]
fn the_key_is_made_of_id_and_kind_alone() {
    let early = drive(d_job_with(5, "create", "a", false), policy(3), FAR_MS, 0, 1, 0, |_| Reply::Status(500));
    let late = drive(d_job_with(5, "create", "b", true), policy(3), FAR_MS, 9_000, 7, 3, |_| Reply::Status(200));
    let keys: Vec<IdempotencyKey> =
        early.requests.iter().chain(late.requests.iter()).map(|r| r.key).collect();
    assert_eq!(keys, vec![IdempotencyKey { id: 5, kind: EventKind::Create }; 4]);
    let other_kind = build_request(&d_job_with(5, "update", "a", false)).unwrap().key;
    let other_id = build_request(&d_job_with(6, "create", "a", false)).unwrap().key;
    assert_ne!(other_kind, keys[0]);
    assert_ne!(other_id, keys[0]);
}

#[test]
fn the_key_travels_as_tag_colon_id() {
    let cases = [
        (0, EventKind::Create, "create:0"),
        (7, EventKind::Create, "create:7"),
        (10, EventKind::Update, "update:10"),
        (42, EventKind::Delete, "delete:42"),
        (-1, EventKind::Delete, "delete:-1"),
        (1_000_000, EventKind::Update, "update:1000000"),
        (i32::MAX, EventKind::Create, "create:2147483647"),
        (i32::MIN, EventKind::Delete, "delete:-2147483648"),
        (-907, EventKind::Unknown, "unknown:-907"),
    ];
    for (id, kind, text) in cases {
        assert_eq!(IdempotencyKey { id, kind }.to_text(), text);
    }
    let sent = build_request(&d_job("update")).unwrap();
    assert_eq!(sent.key.to_text(), "update:42");
}

#[test]
fn keys_of_different_changes_travel_as_different_texts() {
    let kinds = [EventKind::Create, EventKind::Update, EventKind::Delete, EventKind::Unknown];
    let ids = [i32::MIN, -11, -1, 0, 1, 10, 11, 101, i32::MAX];
    let mut seen = std::collections::BTreeSet::new();
    for kind in kinds {
        for id in ids {
            assert!(seen.insert(IdempotencyKey { id, kind }.to_text()));
        }
    }
    assert_eq!(seen.len(), 36);
}
