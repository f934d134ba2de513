use hooks::batch::{BatchCoordinator, BatchOutcome, RawRecord, RecordOutcome};
use hooks::decode::{DecodeError, Field};
use hooks::dispatch::{Attempt, Exchange, Settled};
use hooks::guard::GuardError;
use hooks::outcome::{Cause, DispatchError, Failure};
use hooks::payload::{RawMember, RawValue};
use hooks::policy::RetryPolicy;
use hooks::request::Reply;

const B_EXPIRES_S: i64 = 1_700_000_000;
const B_NOW_MS: u64 = 1_699_999_000_000;
const B_DEADLINE_MS: u64 = 1_699_999_900_000;

fn b_text(s: &str) -> RawValue {
    RawValue::Text(s.to_string())
}

fn b_member(name: &str, value: RawValue) -> RawMember {
    RawMember { name: name.to_string(), value }
}

fn b_payload(id: i64, kind: &str, expires: i64) -> RawValue {
    RawValue::Record(vec![
        b_member("id", RawValue::Integer(id)),
        b_member("type", b_text(kind)),
        b_member(
            "feat",
            RawValue::Record(vec![
                b_member("type", b_text("Feature")),
                b_member("geometry", RawValue::Null),
                b_member("properties", RawValue::Null),
            ]),
        ),
        b_member(
            "body",
            RawValue::Record(vec![
                b_member("url", b_text("https://maps.example/rest")),
                b_member("username", b_text("svc")),
                b_member("password", b_text("pw")),
                b_member("layer", b_text("wells")),
            ]),
        ),
        b_member(
            "secrets",
            RawValue::Record(vec![
                b_member("token", b_text("tok")),
                b_member("expires", RawValue::Integer(expires)),
                b_member("referer", b_text("https://portal.example")),
            ]),
        ),
        b_member("options", RawValue::Record(vec![b_member("logging", RawValue::Bool(false))])),
    ])
}

fn b_without(mut payload: RawValue, group: &str, name: &str) -> RawValue {
    if let RawValue::Record(members) = &mut payload {
        for m in members.iter_mut() {
            if m.name == group {
                if let RawValue::Record(inner) = &mut m.value {
                    inner.retain(|x| x.name != name);
                }
            }
        }
    }
    payload
}

fn b_record(record_ref: &str, payload: RawValue) -> RawRecord {
    RawRecord { record_ref: record_ref.to_string(), payload }
}

fn b_good(record_ref: &str, id: i64) -> RawRecord {
    b_record(record_ref, b_payload(id, "create", B_EXPIRES_S))
}

fn b_coordinator() -> BatchCoordinator {
    BatchCoordinator::new(RetryPolicy::new(3, 100, 1_000).unwrap(), B_DEADLINE_MS, 4).unwrap()
}

fn b_always(reply: Reply, times: usize) -> Vec<Exchange> {
    (0..times as u64)
        .map(|k| Exchange {
            started_at: B_NOW_MS + 2_000 * k,
            reply,
            replied_at: B_NOW_MS + 2_000 * k + 20,
            entropy: k,
        })
        .collect()
}

fn b_failed(record_ref: &str, reason: Failure) -> RecordOutcome {
    RecordOutcome::Failure { record_ref: record_ref.to_string(), reason }
}

fn b_entries(outcome: &BatchOutcome) -> Vec<RecordOutcome> {
    outcome
        .entries()
        .iter()
        .map(|e| match e {
            RecordOutcome::Success => RecordOutcome::Success,
            RecordOutcome::Failure { record_ref, reason } => {
                RecordOutcome::Failure { record_ref: record_ref.clone(), reason: *reason }
            }
        })
        .collect()
}

#[test]
fn one_valid_one_expired_one_malformed() {
    let records = vec![
        b_good("A", 1),
        b_record("B", b_payload(2, "update", (B_NOW_MS / 1_000) as i64 - 60)),
        b_record("C", b_without(b_payload(3, "create", B_EXPIRES_S), "body", "url")),
    ];
    let scripts = vec![b_always(Reply::Status(200), 1); 3];
    let outcome = b_coordinator().process_batch(&records, &scripts);
    assert_eq!(
        b_entries(&outcome),
        vec![
            RecordOutcome::Success,
            b_failed("B", Failure::Guard(GuardError::TokenExpired)),
            b_failed("C", Failure::Decode(DecodeError::MissingField(Field::Url))),
        ]
    );
    assert_eq!(outcome.failure_set(), vec!["B".to_string(), "C".to_string()]);
    match &outcome.entries()[2] {
        RecordOutcome::Failure { reason: Failure::Decode(e), .. } => assert_eq!(e.field().name(), "url"),
        other => panic!("{:?}", other),
    }
}

#[test]
fn a_well_formed_record_succeeds_against_a_successful_endpoint() {
    for kind in ["create", "update", "delete"] {
        let record = b_record("m-1", b_payload(11, kind, B_EXPIRES_S));
        let entry = b_coordinator().process_record(&record, &b_always(Reply::Status(200), 1));
        assert_eq!(entry, RecordOutcome::Success);
    }
}

#[test]
fn one_malformed_record_among_many_fails_alone() {
    for n in 1..7usize {
        for bad in 0..n {
            let records: Vec<RawRecord> = (0..n)
                .map(|i| {
                    if i == bad {
                        b_record(&format!("m-{}", i), b_without(b_payload(i as i64, "create", B_EXPIRES_S), "secrets", "token"))
                    } else {
                        b_good(&format!("m-{}", i), i as i64)
                    }
                })
                .collect();
            let scripts = vec![b_always(Reply::Status(200), 1); n];
            let outcome = b_coordinator().process_batch(&records, &scripts);
            assert_eq!(outcome.entries().len(), n);
            for i in 0..n {
                if i == bad {
                    assert_eq!(
                        outcome.entries()[i],
                        b_failed(&format!("m-{}", i), Failure::Decode(DecodeError::MissingField(Field::Token)))
                    );
                } else {
                    assert_eq!(outcome.entries()[i], RecordOutcome::Success);
                }
            }
            assert_eq!(outcome.failure_set(), vec![format!("m-{}", bad)]);
        }
    }
}

#[test]
fn a_malformed_record_gets_no_job() {
    let records = vec![
        b_good("ok", 1),
        b_record("bad", RawValue::Record(vec![b_member("id", b_text("seven"))])),
        b_record("worse", RawValue::Null),
    ];
    let opened = b_coordinator().open(&records);
    assert_eq!(opened.jobs.len(), 3);
    assert!(opened.jobs[0].is_some());
    assert!(opened.jobs[1].is_none());
    assert!(opened.jobs[2].is_none());
    assert_eq!(opened.ledger.len(), 3);
    assert_eq!(opened.ledger.outcome(0), None);
    assert_eq!(opened.ledger.outcome(1), Some(Err(Failure::Decode(DecodeError::TypeMismatch(Field::Id)))));
    assert_eq!(opened.ledger.outcome(2), Some(Err(Failure::Decode(DecodeError::MissingField(Field::Id)))));
    assert_eq!(opened.ledger.outcome(3), None);
    let outcome = b_coordinator().process_batch(&records, &vec![vec![], b_always(Reply::Status(200), 3)]);
    assert_eq!(outcome.entries()[1], b_failed("bad", Failure::Decode(DecodeError::TypeMismatch(Field::Id))));
}

#[test]
fn one_failure_does_not_touch_its_siblings() {
    let records = vec![b_good("a", 1), b_good("b", 2), b_good("c", 3), b_good("d", 4)];
    let scripts = vec![
        b_always(Reply::Status(503), 3),
        b_always(Reply::Status(200), 1),
        b_always(Reply::Status(404), 1),
        b_always(Reply::Status(201), 1),
    ];
    let outcome = b_coordinator().process_batch(&records, &scripts);
    assert_eq!(
        b_entries(&outcome),
        vec![
            b_failed("a", Failure::Dispatch(DispatchError::Transient(Cause::Status(503)))),
            RecordOutcome::Success,
            b_failed("c", Failure::Dispatch(DispatchError::Permanent(Cause::Status(404)))),
            RecordOutcome::Success,
        ]
    );
    assert_eq!(outcome.failure_set(), vec!["a".to_string(), "c".to_string()]);
}

#[test]
fn a_record_that_did_not_finish_is_reported_for_redelivery() {
    let records = vec![b_good("a", 1), b_good("b", 2), b_good("c", 3)];
    let scripts = vec![b_always(Reply::Status(200), 1), b_always(Reply::Status(500), 2)];
    let outcome = b_coordinator().process_batch(&records, &scripts);
    assert_eq!(
        b_entries(&outcome),
        vec![
            RecordOutcome::Success,
            b_failed("b", Failure::DeadlineExceeded),
            b_failed("c", Failure::DeadlineExceeded),
        ]
    );
}

#[test]
fn a_record_started_after_the_deadline_is_out_of_time() {
    let late = vec![Exchange {
        started_at: B_DEADLINE_MS,
        reply: Reply::Status(200),
        replied_at: B_DEADLINE_MS + 5,
        entropy: 0,
    }];
    let entry = b_coordinator().process_record(&b_good("late", 1), &late);
    assert_eq!(entry, b_failed("late", Failure::DeadlineExceeded));
}

#[test]
fn an_empty_batch_has_an_empty_outcome() {
    let outcome = b_coordinator().process_batch(&vec![], &vec![]);
    assert!(outcome.entries().is_empty());
    assert!(outcome.failure_set().is_empty());
    let opened = b_coordinator().open(&vec![]);
    assert_eq!(opened.ledger.len(), 0);
    assert!(opened.ledger.close().entries().is_empty());
}

#[test]
fn records_with_one_identity_are_each_reported() {
    let records = vec![
        b_record("dup", RawValue::Null),
        b_good("ok", 1),
        b_record("dup", RawValue::Null),
    ];
    let outcome = b_coordinator().process_batch(&records, &vec![vec![], b_always(Reply::Status(200), 1)]);
    assert_eq!(outcome.failure_set(), vec!["dup".to_string(), "dup".to_string()]);
}

#[test]
fn the_ledger_takes_the_first_outcome_of_each_record() {
    let records = vec![b_good("a", 1), b_record("b", RawValue::Null), b_good("c", 3)];
    let mut ledger = b_coordinator().open(&records).ledger;
    let failed = Err(Failure::Dispatch(DispatchError::Permanent(Cause::Status(410))));
    assert!(ledger.settle(0, Ok(())));
    assert!(!ledger.settle(0, failed));
    assert!(!ledger.settle(1, Ok(())));
    assert!(!ledger.settle(3, Ok(())));
    assert!(!ledger.settle(usize::MAX, Ok(())));
    assert_eq!(ledger.outcome(0), Some(Ok(())));
    assert_eq!(ledger.outcome(2), None);
    let outcome = ledger.close();
    assert_eq!(
        b_entries(&outcome),
        vec![
            RecordOutcome::Success,
            b_failed("b", Failure::Decode(DecodeError::MissingField(Field::Id))),
            b_failed("c", Failure::DeadlineExceeded),
        ]
    );
    assert_eq!(outcome.failure_set(), vec!["b".to_string(), "c".to_string()]);
}

#[test]
fn a_batch_worked_live_ends_as_its_replay() {
    let records = vec![
        b_good("a", 1),
        b_record("b", b_without(b_payload(2, "create", B_EXPIRES_S), "options", "logging")),
        b_good("c", 3),
        b_record("d", b_payload(4, "archive", B_EXPIRES_S)),
    ];
    let scripts = vec![
        b_always(Reply::Status(200), 1),
        vec![],
        b_always(Reply::Status(500), 3),
        b_always(Reply::Status(200), 1),
    ];
    let opened = b_coordinator().open(&records);
    let mut ledger = opened.ledger;
    for (index, job) in opened.jobs.into_iter().enumerate() {
        let Some(mut ready) = job else { continue };
        let mut script = scripts[index].iter();
        let outcome = loop {
            let x = script.next().unwrap();
            match ready.attempt(x.started_at) {
                Attempt::Done(outcome) => break outcome,
                Attempt::Send(flight, _) => match flight.on_reply(x.reply, x.replied_at, x.entropy).next {
                    Settled::Done(outcome) => break outcome,
                    Settled::Retry(next, _) => ready = next,
                },
            }
        };
        assert!(ledger.settle(index, outcome));
    }
    let live = ledger.close();
    let replayed = b_coordinator().process_batch(&records, &scripts);
    assert_eq!(live, replayed);
    assert_eq!(
        live.failure_set(),
        vec!["b".to_string(), "c".to_string(), "d".to_string()]
    );
    assert_eq!(
        live.entries()[3],
        b_failed("d", Failure::Dispatch(DispatchError::Permanent(Cause::UnknownEventKind)))
    );
}

#[test]
fn outcomes_can_be_entered_in_any_order() {
    let records = vec![b_good("a", 1), b_good("b", 2), b_good("c", 3)];
    let failed = Err(Failure::Dispatch(DispatchError::Transient(Cause::Network)));
    let mut forward = b_coordinator().open(&records).ledger;
    assert!(forward.settle(0, Ok(())));
    assert!(forward.settle(2, failed));
    let mut backward = b_coordinator().open(&records).ledger;
    assert!(backward.settle(2, failed));
    assert!(backward.settle(0, Ok(())));
    assert_eq!(forward.close(), backward.close());
}

#[test]
fn a_coordinator_needs_a_worker() {
    let policy = RetryPolicy::standard();
    assert!(BatchCoordinator::new(policy, B_DEADLINE_MS, 0).is_none());
    assert_eq!(BatchCoordinator::new(policy, B_DEADLINE_MS, 1).unwrap().workers(), 1);
    assert_eq!(BatchCoordinator::new(policy, 0, usize::MAX).unwrap().workers(), usize::MAX);
}

#[test]
fn no_more_records_are_in_flight_than_there_are_workers() {
    let coordinator = BatchCoordinator::new(RetryPolicy::standard(), B_DEADLINE_MS, 2).unwrap();
    let records: Vec<RawRecord> = (0..5).map(|i| b_good(&format!("m-{}", i), i)).collect();
    let mut ledger = coordinator.open(&records).ledger;
    assert_eq!(ledger.claim(), Some(0));
    assert_eq!(ledger.claim(), Some(1));
    assert_eq!(ledger.claim(), None);
    assert_eq!(ledger.claim(), None);
    assert!(ledger.settle(1, Ok(())));
    assert_eq!(ledger.claim(), Some(2));
    assert_eq!(ledger.claim(), None);
    assert!(ledger.settle(0, Ok(())));
    assert!(ledger.settle(2, Ok(())));
    assert_eq!(ledger.claim(), Some(3));
    assert_eq!(ledger.claim(), Some(4));
    assert_eq!(ledger.claim(), None);
    assert!(ledger.settle(3, Ok(())));
    assert_eq!(ledger.claim(), None);
    assert!(ledger.settle(4, Ok(())));
    assert_eq!(ledger.claim(), None);
    assert!(ledger.close().failure_set().is_empty());
}

#[test]
fn a_malformed_record_is_never_handed_to_a_worker() {
    let coordinator = BatchCoordinator::new(RetryPolicy::standard(), B_DEADLINE_MS, 8).unwrap();
    let records = vec![
        b_record("bad-0", RawValue::Null),
        b_good("ok-1", 1),
        b_record("bad-2", RawValue::Null),
        b_good("ok-3", 3),
    ];
    let mut ledger = coordinator.open(&records).ledger;
    assert_eq!(ledger.claim(), Some(1));
    assert_eq!(ledger.claim(), Some(3));
    assert_eq!(ledger.claim(), None);
}

#[test]
fn a_record_that_was_settled_unclaimed_is_not_started() {
    let coordinator = BatchCoordinator::new(RetryPolicy::standard(), B_DEADLINE_MS, 1).unwrap();
    let records = vec![b_good("a", 1), b_good("b", 2)];
    let mut ledger = coordinator.open(&records).ledger;
    assert!(ledger.settle(0, Err(Failure::DeadlineExceeded)));
    assert_eq!(ledger.claim(), Some(1));
    assert_eq!(ledger.claim(), None);
    assert_eq!(ledger.close().failure_set(), vec!["a".to_string(), "b".to_string()]);
}

#[test]
fn a_batch_run_through_claims_ends_as_its_replay() {
    for workers in 1..5usize {
        let coordinator = BatchCoordinator::new(RetryPolicy::new(3, 100, 1_000).unwrap(), B_DEADLINE_MS, workers).unwrap();
        let records: Vec<RawRecord> = (0..6)
            .map(|i| if i % 3 == 2 { b_record(&format!("m-{}", i), RawValue::Null) } else { b_good(&format!("m-{}", i), i) })
            .collect();
        let scripts: Vec<Vec<Exchange>> = (0..6)
            .map(|i| b_always(if i % 2 == 0 { Reply::Status(200) } else { Reply::Status(503) }, 3))
            .collect();
        let opened = coordinator.open(&records);
        let mut ledger = opened.ledger;
        let mut jobs = opened.jobs;
        let mut in_flight: Vec<usize> = Vec::new();
        let mut most = 0;
        loop {
            while let Some(index) = ledger.claim() {
                in_flight.push(index);
            }
            most = most.max(in_flight.len());
            let Some(index) = in_flight.pop() else { break };
            let replay = jobs[index].take().unwrap().replay(&scripts[index]);
            assert!(ledger.settle(index, replay.outcome.unwrap()));
        }
        assert!(most <= workers);
        assert_eq!(ledger.close(), coordinator.process_batch(&records, &scripts));
    }
}
