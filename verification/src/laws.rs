//! What holds of the pipeline as a whole, proved from the contracts of its parts.
use crate::batch::{
    batch_outcome, entry_for, failure_refs, first_waiting, in_flight, ledger_claim, ledger_claimed,
    ledger_closed, ledger_opened, ledger_settled, lemma_first_waiting, lemma_in_flight_update,
    planned, record_outcome, script_for, RecordOutcomeView, RecordView, SlotView,
};
use crate::decode::{decode_spec, DecodeError, Field};
use crate::dispatch::{seconds, AttemptView, DispatcherView, Exchange, Outcome, SettledView};
use crate::guard::{expired, GuardError};
use crate::outcome::{DispatchError, Failure};
use crate::payload::Tree;
use crate::policy::{lemma_backoff_bounds, PolicyView};
use crate::key::IdempotencyKey;
use crate::request::{request_for, Operation, RequestView, Verdict};
use crate::schema::{JobView, Options};
use vstd::prelude::*;

verus! {

/// The group that a member of the schema lives in; none for a member of the record itself.
pub open spec fn group_of(field: Field) -> Option<Field> {
    match field {
        Field::Url | Field::Username | Field::Password | Field::Layer => Some(Field::Body),
        Field::Token | Field::Expires | Field::Referer => Some(Field::Secrets),
        Field::Logging => Some(Field::Options),
        _ => None,
    }
}

/// What a payload holds for a member of the schema, looked up in its group.
pub open spec fn lookup(raw: Tree, field: Field) -> Option<Tree> {
    match group_of(field) {
        None => raw.get(field.wire()),
        Some(group) => match raw.get(group.wire()) {
            Some(parent) => parent.get(field.wire()),
            None => None,
        },
    }
}

/// A payload that lacks a member of the schema does not decode, whatever
/// else it holds and whatever the validator says of its feature.
pub proof fn law_missing_member_fails(raw: Tree, feature_accepted: bool, field: Field)
    requires
        lookup(raw, field) is None,
    ensures
        decode_spec(raw, feature_accepted) is Err,
{
}

/// Whether two members of the schema stand apart: they differ, and neither
/// is the group of the other.
pub open spec fn apart(one: Field, other: Field) -> bool {
    one != other && group_of(one) != Some(other) && group_of(other) != Some(one)
}

/// A payload that lacks one member, and holds for every member that stands
/// apart from it what a payload that decodes holds, fails with exactly
/// that: the error names the missing member.
pub proof fn law_missing_member_is_named(raw: Tree, whole: Tree, field: Field)
    requires
        decode_spec(whole, true) is Ok,
        lookup(raw, field) is None,
        forall|other: Field|
            apart(field, other) ==> #[trigger] lookup(raw, other) == lookup(whole, other),
        group_of(field) matches Some(group) ==> raw.get(group.wire()) matches Some(
            Tree::Record(_),
        ),
    ensures
        decode_spec(raw, true) == Err::<JobView, DecodeError>(DecodeError::MissingField(field)),
{
    assert(apart(field, Field::Id) ==> lookup(raw, Field::Id) == lookup(whole, Field::Id));
    assert(apart(field, Field::Type) ==> lookup(raw, Field::Type) == lookup(whole, Field::Type));
    assert(apart(field, Field::Feat) ==> lookup(raw, Field::Feat) == lookup(whole, Field::Feat));
    assert(apart(field, Field::Body) ==> lookup(raw, Field::Body) == lookup(whole, Field::Body));
    assert(apart(field, Field::Url) ==> lookup(raw, Field::Url) == lookup(whole, Field::Url));
    assert(apart(field, Field::Username) ==> lookup(raw, Field::Username) == lookup(
        whole,
        Field::Username,
    ));
    assert(apart(field, Field::Password) ==> lookup(raw, Field::Password) == lookup(
        whole,
        Field::Password,
    ));
    assert(apart(field, Field::Layer) ==> lookup(raw, Field::Layer) == lookup(whole, Field::Layer));
    assert(apart(field, Field::Secrets) ==> lookup(raw, Field::Secrets) == lookup(
        whole,
        Field::Secrets,
    ));
    assert(apart(field, Field::Token) ==> lookup(raw, Field::Token) == lookup(whole, Field::Token));
    assert(apart(field, Field::Expires) ==> lookup(raw, Field::Expires) == lookup(
        whole,
        Field::Expires,
    ));
    assert(apart(field, Field::Referer) ==> lookup(raw, Field::Referer) == lookup(
        whole,
        Field::Referer,
    ));
    assert(apart(field, Field::Options) ==> lookup(raw, Field::Options) == lookup(
        whole,
        Field::Options,
    ));
    assert(apart(field, Field::Logging) ==> lookup(raw, Field::Logging) == lookup(
        whole,
        Field::Logging,
    ));
}

/// A record that does not decode fails with the decoder's error, whatever
/// the endpoint and the clock would have shown: neither the guard nor the
/// dispatcher has a part in its outcome.
pub proof fn law_malformed_record_is_isolated(
    policy: PolicyView,
    deadline: u64,
    record: RecordView,
    script: Seq<Exchange>,
)
    requires
        planned(policy, deadline, record) is Err,
    ensures
        record_outcome(policy, deadline, record, script) == (RecordOutcomeView::Failure {
            record_ref: record.record_ref,
            reason: Failure::Decode(planned(policy, deadline, record)->Err_0),
        }),
{
}

/// A record that failed is in the failure set of its batch.
pub proof fn law_failure_is_reported(entries: Seq<RecordOutcomeView>, at: int)
    requires
        0 <= at < entries.len(),
        entries[at] is Failure,
    ensures
        failure_refs(entries).contains(entries[at]->record_ref),
    decreases entries.len(),
{
    let before = failure_refs(entries.drop_last());
    if at == entries.len() - 1 {
        let all = before.push(entries[at]->record_ref);
        assert(all[before.len() as int] == entries[at]->record_ref);
    } else {
        assert(entries.drop_last()[at] == entries[at]);
        law_failure_is_reported(entries.drop_last(), at);
        let found = choose|k: int| 0 <= k < before.len() && before[k] == entries[at]->record_ref;
        match entries.last() {
            RecordOutcomeView::Success => {},
            RecordOutcomeView::Failure { record_ref, .. } => {
                assert(before.push(record_ref)[found] == entries[at]->record_ref);
            },
        }
    }
}

/// A record that lacks a member of the schema has failed when its batch is
/// opened, before any job exists for it; it ends with the decoder's error
/// whatever the endpoint and the clock show, and its identity is in the
/// failure set of the batch.
pub proof fn law_record_missing_a_member_is_reported(
    policy: PolicyView,
    deadline: u64,
    records: Seq<RecordView>,
    scripts: Seq<Seq<Exchange>>,
    at: int,
    field: Field,
)
    requires
        0 <= at < records.len(),
        lookup(records[at].payload, field) is None,
    ensures
        planned(policy, deadline, records[at]) is Err,
        ledger_opened(policy, deadline, records)[at].outcome == Some(
            Err::<(), Failure>(Failure::Decode(planned(policy, deadline, records[at])->Err_0)),
        ),
        batch_outcome(policy, deadline, records, scripts)[at] == (RecordOutcomeView::Failure {
            record_ref: records[at].record_ref,
            reason: Failure::Decode(planned(policy, deadline, records[at])->Err_0),
        }),
        failure_refs(batch_outcome(policy, deadline, records, scripts)).contains(
            records[at].record_ref,
        ),
{
    law_missing_member_fails(
        records[at].payload,
        crate::decode::feature_verdict(records[at].payload),
        field,
    );
    law_malformed_record_is_isolated(policy, deadline, records[at], script_for(scripts, at));
    law_failure_is_reported(batch_outcome(policy, deadline, records, scripts), at);
}

/// A record that succeeded is not in the failure set on its own account:
/// where every record succeeded the set is empty.
pub proof fn law_clean_batch_reports_nothing(entries: Seq<RecordOutcomeView>)
    requires
        forall|i: int| 0 <= i < entries.len() ==> entries[i] is Success,
    ensures
        failure_refs(entries) == Seq::<Seq<char>>::empty(),
    decreases entries.len(),
{
    if entries.len() > 0 {
        assert forall|i: int| 0 <= i < entries.drop_last().len() implies entries.drop_last()[i] is Success by {
            assert(entries.drop_last()[i] == entries[i]);
        }
        law_clean_batch_reports_nothing(entries.drop_last());
    }
}

/// An exchange under which a job that names an operation is sent and delivered:
/// the attempt starts before the deadline and before the token expires, and
/// the endpoint answers with success.
pub open spec fn delivers(job: JobView, deadline: u64, x: Exchange) -> bool {
    &&& x.started_at < deadline
    &&& !expired(job, seconds(x.started_at))
    &&& x.reply.verdict() == Verdict::Delivered
}

/// A record that decodes to a job of a known kind, whose token is good and
/// whose batch has time left, succeeds against an endpoint that answers
/// with success, and with one request.
pub proof fn law_well_formed_record_succeeds(
    policy: PolicyView,
    deadline: u64,
    record: RecordView,
    script: Seq<Exchange>,
)
    requires
        planned(policy, deadline, record) is Ok,
        request_for(planned(policy, deadline, record)->Ok_0.job) is Some,
        script.len() > 0,
        delivers(planned(policy, deadline, record)->Ok_0.job, deadline, script[0]),
    ensures
        record_outcome(policy, deadline, record, script) == RecordOutcomeView::Success,
        planned(policy, deadline, record)->Ok_0.run(script).requests == 1,
{
}

/// With an expired token nothing is sent: the step of a ready job is never
/// `Send`, and before the deadline it ends the job with `TokenExpired`.
pub proof fn law_expired_token_sends_nothing(dispatcher: DispatcherView, now: u64)
    requires
        expired(dispatcher.job, seconds(now)),
    ensures
        dispatcher.attempt(now) is Done,
        now < dispatcher.deadline ==> dispatcher.attempt(now) == AttemptView::Done(
            Err(Failure::Guard(GuardError::TokenExpired)),
        ),
{
}

/// A run that begins with an expired token sends no request at all.
pub proof fn law_expired_token_run_sends_nothing(dispatcher: DispatcherView, script: Seq<Exchange>)
    requires
        script.len() > 0,
        expired(dispatcher.job, seconds(script[0].started_at)),
    ensures
        dispatcher.run(script).requests == 0,
        dispatcher.run(script).outcome is Some,
        dispatcher.run(script).outcome->Some_0 is Err,
{
}

/// A script under which every attempt of the job goes out and fails
/// transiently with time to spare: each attempt starts before the deadline
/// and before the token expires, each reply is transient, and even the
/// longest wait after it ends before the deadline.
pub open spec fn keeps_failing(dispatcher: DispatcherView, script: Seq<Exchange>) -> bool {
    forall|i: int|
        0 <= i < script.len() ==> {
            let x = #[trigger] script[i];
            &&& x.reply.verdict() == Verdict::Transient
            &&& x.started_at < dispatcher.deadline
            &&& !expired(dispatcher.job, seconds(x.started_at))
            &&& x.replied_at + dispatcher.policy.max_delay_ms < dispatcher.deadline
        }
}

/// A job in mid-run against an endpoint that keeps failing uses up the
/// attempts it has left and ends with the last transient failure.
pub proof fn lemma_exhaustion_from(dispatcher: DispatcherView, script: Seq<Exchange>)
    requires
        dispatcher.wf(),
        request_for(dispatcher.job) is Some,
        script.len() >= dispatcher.policy.max_attempts - dispatcher.attempts,
        keeps_failing(dispatcher, script),
    ensures
        dispatcher.run(script).requests == dispatcher.policy.max_attempts - dispatcher.attempts,
        dispatcher.run(script).outcome == Some(
            Err::<(), Failure>(
                Failure::Dispatch(
                    DispatchError::Transient(
                        script[dispatcher.policy.max_attempts - dispatcher.attempts - 1].reply.cause(),
                    ),
                ),
            ),
        ),
    decreases dispatcher.policy.max_attempts - dispatcher.attempts,
{
    let x = script[0];
    let flight = dispatcher.attempt(x.started_at)->Send_0;
    assert(dispatcher.attempt(x.started_at) is Send);
    lemma_backoff_bounds(dispatcher.policy, flight.attempts, x.entropy);
    match flight.settle(x.reply, x.replied_at, x.entropy) {
        SettledView::Done(_) => {
            assert(flight.attempts >= dispatcher.policy.max_attempts);
        },
        SettledView::Retry(next, _) => {
            let rest = script.drop_first();
            assert forall|i: int| 0 <= i < rest.len() implies {
                let y = #[trigger] rest[i];
                &&& y.reply.verdict() == Verdict::Transient
                &&& y.started_at < next.deadline
                &&& !expired(next.job, seconds(y.started_at))
                &&& y.replied_at + next.policy.max_delay_ms < next.deadline
            } by {
                assert(rest[i] == script[i + 1]);
            }
            lemma_exhaustion_from(next, rest);
            assert(rest[next.policy.max_attempts - next.attempts - 1] == script[
                dispatcher.policy.max_attempts - dispatcher.attempts - 1
            ]);
        },
    }
}

/// Against an endpoint that always fails transiently a job is sent exactly
/// as often as its policy allows, and then ends with `Transient`, carrying
/// the cause of the last attempt.
pub proof fn law_retry_exhaustion(
    job: JobView,
    policy: PolicyView,
    deadline: u64,
    script: Seq<Exchange>,
)
    requires
        policy.wf(),
        request_for(job) is Some,
        script.len() >= policy.max_attempts,
        keeps_failing(DispatcherView::fresh(job, policy, deadline), script),
    ensures
        DispatcherView::fresh(job, policy, deadline).run(script).requests == policy.max_attempts,
        DispatcherView::fresh(job, policy, deadline).run(script).outcome == Some(
            Err::<(), Failure>(
                Failure::Dispatch(
                    DispatchError::Transient(script[policy.max_attempts - 1].reply.cause()),
                ),
            ),
        ),
{
    lemma_exhaustion_from(DispatcherView::fresh(job, policy, deadline), script);
}

/// However often a job is tried, the policy's bound holds: a run sends at
/// most as many requests as the job had attempts left.
pub proof fn law_attempts_are_bounded(dispatcher: DispatcherView, script: Seq<Exchange>)
    requires
        dispatcher.wf(),
    ensures
        dispatcher.run(script).requests <= dispatcher.policy.max_attempts - dispatcher.attempts,
    decreases script.len(),
{
    if script.len() > 0 {
        let x = script[0];
        match dispatcher.attempt(x.started_at) {
            AttemptView::Done(_) => {},
            AttemptView::Send(flight, _) => match flight.settle(x.reply, x.replied_at, x.entropy) {
                SettledView::Done(_) => {},
                SettledView::Retry(next, _) => {
                    law_attempts_are_bounded(next, script.drop_first());
                },
            },
        }
    }
}

/// The request of a job is made of the job alone: whenever the job is sent,
/// at whatever time and after however many attempts, in this run or after
/// a redelivery, the same request goes out, under the same idempotency key.
pub proof fn law_same_job_same_request(
    first: DispatcherView,
    second: DispatcherView,
    at_first: u64,
    at_second: u64,
)
    requires
        first.job == second.job,
        first.attempt(at_first) is Send,
        second.attempt(at_second) is Send,
    ensures
        first.attempt(at_first)->Send_1 == second.attempt(at_second)->Send_1,
        first.attempt(at_first)->Send_1.key == (IdempotencyKey {
            id: first.job.id as i32,
            kind: first.job.event_kind,
        }),
{
}

/// A layer that keeps at most one feature per id, as the remote service is
/// asked to: an upsert writes the feature under the id of the request's
/// key, a removal deletes what is there.
pub open spec fn layer_after(layer: Map<int, Tree>, request: RequestView) -> Map<int, Tree> {
    match request.operation {
        Operation::Upsert => match request.payload {
            Some(feature) => layer.insert(request.key.id as int, feature),
            None => layer,
        },
        Operation::Remove => layer.remove(request.key.id as int),
    }
}

/// Sending the request of a job twice leaves such a layer as sending it
/// once does: a redelivered record creates no second feature.
pub proof fn law_redelivery_is_idempotent(layer: Map<int, Tree>, job: JobView)
    requires
        request_for(job) is Some,
    ensures
        layer_after(layer_after(layer, request_for(job)->Some_0), request_for(job)->Some_0)
            == layer_after(layer, request_for(job)->Some_0),
        request_for(job)->Some_0.operation == Operation::Upsert ==> layer_after(
            layer,
            request_for(job)->Some_0,
        ).dom() == layer.dom().insert(job.id as i32 as int),
{
    let request = request_for(job)->Some_0;
    let once = layer_after(layer, request);
    assert(layer_after(once, request) =~= once);
    if request.operation == Operation::Upsert {
        assert(once.dom() =~= layer.dom().insert(job.id as i32 as int));
    }
}

/// Whether the record at `index` is one that succeeds: it decodes to a job
/// of a known kind, and its script begins with an exchange that delivers.
pub open spec fn succeeds_at(
    policy: PolicyView,
    deadline: u64,
    records: Seq<RecordView>,
    scripts: Seq<Seq<Exchange>>,
    index: int,
) -> bool {
    &&& planned(policy, deadline, records[index]) is Ok
    &&& request_for(planned(policy, deadline, records[index])->Ok_0.job) is Some
    &&& script_for(scripts, index).len() > 0
    &&& delivers(
        planned(policy, deadline, records[index])->Ok_0.job,
        deadline,
        script_for(scripts, index)[0],
    )
}

/// The failure set of a batch in which the record at `bad` is the only one that failed.
proof fn lemma_single_failure(entries: Seq<RecordOutcomeView>, bad: int)
    requires
        0 <= bad < entries.len(),
        entries[bad] is Failure,
        forall|i: int| 0 <= i < entries.len() && i != bad ==> entries[i] is Success,
    ensures
        failure_refs(entries) == seq![entries[bad]->record_ref],
    decreases entries.len(),
{
    let front = entries.drop_last();
    if bad == entries.len() - 1 {
        assert forall|i: int| 0 <= i < front.len() implies front[i] is Success by {
            assert(front[i] == entries[i]);
        }
        law_clean_batch_reports_nothing(front);
        assert(Seq::<Seq<char>>::empty().push(entries[bad]->record_ref) =~= seq![
            entries[bad]->record_ref,
        ]);
    } else {
        assert(front[bad] == entries[bad]);
        assert forall|i: int| 0 <= i < front.len() && i != bad implies front[i] is Success by {
            assert(front[i] == entries[i]);
        }
        lemma_single_failure(front, bad);
    }
}

/// In a batch where exactly one record is malformed and every other record
/// succeeds on its own, every other record succeeds in the batch, and the
/// failure set holds the malformed record and nothing else.
pub proof fn law_partial_failure_is_isolated(
    policy: PolicyView,
    deadline: u64,
    records: Seq<RecordView>,
    scripts: Seq<Seq<Exchange>>,
    bad: int,
)
    requires
        0 <= bad < records.len(),
        planned(policy, deadline, records[bad]) is Err,
        forall|i: int|
            0 <= i < records.len() && i != bad ==> succeeds_at(policy, deadline, records, scripts, i),
    ensures
        batch_outcome(policy, deadline, records, scripts).len() == records.len(),
        forall|i: int|
            0 <= i < records.len() && i != bad ==> batch_outcome(policy, deadline, records, scripts)[i]
                == RecordOutcomeView::Success,
        batch_outcome(policy, deadline, records, scripts)[bad] == (RecordOutcomeView::Failure {
            record_ref: records[bad].record_ref,
            reason: Failure::Decode(planned(policy, deadline, records[bad])->Err_0),
        }),
        failure_refs(batch_outcome(policy, deadline, records, scripts)) == seq![
            records[bad].record_ref,
        ],
{
    let entries = batch_outcome(policy, deadline, records, scripts);
    assert forall|i: int| 0 <= i < records.len() && i != bad implies entries[i]
        == RecordOutcomeView::Success by {
        assert(succeeds_at(policy, deadline, records, scripts, i));
        law_well_formed_record_succeeds(policy, deadline, records[i], script_for(scripts, i));
    }
    law_malformed_record_is_isolated(policy, deadline, records[bad], script_for(scripts, bad));
    lemma_single_failure(entries, bad);
}

/// Every record of a batch has its outcome at its own position, and that
/// outcome is made of the record and its own script alone.
pub proof fn law_outcomes_keep_position(
    policy: PolicyView,
    deadline: u64,
    records: Seq<RecordView>,
    scripts: Seq<Seq<Exchange>>,
    index: int,
)
    requires
        0 <= index < records.len(),
    ensures
        batch_outcome(policy, deadline, records, scripts).len() == records.len(),
        batch_outcome(policy, deadline, records, scripts)[index] == record_outcome(
            policy,
            deadline,
            records[index],
            script_for(scripts, index),
        ),
        batch_outcome(policy, deadline, records, scripts)[index] matches RecordOutcomeView::Failure {
            record_ref,
            ..
        } ==> record_ref == records[index].record_ref,
{
    let dispatcher = planned(policy, deadline, records[index]);
    if dispatcher is Ok {
        let outcome = dispatcher->Ok_0.run(script_for(scripts, index)).outcome;
        assert(record_outcome(policy, deadline, records[index], script_for(scripts, index))
            == entry_for(records[index].record_ref, outcome));
    }
}

/// A job that is first looked at when the deadline has passed is not
/// started: it ends as out of time, whatever else holds of it.
pub proof fn law_late_start_is_out_of_time(
    job: JobView,
    policy: PolicyView,
    deadline: u64,
    now: u64,
)
    requires
        now >= deadline,
    ensures
        DispatcherView::fresh(job, policy, deadline).attempt(now) == AttemptView::Done(
            Err(Failure::DeadlineExceeded),
        ),
{
}

/// The job with its logging option set to `enabled`.
pub open spec fn with_logging(dispatcher: DispatcherView, enabled: bool) -> DispatcherView {
    DispatcherView {
        job: JobView { options: Options { logging_enabled: enabled }, ..dispatcher.job },
        ..dispatcher
    }
}

/// Logging is a side channel: a job runs to the same outcome, with the
/// same number of requests, whether it asks for a trace or not.
pub proof fn law_logging_changes_no_outcome(
    dispatcher: DispatcherView,
    enabled: bool,
    script: Seq<Exchange>,
)
    ensures
        with_logging(dispatcher, enabled).run(script) == dispatcher.run(script),
    decreases script.len(),
{
    if script.len() > 0 {
        let x = script[0];
        let other = with_logging(dispatcher, enabled);
        assert(request_for(other.job) is Some == request_for(dispatcher.job) is Some);
        assert(expired(other.job, seconds(x.started_at)) == expired(
            dispatcher.job,
            seconds(x.started_at),
        ));
        match dispatcher.attempt(x.started_at) {
            AttemptView::Done(_) => {},
            AttemptView::Send(flight, _) => {
                let other_flight = other.attempt(x.started_at)->Send_0;
                match flight.settle(x.reply, x.replied_at, x.entropy) {
                    SettledView::Done(_) => {},
                    SettledView::Retry(next, _) => {
                        let other_next = other_flight.settle(x.reply, x.replied_at, x.entropy)->Retry_0;
                        assert(other_next == with_logging(next, enabled));
                        law_logging_changes_no_outcome(next, enabled, script.drop_first());
                    },
                }
            },
        }
    }
}

/// The records of a batch can be worked in any order: entering the outcomes
/// of two different records gives one ledger, whichever is entered first.
pub proof fn law_settling_commutes(
    slots: Seq<SlotView>,
    first: int,
    first_outcome: Outcome,
    second: int,
    second_outcome: Outcome,
)
    requires
        first != second,
    ensures
        ledger_settled(ledger_settled(slots, first, first_outcome), second, second_outcome)
            == ledger_settled(ledger_settled(slots, second, second_outcome), first, first_outcome),
{
    assert(ledger_settled(ledger_settled(slots, first, first_outcome), second, second_outcome)
        =~= ledger_settled(ledger_settled(slots, second, second_outcome), first, first_outcome));
}

/// The ledger of a batch after the first `upto` records were worked: each
/// record that decodes has the outcome of its run entered, where the run ended.
pub open spec fn ledger_worked(
    policy: PolicyView,
    deadline: u64,
    records: Seq<RecordView>,
    scripts: Seq<Seq<Exchange>>,
    upto: nat,
) -> Seq<SlotView>
    decreases upto,
{
    if upto == 0 {
        ledger_opened(policy, deadline, records)
    } else {
        let at = upto - 1;
        let before = ledger_worked(policy, deadline, records, scripts, at as nat);
        match planned(policy, deadline, records[at]) {
            Err(_) => before,
            Ok(dispatcher) => match dispatcher.run(script_for(scripts, at)).outcome {
                Some(outcome) => ledger_settled(before, at, outcome),
                None => before,
            },
        }
    }
}

/// What a ledger holds while a batch is worked: the records worked so far
/// stand as their outcome says, the others as the opening left them.
proof fn lemma_ledger_worked(
    policy: PolicyView,
    deadline: u64,
    records: Seq<RecordView>,
    scripts: Seq<Seq<Exchange>>,
    upto: nat,
)
    requires
        upto <= records.len(),
    ensures
        ledger_worked(policy, deadline, records, scripts, upto).len() == records.len(),
        forall|i: int|
            0 <= i < records.len() ==> (#[trigger] ledger_worked(
                policy,
                deadline,
                records,
                scripts,
                upto,
            )[i]).record_ref == records[i].record_ref,
        forall|i: int|
            0 <= i < upto ==> entry_for(
                records[i].record_ref,
                (#[trigger] ledger_worked(policy, deadline, records, scripts, upto)[i]).outcome,
            ) == record_outcome(policy, deadline, records[i], script_for(scripts, i)),
        forall|i: int|
            upto <= i < records.len() ==> (#[trigger] ledger_worked(
                policy,
                deadline,
                records,
                scripts,
                upto,
            )[i]).outcome == ledger_opened(policy, deadline, records)[i].outcome,
    decreases upto,
{
    if upto > 0 {
        lemma_ledger_worked(policy, deadline, records, scripts, (upto - 1) as nat);
    }
}

/// A batch that is opened, worked record by record and closed ends as the
/// batch outcome says: the two ways through a batch agree.
pub proof fn law_worked_ledger_closes_to_batch_outcome(
    policy: PolicyView,
    deadline: u64,
    records: Seq<RecordView>,
    scripts: Seq<Seq<Exchange>>,
)
    ensures
        ledger_closed(ledger_worked(policy, deadline, records, scripts, records.len()))
            == batch_outcome(policy, deadline, records, scripts),
{
    lemma_ledger_worked(policy, deadline, records, scripts, records.len());
    assert(ledger_closed(ledger_worked(policy, deadline, records, scripts, records.len()))
        =~= batch_outcome(policy, deadline, records, scripts));
}

/// When a batch is opened no record is in flight.
pub proof fn law_opened_batch_is_idle(policy: PolicyView, deadline: u64, records: Seq<RecordView>)
    ensures
        in_flight(ledger_opened(policy, deadline, records)) == 0,
{
    lemma_none_claimed_is_idle(ledger_opened(policy, deadline, records));
}

/// Where no record is claimed none is in flight.
proof fn lemma_none_claimed_is_idle(slots: Seq<SlotView>)
    requires
        forall|i: int| 0 <= i < slots.len() ==> !(#[trigger] slots[i]).claimed,
    ensures
        in_flight(slots) == 0,
    decreases slots.len(),
{
    if slots.len() > 0 {
        assert forall|i: int| 0 <= i < slots.drop_last().len() implies !(
        #[trigger] slots.drop_last()[i]).claimed by {
            assert(slots.drop_last()[i] == slots[i]);
        }
        lemma_none_claimed_is_idle(slots.drop_last());
    }
}

/// Claims keep the bound: a ledger with no more records in flight than it
/// has workers stays so when the next record is claimed, and a claim puts
/// exactly one more record in flight.
pub proof fn law_claims_keep_the_bound(slots: Seq<SlotView>, workers: nat)
    requires
        in_flight(slots) <= workers,
    ensures
        match ledger_claim(slots, workers) {
            Some(index) => {
                &&& 0 <= index < slots.len()
                &&& slots[index].waiting()
                &&& in_flight(ledger_claimed(slots, index)) == in_flight(slots) + 1
                &&& in_flight(ledger_claimed(slots, index)) <= workers
            },
            None => in_flight(slots) == workers || first_waiting(slots) is None,
        },
{
    lemma_first_waiting(slots);
    if let Some(index) = ledger_claim(slots, workers) {
        lemma_in_flight_update(slots, index, SlotView { claimed: true, ..slots[index] });
    }
}

/// Entering an outcome never puts a record in flight, and frees the worker
/// of a record that was.
pub proof fn law_settling_frees_a_worker(slots: Seq<SlotView>, index: int, outcome: Outcome)
    ensures
        in_flight(ledger_settled(slots, index, outcome)) <= in_flight(slots),
        0 <= index < slots.len() && slots[index].busy() ==> in_flight(
            ledger_settled(slots, index, outcome),
        ) == in_flight(slots) - 1,
{
    if 0 <= index < slots.len() && slots[index].outcome is None {
        lemma_in_flight_update(slots, index, SlotView { outcome: Some(outcome), ..slots[index] });
    }
}

} // verus!
