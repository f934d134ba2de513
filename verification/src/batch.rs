//! The batch coordinator: every record of a batch on its own, one outcome
//! per record, and the report of those that failed.
//!
//! A record is decoded, guarded and dispatched without regard to its
//! siblings: no outcome of one record enters the outcome of another. The
//! coordinator keeps nothing from one batch to the next.
use crate::decode::{decode, decode_spec, feature_verdict, DecodeError};
use crate::dispatch::{Dispatcher, DispatcherView, Exchange, Outcome};
use crate::outcome::Failure;
use crate::payload::{RawValue, Tree};
use crate::policy::{PolicyView, RetryPolicy};
use vstd::prelude::*;

verus! {

/// One record as the queue delivered it.
#[derive(Debug, PartialEq)]
pub struct RawRecord {
    /// The identity that the queue gave the record. Failures are reported by it.
    pub record_ref: String,
    pub payload: RawValue,
}

/// A record as a mathematical value.
pub struct RecordView {
    pub record_ref: Seq<char>,
    pub payload: Tree,
}

impl View for RawRecord {
    type V = RecordView;

    open spec fn view(&self) -> RecordView {
        RecordView { record_ref: self.record_ref@, payload: self.payload@ }
    }
}

impl DeepView for RawRecord {
    type V = RecordView;

    open spec fn deep_view(&self) -> RecordView {
        self@
    }
}

impl DeepView for Exchange {
    type V = Exchange;

    open spec fn deep_view(&self) -> Exchange {
        *self
    }
}

/// How one record of a batch ended.
#[derive(Debug, PartialEq, Eq)]
pub enum RecordOutcome {
    Success,
    Failure { record_ref: String, reason: Failure },
}

/// The outcome of a record as a mathematical value.
pub enum RecordOutcomeView {
    Success,
    Failure { record_ref: Seq<char>, reason: Failure },
}

impl View for RecordOutcome {
    type V = RecordOutcomeView;

    open spec fn view(&self) -> RecordOutcomeView {
        match self {
            RecordOutcome::Success => RecordOutcomeView::Success,
            RecordOutcome::Failure { record_ref, reason } => RecordOutcomeView::Failure {
                record_ref: record_ref@,
                reason: *reason,
            },
        }
    }
}

impl DeepView for RecordOutcome {
    type V = RecordOutcomeView;

    open spec fn deep_view(&self) -> RecordOutcomeView {
        self@
    }
}

/// The entry of a record that ended with `outcome`, or that had not ended
/// when the batch was closed: such a record is reported as out of time, so
/// that the queue delivers it again.
pub open spec fn entry_for(record_ref: Seq<char>, outcome: Option<Outcome>) -> RecordOutcomeView {
    match outcome {
        Some(Ok(())) => RecordOutcomeView::Success,
        Some(Err(reason)) => RecordOutcomeView::Failure { record_ref, reason },
        None => RecordOutcomeView::Failure { record_ref, reason: Failure::DeadlineExceeded },
    }
}

/// The identities of the records that failed, in batch order.
pub open spec fn failure_refs(entries: Seq<RecordOutcomeView>) -> Seq<Seq<char>>
    decreases entries.len(),
{
    if entries.len() == 0 {
        Seq::empty()
    } else {
        let before = failure_refs(entries.drop_last());
        match entries.last() {
            RecordOutcomeView::Success => before,
            RecordOutcomeView::Failure { record_ref, .. } => before.push(record_ref),
        }
    }
}

/// The job that a record starts as, where it decodes.
pub open spec fn planned(policy: PolicyView, deadline: u64, record: RecordView) -> Result<
    DispatcherView,
    DecodeError,
> {
    match decode_spec(record.payload, feature_verdict(record.payload)) {
        Ok(job) => Ok(DispatcherView::fresh(job, policy, deadline)),
        Err(e) => Err(e),
    }
}

/// The outcome of one record against a script of exchanges: what decoding
/// says where it fails, else what the run of the job says.
pub open spec fn record_outcome(
    policy: PolicyView,
    deadline: u64,
    record: RecordView,
    script: Seq<Exchange>,
) -> RecordOutcomeView {
    match planned(policy, deadline, record) {
        Err(e) => RecordOutcomeView::Failure {
            record_ref: record.record_ref,
            reason: Failure::Decode(e),
        },
        Ok(dispatcher) => entry_for(record.record_ref, dispatcher.run(script).outcome),
    }
}

/// The script of the record at `index`; the empty one where none is given.
pub open spec fn script_for(scripts: Seq<Seq<Exchange>>, index: int) -> Seq<Exchange> {
    if 0 <= index < scripts.len() {
        scripts[index]
    } else {
        Seq::empty()
    }
}

/// The outcome of a batch: one entry per record, at the record's position.
pub open spec fn batch_outcome(
    policy: PolicyView,
    deadline: u64,
    records: Seq<RecordView>,
    scripts: Seq<Seq<Exchange>>,
) -> Seq<RecordOutcomeView> {
    Seq::new(
        records.len(),
        |i: int| record_outcome(policy, deadline, records[i], script_for(scripts, i)),
    )
}

/// The outcomes of one batch, one per record and in the order of the records.
#[derive(Debug, PartialEq, Eq)]
pub struct BatchOutcome {
    entries: Vec<RecordOutcome>,
}

impl View for BatchOutcome {
    type V = Seq<RecordOutcomeView>;

    closed spec fn view(&self) -> Seq<RecordOutcomeView> {
        self.entries.deep_view()
    }
}

impl BatchOutcome {
    /// The outcomes, one per record and in the order of the records.
    pub fn entries(&self) -> (entries: &Vec<RecordOutcome>)
        ensures
            entries.deep_view() == self@,
    {
        &self.entries
    }

    /// The identities of the records to deliver again, in batch order. A
    /// record that is not listed is acknowledged as consumed.
    pub fn failure_set(&self) -> (refs: Vec<String>)
        ensures
            refs.deep_view() == failure_refs(self@),
    {
        let mut refs: Vec<String> = Vec::new();
        let mut i: usize = 0;
        assert(self@.take(0) =~= Seq::empty());
        while i < self.entries.len()
            invariant
                i <= self.entries.len(),
                self@.len() == self.entries.len(),
                refs.deep_view() == failure_refs(self@.take(i as int)),
            decreases self.entries.len() - i,
        {
            let ghost before = refs.deep_view();
            proof {
                let upto = self@.take(i as int + 1);
                assert(upto.drop_last() =~= self@.take(i as int));
                assert(upto.last() == self.entries@[i as int]@);
            }
            match &self.entries[i] {
                RecordOutcome::Success => {},
                RecordOutcome::Failure { record_ref, .. } => {
                    refs.push(record_ref.clone());
                    assert(refs.deep_view() =~= before.push(record_ref@));
                },
            }
            i = i + 1;
        }
        assert(self@.take(i as int) =~= self@);
        refs
    }
}

/// The place of one record in a ledger, as a mathematical value.
pub struct SlotView {
    pub record_ref: Seq<char>,
    /// Whether a worker has taken the record.
    pub claimed: bool,
    /// How the record ended; `None` while it has not.
    pub outcome: Option<Outcome>,
}

impl SlotView {
    /// A worker has the record and has not brought its outcome yet.
    pub open spec fn busy(self) -> bool {
        self.claimed && self.outcome is None
    }

    /// The record has no outcome and no worker.
    pub open spec fn waiting(self) -> bool {
        !self.claimed && self.outcome is None
    }
}

/// A ledger as a mathematical value.
pub struct LedgerView {
    pub slots: Seq<SlotView>,
    /// How many records may be in flight at once.
    pub workers: nat,
}

/// The ledger of a batch that was just opened: the records that do not
/// decode have failed, the others wait for a worker.
pub open spec fn ledger_opened(policy: PolicyView, deadline: u64, records: Seq<RecordView>) -> Seq<
    SlotView,
> {
    Seq::new(
        records.len(),
        |i: int|
            SlotView {
                record_ref: records[i].record_ref,
                claimed: false,
                outcome: match planned(policy, deadline, records[i]) {
                    Err(e) => Some(Err(Failure::Decode(e))),
                    Ok(_) => None,
                },
            },
    )
}

/// The number of records that are in flight.
pub open spec fn in_flight(slots: Seq<SlotView>) -> nat
    decreases slots.len(),
{
    if slots.len() == 0 {
        0
    } else if slots.last().busy() {
        in_flight(slots.drop_last()) + 1
    } else {
        in_flight(slots.drop_last())
    }
}

/// The position of the first record that waits for a worker.
pub open spec fn first_waiting(slots: Seq<SlotView>) -> Option<int>
    decreases slots.len(),
{
    if slots.len() == 0 {
        None
    } else {
        match first_waiting(slots.drop_last()) {
            Some(index) => Some(index),
            None => if slots.last().waiting() {
                Some(slots.len() - 1)
            } else {
                None
            },
        }
    }
}

/// The record that the next worker takes: the first that waits, while
/// fewer than `workers` records are in flight.
pub open spec fn ledger_claim(slots: Seq<SlotView>, workers: nat) -> Option<int> {
    if in_flight(slots) < workers {
        first_waiting(slots)
    } else {
        None
    }
}

/// The ledger after a worker took the record at `index`.
pub open spec fn ledger_claimed(slots: Seq<SlotView>, index: int) -> Seq<SlotView> {
    slots.update(index, SlotView { claimed: true, ..slots[index] })
}

/// Whether a ledger takes an outcome for the record at `index`: the batch
/// has such a record, and it has no outcome yet.
pub open spec fn ledger_accepts(slots: Seq<SlotView>, index: int) -> bool {
    0 <= index < slots.len() && slots[index].outcome is None
}

/// The ledger after the record at `index` ended with `outcome`. An outcome
/// that is in the ledger stays: the first one counts.
pub open spec fn ledger_settled(slots: Seq<SlotView>, index: int, outcome: Outcome) -> Seq<
    SlotView,
> {
    if ledger_accepts(slots, index) {
        slots.update(index, SlotView { outcome: Some(outcome), ..slots[index] })
    } else {
        slots
    }
}

/// The batch outcome that a ledger closes to.
pub open spec fn ledger_closed(slots: Seq<SlotView>) -> Seq<RecordOutcomeView> {
    Seq::new(slots.len(), |i: int| entry_for(slots[i].record_ref, slots[i].outcome))
}

/// The first waiting record waits, and no record before it does.
pub proof fn lemma_first_waiting(slots: Seq<SlotView>)
    ensures
        match first_waiting(slots) {
            Some(index) => {
                &&& 0 <= index < slots.len()
                &&& slots[index].waiting()
                &&& forall|j: int| 0 <= j < index ==> !(#[trigger] slots[j]).waiting()
            },
            None => forall|j: int| 0 <= j < slots.len() ==> !(#[trigger] slots[j]).waiting(),
        },
    decreases slots.len(),
{
    if slots.len() > 0 {
        let front = slots.drop_last();
        lemma_first_waiting(front);
        assert forall|j: int| 0 <= j < front.len() implies front[j] == slots[j] by {}
    }
}

/// What a change to one slot does to the number of records in flight.
pub proof fn lemma_in_flight_update(slots: Seq<SlotView>, index: int, slot: SlotView)
    requires
        0 <= index < slots.len(),
    ensures
        in_flight(slots.update(index, slot)) == in_flight(slots) - (if slots[index].busy() {
            1int
        } else {
            0int
        }) + (if slot.busy() {
            1int
        } else {
            0int
        }),
    decreases slots.len(),
{
    let changed = slots.update(index, slot);
    if index == slots.len() - 1 {
        assert(changed.drop_last() =~= slots.drop_last());
    } else {
        assert(changed.drop_last() =~= slots.drop_last().update(index, slot));
        lemma_in_flight_update(slots.drop_last(), index, slot);
    }
}

#[derive(Debug)]
struct Slot {
    record_ref: String,
    claimed: bool,
    outcome: Option<Outcome>,
}

impl DeepView for Slot {
    type V = SlotView;

    closed spec fn deep_view(&self) -> SlotView {
        SlotView { record_ref: self.record_ref@, claimed: self.claimed, outcome: self.outcome }
    }
}

/// The outcomes of a batch while its records are worked on, and the say on
/// which record is started next.
#[derive(Debug)]
pub struct Ledger {
    slots: Vec<Slot>,
    workers: usize,
}

impl View for Ledger {
    type V = LedgerView;

    closed spec fn view(&self) -> LedgerView {
        LedgerView { slots: self.slots.deep_view(), workers: self.workers as nat }
    }
}

/// A claim as a position in the batch.
pub open spec fn claim_view(claim: Option<usize>) -> Option<int> {
    match claim {
        Some(index) => Some(index as int),
        None => None,
    }
}

impl Ledger {
    /// The number of records in the batch.
    pub fn len(&self) -> (n: usize)
        ensures
            n == self@.slots.len(),
    {
        self.slots.len()
    }

    /// The outcome of the record at `index`, once it has one.
    pub fn outcome(&self, index: usize) -> (outcome: Option<Outcome>)
        ensures
            outcome == if index < self@.slots.len() {
                self@.slots[index as int].outcome
            } else {
                None
            },
    {
        if index < self.slots.len() {
            self.slots[index].outcome
        } else {
            None
        }
    }

    /// Hands the next record to a worker: the first that waits, unless as
    /// many records are in flight as the batch has workers. The record
    /// counts as in flight until its outcome is entered.
    pub fn claim(&mut self) -> (claim: Option<usize>)
        ensures
            claim_view(claim) == ledger_claim(old(self)@.slots, old(self)@.workers),
            final(self)@.workers == old(self)@.workers,
            final(self)@.slots == match claim {
                Some(index) => ledger_claimed(old(self)@.slots, index as int),
                None => old(self)@.slots,
            },
    {
        let ghost slots = self@.slots;
        let mut busy: usize = 0;
        let mut first: Option<usize> = None;
        let mut i: usize = 0;
        assert(slots.take(0) =~= Seq::<SlotView>::empty());
        while i < self.slots.len()
            invariant
                i <= self.slots.len(),
                slots == self@.slots,
                busy <= i,
                busy == in_flight(slots.take(i as int)),
                claim_view(first) == first_waiting(slots.take(i as int)),
            decreases self.slots.len() - i,
        {
            proof {
                let upto = slots.take(i as int + 1);
                assert(upto.drop_last() =~= slots.take(i as int));
                assert(upto.last() == self.slots@[i as int].deep_view());
            }
            let slot = &self.slots[i];
            if slot.outcome.is_none() {
                if slot.claimed {
                    busy = busy + 1;
                } else if first.is_none() {
                    first = Some(i);
                }
            }
            i = i + 1;
        }
        assert(slots.take(i as int) =~= slots);
        if busy >= self.workers {
            return None;
        }
        match first {
            None => None,
            Some(index) => {
                proof {
                    lemma_first_waiting(slots);
                }
                let record_ref = self.slots[index].record_ref.clone();
                self.slots.set(index, Slot { record_ref, claimed: true, outcome: None });
                assert(self@.slots =~= ledger_claimed(slots, index as int));
                Some(index)
            },
        }
    }

    /// Enters the outcome of the record at `index`, and says whether it was
    /// entered: it is not where the batch has no such record or the record
    /// has an outcome already.
    pub fn settle(&mut self, index: usize, outcome: Outcome) -> (entered: bool)
        ensures
            entered == ledger_accepts(old(self)@.slots, index as int),
            final(self)@.workers == old(self)@.workers,
            final(self)@.slots == ledger_settled(old(self)@.slots, index as int, outcome),
    {
        if index < self.slots.len() && self.slots[index].outcome.is_none() {
            let record_ref = self.slots[index].record_ref.clone();
            let claimed = self.slots[index].claimed;
            self.slots.set(index, Slot { record_ref, claimed, outcome: Some(outcome) });
            assert(self@.slots =~= ledger_settled(old(self)@.slots, index as int, outcome));
            true
        } else {
            false
        }
    }

    /// Closes the batch. A record without an outcome is reported as out of time.
    pub fn close(self) -> (out: BatchOutcome)
        ensures
            out@ == ledger_closed(self@.slots),
    {
        let mut entries: Vec<RecordOutcome> = Vec::new();
        let mut i: usize = 0;
        while i < self.slots.len()
            invariant
                i <= self.slots.len(),
                entries@.len() == i,
                forall|j: int|
                    0 <= j < i ==> (#[trigger] entries@[j])@ == entry_for(
                        self.slots@[j].record_ref@,
                        self.slots@[j].outcome,
                    ),
            decreases self.slots.len() - i,
        {
            let slot = &self.slots[i];
            let entry = match slot.outcome {
                Some(Ok(())) => RecordOutcome::Success,
                Some(Err(reason)) => RecordOutcome::Failure {
                    record_ref: slot.record_ref.clone(),
                    reason,
                },
                None => RecordOutcome::Failure {
                    record_ref: slot.record_ref.clone(),
                    reason: Failure::DeadlineExceeded,
                },
            };
            entries.push(entry);
            i = i + 1;
        }
        let out = BatchOutcome { entries };
        assert(out@ =~= ledger_closed(self@.slots));
        out
    }
}

/// A batch that was opened: its ledger, and for each record, at the
/// record's position, the job to run where the record decoded.
#[derive(Debug)]
pub struct Opened {
    pub ledger: Ledger,
    pub jobs: Vec<Option<Dispatcher>>,
}

/// What an opened batch holds for one record, by its view.
pub open spec fn job_view(job: Option<Dispatcher>) -> Option<DispatcherView> {
    match job {
        Some(dispatcher) => Some(dispatcher@),
        None => None,
    }
}

/// A coordinator as a mathematical value.
pub struct CoordinatorView {
    pub policy: PolicyView,
    pub deadline: u64,
    pub workers: nat,
}

/// Works through batches under one retry policy, one deadline and one
/// bound on the records in flight.
#[derive(Clone, Copy, Debug)]
pub struct BatchCoordinator {
    policy: RetryPolicy,
    deadline: u64,
    workers: usize,
}

impl View for BatchCoordinator {
    type V = CoordinatorView;

    closed spec fn view(&self) -> CoordinatorView {
        CoordinatorView {
            policy: self.policy@,
            deadline: self.deadline,
            workers: self.workers as nat,
        }
    }
}

impl BatchCoordinator {
    /// A coordinator for a batch that has until `deadline`, in milliseconds
    /// since the epoch, and is worked by at most `workers` workers at once.
    /// `None` for no workers: nothing could ever be started.
    pub fn new(policy: RetryPolicy, deadline: u64, workers: usize) -> (out: Option<
        BatchCoordinator,
    >)
        ensures
            out is Some <==> workers >= 1,
            out matches Some(coordinator) ==> coordinator@ == (CoordinatorView {
                policy: policy@,
                deadline,
                workers: workers as nat,
            }),
    {
        if workers >= 1 {
            Some(BatchCoordinator { policy, deadline, workers })
        } else {
            None
        }
    }

    /// How many records may be in flight at once.
    pub fn workers(&self) -> (workers: usize)
        ensures
            workers == self@.workers,
    {
        self.workers
    }

    /// Opens a batch: decodes every record, enters the failure of each that
    /// is malformed, and readies a job for each of the others. No record
    /// is in flight yet.
    pub fn open(&self, records: &Vec<RawRecord>) -> (opened: Opened)
        ensures
            opened.ledger@.slots == ledger_opened(
                self@.policy,
                self@.deadline,
                records.deep_view(),
            ),
            opened.ledger@.workers == self@.workers,
            opened.jobs@.len() == records@.len(),
            forall|i: int|
                0 <= i < records@.len() ==> match planned(
                    self@.policy,
                    self@.deadline,
                    (#[trigger] records@[i])@,
                ) {
                    Ok(dispatcher) => job_view(opened.jobs@[i]) == Some(dispatcher),
                    Err(_) => opened.jobs@[i] is None,
                },
    {
        let mut slots: Vec<Slot> = Vec::new();
        let mut jobs: Vec<Option<Dispatcher>> = Vec::new();
        let mut i: usize = 0;
        while i < records.len()
            invariant
                i <= records.len(),
                slots@.len() == i,
                jobs@.len() == i,
                forall|j: int|
                    0 <= j < i ==> (#[trigger] slots@[j]).record_ref@ == records@[j].record_ref@
                        && !slots@[j].claimed,
                forall|j: int|
                    0 <= j < i ==> match planned(self@.policy, self@.deadline, records@[j]@) {
                        Ok(dispatcher) => (#[trigger] slots@[j]).outcome is None,
                        Err(e) => slots@[j].outcome == Some(
                            Err::<(), Failure>(Failure::Decode(e)),
                        ),
                    },
                forall|j: int|
                    0 <= j < i ==> match planned(self@.policy, self@.deadline, records@[j]@) {
                        Ok(dispatcher) => job_view(#[trigger] jobs@[j]) == Some(dispatcher),
                        Err(_) => jobs@[j] is None,
                    },
            decreases records.len() - i,
        {
            let record = &records[i];
            let record_ref = record.record_ref.clone();
            match decode(&record.payload) {
                Ok(job) => {
                    slots.push(Slot { record_ref, claimed: false, outcome: None });
                    jobs.push(Some(Dispatcher::new(job, self.policy, self.deadline)));
                },
                Err(e) => {
                    slots.push(
                        Slot { record_ref, claimed: false, outcome: Some(Err(Failure::Decode(e))) },
                    );
                    jobs.push(None);
                },
            }
            i = i + 1;
        }
        let ledger = Ledger { slots, workers: self.workers };
        assert(ledger@.slots =~= ledger_opened(self@.policy, self@.deadline, records.deep_view()));
        Opened { ledger, jobs }
    }

    /// Works one record through against a script of exchanges.
    pub fn process_record(&self, record: &RawRecord, script: &Vec<Exchange>) -> (entry:
        RecordOutcome)
        ensures
            entry@ == record_outcome(self@.policy, self@.deadline, record@, script@),
    {
        match decode(&record.payload) {
            Err(e) => RecordOutcome::Failure {
                record_ref: record.record_ref.clone(),
                reason: Failure::Decode(e),
            },
            Ok(job) => {
                let replay = Dispatcher::new(job, self.policy, self.deadline).replay(script);
                match replay.outcome {
                    Some(Ok(())) => RecordOutcome::Success,
                    Some(Err(reason)) => RecordOutcome::Failure {
                        record_ref: record.record_ref.clone(),
                        reason,
                    },
                    None => RecordOutcome::Failure {
                        record_ref: record.record_ref.clone(),
                        reason: Failure::DeadlineExceeded,
                    },
                }
            },
        }
    }

    /// Works a batch through against the exchanges that `scripts` holds for
    /// each record, at the record's position, and gives one outcome per
    /// record, in the order of the records.
    pub fn process_batch(&self, records: &Vec<RawRecord>, scripts: &Vec<Vec<Exchange>>) -> (out:
        BatchOutcome)
        ensures
            out@ == batch_outcome(
                self@.policy,
                self@.deadline,
                records.deep_view(),
                scripts.deep_view(),
            ),
    {
        let none: Vec<Exchange> = Vec::new();
        let mut entries: Vec<RecordOutcome> = Vec::new();
        let mut i: usize = 0;
        while i < records.len()
            invariant
                i <= records.len(),
                none@.len() == 0,
                entries@.len() == i,
                forall|j: int|
                    0 <= j < i ==> (#[trigger] entries@[j])@ == record_outcome(
                        self@.policy,
                        self@.deadline,
                        records@[j]@,
                        script_for(scripts.deep_view(), j),
                    ),
            decreases records.len() - i,
        {
            let script = if i < scripts.len() {
                &scripts[i]
            } else {
                &none
            };
            assert(script@ =~= script_for(scripts.deep_view(), i as int));
            let entry = self.process_record(&records[i], script);
            entries.push(entry);
            i = i + 1;
        }
        let out = BatchOutcome { entries };
        assert(out@ =~= batch_outcome(
            self@.policy,
            self@.deadline,
            records.deep_view(),
            scripts.deep_view(),
        ));
        out
    }
}

} // verus!
