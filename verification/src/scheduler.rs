//! The migration scheduler: which item may start, what each item does next,
//! and when it is finished.
//!
//! The scheduler is a state machine. The caller asks it for work with
//! [`Scheduler::poll`], performs the command it gets (a download, an upload
//! or a pause) and reports what happened with [`Scheduler::on_event`], which
//! answers with the item's next command. An item holds one of the
//! scheduler's slots from its first download attempt until it has an
//! outcome, and there are never more items in that stage than the limit.

use vstd::prelude::*;
use crate::fault::{cannot_publish, is_cannot_publish, ServiceFault};
use crate::outcome::{
    aggregate, errors_of, mapping_of, token_of, tokens_agree, FailureCause, MigrationFailure,
    MigrationOutcome, MigrationResult,
};
use crate::record::{download_location, first_location, MetadataRecord};

verus! {

/// The number of slots when the caller names none.
pub const DEFAULT_CONCURRENCY: usize = 5;

/// How often the download of one item is tried.
pub const DOWNLOAD_ATTEMPTS: u32 = 3;

/// The timeout of one download attempt, in seconds.
pub const DOWNLOAD_TIMEOUT_SECS: u64 = 3;

/// How often the upload of one item is tried.
pub const UPLOAD_ATTEMPTS: u32 = 5;

/// The pause between two upload attempts of one item, in milliseconds.
pub const UPLOAD_RETRY_DELAY_MS: u64 = 1000;

/// Where an item stands.
#[derive(Clone, Copy, Debug, PartialEq, Eq, Structural)]
pub enum Stage {
    /// Not admitted yet.
    Waiting,
    /// The download attempt with this number is under way.
    Downloading { attempt: u32 },
    /// The upload attempt with this number is under way.
    Uploading { attempt: u32 },
    /// The upload attempt with this number failed and the pause before the
    /// next one is under way.
    Pausing { attempt: u32 },
    /// The item has its outcome.
    Finished,
}

/// Whether an item in this stage holds a slot.
pub open spec fn in_stage(stage: Stage) -> bool {
    stage is Downloading || stage is Uploading || stage is Pausing
}

/// An item that is scheduled: a record that has a download location.
#[derive(Clone, Debug)]
pub struct Job {
    /// Position of the record in the input.
    pub index: usize,
    /// Correlation token of the record.
    pub request_id: Option<String>,
    /// Where the payload is downloaded from.
    pub location: String,
}

/// What the caller is to do for an item.
#[derive(Clone, Debug)]
pub enum Command {
    /// Download the payload of the item.
    Download { job: usize, location: String, attempt: u32, timeout_secs: u64 },
    /// Upload the payload of the item as a new asset, under the group if
    /// one is given.
    Upload { job: usize, group_id: Option<u64>, attempt: u32 },
    /// Wait, then report that the pause is over.
    Pause { job: usize, millis: u64 },
}

/// What happened to the command of an item.
#[derive(Clone, Debug)]
pub enum JobEvent {
    /// The payload was downloaded.
    Downloaded,
    /// The download attempt failed.
    DownloadFailed(ServiceFault),
    /// The payload was uploaded; the service named the new asset.
    Uploaded(String),
    /// The upload attempt failed.
    UploadFailed(ServiceFault),
    /// The pause is over.
    Resumed,
    /// The task that worked on the item ended without a result.
    Aborted,
}

/// The state of a scheduler as a mathematical value.
pub struct SchedulerModel {
    /// The number of slots.
    pub limit: usize,
    /// The group under which new assets are created, if any.
    pub group_id: Option<u64>,
    /// The scheduled items, in input order.
    pub jobs: Seq<Job>,
    /// The stage of each item.
    pub stages: Seq<Stage>,
    /// How many items have been admitted: they are the first ones.
    pub admitted: nat,
    /// The outcomes so far, in the order in which the items ended.
    pub outcomes: Seq<MigrationOutcome>,
}

/// The items that are scheduled for a list of records: one for each record
/// with a download location, in input order.
pub open spec fn scheduled(records: Seq<MetadataRecord>) -> Seq<Job>
    decreases records.len(),
{
    if records.len() == 0 {
        Seq::empty()
    } else {
        let before = scheduled(records.drop_last());
        match download_location(records.last()) {
            Some(location) => before.push(
                Job {
                    index: (records.len() - 1) as usize,
                    request_id: records.last().request_id,
                    location,
                },
            ),
            None => before,
        }
    }
}

/// The number of stages that satisfy `pred`.
pub open spec fn count_stages(stages: Seq<Stage>, pred: spec_fn(Stage) -> bool) -> nat
    decreases stages.len(),
{
    if stages.len() == 0 {
        0
    } else {
        count_stages(stages.drop_last(), pred) + if pred(stages.last()) {
            1nat
        } else {
            0nat
        }
    }
}

/// The number of items that hold a slot.
pub open spec fn running_jobs(stages: Seq<Stage>) -> nat {
    count_stages(stages, |s: Stage| in_stage(s))
}

/// The number of items that have their outcome.
pub open spec fn finished_jobs(stages: Seq<Stage>) -> nat {
    count_stages(stages, |s: Stage| s is Finished)
}

/// Changing one stage changes a count by what the old and the new stage
/// contribute.
pub proof fn lemma_count_update(
    stages: Seq<Stage>,
    j: int,
    stage: Stage,
    pred: spec_fn(Stage) -> bool,
)
    requires
        0 <= j < stages.len(),
    ensures
        count_stages(stages.update(j, stage), pred) + (if pred(stages[j]) {
            1nat
        } else {
            0nat
        }) == count_stages(stages, pred) + (if pred(stage) {
            1nat
        } else {
            0nat
        }),
    decreases stages.len(),
{
    let after = stages.update(j, stage);
    if j == stages.len() - 1 {
        assert(after.drop_last() =~= stages.drop_last());
    } else {
        lemma_count_update(stages.drop_last(), j, stage, pred);
        assert(after.drop_last() =~= stages.drop_last().update(j, stage));
    }
}

/// A count is zero where no stage satisfies the predicate, and at most the
/// number of stages.
pub proof fn lemma_count_bounds(stages: Seq<Stage>, pred: spec_fn(Stage) -> bool)
    ensures
        count_stages(stages, pred) <= stages.len(),
        (forall|i: int| 0 <= i < stages.len() ==> !pred(#[trigger] stages[i])) ==> count_stages(
            stages,
            pred,
        ) == 0,
        (forall|i: int| 0 <= i < stages.len() ==> pred(#[trigger] stages[i])) ==> count_stages(
            stages,
            pred,
        ) == stages.len(),
    decreases stages.len(),
{
    if stages.len() > 0 {
        lemma_count_bounds(stages.drop_last(), pred);
        assert forall|i: int| 0 <= i < stages.drop_last().len() implies stages.drop_last()[i]
            == stages[i] by {}
        if forall|i: int| 0 <= i < stages.len() ==> !pred(#[trigger] stages[i]) {
            assert(!pred(stages[stages.len() - 1]));
            assert forall|i: int| 0 <= i < stages.drop_last().len() implies !pred(
                #[trigger] stages.drop_last()[i],
            ) by {
                assert(!pred(stages[i]));
            }
        }
        if forall|i: int| 0 <= i < stages.len() ==> pred(#[trigger] stages[i]) {
            assert(pred(stages[stages.len() - 1]));
            assert forall|i: int| 0 <= i < stages.drop_last().len() implies pred(
                #[trigger] stages.drop_last()[i],
            ) by {
                assert(pred(stages[i]));
            }
        }
    }
}

/// The position in the input of the record that an outcome is about.
pub open spec fn outcome_index(outcome: MigrationOutcome) -> usize {
    match outcome {
        MigrationOutcome::Migrated { index, .. } => index,
        MigrationOutcome::Failed(failure) => failure.index,
    }
}

/// The correlation token that an outcome carries.
pub open spec fn outcome_token(outcome: MigrationOutcome) -> Option<String> {
    match outcome {
        MigrationOutcome::Migrated { request_id, .. } => request_id,
        MigrationOutcome::Failed(failure) => failure.request_id,
    }
}

/// Whether an attempt number is one that the stage can hold.
pub open spec fn attempt_in_range(stage: Stage) -> bool {
    match stage {
        Stage::Downloading { attempt } => 1 <= attempt <= DOWNLOAD_ATTEMPTS,
        Stage::Uploading { attempt } => 1 <= attempt <= UPLOAD_ATTEMPTS,
        Stage::Pausing { attempt } => 1 <= attempt < UPLOAD_ATTEMPTS,
        _ => true,
    }
}

impl SchedulerModel {
    /// What holds of every state that a scheduler can reach.
    pub open spec fn inv(self) -> bool {
        &&& self.limit >= 1
        &&& self.stages.len() == self.jobs.len()
        &&& self.admitted <= self.jobs.len()
        &&& forall|i: int|
            0 <= i < self.stages.len() ==> ((#[trigger] self.stages[i]) is Waiting <==> i
                >= self.admitted)
        &&& forall|i: int| 0 <= i < self.stages.len() ==> attempt_in_range(#[trigger] self.stages[i])
        &&& running_jobs(self.stages) <= self.limit
        &&& self.outcomes.len() == finished_jobs(self.stages)
        &&& forall|k: int|
            0 <= k < self.outcomes.len() ==> self.reports(#[trigger] self.outcomes[k])
    }

    /// Whether an outcome is about one of the scheduled items: it names the
    /// record and the correlation token of that item.
    pub open spec fn reports(self, outcome: MigrationOutcome) -> bool {
        exists|j: int|
            0 <= j < self.jobs.len() && (#[trigger] self.jobs[j]).index == outcome_index(outcome)
                && self.jobs[j].request_id == outcome_token(outcome)
    }

    /// The state before any item is admitted.
    pub open spec fn initial(jobs: Seq<Job>, limit: usize, group_id: Option<u64>) -> SchedulerModel {
        SchedulerModel {
            limit,
            group_id,
            jobs,
            stages: Seq::new(jobs.len(), |i: int| Stage::Waiting),
            admitted: 0,
            outcomes: Seq::empty(),
        }
    }

    /// Whether the next waiting item can be admitted: there is one, and a
    /// slot is free.
    pub open spec fn can_start(self) -> bool {
        self.admitted < self.jobs.len() && running_jobs(self.stages) < self.limit
    }

    /// Admission: the first waiting item starts its first download attempt
    /// if a slot is free; otherwise nothing changes.
    pub open spec fn start_next(self) -> (SchedulerModel, Option<Command>) {
        if self.can_start() {
            let j = self.admitted as int;
            (
                SchedulerModel {
                    stages: self.stages.update(j, Stage::Downloading { attempt: 1 }),
                    admitted: self.admitted + 1,
                    ..self
                },
                Some(
                    Command::Download {
                        job: j as usize,
                        location: self.jobs[j].location,
                        attempt: 1,
                        timeout_secs: DOWNLOAD_TIMEOUT_SECS,
                    },
                ),
            )
        } else {
            (self, None)
        }
    }

    /// The state in which item `j` has moved on to `stage`.
    pub open spec fn moved(self, j: int, stage: Stage) -> SchedulerModel {
        SchedulerModel { stages: self.stages.update(j, stage), ..self }
    }

    /// The state in which item `j` has ended with `outcome`.
    pub open spec fn ended(self, j: int, outcome: MigrationOutcome) -> SchedulerModel {
        SchedulerModel {
            stages: self.stages.update(j, Stage::Finished),
            outcomes: self.outcomes.push(outcome),
            ..self
        }
    }

    /// The failure of item `j` for the reason `cause`.
    pub open spec fn failure(self, j: int, cause: FailureCause) -> MigrationOutcome {
        MigrationOutcome::Failed(
            MigrationFailure {
                index: self.jobs[j].index,
                request_id: self.jobs[j].request_id,
                cause,
            },
        )
    }

    /// The download command for attempt `attempt` of item `j`.
    pub open spec fn download(self, j: int, attempt: u32) -> Command {
        Command::Download {
            job: j as usize,
            location: self.jobs[j].location,
            attempt,
            timeout_secs: DOWNLOAD_TIMEOUT_SECS,
        }
    }

    /// The upload command for attempt `attempt` of item `j`.
    pub open spec fn upload(self, j: int, attempt: u32) -> Command {
        Command::Upload { job: j as usize, group_id: self.group_id, attempt }
    }

    /// What an event does to the item `j` and which command follows.
    ///
    /// - A download that succeeded is followed by the first upload attempt.
    /// - A download that failed is tried again until `DOWNLOAD_ATTEMPTS`
    ///   attempts are spent; then the item fails as rate-limited.
    /// - An upload that succeeded ends the item with its new asset id.
    /// - An upload that failed because the credential may not publish ends
    ///   the item at once. Any other failed upload is followed by a pause
    ///   and the next attempt until `UPLOAD_ATTEMPTS` attempts are spent;
    ///   then the item fails with the last fault, without a pause.
    /// - An aborted task ends the item.
    /// - An event that does not fit the stage of the item, or that names no
    ///   item, changes nothing.
    pub open spec fn step(self, j: int, event: JobEvent) -> (SchedulerModel, Option<Command>) {
        if !(0 <= j < self.stages.len()) {
            (self, None)
        } else {
            match (self.stages[j], event) {
                (Stage::Downloading { .. }, JobEvent::Downloaded) => (
                    self.moved(j, Stage::Uploading { attempt: 1 }),
                    Some(self.upload(j, 1)),
                ),
                (Stage::Downloading { attempt }, JobEvent::DownloadFailed(_)) => if attempt
                    < DOWNLOAD_ATTEMPTS {
                    (
                        self.moved(j, Stage::Downloading { attempt: (attempt + 1) as u32 }),
                        Some(self.download(j, (attempt + 1) as u32)),
                    )
                } else {
                    (self.ended(j, self.failure(j, FailureCause::RateLimited)), None)
                },
                (Stage::Uploading { .. }, JobEvent::Uploaded(new_id)) => (
                    self.ended(
                        j,
                        MigrationOutcome::Migrated {
                            index: self.jobs[j].index,
                            request_id: self.jobs[j].request_id,
                            new_id,
                        },
                    ),
                    None,
                ),
                (Stage::Uploading { attempt }, JobEvent::UploadFailed(fault)) => if cannot_publish(
                    fault,
                ) {
                    (self.ended(j, self.failure(j, FailureCause::CannotPublish)), None)
                } else if attempt < UPLOAD_ATTEMPTS {
                    (
                        self.moved(j, Stage::Pausing { attempt }),
                        Some(Command::Pause { job: j as usize, millis: UPLOAD_RETRY_DELAY_MS }),
                    )
                } else {
                    (self.ended(j, self.failure(j, FailureCause::UploadFailed(fault))), None)
                },
                (Stage::Pausing { attempt }, JobEvent::Resumed) => (
                    self.moved(j, Stage::Uploading { attempt: (attempt + 1) as u32 }),
                    Some(self.upload(j, (attempt + 1) as u32)),
                ),
                (Stage::Downloading { .. }, JobEvent::Aborted)
                | (Stage::Uploading { .. }, JobEvent::Aborted)
                | (Stage::Pausing { .. }, JobEvent::Aborted) => (
                    self.ended(j, self.failure(j, FailureCause::Aborted)),
                    None,
                ),
                _ => (self, None),
            }
        }
    }

    /// Whether every item has its outcome.
    pub open spec fn done(self) -> bool {
        self.admitted == self.jobs.len() && running_jobs(self.stages) == 0
    }
}

/// One move of a run: the caller asks for work, or reports an event.
pub enum Move {
    Poll,
    Event { job: int, event: JobEvent },
}

/// The state after a sequence of moves.
pub open spec fn run(start: SchedulerModel, moves: Seq<Move>) -> SchedulerModel
    decreases moves.len(),
{
    if moves.len() == 0 {
        start
    } else {
        let before = run(start, moves.drop_last());
        match moves.last() {
            Move::Poll => before.start_next().0,
            Move::Event { job, event } => before.step(job, event).0,
        }
    }
}

/// The state before any item is admitted is a valid one, and no item holds
/// a slot in it.
pub proof fn lemma_initial_inv(jobs: Seq<Job>, limit: usize, group_id: Option<u64>)
    requires
        limit >= 1,
    ensures
        SchedulerModel::initial(jobs, limit, group_id).inv(),
        running_jobs(SchedulerModel::initial(jobs, limit, group_id).stages) == 0,
{
    let m = SchedulerModel::initial(jobs, limit, group_id);
    lemma_count_bounds(m.stages, |s: Stage| in_stage(s));
    lemma_count_bounds(m.stages, |s: Stage| s is Finished);
}

/// Admission keeps the state valid.
pub proof fn lemma_start_keeps_inv(m: SchedulerModel)
    requires
        m.inv(),
    ensures
        m.start_next().0.inv(),
        m.can_start() ==> running_jobs(m.start_next().0.stages) == running_jobs(m.stages) + 1,
{
    if m.can_start() {
        let j = m.admitted as int;
        let after = m.start_next().0;
        lemma_count_update(m.stages, j, Stage::Downloading { attempt: 1 }, |s: Stage| in_stage(s));
        lemma_count_update(m.stages, j, Stage::Downloading { attempt: 1 }, |s: Stage| s is Finished);
        assert(m.stages[j] is Waiting);
        assert forall|k: int| 0 <= k < after.outcomes.len() implies after.reports(
            #[trigger] after.outcomes[k],
        ) by {
            assert(m.reports(m.outcomes[k]));
        }
    }
}

/// An event keeps the state valid. It frees a slot exactly when it ends the
/// item, and never takes one.
pub proof fn lemma_step_keeps_inv(m: SchedulerModel, j: int, event: JobEvent)
    requires
        m.inv(),
    ensures
        m.step(j, event).0.inv(),
        running_jobs(m.step(j, event).0.stages) <= running_jobs(m.stages),
        m.step(j, event).0.outcomes.len() > m.outcomes.len() ==> running_jobs(
            m.step(j, event).0.stages,
        ) + 1 == running_jobs(m.stages),
        m.step(j, event).0.outcomes.len() == m.outcomes.len() ==> running_jobs(
            m.step(j, event).0.stages,
        ) == running_jobs(m.stages),
{
    let after = m.step(j, event).0;
    if 0 <= j < m.stages.len() && after != m {
        let stage = after.stages[j];
        assert(after.stages =~= m.stages.update(j, stage));
        assert(in_stage(m.stages[j]));
        lemma_count_update(m.stages, j, stage, |s: Stage| in_stage(s));
        lemma_count_update(m.stages, j, stage, |s: Stage| s is Finished);
        assert forall|k: int| 0 <= k < after.outcomes.len() implies after.reports(
            #[trigger] after.outcomes[k],
        ) by {
            if k < m.outcomes.len() {
                assert(m.reports(m.outcomes[k]));
                let w = choose|w: int|
                    0 <= w < m.jobs.len() && (#[trigger] m.jobs[w]).index == outcome_index(
                        m.outcomes[k],
                    ) && m.jobs[w].request_id == outcome_token(m.outcomes[k]);
                assert(after.jobs[w].index == outcome_index(after.outcomes[k]));
            } else {
                assert(after.jobs[j].index == outcome_index(after.outcomes[k]));
            }
        }
    }
}

/// However the caller polls and whatever it reports, the number of items
/// in their download and upload stage never exceeds the limit.
pub proof fn lemma_never_over_limit(
    jobs: Seq<Job>,
    limit: usize,
    group_id: Option<u64>,
    moves: Seq<Move>,
)
    requires
        limit >= 1,
    ensures
        run(SchedulerModel::initial(jobs, limit, group_id), moves).inv(),
        running_jobs(run(SchedulerModel::initial(jobs, limit, group_id), moves).stages) <= limit,
        run(SchedulerModel::initial(jobs, limit, group_id), moves).limit == limit,
        run(SchedulerModel::initial(jobs, limit, group_id), moves).jobs == jobs,
    decreases moves.len(),
{
    let start = SchedulerModel::initial(jobs, limit, group_id);
    if moves.len() == 0 {
        lemma_initial_inv(jobs, limit, group_id);
    } else {
        lemma_never_over_limit(jobs, limit, group_id, moves.drop_last());
        let before = run(start, moves.drop_last());
        match moves.last() {
            Move::Poll => {
                lemma_start_keeps_inv(before);
            },
            Move::Event { job, event } => {
                lemma_step_keeps_inv(before, job, event);
            },
        }
    }
}

/// A run never stalls: while some item has no outcome yet, either an item
/// can be admitted or an item is in its stage, so that an event is due.
pub proof fn lemma_progress(m: SchedulerModel)
    requires
        m.inv(),
        !m.done(),
    ensures
        m.can_start() || running_jobs(m.stages) > 0,
{
}

/// When every item has its outcome, there is one outcome for each
/// scheduled item.
pub proof fn lemma_done_all_delivered(m: SchedulerModel)
    requires
        m.inv(),
        m.done(),
    ensures
        m.outcomes.len() == m.jobs.len(),
        forall|j: int| 0 <= j < m.stages.len() ==> #[trigger] m.stages[j] is Finished,
{
    lemma_count_bounds(m.stages, |s: Stage| in_stage(s));
    lemma_count_bounds(m.stages, |s: Stage| s is Finished);
    lemma_none_running(m.stages);
    assert forall|j: int| 0 <= j < m.stages.len() implies #[trigger] m.stages[j] is Finished by {
        assert(!in_stage(m.stages[j]));
        assert(!(m.stages[j] is Waiting));
    }
}

/// Where no item holds a slot, no stage is a download, an upload or a
/// pause.
pub proof fn lemma_none_running(stages: Seq<Stage>)
    requires
        running_jobs(stages) == 0,
    ensures
        forall|j: int| 0 <= j < stages.len() ==> !in_stage(#[trigger] stages[j]),
    decreases stages.len(),
{
    if stages.len() > 0 {
        lemma_none_running(stages.drop_last());
        assert forall|j: int| 0 <= j < stages.len() implies !in_stage(#[trigger] stages[j]) by {
            if j < stages.len() - 1 {
                assert(stages.drop_last()[j] == stages[j]);
            }
        }
    }
}

/// Each scheduled item is about a record that has a download location,
/// and carries that record's position, token and location.
pub proof fn lemma_scheduled_located(records: Seq<MetadataRecord>)
    requires
        records.len() <= usize::MAX,
    ensures
        forall|j: int|
            0 <= j < scheduled(records).len() ==> located_at(records, #[trigger] scheduled(records)[j]),
        scheduled(records).len() <= records.len(),
    decreases records.len(),
{
    if records.len() > 0 {
        let front = records.drop_last();
        lemma_scheduled_located(front);
        let jobs = scheduled(records);
        assert forall|j: int| 0 <= j < jobs.len() implies located_at(records, #[trigger] jobs[j]) by {
            if j < scheduled(front).len() {
                let job = scheduled(front)[j];
                assert(located_at(front, job));
                assert(front[job.index as int] == records[job.index as int]);
            }
        }
    }
}

/// Whether `job` is about a record of `records` that has a download
/// location, and carries that record's position, token and location.
pub open spec fn located_at(records: Seq<MetadataRecord>, job: Job) -> bool {
    &&& job.index < records.len()
    &&& download_location(records[job.index as int]) == Some(job.location)
    &&& job.request_id == records[job.index as int].request_id
}

/// Each record that has a download location is scheduled.
pub proof fn lemma_located_scheduled(records: Seq<MetadataRecord>, i: int)
    requires
        records.len() <= usize::MAX,
        0 <= i < records.len(),
        download_location(records[i]) is Some,
    ensures
        exists|j: int|
            0 <= j < scheduled(records).len() && (#[trigger] scheduled(records)[j]).index == i,
    decreases records.len(),
{
    let front = records.drop_last();
    let jobs = scheduled(records);
    if i < front.len() {
        assert(front[i] == records[i]);
        lemma_located_scheduled(front, i);
        let j = choose|j: int|
            0 <= j < scheduled(front).len() && (#[trigger] scheduled(front)[j]).index == i;
        assert(jobs[j] == scheduled(front)[j]);
    } else {
        assert(jobs[jobs.len() - 1].index == i);
    }
}

/// A record without a download location is never reported: every outcome,
/// every failure in the error list and every key of the mapping belongs to
/// a record that has a download location.
pub proof fn lemma_unlocated_never_reported(records: Seq<MetadataRecord>, m: SchedulerModel)
    requires
        records.len() <= usize::MAX,
        m.inv(),
        m.jobs == scheduled(records),
    ensures
        forall|k: int|
            0 <= k < m.outcomes.len() ==> outcome_index(#[trigger] m.outcomes[k]) < records.len()
                && download_location(records[outcome_index(m.outcomes[k]) as int]) is Some,
        forall|k: int|
            0 <= k < errors_of(m.outcomes).len() ==> (#[trigger] errors_of(m.outcomes)[k]).index
                < records.len() && download_location(
                records[errors_of(m.outcomes)[k].index as int],
            ) is Some,
        forall|key: Seq<char>| #[trigger]
            mapping_of(m.outcomes).dom().contains(key) ==> exists|i: int|
                0 <= i < records.len() && download_location(#[trigger] records[i]) is Some
                    && records[i].request_id is Some && records[i].request_id->0@ == key,
{
    lemma_scheduled_located(records);
    assert forall|k: int| 0 <= k < m.outcomes.len() implies outcome_index(#[trigger] m.outcomes[k])
        < records.len() && download_location(records[outcome_index(m.outcomes[k]) as int])
        is Some by {
        assert(m.reports(m.outcomes[k]));
        let j = choose|j: int|
            0 <= j < m.jobs.len() && (#[trigger] m.jobs[j]).index == outcome_index(m.outcomes[k])
                && m.jobs[j].request_id == outcome_token(m.outcomes[k]);
        assert(located_at(records, m.jobs[j]));
    }
    lemma_errors_are_outcomes(m.outcomes);
    assert forall|k: int| 0 <= k < errors_of(m.outcomes).len() implies (#[trigger] errors_of(
        m.outcomes,
    )[k]).index < records.len() && download_location(
        records[errors_of(m.outcomes)[k].index as int],
    ) is Some by {
        let failure = errors_of(m.outcomes)[k];
        let p = choose|p: int|
            0 <= p < m.outcomes.len() && m.outcomes[p] == MigrationOutcome::Failed(failure);
        assert(outcome_index(m.outcomes[p]) == failure.index);
    }
    crate::outcome::lemma_mapping_members(m.outcomes);
    assert forall|key: Seq<char>| #[trigger]
        mapping_of(m.outcomes).dom().contains(key) implies exists|i: int|
        0 <= i < records.len() && download_location(#[trigger] records[i]) is Some
            && records[i].request_id is Some && records[i].request_id->0@ == key by {
        assert(crate::outcome::enters(m.outcomes, key));
        let p = choose|p: int|
            0 <= p < m.outcomes.len() && crate::outcome::token_of(#[trigger] m.outcomes[p])
                == Some(key);
        assert(m.reports(m.outcomes[p]));
        let j = choose|j: int|
            0 <= j < m.jobs.len() && (#[trigger] m.jobs[j]).index == outcome_index(m.outcomes[p])
                && m.jobs[j].request_id == outcome_token(m.outcomes[p]);
        let i = m.jobs[j].index as int;
        assert(located_at(records, m.jobs[j]));
        assert(download_location(records[i]) is Some);
    }
}

/// Whether no two records carry the same correlation token.
pub open spec fn distinct_tokens(records: Seq<MetadataRecord>) -> bool {
    forall|i: int, j: int|
        0 <= i < j < records.len() && (#[trigger] records[i]).request_id is Some && (
        #[trigger] records[j]).request_id is Some ==> records[i].request_id->0@
            != records[j].request_id->0@
}

/// Whether no two items are about the same record.
pub open spec fn distinct_jobs(jobs: Seq<Job>) -> bool {
    forall|i: int, j: int|
        0 <= i < j < jobs.len() ==> (#[trigger] jobs[i]).index != (#[trigger] jobs[j]).index
}

impl SchedulerModel {
    /// Whether an outcome is that of an item that has ended.
    pub open spec fn closed(self, outcome: MigrationOutcome) -> bool {
        exists|j: int|
            0 <= j < self.jobs.len() && (#[trigger] self.jobs[j]).index == outcome_index(outcome)
                && self.stages[j] is Finished
    }

    /// Whether every outcome is that of an item that has ended and no two
    /// outcomes are about the same record.
    pub open spec fn settled(self) -> bool {
        &&& distinct_jobs(self.jobs)
        &&& forall|k: int| 0 <= k < self.outcomes.len() ==> self.closed(#[trigger] self.outcomes[k])
        &&& forall|a: int, b: int|
            0 <= a < b < self.outcomes.len() ==> outcome_index(#[trigger] self.outcomes[a])
                != outcome_index(#[trigger] self.outcomes[b])
    }
}

/// The scheduled items are about pairwise different records: their
/// positions in the input grow from item to item.
pub proof fn lemma_scheduled_distinct(records: Seq<MetadataRecord>)
    requires
        records.len() <= usize::MAX,
    ensures
        distinct_jobs(scheduled(records)),
    decreases records.len(),
{
    if records.len() > 0 {
        let front = records.drop_last();
        lemma_scheduled_distinct(front);
        lemma_scheduled_located(front);
        let jobs = scheduled(records);
        assert forall|i: int, j: int| 0 <= i < j < jobs.len() implies (#[trigger] jobs[i]).index != (
        #[trigger] jobs[j]).index by {
            assert(located_at(front, scheduled(front)[i]));
            if j < scheduled(front).len() {
                assert(scheduled(front)[i].index != scheduled(front)[j].index);
            }
        }
    }
}

/// Admission keeps the outcomes settled.
pub proof fn lemma_start_keeps_settled(m: SchedulerModel)
    requires
        m.inv(),
        m.settled(),
    ensures
        m.start_next().0.settled(),
{
    let after = m.start_next().0;
    assert forall|k: int| 0 <= k < after.outcomes.len() implies after.closed(
        #[trigger] after.outcomes[k],
    ) by {
        assert(m.closed(m.outcomes[k]));
        let j = choose|j: int|
            0 <= j < m.jobs.len() && (#[trigger] m.jobs[j]).index == outcome_index(m.outcomes[k])
                && m.stages[j] is Finished;
        assert(after.jobs[j].index == outcome_index(after.outcomes[k]) && after.stages[j]
            is Finished);
    }
}

/// An event keeps the outcomes settled: an item ends once, so its outcome
/// is about a record that no earlier outcome is about.
pub proof fn lemma_step_keeps_settled(m: SchedulerModel, j: int, event: JobEvent)
    requires
        m.inv(),
        m.settled(),
    ensures
        m.step(j, event).0.settled(),
{
    let after = m.step(j, event).0;
    if 0 <= j < m.stages.len() && after != m {
        assert(in_stage(m.stages[j]));
        assert forall|k: int| 0 <= k < after.outcomes.len() implies after.closed(
            #[trigger] after.outcomes[k],
        ) by {
            if k < m.outcomes.len() {
                assert(m.closed(m.outcomes[k]));
                let w = choose|w: int|
                    0 <= w < m.jobs.len() && (#[trigger] m.jobs[w]).index == outcome_index(
                        m.outcomes[k],
                    ) && m.stages[w] is Finished;
                assert(after.jobs[w].index == outcome_index(after.outcomes[k])
                    && after.stages[w] is Finished);
            } else {
                assert(after.jobs[j].index == outcome_index(after.outcomes[k])
                    && after.stages[j] is Finished);
            }
        }
        assert forall|a: int, b: int| 0 <= a < b < after.outcomes.len() implies outcome_index(
            #[trigger] after.outcomes[a],
        ) != outcome_index(#[trigger] after.outcomes[b]) by {
            if b < m.outcomes.len() {
                assert(outcome_index(m.outcomes[a]) != outcome_index(m.outcomes[b]));
            } else {
                assert(m.closed(m.outcomes[a]));
                let w = choose|w: int|
                    0 <= w < m.jobs.len() && (#[trigger] m.jobs[w]).index == outcome_index(
                        m.outcomes[a],
                    ) && m.stages[w] is Finished;
                assert(w != j);
                if w < j {
                    assert(m.jobs[w].index != m.jobs[j].index);
                } else {
                    assert(m.jobs[j].index != m.jobs[w].index);
                }
            }
        }
    }
}

/// However the caller polls and whatever it reports, every outcome is that
/// of an item that has ended, and no two outcomes are about the same
/// record.
pub proof fn lemma_run_settled(jobs: Seq<Job>, limit: usize, group_id: Option<u64>, moves: Seq<Move>)
    requires
        limit >= 1,
        distinct_jobs(jobs),
    ensures
        run(SchedulerModel::initial(jobs, limit, group_id), moves).inv(),
        run(SchedulerModel::initial(jobs, limit, group_id), moves).settled(),
        run(SchedulerModel::initial(jobs, limit, group_id), moves).jobs == jobs,
    decreases moves.len(),
{
    let start = SchedulerModel::initial(jobs, limit, group_id);
    lemma_never_over_limit(jobs, limit, group_id, moves);
    if moves.len() > 0 {
        lemma_run_settled(jobs, limit, group_id, moves.drop_last());
        lemma_never_over_limit(jobs, limit, group_id, moves.drop_last());
        let before = run(start, moves.drop_last());
        match moves.last() {
            Move::Poll => {
                lemma_start_keeps_settled(before);
            },
            Move::Event { job, event } => {
                lemma_step_keeps_settled(before, job, event);
            },
        }
    }
}

/// The outcomes of a run agree on every correlation token where the
/// records do not share one.
///
/// After any run of the scheduler for `records`, the outcomes are about
/// pairwise different records. So where no two records carry the same
/// correlation token, no two outcomes do, and the order in which the
/// outcomes arrived does not matter to the mapping.
pub proof fn lemma_outcomes_agree(
    records: Seq<MetadataRecord>,
    limit: usize,
    group_id: Option<u64>,
    moves: Seq<Move>,
)
    requires
        records.len() <= usize::MAX,
        limit >= 1,
        distinct_tokens(records),
    ensures
        forall|a: int, b: int|
            0 <= a < b < run(
                SchedulerModel::initial(scheduled(records), limit, group_id),
                moves,
            ).outcomes.len() ==> outcome_index(
                #[trigger] run(
                    SchedulerModel::initial(scheduled(records), limit, group_id),
                    moves,
                ).outcomes[a],
            ) != outcome_index(
                #[trigger] run(
                    SchedulerModel::initial(scheduled(records), limit, group_id),
                    moves,
                ).outcomes[b],
            ),
        tokens_agree(
            run(SchedulerModel::initial(scheduled(records), limit, group_id), moves).outcomes,
        ),
{
    let m = run(SchedulerModel::initial(scheduled(records), limit, group_id), moves);
    lemma_scheduled_distinct(records);
    lemma_scheduled_located(records);
    lemma_run_settled(scheduled(records), limit, group_id, moves);
    let outcomes = m.outcomes;
    assert forall|i: int, j: int|
        0 <= i < outcomes.len() && 0 <= j < outcomes.len() && token_of(#[trigger] outcomes[i])
            is Some && token_of(outcomes[i]) == token_of(
            #[trigger] outcomes[j],
        ) implies crate::outcome::new_id_of(outcomes[i]) == crate::outcome::new_id_of(
        outcomes[j],
    ) by {
        if i != j {
            assert(m.reports(outcomes[i]));
            assert(m.reports(outcomes[j]));
            let p = choose|p: int|
                0 <= p < m.jobs.len() && (#[trigger] m.jobs[p]).index == outcome_index(outcomes[i])
                    && m.jobs[p].request_id == outcome_token(outcomes[i]);
            let q = choose|q: int|
                0 <= q < m.jobs.len() && (#[trigger] m.jobs[q]).index == outcome_index(outcomes[j])
                    && m.jobs[q].request_id == outcome_token(outcomes[j]);
            assert(located_at(records, m.jobs[p]));
            assert(located_at(records, m.jobs[q]));
            let x = m.jobs[p].index as int;
            let y = m.jobs[q].index as int;
            if i < j {
                assert(outcome_index(outcomes[i]) != outcome_index(outcomes[j]));
            } else {
                assert(outcome_index(outcomes[j]) != outcome_index(outcomes[i]));
            }
            assert(records[x].request_id->0@ == records[y].request_id->0@);
            if x < y {
                assert(records[x].request_id->0@ != records[y].request_id->0@);
            } else {
                assert(records[y].request_id->0@ != records[x].request_id->0@);
            }
        }
    }
}

/// Every failure in the error list is one of the outcomes.
pub proof fn lemma_errors_are_outcomes(outcomes: Seq<MigrationOutcome>)
    ensures
        forall|k: int|
            0 <= k < errors_of(outcomes).len() ==> exists|p: int|
                0 <= p < outcomes.len() && outcomes[p] == MigrationOutcome::Failed(
                    #[trigger] errors_of(outcomes)[k],
                ),
    decreases outcomes.len(),
{
    if outcomes.len() > 0 {
        let front = outcomes.drop_last();
        lemma_errors_are_outcomes(front);
        assert forall|k: int| 0 <= k < errors_of(outcomes).len() implies exists|p: int|
            0 <= p < outcomes.len() && outcomes[p] == MigrationOutcome::Failed(
                #[trigger] errors_of(outcomes)[k],
            ) by {
            if k < errors_of(front).len() {
                let p = choose|p: int|
                    0 <= p < front.len() && front[p] == MigrationOutcome::Failed(
                        errors_of(front)[k],
                    );
                assert(outcomes[p] == front[p]);
            } else {
                assert(outcomes[outcomes.len() - 1] == outcomes.last());
            }
        }
    }
}

/// The number of slots for the caller's choice: the default where none is
/// named, else the number named, as far as the machine can count.
pub open spec fn limit_for(task_count: Option<u64>) -> usize {
    match task_count {
        None => DEFAULT_CONCURRENCY,
        Some(n) => if n <= usize::MAX {
            n as usize
        } else {
            usize::MAX
        },
    }
}

/// The number of slots for the caller's choice.
pub fn concurrency_limit(task_count: Option<u64>) -> (limit: usize)
    ensures
        limit == limit_for(task_count),
{
    match task_count {
        None => DEFAULT_CONCURRENCY,
        Some(n) => if n <= usize::MAX as u64 {
            n as usize
        } else {
            usize::MAX
        },
    }
}

fn clone_token(token: &Option<String>) -> (copy: Option<String>)
    ensures
        copy == *token,
{
    match token {
        Some(text) => Some(text.clone()),
        None => None,
    }
}

/// The bounded-concurrency scheduler of one migration run.
pub struct Scheduler {
    limit: usize,
    group_id: Option<u64>,
    jobs: Vec<Job>,
    stages: Vec<Stage>,
    admitted: usize,
    running: usize,
    outcomes: Vec<MigrationOutcome>,
}

impl View for Scheduler {
    type V = SchedulerModel;

    closed spec fn view(&self) -> SchedulerModel {
        SchedulerModel {
            limit: self.limit,
            group_id: self.group_id,
            jobs: self.jobs@,
            stages: self.stages@,
            admitted: self.admitted as nat,
            outcomes: self.outcomes@,
        }
    }
}

impl Scheduler {
    /// Whether the scheduler is in a valid state.
    pub closed spec fn wf(&self) -> bool {
        self@.inv() && self.running == running_jobs(self.stages@)
    }

    /// A valid scheduler is in a valid state of the model.
    pub proof fn lemma_wf_inv(&self)
        requires
            self.wf(),
        ensures
            self@.inv(),
    {
    }

    /// Sets up the migration of `records`.
    ///
    /// Exactly the records with a download location are scheduled, in input
    /// order; no item is admitted yet. The number of slots is `task_count`,
    /// or `DEFAULT_CONCURRENCY` where none is given.
    pub fn new(records: &Vec<MetadataRecord>, group_id: Option<u64>, task_count: Option<u64>) -> (s:
        Scheduler)
        requires
            task_count != Some(0u64),
        ensures
            s.wf(),
            s@ == SchedulerModel::initial(scheduled(records@), limit_for(task_count), group_id),
    {
        let limit = concurrency_limit(task_count);
        let mut jobs: Vec<Job> = Vec::new();
        let mut stages: Vec<Stage> = Vec::new();
        let mut i: usize = 0;
        proof {
            assert(records@.take(0) =~= Seq::<MetadataRecord>::empty());
        }
        while i < records.len()
            invariant
                i <= records.len(),
                jobs@ == scheduled(records@.take(i as int)),
                stages@.len() == jobs@.len(),
                forall|k: int| 0 <= k < stages@.len() ==> stages@[k] == Stage::Waiting,
            decreases records.len() - i,
        {
            proof {
                assert(records@.take(i + 1).drop_last() =~= records@.take(i as int));
                assert(records@.take(i + 1).last() == records@[i as int]);
            }
            match first_location(&records[i]) {
                Some(url) => {
                    jobs.push(
                        Job {
                            index: i,
                            request_id: clone_token(&records[i].request_id),
                            location: url.clone(),
                        },
                    );
                    stages.push(Stage::Waiting);
                },
                None => {},
            }
            i = i + 1;
        }
        let s = Scheduler {
            limit,
            group_id,
            jobs,
            stages,
            admitted: 0,
            running: 0,
            outcomes: Vec::new(),
        };
        proof {
            assert(records@.take(records@.len() as int) =~= records@);
            let m = SchedulerModel::initial(scheduled(records@), limit_for(task_count), group_id);
            assert(s@.stages =~= m.stages);
            assert(s@.outcomes =~= m.outcomes);
            lemma_initial_inv(scheduled(records@), limit_for(task_count), group_id);
        }
        s
    }

    /// Admits the next waiting item if a slot is free.
    ///
    /// Returns the download command of the admitted item, or `None` where
    /// every slot is taken or no item is waiting.
    pub fn poll(&mut self) -> (command: Option<Command>)
        requires
            old(self).wf(),
        ensures
            final(self).wf(),
            (final(self)@, command) == old(self)@.start_next(),
    {
        proof {
            lemma_start_keeps_inv(self@);
        }
        if self.admitted < self.jobs.len() && self.running < self.limit {
            let j: usize = self.admitted;
            let location = self.jobs[j].location.clone();
            self.stages.set(j, Stage::Downloading { attempt: 1 });
            self.admitted = j + 1;
            self.running = self.running + 1;
            Some(
                Command::Download {
                    job: j,
                    location,
                    attempt: 1,
                    timeout_secs: DOWNLOAD_TIMEOUT_SECS,
                },
            )
        } else {
            None
        }
    }

    fn advance(&mut self, job: usize, stage: Stage, Ghost(event): Ghost<JobEvent>)
        requires
            old(self).wf(),
            job < old(self)@.stages.len(),
            old(self)@.step(job as int, event).0 == old(self)@.moved(job as int, stage),
        ensures
            final(self).wf(),
            final(self)@ == old(self)@.moved(job as int, stage),
    {
        proof {
            lemma_step_keeps_inv(self@, job as int, event);
            assert(self@.moved(job as int, stage).outcomes.len() == self@.outcomes.len());
        }
        self.stages.set(job, stage);
    }

    fn end(&mut self, job: usize, outcome: MigrationOutcome, Ghost(event): Ghost<JobEvent>)
        requires
            old(self).wf(),
            job < old(self)@.stages.len(),
            old(self)@.step(job as int, event).0 == old(self)@.ended(job as int, outcome),
        ensures
            final(self).wf(),
            final(self)@ == old(self)@.ended(job as int, outcome),
    {
        proof {
            lemma_step_keeps_inv(self@, job as int, event);
            assert(self@.ended(job as int, outcome).outcomes.len() > self@.outcomes.len());
        }
        self.stages.set(job, Stage::Finished);
        self.outcomes.push(outcome);
        self.running = self.running - 1;
    }

    fn fail(&mut self, job: usize, cause: FailureCause, Ghost(event): Ghost<JobEvent>)
        requires
            old(self).wf(),
            job < old(self)@.stages.len(),
            old(self)@.step(job as int, event).0 == old(self)@.ended(
                job as int,
                old(self)@.failure(job as int, cause),
            ),
        ensures
            final(self).wf(),
            final(self)@ == old(self)@.ended(job as int, old(self)@.failure(job as int, cause)),
    {
        let failure = MigrationFailure {
            index: self.jobs[job].index,
            request_id: clone_token(&self.jobs[job].request_id),
            cause,
        };
        self.end(job, MigrationOutcome::Failed(failure), Ghost(event));
    }

    /// Takes in what happened to the command of item `job` and answers with
    /// the item's next command, if it has one.
    pub fn on_event(&mut self, job: usize, event: JobEvent) -> (command: Option<Command>)
        requires
            old(self).wf(),
        ensures
            final(self).wf(),
            (final(self)@, command) == old(self)@.step(job as int, event),
    {
        if job >= self.stages.len() {
            return None;
        }
        let ghost seen = event;
        let stage: Stage = self.stages[job];
        match stage {
            Stage::Downloading { attempt } => match event {
                JobEvent::Downloaded => {
                    self.advance(job, Stage::Uploading { attempt: 1 }, Ghost(seen));
                    Some(Command::Upload { job, group_id: self.group_id, attempt: 1 })
                },
                JobEvent::DownloadFailed(_) => {
                    if attempt < DOWNLOAD_ATTEMPTS {
                        let next: u32 = attempt + 1;
                        let location = self.jobs[job].location.clone();
                        self.advance(job, Stage::Downloading { attempt: next }, Ghost(seen));
                        Some(
                            Command::Download {
                                job,
                                location,
                                attempt: next,
                                timeout_secs: DOWNLOAD_TIMEOUT_SECS,
                            },
                        )
                    } else {
                        self.fail(job, FailureCause::RateLimited, Ghost(seen));
                        None
                    }
                },
                JobEvent::Aborted => {
                    self.fail(job, FailureCause::Aborted, Ghost(seen));
                    None
                },
                _ => None,
            },
            Stage::Uploading { attempt } => match event {
                JobEvent::Uploaded(new_id) => {
                    let outcome = MigrationOutcome::Migrated {
                        index: self.jobs[job].index,
                        request_id: clone_token(&self.jobs[job].request_id),
                        new_id,
                    };
                    self.end(job, outcome, Ghost(seen));
                    None
                },
                JobEvent::UploadFailed(fault) => {
                    if is_cannot_publish(fault) {
                        self.fail(job, FailureCause::CannotPublish, Ghost(seen));
                        None
                    } else if attempt < UPLOAD_ATTEMPTS {
                        self.advance(job, Stage::Pausing { attempt }, Ghost(seen));
                        Some(Command::Pause { job, millis: UPLOAD_RETRY_DELAY_MS })
                    } else {
                        self.fail(job, FailureCause::UploadFailed(fault), Ghost(seen));
                        None
                    }
                },
                JobEvent::Aborted => {
                    self.fail(job, FailureCause::Aborted, Ghost(seen));
                    None
                },
                _ => None,
            },
            Stage::Pausing { attempt } => match event {
                JobEvent::Resumed => {
                    proof {
                        self.lemma_wf_inv();
                        assert(attempt_in_range(self@.stages[job as int]));
                    }
                    let next: u32 = attempt + 1;
                    self.advance(job, Stage::Uploading { attempt: next }, Ghost(seen));
                    Some(Command::Upload { job, group_id: self.group_id, attempt: next })
                },
                JobEvent::Aborted => {
                    self.fail(job, FailureCause::Aborted, Ghost(seen));
                    None
                },
                _ => None,
            },
            _ => None,
        }
    }

    /// Whether every item has its outcome.
    pub fn is_done(&self) -> (done: bool)
        requires
            self.wf(),
        ensures
            done == self@.done(),
    {
        self.admitted == self.jobs.len() && self.running == 0
    }

    /// The number of items that hold a slot.
    pub fn running(&self) -> (n: usize)
        requires
            self.wf(),
        ensures
            n == running_jobs(self@.stages),
            n <= self@.limit,
    {
        self.running
    }

    /// The number of slots.
    pub fn limit(&self) -> (n: usize)
        ensures
            n == self@.limit,
    {
        self.limit
    }

    /// The number of scheduled items.
    pub fn job_count(&self) -> (n: usize)
        ensures
            n == self@.jobs.len(),
    {
        self.jobs.len()
    }

    /// The scheduled items, in input order.
    pub fn jobs(&self) -> (jobs: &Vec<Job>)
        ensures
            jobs@ == self@.jobs,
    {
        &self.jobs
    }

    /// The stage of item `job`, if there is such an item.
    pub fn stage(&self, job: usize) -> (stage: Option<Stage>)
        requires
            self.wf(),
        ensures
            stage == if job < self@.stages.len() {
                Some(self@.stages[job as int])
            } else {
                None
            },
    {
        if job < self.stages.len() {
            Some(self.stages[job])
        } else {
            None
        }
    }

    /// The outcomes so far, in the order in which the items ended.
    pub fn outcomes(&self) -> (outcomes: &Vec<MigrationOutcome>)
        ensures
            outcomes@ == self@.outcomes,
    {
        &self.outcomes
    }

    /// Ends the run and merges the outcomes that were delivered.
    pub fn finish(self) -> (result: MigrationResult)
        requires
            self.wf(),
        ensures
            result.mapping.wf(),
            result.mapping@ == mapping_of(self@.outcomes),
            result.errors@ == errors_of(self@.outcomes),
    {
        aggregate(self.outcomes)
    }
}

} // verus!
