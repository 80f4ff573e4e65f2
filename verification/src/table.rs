//! The jobs table: what each durable operation does to the rows it is given.
use serde_json::Value;
use vstd::prelude::*;

use crate::errors::JobsError;
use crate::jobs::{optional_instant, optional_text, Job, JobRow, JobStatus};
use crate::names::same_text;
use crate::order::{
    claim_rank, claims_before, lemma_rank_asymmetric, lemma_rank_total, lemma_rank_transitive,
    retirement_rank, retires_before,
};
use crate::payload::{json_equal, json_members, same_json};
use crate::retry::{delay_seconds, retry_delay, RetryPolicy};
use crate::timestamps::Timestamp;

verus! {

/// The most expired jobs that one claim retires.
pub const EXPIRED_RETIREMENT_BATCH_LIMIT: u64 = 64;

/// A job to be stored.
#[derive(Clone, Debug)]
pub struct NewJob {
    pub id: String,
    pub producer: String,
    pub queue: String,
    pub kind: String,
    pub payload: Value,
    pub idempotency_key: String,
    pub available_at: Timestamp,
    pub max_attempts: i64,
}

impl NewJob {
    /// The row that stores the job.
    pub open spec fn stored(self, now: int) -> Job {
        Job {
            id: self.id@,
            producer: self.producer@,
            queue: self.queue@,
            kind: self.kind@,
            payload: self.payload,
            idempotency_key: self.idempotency_key@,
            status: JobStatus::Queued,
            max_attempts: self.max_attempts as int,
            attempts: 0,
            available_at: self.available_at.micros as int,
            lease_generation: 0,
            lease_owner: None,
            lease_token_hash: None,
            lease_expires_at: None,
            last_failure_code: None,
            created_at: now,
            updated_at: now,
        }
    }

    /// `job` was stored by the same producer under the same key.
    pub open spec fn shares_key(self, job: Job) -> bool {
        job.producer == self.producer@ && job.idempotency_key == self.idempotency_key@
    }

    /// `job` was stored with the same content, member for member.
    pub open spec fn copies(self, job: Job) -> bool {
        &&& job.queue == self.queue@
        &&& job.kind == self.kind@
        &&& json_members(self.payload) is Some
        &&& json_members(job.payload) == json_members(self.payload)
        &&& job.available_at == self.available_at.micros
        &&& job.max_attempts == self.max_attempts
    }

    /// `job` was stored with content that compares equal.
    pub open spec fn repeats(self, job: Job) -> bool {
        &&& job.queue == self.queue@
        &&& job.kind == self.kind@
        &&& json_equal(job.payload, self.payload)
        &&& job.available_at == self.available_at.micros
        &&& job.max_attempts == self.max_attempts
    }
}

/// What became of a job to be stored.
#[derive(Clone, Debug, PartialEq, Eq)]
pub enum EnqueueOutcome {
    /// The job was stored under this identifier.
    Created(String),
    /// The same job had been stored before, under this identifier.
    Existing(String),
    /// Another job had been stored under the same key.
    Conflict,
}

/// The columns of a stored job that decide whether it repeats a new one.
#[derive(Clone, Debug)]
pub struct ExistingJob {
    pub id: String,
    pub queue: String,
    pub kind: String,
    pub payload: Value,
    pub available_at: Timestamp,
    pub max_attempts: i32,
}

impl ExistingJob {
    /// The columns of `job`.
    pub open spec fn reads(self, job: Job) -> bool {
        &&& self.id@ == job.id
        &&& self.queue@ == job.queue
        &&& self.kind@ == job.kind
        &&& self.payload == job.payload
        &&& self.available_at.micros == job.available_at
        &&& self.max_attempts == job.max_attempts
    }

    /// `job` has the same content, member for member.
    pub open spec fn copied_by(self, job: NewJob) -> bool {
        &&& self.queue@ == job.queue@
        &&& self.kind@ == job.kind@
        &&& json_members(job.payload) is Some
        &&& json_members(self.payload) == json_members(job.payload)
        &&& self.available_at == job.available_at
        &&& self.max_attempts == job.max_attempts
    }

    /// `job` has content that compares equal.
    pub open spec fn repeated_by(self, job: NewJob) -> bool {
        &&& self.queue@ == job.queue@
        &&& self.kind@ == job.kind@
        &&& json_equal(self.payload, job.payload)
        &&& self.available_at == job.available_at
        &&& self.max_attempts == job.max_attempts
    }
}

/// The outcome of an insertion that affected this many rows, if that settles it.
pub fn inserted(rows_affected: u64, job_id: &str) -> (r: Option<EnqueueOutcome>)
    ensures
        match r {
            Some(EnqueueOutcome::Created(id)) => rows_affected == 1 && id@ == job_id@,
            Some(_) => false,
            None => rows_affected != 1,
        },
{
    if rows_affected == 1 {
        Some(EnqueueOutcome::Created(job_id.to_owned()))
    } else {
        None
    }
}

/// `outcome` is what a job meets whose key was taken, given the job that holds the
/// key.
pub open spec fn conflict_resolved(
    job: NewJob,
    existing: Option<ExistingJob>,
    outcome: Result<EnqueueOutcome, JobsError>,
) -> bool {
    match (existing, outcome) {
        (Some(row), Ok(EnqueueOutcome::Existing(id))) => row.repeated_by(job) && id == row.id,
        (Some(row), Ok(EnqueueOutcome::Conflict)) => !row.repeated_by(job),
        (None, Err(error)) => error == JobsError::IdempotencyInvariant,
        _ => false,
    }
}

/// The outcome for a job whose key was taken, given the job that holds the key.
pub fn resolve_conflict(job: &NewJob, existing: Option<ExistingJob>) -> (r: Result<
    EnqueueOutcome,
    JobsError,
>)
    requires
        i32::MIN <= job.max_attempts <= i32::MAX,
    ensures
        conflict_resolved(*job, existing, r),
        existing matches Some(row) && row.copied_by(*job) ==> r matches Ok(
            EnqueueOutcome::Existing(_),
        ),
{
    match existing {
        Some(row) => {
            let same = row.queue == job.queue && row.kind == job.kind && same_json(
                &row.payload,
                &job.payload,
            ) && row.available_at.micros == job.available_at.micros && row.max_attempts as i64
                == job.max_attempts;
            if same {
                Ok(EnqueueOutcome::Existing(row.id))
            } else {
                Ok(EnqueueOutcome::Conflict)
            }
        },
        None => Err(JobsError::IdempotencyInvariant),
    }
}

/// The columns of a job that its claimant is told.
#[derive(Clone, Debug)]
pub struct ClaimedJob {
    pub id: String,
    pub queue: String,
    pub kind: String,
    pub payload: Value,
    pub attempts: i32,
    pub max_attempts: i32,
    pub lease_expires_at: Timestamp,
}

impl ClaimedJob {
    /// The columns of `job`.
    pub open spec fn reads(self, job: Job) -> bool {
        &&& self.id@ == job.id
        &&& self.queue@ == job.queue
        &&& self.kind@ == job.kind
        &&& self.payload == job.payload
        &&& self.attempts == job.attempts
        &&& self.max_attempts == job.max_attempts
        &&& job.lease_expires_at == Some(self.lease_expires_at.micros as int)
    }
}

/// The text that stands for a status in its column.
pub open spec fn status_text(status: JobStatus) -> Seq<char> {
    match status {
        JobStatus::Queued => "queued"@,
        JobStatus::Running => "running"@,
        JobStatus::Succeeded => "succeeded"@,
        JobStatus::Failed => "failed"@,
    }
}

/// The text that stands for a status in its column.
pub fn status_column(status: JobStatus) -> (r: &'static str)
    ensures
        r@ == status_text(status),
{
    match status {
        JobStatus::Queued => "queued",
        JobStatus::Running => "running",
        JobStatus::Succeeded => "succeeded",
        JobStatus::Failed => "failed",
    }
}

/// The columns of a job that an observer is told.
#[derive(Clone, Debug)]
pub struct InspectedJob {
    pub id: String,
    pub queue: String,
    pub kind: String,
    pub status: String,
    pub attempts: i32,
    pub max_attempts: i32,
    pub available_at: Timestamp,
    pub lease_expires_at: Option<Timestamp>,
    pub last_failure_code: Option<String>,
    pub created_at: Timestamp,
    pub updated_at: Timestamp,
}

impl InspectedJob {
    /// The columns of `job`.
    pub open spec fn reads(self, job: Job) -> bool {
        &&& self.id@ == job.id
        &&& self.queue@ == job.queue
        &&& self.kind@ == job.kind
        &&& self.status@ == status_text(job.status)
        &&& self.attempts == job.attempts
        &&& self.max_attempts == job.max_attempts
        &&& self.available_at.micros == job.available_at
        &&& optional_instant(self.lease_expires_at) == job.lease_expires_at
        &&& optional_text(self.last_failure_code) == job.last_failure_code
        &&& self.created_at.micros == job.created_at
        &&& self.updated_at.micros == job.updated_at
    }
}

/// What became of a job whose attempt failed.
#[derive(Clone, Copy, Debug)]
pub struct FailedAttempt {
    /// The job is queued for another attempt.
    pub retry: bool,
    /// When the job is or was available.
    pub available_at: Timestamp,
}

/// The jobs in the rows.
pub open spec fn jobs_in(rows: Seq<JobRow>) -> Seq<Job> {
    Seq::new(rows.len(), |i: int| rows[i]@)
}

/// Every job is well formed, and neither identifiers nor keys repeat.
pub open spec fn consistent(jobs: Seq<Job>) -> bool {
    &&& forall|i: int| 0 <= i < jobs.len() ==> (#[trigger] jobs[i]).wf()
    &&& forall|i: int, j: int|
        0 <= i < j < jobs.len() ==> (#[trigger] jobs[i]).id != (#[trigger] jobs[j]).id
    &&& forall|i: int, j: int|
        0 <= i < j < jobs.len() ==> (#[trigger] jobs[i]).producer != (#[trigger] jobs[j]).producer
            || jobs[i].idempotency_key != jobs[j].idempotency_key
}

/// No job was stored by the same producer under the same key.
pub open spec fn key_free(jobs: Seq<Job>, job: NewJob) -> bool {
    forall|i: int| 0 <= i < jobs.len() ==> !job.shares_key(#[trigger] jobs[i])
}

/// No job has this identifier.
pub open spec fn id_free(jobs: Seq<Job>, id: Seq<char>) -> bool {
    forall|i: int| 0 <= i < jobs.len() ==> (#[trigger] jobs[i]).id != id
}

/// The job at `i` is the next to be retired.
pub open spec fn next_retired(jobs: Seq<Job>, queue: Seq<char>, now: int, i: int) -> bool {
    &&& 0 <= i < jobs.len()
    &&& jobs[i].retirable(queue, now)
    &&& forall|j: int|
        0 <= j < jobs.len() && j != i && (#[trigger] jobs[j]).retirable(queue, now)
            ==> retirement_rank(jobs[i]).precedes(retirement_rank(jobs[j]))
}

/// The job at `i` is the next to be claimed.
pub open spec fn next_claimed(jobs: Seq<Job>, queue: Seq<char>, now: int, i: int) -> bool {
    &&& 0 <= i < jobs.len()
    &&& jobs[i].claimable(queue, now)
    &&& forall|j: int|
        0 <= j < jobs.len() && j != i && (#[trigger] jobs[j]).claimable(queue, now) ==> claim_rank(
            jobs[i],
        ).precedes(claim_rank(jobs[j]))
}

/// The jobs after at most `limit` of those to be retired were, one after another.
pub open spec fn swept(jobs: Seq<Job>, queue: Seq<char>, now: int, limit: nat) -> Seq<Job>
    decreases limit,
{
    if limit > 0 && exists|i: int| next_retired(jobs, queue, now, i) {
        let i = choose|i: int| next_retired(jobs, queue, now, i);
        swept(jobs.update(i, jobs[i].retired(now)), queue, now, (limit - 1) as nat)
    } else {
        jobs
    }
}

/// The job at `i` has this identifier, and `worker` holds its lease.
pub open spec fn held(
    jobs: Seq<Job>,
    id: Seq<char>,
    worker: Seq<char>,
    token_hash: Seq<u8>,
    now: int,
    i: int,
) -> bool {
    &&& 0 <= i < jobs.len()
    &&& jobs[i].id == id
    &&& jobs[i].leased(worker, token_hash, now)
}

/// Storing a job turns `before` into `after` and has this outcome.
pub open spec fn enqueue_step(
    before: Seq<Job>,
    after: Seq<Job>,
    job: NewJob,
    now: int,
    outcome: Result<EnqueueOutcome, JobsError>,
) -> bool {
    match outcome {
        Ok(EnqueueOutcome::Created(id)) => {
            &&& id@ == job.id@
            &&& key_free(before, job)
            &&& id_free(before, job.id@)
            &&& after == before.push(job.stored(now))
        },
        Ok(EnqueueOutcome::Existing(id)) => {
            &&& after == before
            &&& exists|i: int|
                0 <= i < before.len() && job.shares_key(#[trigger] before[i]) && job.repeats(
                    before[i],
                ) && id@ == before[i].id
        },
        Ok(EnqueueOutcome::Conflict) => {
            &&& after == before
            &&& exists|i: int|
                0 <= i < before.len() && job.shares_key(#[trigger] before[i]) && !job.repeats(
                    before[i],
                )
        },
        Err(error) => {
            &&& after == before
            &&& key_free(before, job)
            &&& !id_free(before, job.id@)
            &&& error matches JobsError::Database { operation } && operation@ == "insert job"@
        },
    }
}

/// A claim turns `before` into `after` and starts an attempt at the job at
/// `claimed`, or finds none to start.
pub open spec fn claim_step(
    before: Seq<Job>,
    after: Seq<Job>,
    queue: Seq<char>,
    worker: Seq<char>,
    token_hash: Seq<u8>,
    lease_seconds: int,
    now: int,
    claimed: Option<int>,
) -> bool {
    let jobs = swept(before, queue, now, EXPIRED_RETIREMENT_BATCH_LIMIT as nat);
    match claimed {
        Some(i) => {
            &&& next_claimed(jobs, queue, now, i)
            &&& after == jobs.update(i, jobs[i].claimed(worker, token_hash, lease_seconds, now))
        },
        None => {
            &&& forall|i: int| 0 <= i < jobs.len() ==> !(#[trigger] jobs[i]).claimable(queue, now)
            &&& after == jobs
        },
    }
}

/// A renewal turns `before` into `after` and concerns the job at `renewed`, or is
/// not entitled to any.
pub open spec fn renew_step(
    before: Seq<Job>,
    after: Seq<Job>,
    id: Seq<char>,
    worker: Seq<char>,
    token_hash: Seq<u8>,
    lease_seconds: int,
    now: int,
    renewed: Option<int>,
) -> bool {
    match renewed {
        Some(i) => {
            &&& held(before, id, worker, token_hash, now, i)
            &&& after == before.update(i, before[i].renewed(lease_seconds, now))
        },
        None => nothing_held(before, id, worker, token_hash, now) && after == before,
    }
}

/// A completion turns `before` into `after` and concerns the job at `completed`,
/// or is not entitled to any.
pub open spec fn complete_step(
    before: Seq<Job>,
    after: Seq<Job>,
    id: Seq<char>,
    worker: Seq<char>,
    token_hash: Seq<u8>,
    now: int,
    completed: Option<int>,
) -> bool {
    match completed {
        Some(i) => {
            &&& held(before, id, worker, token_hash, now, i)
            &&& after == before.update(i, before[i].completed(now))
        },
        None => nothing_held(before, id, worker, token_hash, now) && after == before,
    }
}

/// A reported failure turns `before` into `after` and concerns the job at
/// `failed`, or is not entitled to any.
pub open spec fn fail_step(
    before: Seq<Job>,
    after: Seq<Job>,
    id: Seq<char>,
    worker: Seq<char>,
    token_hash: Seq<u8>,
    failure_code: Seq<char>,
    retryable: bool,
    policy: RetryPolicy,
    now: int,
    failed: Option<int>,
) -> bool {
    match failed {
        Some(i) => {
            &&& held(before, id, worker, token_hash, now, i)
            &&& after == before.update(
                i,
                before[i].failed_attempt(failure_code, retryable, policy, now),
            )
        },
        None => nothing_held(before, id, worker, token_hash, now) && after == before,
    }
}

/// `found` is what a look at the job with this identifier finds.
pub open spec fn inspection(jobs: Seq<Job>, id: Seq<char>, found: Option<InspectedJob>) -> bool {
    match found {
        Some(row) => exists|i: int|
            0 <= i < jobs.len() && (#[trigger] jobs[i]).id == id && row.reads(jobs[i]),
        None => id_free(jobs, id),
    }
}

/// `worker` holds no lease of the job with this identifier.
pub open spec fn nothing_held(
    jobs: Seq<Job>,
    id: Seq<char>,
    worker: Seq<char>,
    token_hash: Seq<u8>,
    now: int,
) -> bool {
    forall|i: int| !#[trigger] held(jobs, id, worker, token_hash, now, i)
}

/// At most one job is the next to be retired.
pub proof fn lemma_next_retired_unique(jobs: Seq<Job>, queue: Seq<char>, now: int, i: int, j: int)
    requires
        next_retired(jobs, queue, now, i),
        next_retired(jobs, queue, now, j),
    ensures
        i == j,
{
    if i != j {
        lemma_rank_asymmetric(retirement_rank(jobs[i]), retirement_rank(jobs[j]));
    }
}

/// At most one job is the next to be claimed.
pub proof fn lemma_next_claimed_unique(jobs: Seq<Job>, queue: Seq<char>, now: int, i: int, j: int)
    requires
        next_claimed(jobs, queue, now, i),
        next_claimed(jobs, queue, now, j),
    ensures
        i == j,
{
    if i != j {
        lemma_rank_asymmetric(claim_rank(jobs[i]), claim_rank(jobs[j]));
    }
}

/// A job that keeps its identity and its invariant keeps the table consistent.
pub proof fn lemma_update_consistent(jobs: Seq<Job>, i: int, job: Job)
    requires
        consistent(jobs),
        0 <= i < jobs.len(),
        job.wf(),
        job.id == jobs[i].id,
        job.producer == jobs[i].producer,
        job.idempotency_key == jobs[i].idempotency_key,
    ensures
        consistent(jobs.update(i, job)),
{
    let after = jobs.update(i, job);
    assert forall|a: int, b: int| 0 <= a < b < after.len() implies (#[trigger] after[a]).id != (
    #[trigger] after[b]).id && (after[a].producer != after[b].producer || after[a].idempotency_key
        != after[b].idempotency_key) by {
        assert(jobs[a].id != jobs[b].id);
        assert(jobs[a].producer != jobs[b].producer || jobs[a].idempotency_key
            != jobs[b].idempotency_key);
    }
}

/// The rows that an operation works on.
pub struct JobTable {
    rows: Vec<JobRow>,
}

impl View for JobTable {
    type V = Seq<Job>;

    closed spec fn view(&self) -> Seq<Job> {
        jobs_in(self.rows@)
    }
}

impl JobTable {
    /// The table is one that this module can have stored.
    pub open spec fn wf(self) -> bool {
        consistent(self@)
    }

    /// A table without jobs.
    pub fn new() -> (r: JobTable)
        ensures
            r.wf(),
            r@ == Seq::<Job>::empty(),
    {
        let r = JobTable { rows: Vec::new() };
        assert(r@ == Seq::<Job>::empty());
        r
    }

    /// The table of these rows, if they are consistent.
    pub fn from_rows(rows: Vec<JobRow>) -> (r: Option<JobTable>)
        ensures
            match r {
                Some(table) => table.wf() && table@ == jobs_in(rows@),
                None => !consistent(jobs_in(rows@)),
            },
    {
        let ghost jobs = jobs_in(rows@);
        let mut i: usize = 0;
        while i < rows.len()
            invariant
                i <= rows.len(),
                jobs == jobs_in(rows@),
                forall|a: int| 0 <= a < i ==> (#[trigger] jobs[a]).wf(),
                forall|a: int, b: int|
                    0 <= a < b < i ==> (#[trigger] jobs[a]).id != (#[trigger] jobs[b]).id && (
                    jobs[a].producer != jobs[b].producer || jobs[a].idempotency_key
                        != jobs[b].idempotency_key),
            decreases rows.len() - i,
        {
            assert(jobs[i as int] == rows@[i as int]@);
            if !rows[i].well_formed() {
                return None;
            }
            let mut j: usize = 0;
            while j < i
                invariant
                    j <= i < rows.len(),
                    jobs == jobs_in(rows@),
                    forall|a: int|
                        0 <= a < j ==> (#[trigger] jobs[a]).id != jobs[i as int].id && (
                        jobs[a].producer != jobs[i as int].producer || jobs[a].idempotency_key
                            != jobs[i as int].idempotency_key),
                decreases i - j,
            {
                assert(jobs[i as int] == rows@[i as int]@);
                assert(jobs[j as int] == rows@[j as int]@);
                if rows[i].id == rows[j].id {
                    return None;
                }
                if rows[i].producer_instance == rows[j].producer_instance
                    && rows[i].idempotency_key == rows[j].idempotency_key {
                    return None;
                }
                j = j + 1;
            }
            i = i + 1;
        }
        Some(JobTable { rows })
    }

    /// The rows of the table.
    pub fn rows(&self) -> (r: &Vec<JobRow>)
        ensures
            jobs_in(r@) == self@,
    {
        &self.rows
    }

    /// Where the next job to be retired is.
    fn find_retired(&self, queue: &str, now: Timestamp) -> (r: Option<usize>)
        requires
            self.wf(),
        ensures
            match r {
                Some(i) => next_retired(self@, queue@, now.micros as int, i as int),
                None => forall|j: int|
                    0 <= j < self@.len() ==> !(#[trigger] self@[j]).retirable(
                        queue@,
                        now.micros as int,
                    ),
            },
    {
        let mut best: Option<usize> = None;
        let mut i: usize = 0;
        while i < self.rows.len()
            invariant
                i <= self.rows.len(),
                self.wf(),
                match best {
                    Some(k) => {
                        &&& k < i
                        &&& self@[k as int].retirable(queue@, now.micros as int)
                        &&& forall|j: int|
                            0 <= j < i && j != k && (#[trigger] self@[j]).retirable(
                                queue@,
                                now.micros as int,
                            ) ==> retirement_rank(self@[k as int]).precedes(
                                retirement_rank(self@[j]),
                            )
                    },
                    None => forall|j: int|
                        0 <= j < i ==> !(#[trigger] self@[j]).retirable(queue@, now.micros as int),
                },
            decreases self.rows.len() - i,
        {
            assert(self@[i as int] == self.rows@[i as int]@);
            if self.rows[i].is_retirable(queue, now) {
                match best {
                    Some(k) => {
                        assert(self@[k as int] == self.rows@[k as int]@);
                        assert(self@[k as int].id != self@[i as int].id);
                        proof {
                            lemma_rank_total(
                                retirement_rank(self@[k as int]),
                                retirement_rank(self@[i as int]),
                                self@[k as int].id,
                                self@[i as int].id,
                            );
                        }
                        if retires_before(&self.rows[i], &self.rows[k]) {
                            proof {
                                assert forall|j: int| 0 <= j < i && (#[trigger] self@[j]).retirable(
                                    queue@,
                                    now.micros as int,
                                ) implies retirement_rank(self@[i as int]).precedes(
                                    retirement_rank(self@[j]),
                                ) by {
                                    if j != k {
                                        lemma_rank_transitive(
                                            retirement_rank(self@[i as int]),
                                            retirement_rank(self@[k as int]),
                                            retirement_rank(self@[j]),
                                        );
                                    }
                                }
                            }
                            best = Some(i);
                        }
                    },
                    None => {
                        best = Some(i);
                    },
                }
            }
            i = i + 1;
        }
        best
    }

    /// Where the next job to be claimed is.
    fn find_claimed(&self, queue: &str, now: Timestamp) -> (r: Option<usize>)
        requires
            self.wf(),
        ensures
            match r {
                Some(i) => next_claimed(self@, queue@, now.micros as int, i as int),
                None => forall|j: int|
                    0 <= j < self@.len() ==> !(#[trigger] self@[j]).claimable(
                        queue@,
                        now.micros as int,
                    ),
            },
    {
        let mut best: Option<usize> = None;
        let mut i: usize = 0;
        while i < self.rows.len()
            invariant
                i <= self.rows.len(),
                self.wf(),
                match best {
                    Some(k) => {
                        &&& k < i
                        &&& self@[k as int].claimable(queue@, now.micros as int)
                        &&& forall|j: int|
                            0 <= j < i && j != k && (#[trigger] self@[j]).claimable(
                                queue@,
                                now.micros as int,
                            ) ==> claim_rank(self@[k as int]).precedes(claim_rank(self@[j]))
                    },
                    None => forall|j: int|
                        0 <= j < i ==> !(#[trigger] self@[j]).claimable(queue@, now.micros as int),
                },
            decreases self.rows.len() - i,
        {
            assert(self@[i as int] == self.rows@[i as int]@);
            if self.rows[i].is_claimable(queue, now) {
                match best {
                    Some(k) => {
                        assert(self@[k as int] == self.rows@[k as int]@);
                        assert(self@[k as int].id != self@[i as int].id);
                        proof {
                            lemma_rank_total(
                                claim_rank(self@[k as int]),
                                claim_rank(self@[i as int]),
                                self@[k as int].id,
                                self@[i as int].id,
                            );
                        }
                        if claims_before(&self.rows[i], &self.rows[k]) {
                            proof {
                                assert forall|j: int| 0 <= j < i && (#[trigger] self@[j]).claimable(
                                    queue@,
                                    now.micros as int,
                                ) implies claim_rank(self@[i as int]).precedes(
                                    claim_rank(self@[j]),
                                ) by {
                                    if j != k {
                                        lemma_rank_transitive(
                                            claim_rank(self@[i as int]),
                                            claim_rank(self@[k as int]),
                                            claim_rank(self@[j]),
                                        );
                                    }
                                }
                            }
                            best = Some(i);
                        }
                    },
                    None => {
                        best = Some(i);
                    },
                }
            }
            i = i + 1;
        }
        best
    }

    /// Retires one row.
    fn retire_row(&mut self, i: usize, now: Timestamp)
        requires
            old(self).wf(),
            i < old(self)@.len(),
        ensures
            final(self).wf(),
            final(self)@ == old(self)@.update(i as int, old(self)@[i as int].retired(now.micros as int)),
    {
        let ghost before = self@;
        assert(before[i as int] == self.rows@[i as int]@);
        self.rows[i].terminate("attempts_exhausted", now);
        proof {
            let job = before[i as int].retired(now.micros as int);
            assert(self@ == before.update(i as int, job));
            lemma_update_consistent(before, i as int, job);
        }
    }

    /// Retires the expired jobs of `queue` that have no attempt left, the oldest
    /// first and at most a batch of them, and then starts an attempt at the job
    /// of `queue` that has been due the longest.
    pub fn claim(
        &mut self,
        queue: &str,
        worker: &str,
        lease_token_hash: &[u8],
        lease_seconds: i64,
        now: Timestamp,
    ) -> (r: Option<ClaimedJob>)
        requires
            old(self).wf(),
            now.reaches(lease_seconds as int),
        ensures
            final(self).wf(),
            match r {
                Some(claim) => exists|i: int|
                    {
                        &&& #[trigger] claim_step(
                            old(self)@,
                            final(self)@,
                            queue@,
                            worker@,
                            lease_token_hash@,
                            lease_seconds as int,
                            now.micros as int,
                            Some(i),
                        )
                        &&& claim.reads(final(self)@[i])
                    },
                None => claim_step(
                    old(self)@,
                    final(self)@,
                    queue@,
                    worker@,
                    lease_token_hash@,
                    lease_seconds as int,
                    now.micros as int,
                    None,
                ),
            },
    {
        let ghost before = self@;
        let ghost at = now.micros as int;
        let mut retired: u64 = 0;
        loop
            invariant
                self.wf(),
                at == now.micros,
                retired <= EXPIRED_RETIREMENT_BATCH_LIMIT,
                swept(before, queue@, at, EXPIRED_RETIREMENT_BATCH_LIMIT as nat) == swept(
                    self@,
                    queue@,
                    at,
                    (EXPIRED_RETIREMENT_BATCH_LIMIT - retired) as nat,
                ),
            ensures
                self@ == swept(before, queue@, at, EXPIRED_RETIREMENT_BATCH_LIMIT as nat),
            decreases EXPIRED_RETIREMENT_BATCH_LIMIT - retired,
        {
            if retired == EXPIRED_RETIREMENT_BATCH_LIMIT {
                break;
            }
            match self.find_retired(queue, now) {
                Some(i) => {
                    proof {
                        let chosen = choose|k: int| next_retired(self@, queue@, at, k);
                        lemma_next_retired_unique(self@, queue@, at, chosen, i as int);
                    }
                    self.retire_row(i, now);
                    retired = retired + 1;
                },
                None => {
                    break;
                },
            }
        }
        let ghost jobs = self@;
        match self.find_claimed(queue, now) {
            Some(i) => {
                assert(jobs[i as int] == self.rows@[i as int]@);
                assert(jobs[i as int].wf());
                self.rows[i].claim(worker, lease_token_hash, lease_seconds, now);
                proof {
                    let job = jobs[i as int].claimed(
                        worker@,
                        lease_token_hash@,
                        lease_seconds as int,
                        at,
                    );
                    assert(self@ == jobs.update(i as int, job));
                    lemma_update_consistent(jobs, i as int, job);
                    assert(claim_step(
                        before,
                        self@,
                        queue@,
                        worker@,
                        lease_token_hash@,
                        lease_seconds as int,
                        at,
                        Some(i as int),
                    ));
                    assert(self@[i as int] == self.rows@[i as int]@);
                }
                let row = &self.rows[i];
                match row.lease_expires_at {
                    Some(lease_expires_at) => Some(
                        ClaimedJob {
                            id: row.id.clone(),
                            queue: row.queue.clone(),
                            kind: row.kind.clone(),
                            payload: row.payload.clone(),
                            attempts: row.attempts,
                            max_attempts: row.max_attempts,
                            lease_expires_at,
                        },
                    ),
                    None => None,
                }
            },
            None => None,
        }
    }

    /// Where the job with this identifier is, if `worker` holds its lease.
    fn find_held(
        &self,
        job_id: &str,
        worker: &str,
        lease_token_hash: &[u8],
        now: Timestamp,
    ) -> (r: Option<usize>)
        requires
            self.wf(),
        ensures
            match r {
                Some(i) => {
                    &&& held(self@, job_id@, worker@, lease_token_hash@, now.micros as int, i as int)
                    &&& forall|j: int| #[trigger]
                        held(self@, job_id@, worker@, lease_token_hash@, now.micros as int, j) ==> j
                            == i
                },
                None => forall|j: int|
                    !#[trigger] held(
                        self@,
                        job_id@,
                        worker@,
                        lease_token_hash@,
                        now.micros as int,
                        j,
                    ),
            },
    {
        let mut i: usize = 0;
        while i < self.rows.len()
            invariant
                i <= self.rows.len(),
                self.wf(),
                forall|j: int|
                    0 <= j < i ==> !#[trigger] held(
                        self@,
                        job_id@,
                        worker@,
                        lease_token_hash@,
                        now.micros as int,
                        j,
                    ),
            decreases self.rows.len() - i,
        {
            assert(self@[i as int] == self.rows@[i as int]@);
            if same_text(self.rows[i].id.as_str(), job_id) && self.rows[i].is_leased(
                worker,
                lease_token_hash,
                now,
            ) {
                assert forall|j: int| #[trigger]
                    held(
                        self@,
                        job_id@,
                        worker@,
                        lease_token_hash@,
                        now.micros as int,
                        j,
                    ) implies j == i by {
                    if j != i {
                        assert(self@[j].id == self@[i as int].id);
                    }
                }
                return Some(i);
            }
            i = i + 1;
        }
        None
    }

    /// Starts the lease that `worker` holds anew and returns when it ends.
    pub fn renew(
        &mut self,
        job_id: &str,
        worker: &str,
        lease_token_hash: &[u8],
        lease_seconds: i64,
        now: Timestamp,
    ) -> (r: Option<Timestamp>)
        requires
            old(self).wf(),
            now.reaches(lease_seconds as int),
        ensures
            final(self).wf(),
            match r {
                Some(expiry) => {
                    &&& expiry.micros == now.micros + lease_seconds * 1_000_000
                    &&& exists|i: int| #[trigger]
                        renew_step(
                            old(self)@,
                            final(self)@,
                            job_id@,
                            worker@,
                            lease_token_hash@,
                            lease_seconds as int,
                            now.micros as int,
                            Some(i),
                        )
                },
                None => renew_step(
                    old(self)@,
                    final(self)@,
                    job_id@,
                    worker@,
                    lease_token_hash@,
                    lease_seconds as int,
                    now.micros as int,
                    None,
                ),
            },
    {
        let ghost before = self@;
        match self.find_held(job_id, worker, lease_token_hash, now) {
            Some(i) => {
                assert(before[i as int] == self.rows@[i as int]@);
                self.rows[i].renew(lease_seconds, now);
                proof {
                    let job = before[i as int].renewed(lease_seconds as int, now.micros as int);
                    assert(self@ == before.update(i as int, job));
                    lemma_update_consistent(before, i as int, job);
                    assert(renew_step(
                        before,
                        self@,
                        job_id@,
                        worker@,
                        lease_token_hash@,
                        lease_seconds as int,
                        now.micros as int,
                        Some(i as int),
                    ));
                }
                Some(now.after_seconds(lease_seconds))
            },
            None => None,
        }
    }

    /// Marks the job as done, if `worker` holds its lease.
    pub fn complete(
        &mut self,
        job_id: &str,
        worker: &str,
        lease_token_hash: &[u8],
        now: Timestamp,
    ) -> (r: bool)
        requires
            old(self).wf(),
        ensures
            final(self).wf(),
            if r {
                exists|i: int| #[trigger]
                    complete_step(
                        old(self)@,
                        final(self)@,
                        job_id@,
                        worker@,
                        lease_token_hash@,
                        now.micros as int,
                        Some(i),
                    )
            } else {
                complete_step(
                    old(self)@,
                    final(self)@,
                    job_id@,
                    worker@,
                    lease_token_hash@,
                    now.micros as int,
                    None,
                )
            },
    {
        let ghost before = self@;
        match self.find_held(job_id, worker, lease_token_hash, now) {
            Some(i) => {
                assert(before[i as int] == self.rows@[i as int]@);
                self.rows[i].complete(now);
                proof {
                    let job = before[i as int].completed(now.micros as int);
                    assert(self@ == before.update(i as int, job));
                    lemma_update_consistent(before, i as int, job);
                    assert(complete_step(
                        before,
                        self@,
                        job_id@,
                        worker@,
                        lease_token_hash@,
                        now.micros as int,
                        Some(i as int),
                    ));
                }
                true
            },
            None => false,
        }
    }

    /// Records a failed attempt, if `worker` holds the job's lease: the job is
    /// queued again if the failure may be retried and an attempt is left, and
    /// fails for good otherwise.
    pub fn fail(
        &mut self,
        job_id: &str,
        worker: &str,
        lease_token_hash: &[u8],
        failure_code: &str,
        retryable: bool,
        retry_policy: RetryPolicy,
        now: Timestamp,
    ) -> (r: Option<FailedAttempt>)
        requires
            old(self).wf(),
            forall|i: int| #[trigger]
                held(old(self)@, job_id@, worker@, lease_token_hash@, now.micros as int, i)
                    && old(self)@[i].retried(retryable) ==> now.reaches(
                    delay_seconds(
                        retry_policy.base_seconds as int,
                        retry_policy.max_seconds as int,
                        old(self)@[i].attempts,
                    ),
                ),
        ensures
            final(self).wf(),
            match r {
                Some(outcome) => exists|i: int|
                    {
                        &&& #[trigger] fail_step(
                            old(self)@,
                            final(self)@,
                            job_id@,
                            worker@,
                            lease_token_hash@,
                            failure_code@,
                            retryable,
                            retry_policy,
                            now.micros as int,
                            Some(i),
                        )
                        &&& outcome.retry == old(self)@[i].retried(retryable)
                        &&& outcome.available_at.micros == final(self)@[i].available_at
                    },
                None => fail_step(
                    old(self)@,
                    final(self)@,
                    job_id@,
                    worker@,
                    lease_token_hash@,
                    failure_code@,
                    retryable,
                    retry_policy,
                    now.micros as int,
                    None,
                ),
            },
    {
        let ghost before = self@;
        match self.find_held(job_id, worker, lease_token_hash, now) {
            Some(i) => {
                assert(before[i as int] == self.rows@[i as int]@);
                let retry = retryable && self.rows[i].attempts < self.rows[i].max_attempts;
                let delay = retry_delay(
                    retry_policy.base_seconds,
                    retry_policy.max_seconds,
                    self.rows[i].attempts,
                );
                if retry {
                    self.rows[i].requeue(failure_code, delay, now);
                } else {
                    self.rows[i].terminate(failure_code, now);
                }
                proof {
                    let job = before[i as int].failed_attempt(
                        failure_code@,
                        retryable,
                        retry_policy,
                        now.micros as int,
                    );
                    assert(self@ == before.update(i as int, job));
                    lemma_update_consistent(before, i as int, job);
                    assert(self@[i as int] == self.rows@[i as int]@);
                    assert(fail_step(
                        before,
                        self@,
                        job_id@,
                        worker@,
                        lease_token_hash@,
                        failure_code@,
                        retryable,
                        retry_policy,
                        now.micros as int,
                        Some(i as int),
                    ));
                }
                Some(FailedAttempt { retry, available_at: self.rows[i].available_at })
            },
            None => None,
        }
    }

    /// Where the job stored under the same key is.
    fn find_key(&self, job: &NewJob) -> (r: Option<usize>)
        ensures
            match r {
                Some(i) => i < self@.len() && job.shares_key(self@[i as int]),
                None => forall|j: int|
                    0 <= j < self@.len() ==> !job.shares_key(#[trigger] self@[j]),
            },
    {
        let mut i: usize = 0;
        while i < self.rows.len()
            invariant
                i <= self.rows.len(),
                forall|j: int| 0 <= j < i ==> !job.shares_key(#[trigger] self@[j]),
            decreases self.rows.len() - i,
        {
            assert(self@[i as int] == self.rows@[i as int]@);
            if self.rows[i].producer_instance == job.producer && self.rows[i].idempotency_key
                == job.idempotency_key {
                return Some(i);
            }
            i = i + 1;
        }
        None
    }

    /// Where the job with this identifier is.
    fn find(&self, job_id: &str) -> (r: Option<usize>)
        ensures
            match r {
                Some(i) => i < self@.len() && self@[i as int].id == job_id@,
                None => forall|j: int| 0 <= j < self@.len() ==> (#[trigger] self@[j]).id != job_id@,
            },
    {
        let mut i: usize = 0;
        while i < self.rows.len()
            invariant
                i <= self.rows.len(),
                forall|j: int| 0 <= j < i ==> (#[trigger] self@[j]).id != job_id@,
            decreases self.rows.len() - i,
        {
            assert(self@[i as int] == self.rows@[i as int]@);
            if same_text(self.rows[i].id.as_str(), job_id) {
                return Some(i);
            }
            i = i + 1;
        }
        None
    }

    /// Stores a job, unless its producer has stored one under the same key.
    pub fn enqueue(&mut self, job: NewJob, now: Timestamp) -> (r: Result<EnqueueOutcome, JobsError>)
        requires
            old(self).wf(),
            i32::MIN <= job.max_attempts <= i32::MAX,
        ensures
            final(self).wf(),
            enqueue_step(old(self)@, final(self)@, job, now.micros as int, r),
            forall|i: int|
                0 <= i < old(self)@.len() && job.shares_key(#[trigger] old(self)@[i]) && job.copies(
                    old(self)@[i],
                ) ==> (r matches Ok(EnqueueOutcome::Existing(id)) && id@ == old(self)@[i].id),
    {
        let ghost before = self@;
        match self.find_key(&job) {
            Some(i) => {
                let row = &self.rows[i];
                assert(before[i as int] == self.rows@[i as int]@);
                let existing = ExistingJob {
                    id: row.id.clone(),
                    queue: row.queue.clone(),
                    kind: row.kind.clone(),
                    payload: row.payload.clone(),
                    available_at: row.available_at,
                    max_attempts: row.max_attempts,
                };
                assert(existing.repeated_by(job) == job.repeats(before[i as int]));
                assert(existing.copied_by(job) == job.copies(before[i as int]));
                assert forall|k: int| 0 <= k < before.len() && job.shares_key(
                    #[trigger] before[k],
                ) implies k == i by {
                    if k != i {
                        assert(before[k].producer == before[i as int].producer);
                    }
                }
                resolve_conflict(&job, Some(existing))
            },
            None => {
                if self.find(job.id.as_str()).is_some() {
                    return Err(JobsError::Database { operation: "insert job" });
                }
                let id = job.id.clone();
                self.rows.push(
                    JobRow {
                        id: job.id,
                        producer_instance: job.producer,
                        queue: job.queue,
                        kind: job.kind,
                        payload: job.payload,
                        idempotency_key: job.idempotency_key,
                        status: JobStatus::Queued,
                        max_attempts: job.max_attempts as i32,
                        attempts: 0,
                        available_at: job.available_at,
                        lease_generation: 0,
                        lease_owner: None,
                        lease_token_hash: None,
                        lease_expires_at: None,
                        last_failure_code: None,
                        created_at: now,
                        updated_at: now,
                    },
                );
                proof {
                    let stored = job.stored(now.micros as int);
                    let after = before.push(stored);
                    assert(self@ == after);
                    assert forall|a: int, b: int| 0 <= a < b < after.len() implies (
                    #[trigger] after[a]).id != (#[trigger] after[b]).id && (after[a].producer
                        != after[b].producer || after[a].idempotency_key
                        != after[b].idempotency_key) by {
                        assert(after[a] == before[a]);
                        if b < before.len() {
                            assert(after[b] == before[b]);
                            assert(before[a].id != before[b].id);
                        }
                    }
                }
                Ok(EnqueueOutcome::Created(id))
            },
        }
    }

    /// The job with this identifier, as an observer is told of it.
    pub fn inspect(&self, job_id: &str) -> (r: Option<InspectedJob>)
        ensures
            inspection(self@, job_id@, r),
    {
        match self.find(job_id) {
            Some(i) => {
                let row = &self.rows[i];
                assert(self@[i as int] == self.rows@[i as int]@);
                Some(
                    InspectedJob {
                        id: row.id.clone(),
                        queue: row.queue.clone(),
                        kind: row.kind.clone(),
                        status: status_column(row.status).to_owned(),
                        attempts: row.attempts,
                        max_attempts: row.max_attempts,
                        available_at: row.available_at,
                        lease_expires_at: row.lease_expires_at,
                        last_failure_code: row.last_failure_code.clone(),
                        created_at: row.created_at,
                        updated_at: row.updated_at,
                    },
                )
            },
            None => None,
        }
    }
}

} // verus!
