//! What a durable job is, and how each operation changes one.
//!
//! [`Job`] is the mathematical content of a row of the jobs table, and the
//! functions on it say what one statement does to one row. [`JobRow`] is the row
//! itself.
use serde_json::Value;
use vstd::prelude::*;

use crate::names::same_text;
use crate::retry::{delay_seconds, RetryPolicy};
use crate::timestamps::Timestamp;

verus! {

/// Where a job is in its life.
#[derive(Clone, Copy, Debug, PartialEq, Eq, Structural)]
pub enum JobStatus {
    Queued,
    Running,
    Succeeded,
    Failed,
}

/// The content of one row of the jobs table. Instants are microseconds since the
/// Unix epoch.
#[verifier::ext_equal]
pub struct Job {
    pub id: Seq<char>,
    pub producer: Seq<char>,
    pub queue: Seq<char>,
    pub kind: Seq<char>,
    pub payload: Value,
    pub idempotency_key: Seq<char>,
    pub status: JobStatus,
    pub max_attempts: int,
    pub attempts: int,
    pub available_at: int,
    pub lease_generation: int,
    pub lease_owner: Option<Seq<char>>,
    pub lease_token_hash: Option<Seq<u8>>,
    pub lease_expires_at: Option<int>,
    pub last_failure_code: Option<Seq<char>>,
    pub created_at: int,
    pub updated_at: int,
}

impl Job {
    /// Every stored job keeps these: a lease exists exactly while it runs, every
    /// claim counts one attempt and one lease generation, and no claim goes
    /// beyond the allowed attempts.
    pub open spec fn wf(self) -> bool {
        &&& self.status == JobStatus::Running <==> self.lease_owner is Some
        &&& self.status == JobStatus::Running <==> self.lease_token_hash is Some
        &&& self.status == JobStatus::Running <==> self.lease_expires_at is Some
        &&& 0 <= self.attempts == self.lease_generation
        &&& self.attempts == 0 || self.attempts <= self.max_attempts
        &&& i32::MIN <= self.max_attempts <= i32::MAX
    }

    /// What a job is for its whole life is the same in both.
    pub open spec fn same_identity(self, other: Job) -> bool {
        &&& self.id == other.id
        &&& self.producer == other.producer
        &&& self.queue == other.queue
        &&& self.kind == other.kind
        &&& self.payload == other.payload
        &&& self.idempotency_key == other.idempotency_key
        &&& self.max_attempts == other.max_attempts
        &&& self.created_at == other.created_at
    }

    /// The job will not change any more.
    pub open spec fn terminal(self) -> bool {
        self.status == JobStatus::Succeeded || self.status == JobStatus::Failed
    }

    /// `worker` holds an unexpired lease under the token with this hash.
    pub open spec fn leased(self, worker: Seq<char>, token_hash: Seq<u8>, now: int) -> bool {
        &&& self.status == JobStatus::Running
        &&& self.lease_owner == Some(worker)
        &&& self.lease_token_hash == Some(token_hash)
        &&& self.lease_expires_at matches Some(expiry) && expiry > now
    }

    /// The job runs under a lease that is over.
    pub open spec fn expired(self, now: int) -> bool {
        &&& self.status == JobStatus::Running
        &&& self.lease_expires_at matches Some(expiry) && expiry <= now
    }

    /// The last allowed attempt ended without a report.
    pub open spec fn retirable(self, queue: Seq<char>, now: int) -> bool {
        &&& self.queue == queue
        &&& self.expired(now)
        &&& self.attempts >= self.max_attempts
    }

    /// A worker may start an attempt.
    pub open spec fn claimable(self, queue: Seq<char>, now: int) -> bool {
        &&& self.queue == queue
        &&& self.attempts < self.max_attempts
        &&& (self.status == JobStatus::Queued && self.available_at <= now) || self.expired(now)
    }

    /// The job with no lease.
    pub open spec fn released(self) -> Job {
        Job { lease_owner: None, lease_token_hash: None, lease_expires_at: None, ..self }
    }

    /// The job failed because its last attempt ran out.
    pub open spec fn retired(self, now: int) -> Job {
        self.terminated("attempts_exhausted"@, now)
    }

    /// The job under a new lease of `worker`.
    pub open spec fn claimed(
        self,
        worker: Seq<char>,
        token_hash: Seq<u8>,
        lease_seconds: int,
        now: int,
    ) -> Job {
        Job {
            status: JobStatus::Running,
            attempts: self.attempts + 1,
            lease_generation: self.lease_generation + 1,
            lease_owner: Some(worker),
            lease_token_hash: Some(token_hash),
            lease_expires_at: Some(now + lease_seconds * 1_000_000),
            updated_at: now,
            ..self
        }
    }

    /// The job with its lease starting anew.
    pub open spec fn renewed(self, lease_seconds: int, now: int) -> Job {
        Job {
            lease_expires_at: Some(now + lease_seconds * 1_000_000),
            updated_at: now,
            ..self
        }
    }

    /// The job done.
    pub open spec fn completed(self, now: int) -> Job {
        Job { status: JobStatus::Succeeded, updated_at: now, ..self.released() }
    }

    /// The job waiting for another attempt after a failed one.
    pub open spec fn requeued(self, failure_code: Seq<char>, delay: int, now: int) -> Job {
        Job {
            status: JobStatus::Queued,
            available_at: now + delay * 1_000_000,
            last_failure_code: Some(failure_code),
            updated_at: now,
            ..self.released()
        }
    }

    /// A failed attempt at the job is followed by another one.
    pub open spec fn retried(self, retryable: bool) -> bool {
        retryable && self.attempts < self.max_attempts
    }

    /// The job after a failed attempt.
    pub open spec fn failed_attempt(
        self,
        failure_code: Seq<char>,
        retryable: bool,
        policy: RetryPolicy,
        now: int,
    ) -> Job {
        if self.retried(retryable) {
            let delay = delay_seconds(
                policy.base_seconds as int,
                policy.max_seconds as int,
                self.attempts,
            );
            self.requeued(failure_code, delay, now)
        } else {
            self.terminated(failure_code, now)
        }
    }

    /// The job failed for good.
    pub open spec fn terminated(self, failure_code: Seq<char>, now: int) -> Job {
        Job {
            status: JobStatus::Failed,
            last_failure_code: Some(failure_code),
            updated_at: now,
            ..self.released()
        }
    }
}

/// One row of the jobs table.
#[derive(Clone, Debug)]
pub struct JobRow {
    pub id: String,
    pub producer_instance: String,
    pub queue: String,
    pub kind: String,
    pub payload: Value,
    pub idempotency_key: String,
    pub status: JobStatus,
    pub max_attempts: i32,
    pub attempts: i32,
    pub available_at: Timestamp,
    pub lease_generation: i64,
    pub lease_owner: Option<String>,
    pub lease_token_hash: Option<Vec<u8>>,
    pub lease_expires_at: Option<Timestamp>,
    pub last_failure_code: Option<String>,
    pub created_at: Timestamp,
    pub updated_at: Timestamp,
}

/// The content of an optional text column.
pub open spec fn optional_text(column: Option<String>) -> Option<Seq<char>> {
    match column {
        Some(text) => Some(text@),
        None => None,
    }
}

/// The content of an optional bytes column.
pub open spec fn optional_bytes(column: Option<Vec<u8>>) -> Option<Seq<u8>> {
    match column {
        Some(bytes) => Some(bytes@),
        None => None,
    }
}

/// The content of an optional timestamp column.
pub open spec fn optional_instant(column: Option<Timestamp>) -> Option<int> {
    match column {
        Some(instant) => Some(instant.micros as int),
        None => None,
    }
}

impl View for JobRow {
    type V = Job;

    open spec fn view(&self) -> Job {
        Job {
            id: self.id@,
            producer: self.producer_instance@,
            queue: self.queue@,
            kind: self.kind@,
            payload: self.payload,
            idempotency_key: self.idempotency_key@,
            status: self.status,
            max_attempts: self.max_attempts as int,
            attempts: self.attempts as int,
            available_at: self.available_at.micros as int,
            lease_generation: self.lease_generation as int,
            lease_owner: optional_text(self.lease_owner),
            lease_token_hash: optional_bytes(self.lease_token_hash),
            lease_expires_at: optional_instant(self.lease_expires_at),
            last_failure_code: optional_text(self.last_failure_code),
            created_at: self.created_at.micros as int,
            updated_at: self.updated_at.micros as int,
        }
    }
}

/// Whether two byte strings are the same.
fn same_bytes(left: &[u8], right: &[u8]) -> (r: bool)
    ensures
        r == (left@ == right@),
{
    if left.len() != right.len() {
        return false;
    }
    let mut i: usize = 0;
    while i < left.len()
        invariant
            i <= left.len() == right.len(),
            forall|j: int| 0 <= j < i ==> left@[j] == right@[j],
        decreases left.len() - i,
    {
        if left[i] != right[i] {
            return false;
        }
        i = i + 1;
    }
    assert(left@ == right@);
    true
}

impl JobRow {
    /// Whether the row could have been stored by this module.
    pub fn well_formed(&self) -> (r: bool)
        ensures
            r == self@.wf(),
    {
        let running = matches!(self.status, JobStatus::Running);
        running == self.lease_owner.is_some() && running == self.lease_token_hash.is_some()
            && running == self.lease_expires_at.is_some() && 0 <= self.attempts
            && self.attempts as i64 == self.lease_generation && (self.attempts == 0
            || self.attempts <= self.max_attempts)
    }

    /// Whether `worker` holds an unexpired lease under the token with this hash.
    pub fn is_leased(&self, worker: &str, lease_token_hash: &[u8], now: Timestamp) -> (r: bool)
        ensures
            r == self@.leased(worker@, lease_token_hash@, now.micros as int),
    {
        let running = matches!(self.status, JobStatus::Running);
        let owner = match &self.lease_owner {
            Some(owner) => same_text(owner.as_str(), worker),
            None => false,
        };
        let token = match &self.lease_token_hash {
            Some(hash) => same_bytes(hash.as_slice(), lease_token_hash),
            None => false,
        };
        let unexpired = match self.lease_expires_at {
            Some(expiry) => expiry.micros > now.micros,
            None => false,
        };
        running && owner && token && unexpired
    }

    /// Whether the job runs under a lease that is over.
    pub fn is_expired(&self, now: Timestamp) -> (r: bool)
        ensures
            r == self@.expired(now.micros as int),
    {
        let over = match self.lease_expires_at {
            Some(expiry) => expiry.micros <= now.micros,
            None => false,
        };
        matches!(self.status, JobStatus::Running) && over
    }

    /// Whether the job's last allowed attempt ended without a report.
    pub fn is_retirable(&self, queue: &str, now: Timestamp) -> (r: bool)
        ensures
            r == self@.retirable(queue@, now.micros as int),
    {
        same_text(self.queue.as_str(), queue) && self.is_expired(now) && self.attempts
            >= self.max_attempts
    }

    /// Whether a worker may start an attempt.
    pub fn is_claimable(&self, queue: &str, now: Timestamp) -> (r: bool)
        ensures
            r == self@.claimable(queue@, now.micros as int),
    {
        let due = matches!(self.status, JobStatus::Queued) && self.available_at.micros
            <= now.micros;
        same_text(self.queue.as_str(), queue) && self.attempts < self.max_attempts && (due
            || self.is_expired(now))
    }

    fn release(&mut self)
        ensures
            final(self)@ == old(self)@.released(),
    {
        self.lease_owner = None;
        self.lease_token_hash = None;
        self.lease_expires_at = None;
    }

    /// Fails the job for good.
    pub fn terminate(&mut self, failure_code: &str, now: Timestamp)
        ensures
            final(self)@ == old(self)@.terminated(failure_code@, now.micros as int),
    {
        self.release();
        self.status = JobStatus::Failed;
        self.last_failure_code = Some(failure_code.to_owned());
        self.updated_at = now;
    }

    /// Puts the job back in its queue, to be available after `delay` seconds.
    pub fn requeue(&mut self, failure_code: &str, delay: i64, now: Timestamp)
        requires
            now.reaches(delay as int),
        ensures
            final(self)@ == old(self)@.requeued(failure_code@, delay as int, now.micros as int),
    {
        self.release();
        self.status = JobStatus::Queued;
        self.available_at = now.after_seconds(delay);
        self.last_failure_code = Some(failure_code.to_owned());
        self.updated_at = now;
    }

    /// Puts the job under a new lease.
    pub fn claim(&mut self, worker: &str, lease_token_hash: &[u8], lease_seconds: i64, now: Timestamp)
        requires
            old(self)@.wf(),
            old(self)@.attempts < old(self)@.max_attempts,
            now.reaches(lease_seconds as int),
        ensures
            final(self)@ == old(self)@.claimed(
                worker@,
                lease_token_hash@,
                lease_seconds as int,
                now.micros as int,
            ),
    {
        self.status = JobStatus::Running;
        self.attempts = self.attempts + 1;
        self.lease_generation = self.lease_generation + 1;
        self.lease_owner = Some(worker.to_owned());
        self.lease_token_hash = Some(copy_bytes(lease_token_hash));
        self.lease_expires_at = Some(now.after_seconds(lease_seconds));
        self.updated_at = now;
    }

    /// Starts the lease anew.
    pub fn renew(&mut self, lease_seconds: i64, now: Timestamp)
        requires
            now.reaches(lease_seconds as int),
        ensures
            final(self)@ == old(self)@.renewed(lease_seconds as int, now.micros as int),
    {
        self.lease_expires_at = Some(now.after_seconds(lease_seconds));
        self.updated_at = now;
    }

    /// Marks the job as done.
    pub fn complete(&mut self, now: Timestamp)
        ensures
            final(self)@ == old(self)@.completed(now.micros as int),
    {
        self.release();
        self.status = JobStatus::Succeeded;
        self.updated_at = now;
    }
}

fn copy_bytes(bytes: &[u8]) -> (r: Vec<u8>)
    ensures
        r@ == bytes@,
{
    vstd::slice::slice_to_vec(bytes)
}

} // verus!
