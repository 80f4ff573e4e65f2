//! What every operation comes to, told by the columns of the jobs alone.
//!
//! The other laws speak of jobs that are due, leased or retired. Here the same
//! operations are told without such words: which columns a job had, and which it has
//! afterwards.
use vstd::arithmetic::power2::{lemma_pow2_pos, lemma_pow2_strictly_increases, pow2};
use vstd::prelude::*;
use vstd::utf8::encode_utf8;

use crate::errors::JobsError;
use crate::jobs::{Job, JobRow, JobStatus};
use crate::laws::{
    law_claim_takes_the_first_claimable_job, law_retirement_is_bounded,
    lemma_count_after_retirement, lemma_count_none, lemma_next_retired_exists,
    lemma_sweep_keeps_claimable, retirable_count,
};
use crate::order::{bytes_precede, claim_rank, differs_at, retirement_rank};
use crate::payload::json_equal;
use crate::retry::{delay_seconds, RetryPolicy};
use crate::table::{
    claim_step, complete_step, conflict_resolved, consistent, enqueue_step, fail_step, held,
    inspection, jobs_in, lemma_update_consistent, next_retired, renew_step, swept, ClaimedJob,
    EnqueueOutcome, ExistingJob, InspectedJob, NewJob, EXPIRED_RETIREMENT_BATCH_LIMIT,
};

verus! {

/// A row is seen as its columns, none of them changed or left out.
pub proof fn law_row_is_its_columns(row: JobRow)
    ensures
        row@.id == row.id@,
        row@.producer == row.producer_instance@,
        row@.queue == row.queue@,
        row@.kind == row.kind@,
        row@.payload == row.payload,
        row@.idempotency_key == row.idempotency_key@,
        row@.status == row.status,
        row@.max_attempts == row.max_attempts,
        row@.attempts == row.attempts,
        row@.available_at == row.available_at.micros,
        row@.lease_generation == row.lease_generation,
        match (row.lease_owner, row@.lease_owner) {
            (Some(column), Some(owner)) => owner == column@,
            (None, None) => true,
            _ => false,
        },
        match (row.lease_token_hash, row@.lease_token_hash) {
            (Some(column), Some(hash)) => hash == column@,
            (None, None) => true,
            _ => false,
        },
        match (row.lease_expires_at, row@.lease_expires_at) {
            (Some(column), Some(expiry)) => expiry == column.micros,
            (None, None) => true,
            _ => false,
        },
        match (row.last_failure_code, row@.last_failure_code) {
            (Some(column), Some(code)) => code == column@,
            (None, None) => true,
            _ => false,
        },
        row@.created_at == row.created_at.micros,
        row@.updated_at == row.updated_at.micros,
{
}

/// A table is seen as its rows, in their order.
pub proof fn law_table_is_its_rows(rows: Seq<JobRow>)
    ensures
        jobs_in(rows).len() == rows.len(),
        forall|i: int| 0 <= i < rows.len() ==> #[trigger] jobs_in(rows)[i] == rows[i]@,
{
}

/// Jobs make a table exactly if a lease exists while and only while a job runs,
/// every attempt had a lease of its own, no job was attempted more often than it
/// may be, and neither an identifier nor a producer's key occurs twice.
pub proof fn law_tables_are_consistent(jobs: Seq<Job>)
    ensures
        consistent(jobs) <==> {
            &&& forall|i: int|
                0 <= i < jobs.len() ==> {
                    let job = #[trigger] jobs[i];
                    let running = job.status == JobStatus::Running;
                    &&& running == (job.lease_owner is Some)
                    &&& running == (job.lease_token_hash is Some)
                    &&& running == (job.lease_expires_at is Some)
                    &&& job.attempts >= 0
                    &&& job.attempts == job.lease_generation
                    &&& job.attempts > 0 ==> job.attempts <= job.max_attempts
                    &&& -0x8000_0000 <= job.max_attempts <= 0x7fff_ffff
                }
            &&& forall|i: int, j: int|
                0 <= i < j < jobs.len() ==> (#[trigger] jobs[i]).id != (#[trigger] jobs[j]).id
            &&& forall|i: int, j: int|
                0 <= i < j < jobs.len() ==> !((#[trigger] jobs[i]).producer == (
                #[trigger] jobs[j]).producer && jobs[i].idempotency_key == jobs[j].idempotency_key)
        },
{
    let plain = forall|i: int|
        0 <= i < jobs.len() ==> {
            let job = #[trigger] jobs[i];
            let running = job.status == JobStatus::Running;
            &&& running == (job.lease_owner is Some)
            &&& running == (job.lease_token_hash is Some)
            &&& running == (job.lease_expires_at is Some)
            &&& job.attempts >= 0
            &&& job.attempts == job.lease_generation
            &&& job.attempts > 0 ==> job.attempts <= job.max_attempts
            &&& -0x8000_0000 <= job.max_attempts <= 0x7fff_ffff
        };
    if plain {
        assert forall|i: int| 0 <= i < jobs.len() implies (#[trigger] jobs[i]).wf() by {}
    }
    if consistent(jobs) {
        assert forall|i: int| 0 <= i < jobs.len() implies {
            let job = #[trigger] jobs[i];
            let running = job.status == JobStatus::Running;
            &&& running == (job.lease_owner is Some)
            &&& running == (job.lease_token_hash is Some)
            &&& running == (job.lease_expires_at is Some)
            &&& job.attempts >= 0
            &&& job.attempts == job.lease_generation
            &&& job.attempts > 0 ==> job.attempts <= job.max_attempts
            &&& -0x8000_0000 <= job.max_attempts <= 0x7fff_ffff
        } by {
            assert(jobs[i].wf());
        }
    }
}

/// What a job is to a worker and to the queue goes by its columns: whose lease it
/// is under and until when, whether that is over, whether the last attempt is, and
/// whether another may begin.
pub proof fn law_jobs_are_judged_by_their_columns(
    job: Job,
    queue: Seq<char>,
    worker: Seq<char>,
    token_hash: Seq<u8>,
    retryable: bool,
    now: int,
)
    ensures
        job.leased(worker, token_hash, now) <==> {
            &&& job.status == JobStatus::Running
            &&& job.lease_owner == Some(worker)
            &&& job.lease_token_hash == Some(token_hash)
            &&& job.lease_expires_at matches Some(expiry) && now < expiry
        },
        job.expired(now) <==> {
            &&& job.status == JobStatus::Running
            &&& job.lease_expires_at matches Some(expiry) && expiry <= now
        },
        job.retirable(queue, now) <==> {
            &&& job.queue == queue
            &&& job.status == JobStatus::Running
            &&& job.lease_expires_at matches Some(expiry) && expiry <= now
            &&& job.attempts >= job.max_attempts
        },
        job.claimable(queue, now) <==> {
            &&& job.queue == queue
            &&& job.attempts < job.max_attempts
            &&& match job.status {
                JobStatus::Queued => job.available_at <= now,
                JobStatus::Running => job.lease_expires_at matches Some(expiry) && expiry <= now,
                JobStatus::Succeeded => false,
                JobStatus::Failed => false,
            }
        },
        job.retried(retryable) <==> retryable && job.attempts < job.max_attempts,
{
}

/// What is done to one job changes these columns and no others.
pub proof fn law_jobs_change_column_by_column(
    job: Job,
    worker: Seq<char>,
    token_hash: Seq<u8>,
    seconds: int,
    failure_code: Seq<char>,
    now: int,
)
    ensures
        job.claimed(worker, token_hash, seconds, now) == (Job {
            status: JobStatus::Running,
            attempts: job.attempts + 1,
            lease_generation: job.lease_generation + 1,
            lease_owner: Some(worker),
            lease_token_hash: Some(token_hash),
            lease_expires_at: Some(now + seconds * 1_000_000),
            updated_at: now,
            ..job
        }),
        job.renewed(seconds, now) == (Job {
            lease_expires_at: Some(now + seconds * 1_000_000),
            updated_at: now,
            ..job
        }),
        job.completed(now) == (Job {
            status: JobStatus::Succeeded,
            lease_owner: None,
            lease_token_hash: None,
            lease_expires_at: None,
            updated_at: now,
            ..job
        }),
        job.requeued(failure_code, seconds, now) == (Job {
            status: JobStatus::Queued,
            available_at: now + seconds * 1_000_000,
            last_failure_code: Some(failure_code),
            lease_owner: None,
            lease_token_hash: None,
            lease_expires_at: None,
            updated_at: now,
            ..job
        }),
        job.terminated(failure_code, now) == (Job {
            status: JobStatus::Failed,
            last_failure_code: Some(failure_code),
            lease_owner: None,
            lease_token_hash: None,
            lease_expires_at: None,
            updated_at: now,
            ..job
        }),
        job.retired(now) == (Job {
            status: JobStatus::Failed,
            last_failure_code: Some("attempts_exhausted"@),
            lease_owner: None,
            lease_token_hash: None,
            lease_expires_at: None,
            updated_at: now,
            ..job
        }),
        job.released() == (Job {
            lease_owner: None,
            lease_token_hash: None,
            lease_expires_at: None,
            ..job
        }),
{
}

/// A claim starts no job before its time, none of another queue, none that is done,
/// none that somebody works on, and none that has used up its attempts. It comes
/// away empty only if every job is one of these.
pub proof fn law_claim_starts_due_jobs_only(
    before: Seq<Job>,
    after: Seq<Job>,
    queue: Seq<char>,
    worker: Seq<char>,
    token_hash: Seq<u8>,
    lease_seconds: int,
    now: int,
    claimed: Option<int>,
)
    requires
        consistent(before),
        claim_step(before, after, queue, worker, token_hash, lease_seconds, now, claimed),
    ensures
        claimed matches Some(i) ==> {
            &&& 0 <= i < before.len()
            &&& before[i].queue == queue
            &&& before[i].attempts < before[i].max_attempts
            &&& before[i].status == JobStatus::Queued || before[i].status == JobStatus::Running
            &&& before[i].status == JobStatus::Queued ==> before[i].available_at <= now
            &&& before[i].status == JobStatus::Running ==> (
            before[i].lease_expires_at matches Some(expiry) && expiry <= now)
        },
        claimed is None ==> forall|j: int|
            0 <= j < before.len() && (#[trigger] before[j]).queue == queue && before[j].attempts
                < before[j].max_attempts ==> {
                &&& before[j].status == JobStatus::Queued ==> before[j].available_at > now
                &&& before[j].status == JobStatus::Running ==> (
                before[j].lease_expires_at matches Some(expiry) && expiry > now)
            },
{
    law_claim_takes_the_first_claimable_job(
        before,
        after,
        queue,
        worker,
        token_hash,
        lease_seconds,
        now,
        claimed,
    );
    if claimed is None {
        assert forall|j: int|
            0 <= j < before.len() && (#[trigger] before[j]).queue == queue && before[j].attempts
                < before[j].max_attempts implies {
            &&& before[j].status == JobStatus::Queued ==> before[j].available_at > now
            &&& before[j].status == JobStatus::Running ==> (
            before[j].lease_expires_at matches Some(expiry) && expiry > now)
        } by {
            assert(before[j].wf());
            assert(!before[j].claimable(queue, now));
        }
    }
}

/// Of two jobs that could be started, the one that became available first is; then
/// the one that was stored first; then the one whose identifier comes first byte by
/// byte.
pub proof fn law_claim_takes_the_longest_due(
    before: Seq<Job>,
    after: Seq<Job>,
    queue: Seq<char>,
    worker: Seq<char>,
    token_hash: Seq<u8>,
    lease_seconds: int,
    now: int,
    i: int,
    j: int,
)
    requires
        consistent(before),
        claim_step(before, after, queue, worker, token_hash, lease_seconds, now, Some(i)),
        0 <= j < before.len(),
        j != i,
        before[j].queue == queue,
        before[j].attempts < before[j].max_attempts,
        (before[j].status == JobStatus::Queued && before[j].available_at <= now) || (
        before[j].status == JobStatus::Running && (
        before[j].lease_expires_at matches Some(expiry) && expiry <= now)),
    ensures
        before[i].available_at <= before[j].available_at,
        before[i].available_at == before[j].available_at ==> before[i].created_at
            <= before[j].created_at,
        before[i].available_at == before[j].available_at && before[i].created_at
            == before[j].created_at ==> first_by_bytes(before[i].id, before[j].id),
{
    law_claim_takes_the_first_claimable_job(
        before,
        after,
        queue,
        worker,
        token_hash,
        lease_seconds,
        now,
        Some(i),
    );
    assert(before[j].claimable(queue, now));
    law_claims_go_by_availability(before[i], before[j]);
}

/// Claims are ordered by availability, then by creation, then by the bytes of the
/// identifier.
pub proof fn law_claims_go_by_availability(first: Job, other: Job)
    ensures
        claim_rank(first).precedes(claim_rank(other)) <==> {
            ||| first.available_at < other.available_at
            ||| first.available_at == other.available_at && first.created_at < other.created_at
            ||| first.available_at == other.available_at && first.created_at == other.created_at
                && first_by_bytes(first.id, other.id)
        },
{
    lemma_bytes_precede(first.id, other.id);
}

/// Retirements are ordered by the end of the lease, then by the bytes of the
/// identifier.
pub proof fn law_retirements_go_by_expiry(first: Job, other: Job)
    ensures
        ({
            let expiry = match first.lease_expires_at {
                Some(expiry) => expiry,
                None => 0,
            };
            let later = match other.lease_expires_at {
                Some(expiry) => expiry,
                None => 0,
            };
            retirement_rank(first).precedes(retirement_rank(other)) <==> {
                ||| expiry < later
                ||| expiry == later && first_by_bytes(first.id, other.id)
            }
        }),
{
    lemma_bytes_precede(first.id, other.id);
}

/// The bytes of the left text come first in a dictionary: both agree up to some
/// place, and there the left ones end or go on with a smaller one.
pub open spec fn first_by_bytes(left: Seq<char>, right: Seq<char>) -> bool {
    exists|k: int|
        0 <= k <= encode_utf8(left).len() && k < encode_utf8(right).len()
            && #[trigger] encode_utf8(left).take(k) == encode_utf8(right).take(k) && (k
            == encode_utf8(left).len() || encode_utf8(left)[k] < encode_utf8(right)[k])
}

proof fn lemma_bytes_precede(left: Seq<char>, right: Seq<char>)
    ensures
        bytes_precede(encode_utf8(left), encode_utf8(right)) <==> first_by_bytes(left, right),
{
    let a = encode_utf8(left);
    let b = encode_utf8(right);
    if bytes_precede(a, b) {
        let k = choose|k: int| differs_at(a, b, k);
        assert(a.take(k) == b.take(k));
    }
    if first_by_bytes(left, right) {
        let k = choose|k: int|
            0 <= k <= a.len() && k < b.len() && #[trigger] a.take(k) == b.take(k) && (k == a.len()
                || a[k] < b[k]);
        assert(differs_at(a, b, k));
    }
}

/// A started job runs under the worker's fresh lease, with one attempt and one
/// lease more than before. Nothing else of it has changed.
pub proof fn law_claim_writes_a_fresh_lease(
    before: Seq<Job>,
    after: Seq<Job>,
    queue: Seq<char>,
    worker: Seq<char>,
    token_hash: Seq<u8>,
    lease_seconds: int,
    now: int,
    i: int,
)
    requires
        consistent(before),
        claim_step(before, after, queue, worker, token_hash, lease_seconds, now, Some(i)),
    ensures
        after[i] == (Job {
            status: JobStatus::Running,
            attempts: before[i].attempts + 1,
            lease_generation: before[i].lease_generation + 1,
            lease_owner: Some(worker),
            lease_token_hash: Some(token_hash),
            lease_expires_at: Some(now + lease_seconds * 1_000_000),
            updated_at: now,
            ..before[i]
        }),
{
    law_claim_takes_the_first_claimable_job(
        before,
        after,
        queue,
        worker,
        token_hash,
        lease_seconds,
        now,
        Some(i),
    );
}

/// Every job that a claim changes without starting it had used up its attempts in
/// a lease of the same queue that is over. It ends as a failure for that reason,
/// whatever it failed with before, without a lease, and keeps its attempts and its
/// availability.
pub proof fn law_retired_jobs_end_as_exhausted(
    before: Seq<Job>,
    after: Seq<Job>,
    queue: Seq<char>,
    worker: Seq<char>,
    token_hash: Seq<u8>,
    lease_seconds: int,
    now: int,
    claimed: Option<int>,
    j: int,
)
    requires
        consistent(before),
        claim_step(before, after, queue, worker, token_hash, lease_seconds, now, claimed),
        0 <= j < before.len(),
        claimed != Some(j),
        after[j] != before[j],
    ensures
        before[j].queue == queue,
        before[j].status == JobStatus::Running,
        before[j].lease_expires_at matches Some(expiry) && expiry <= now,
        before[j].attempts >= before[j].max_attempts,
        after[j] == (Job {
            status: JobStatus::Failed,
            last_failure_code: Some("attempts_exhausted"@),
            lease_owner: None,
            lease_token_hash: None,
            lease_expires_at: None,
            updated_at: now,
            ..before[j]
        }),
{
    let limit = EXPIRED_RETIREMENT_BATCH_LIMIT as nat;
    law_retirement_is_bounded(before, queue, now, limit);
    let jobs = swept(before, queue, now, limit);
    assert(after[j] == jobs[j]);
}

/// How many jobs ran before and have failed since.
pub open spec fn newly_failed(before: Seq<Job>, after: Seq<Job>) -> nat
    decreases before.len(),
{
    if before.len() == 0 || after.len() != before.len() {
        0
    } else {
        newly_failed(before.drop_last(), after.drop_last()) + if before.last().status
            == JobStatus::Running && after.last().status == JobStatus::Failed {
            1nat
        } else {
            0nat
        }
    }
}

/// How many jobs of the queue ran into the end of their last attempt.
pub open spec fn exhausted(jobs: Seq<Job>, queue: Seq<char>, now: int) -> nat
    decreases jobs.len(),
{
    if jobs.len() == 0 {
        0
    } else {
        let last = jobs.last();
        exhausted(jobs.drop_last(), queue, now) + if last.queue == queue && last.status
            == JobStatus::Running && (last.lease_expires_at matches Some(expiry) && expiry <= now)
            && last.attempts >= last.max_attempts {
            1nat
        } else {
            0nat
        }
    }
}

proof fn lemma_exhausted(jobs: Seq<Job>, queue: Seq<char>, now: int)
    ensures
        exhausted(jobs, queue, now) == retirable_count(jobs, queue, now),
    decreases jobs.len(),
{
    if jobs.len() > 0 {
        lemma_exhausted(jobs.drop_last(), queue, now);
    }
}

proof fn lemma_newly_failed_none(jobs: Seq<Job>)
    ensures
        newly_failed(jobs, jobs) == 0,
    decreases jobs.len(),
{
    if jobs.len() > 0 {
        lemma_newly_failed_none(jobs.drop_last());
    }
}

/// A job that was running instead of failed counts one more.
proof fn lemma_newly_failed_one_more(before: Seq<Job>, next: Seq<Job>, after: Seq<Job>, i: int)
    requires
        before.len() == next.len() == after.len(),
        0 <= i < before.len(),
        next == before.update(i, next[i]),
        before[i].status == JobStatus::Running,
        next[i].status == JobStatus::Failed,
        after[i].status == JobStatus::Failed,
    ensures
        newly_failed(before, after) == newly_failed(next, after) + 1,
    decreases before.len(),
{
    let last = before.len() - 1;
    if i == last {
        assert(next.drop_last() =~= before.drop_last());
    } else {
        assert(next.drop_last() =~= before.drop_last().update(i, next[i]));
        assert(next.last() == before.last());
        lemma_newly_failed_one_more(before.drop_last(), next.drop_last(), after.drop_last(), i);
    }
}

/// A job that has not failed either way counts the same.
proof fn lemma_newly_failed_same(before: Seq<Job>, after: Seq<Job>, i: int, job: Job)
    requires
        before.len() == after.len(),
        0 <= i < before.len(),
        after[i].status != JobStatus::Failed,
        job.status != JobStatus::Failed,
    ensures
        newly_failed(before, after.update(i, job)) == newly_failed(before, after),
    decreases before.len(),
{
    let other = after.update(i, job);
    if i == before.len() - 1 {
        assert(other.drop_last() =~= after.drop_last());
    } else {
        assert(other.drop_last() =~= after.drop_last().update(i, job));
        lemma_newly_failed_same(before.drop_last(), after.drop_last(), i, job);
    }
}

proof fn lemma_sweep_fails(jobs: Seq<Job>, queue: Seq<char>, now: int, limit: nat)
    requires
        consistent(jobs),
    ensures
        newly_failed(jobs, swept(jobs, queue, now, limit)) == if exhausted(jobs, queue, now)
            <= limit {
            exhausted(jobs, queue, now)
        } else {
            limit
        },
    decreases limit,
{
    lemma_exhausted(jobs, queue, now);
    if limit > 0 && exists|i: int| next_retired(jobs, queue, now, i) {
        let i = choose|i: int| next_retired(jobs, queue, now, i);
        let next = jobs.update(i, jobs[i].retired(now));
        let after = swept(jobs, queue, now, limit);
        lemma_update_consistent(jobs, i, jobs[i].retired(now));
        lemma_count_after_retirement(jobs, queue, now, i);
        lemma_exhausted(next, queue, now);
        lemma_sweep_fails(next, queue, now, (limit - 1) as nat);
        law_retirement_is_bounded(next, queue, now, (limit - 1) as nat);
        assert(after == swept(next, queue, now, (limit - 1) as nat));
        assert(after[i] == next[i]);
        lemma_newly_failed_one_more(jobs, next, after, i);
    } else {
        lemma_newly_failed_none(jobs);
        if limit > 0 {
            assert forall|i: int| 0 <= i < jobs.len() implies !(#[trigger] jobs[i]).retirable(
                queue,
                now,
            ) by {
                if jobs[i].retirable(queue, now) {
                    let first = lemma_next_retired_exists(jobs, queue, now, jobs.len() as int);
                    assert(next_retired(jobs, queue, now, first));
                }
            }
            lemma_count_none(jobs, queue, now);
        }
    }
}

/// A claim fails all the jobs of its queue that ran into the end of their last
/// attempt, or sixty-four of them if there are more.
pub proof fn law_claim_retires_sixty_four_at_most(
    before: Seq<Job>,
    after: Seq<Job>,
    queue: Seq<char>,
    worker: Seq<char>,
    token_hash: Seq<u8>,
    lease_seconds: int,
    now: int,
    claimed: Option<int>,
)
    requires
        consistent(before),
        claim_step(before, after, queue, worker, token_hash, lease_seconds, now, claimed),
    ensures
        newly_failed(before, after) == if exhausted(before, queue, now) <= 64 {
            exhausted(before, queue, now)
        } else {
            64
        },
{
    let jobs = swept(before, queue, now, 64);
    lemma_sweep_fails(before, queue, now, 64);
    law_retirement_is_bounded(before, queue, now, 64);
    lemma_sweep_keeps_claimable(before, queue, now, 64);
    if let Some(i) = claimed {
        lemma_newly_failed_same(
            before,
            jobs,
            i,
            jobs[i].claimed(worker, token_hash, lease_seconds, now),
        );
    }
}

/// Of two jobs that ran into the end of their last attempt, the one whose lease
/// ended first is retired first; then the one whose identifier comes first byte by
/// byte.
pub proof fn law_claim_retires_the_oldest(
    before: Seq<Job>,
    after: Seq<Job>,
    queue: Seq<char>,
    worker: Seq<char>,
    token_hash: Seq<u8>,
    lease_seconds: int,
    now: int,
    claimed: Option<int>,
    i: int,
    j: int,
    expiry: int,
    later: int,
)
    requires
        consistent(before),
        claim_step(before, after, queue, worker, token_hash, lease_seconds, now, claimed),
        0 <= i < before.len(),
        0 <= j < before.len(),
        claimed != Some(i),
        after[i] != before[i],
        before[i].lease_expires_at == Some(expiry),
        after[j] == before[j],
        before[j].queue == queue,
        before[j].status == JobStatus::Running,
        before[j].lease_expires_at == Some(later),
        later <= now,
        before[j].attempts >= before[j].max_attempts,
    ensures
        expiry <= later,
        expiry == later ==> first_by_bytes(before[i].id, before[j].id),
{
    let limit = EXPIRED_RETIREMENT_BATCH_LIMIT as nat;
    let jobs = swept(before, queue, now, limit);
    law_retirement_is_bounded(before, queue, now, limit);
    lemma_sweep_keeps_claimable(before, queue, now, limit);
    assert(jobs[i] == after[i]);
    assert(claimed != Some(j)) by {
        if claimed == Some(j) {
            assert(jobs[j].claimable(queue, now) == before[j].claimable(queue, now));
        }
    }
    assert(jobs[j] == after[j]);
    assert(jobs[j].retirable(queue, now));
    assert(jobs[i] == before[i].retired(now));
    assert(retirement_rank(before[i]).precedes(retirement_rank(before[j])));
    law_retirements_go_by_expiry(before[i], before[j]);
}

/// A renewal is granted to the worker that the job was leased to, under the token
/// of that lease, before its end, and to nobody else. It moves the end of the
/// lease, and changes nothing else of any job.
pub proof fn law_renewal_moves_the_end_of_the_lease(
    before: Seq<Job>,
    after: Seq<Job>,
    id: Seq<char>,
    worker: Seq<char>,
    token_hash: Seq<u8>,
    lease_seconds: int,
    now: int,
    at: Option<int>,
)
    requires
        renew_step(before, after, id, worker, token_hash, lease_seconds, now, at),
    ensures
        match at {
            Some(i) => {
                &&& 0 <= i < before.len()
                &&& before[i].id == id
                &&& before[i].status == JobStatus::Running
                &&& before[i].lease_owner == Some(worker)
                &&& before[i].lease_token_hash == Some(token_hash)
                &&& before[i].lease_expires_at matches Some(expiry) && now < expiry
                &&& after == before.update(
                    i,
                    Job {
                        lease_expires_at: Some(now + lease_seconds * 1_000_000),
                        updated_at: now,
                        ..before[i]
                    },
                )
            },
            None => {
                &&& forall|j: int|
                    0 <= j < before.len() && (#[trigger] before[j]).id == id && before[j].status
                        == JobStatus::Running && before[j].lease_owner == Some(worker)
                        && before[j].lease_token_hash == Some(token_hash) ==> !(
                    before[j].lease_expires_at matches Some(expiry) && now < expiry)
                &&& after == before
            },
        },
{
    lemma_nobody_entitled(before, id, worker, token_hash, now);
}

/// Nothing is held where no lease fits.
proof fn lemma_nobody_entitled(
    jobs: Seq<Job>,
    id: Seq<char>,
    worker: Seq<char>,
    token_hash: Seq<u8>,
    now: int,
)
    ensures
        (forall|j: int| !#[trigger] held(jobs, id, worker, token_hash, now, j)) ==> forall|j: int|
            0 <= j < jobs.len() && (#[trigger] jobs[j]).id == id && jobs[j].status
                == JobStatus::Running && jobs[j].lease_owner == Some(worker)
                && jobs[j].lease_token_hash == Some(token_hash) ==> !(
            jobs[j].lease_expires_at matches Some(expiry) && now < expiry),
{
    if forall|j: int| !#[trigger] held(jobs, id, worker, token_hash, now, j) {
        assert forall|j: int|
            0 <= j < jobs.len() && (#[trigger] jobs[j]).id == id && jobs[j].status
                == JobStatus::Running && jobs[j].lease_owner == Some(worker)
                && jobs[j].lease_token_hash == Some(token_hash) implies !(
        jobs[j].lease_expires_at matches Some(expiry) && now < expiry) by {
            assert(!held(jobs, id, worker, token_hash, now, j));
        }
    }
}

/// A completion is granted to the holder of an unexpired lease and to nobody else.
/// The job has succeeded and has no lease any more; nothing else of any job
/// changes.
pub proof fn law_completion_ends_the_lease_in_success(
    before: Seq<Job>,
    after: Seq<Job>,
    id: Seq<char>,
    worker: Seq<char>,
    token_hash: Seq<u8>,
    now: int,
    at: Option<int>,
)
    requires
        complete_step(before, after, id, worker, token_hash, now, at),
    ensures
        match at {
            Some(i) => {
                &&& 0 <= i < before.len()
                &&& before[i].id == id
                &&& before[i].status == JobStatus::Running
                &&& before[i].lease_owner == Some(worker)
                &&& before[i].lease_token_hash == Some(token_hash)
                &&& before[i].lease_expires_at matches Some(expiry) && now < expiry
                &&& after == before.update(
                    i,
                    Job {
                        status: JobStatus::Succeeded,
                        lease_owner: None,
                        lease_token_hash: None,
                        lease_expires_at: None,
                        updated_at: now,
                        ..before[i]
                    },
                )
            },
            None => {
                &&& forall|j: int|
                    0 <= j < before.len() && (#[trigger] before[j]).id == id && before[j].status
                        == JobStatus::Running && before[j].lease_owner == Some(worker)
                        && before[j].lease_token_hash == Some(token_hash) ==> !(
                    before[j].lease_expires_at matches Some(expiry) && now < expiry)
                &&& after == before
            },
        },
{
    lemma_nobody_entitled(before, id, worker, token_hash, now);
}

/// A report of failure is taken from the holder of an unexpired lease and from
/// nobody else. If the failure may be retried and an attempt is left, the job waits
/// again, and otherwise it has failed; either way it has the reported code and no
/// lease any more. But for the availability of a job that waits again, nothing
/// else of any job changes.
pub proof fn law_failure_ends_the_lease_in_waiting_or_failure(
    before: Seq<Job>,
    after: Seq<Job>,
    id: Seq<char>,
    worker: Seq<char>,
    token_hash: Seq<u8>,
    failure_code: Seq<char>,
    retryable: bool,
    policy: RetryPolicy,
    now: int,
    at: Option<int>,
)
    requires
        fail_step(
            before,
            after,
            id,
            worker,
            token_hash,
            failure_code,
            retryable,
            policy,
            now,
            at,
        ),
    ensures
        match at {
            Some(i) => {
                let again = retryable && before[i].attempts < before[i].max_attempts;
                &&& 0 <= i < before.len()
                &&& before[i].id == id
                &&& before[i].status == JobStatus::Running
                &&& before[i].lease_owner == Some(worker)
                &&& before[i].lease_token_hash == Some(token_hash)
                &&& before[i].lease_expires_at matches Some(expiry) && now < expiry
                &&& after == before.update(
                    i,
                    Job {
                        status: if again {
                            JobStatus::Queued
                        } else {
                            JobStatus::Failed
                        },
                        available_at: if again {
                            after[i].available_at
                        } else {
                            before[i].available_at
                        },
                        last_failure_code: Some(failure_code),
                        lease_owner: None,
                        lease_token_hash: None,
                        lease_expires_at: None,
                        updated_at: now,
                        ..before[i]
                    },
                )
                &&& before[i].retried(retryable) == again
            },
            None => {
                &&& forall|j: int|
                    0 <= j < before.len() && (#[trigger] before[j]).id == id && before[j].status
                        == JobStatus::Running && before[j].lease_owner == Some(worker)
                        && before[j].lease_token_hash == Some(token_hash) ==> !(
                    before[j].lease_expires_at matches Some(expiry) && now < expiry)
                &&& after == before
            },
        },
{
    lemma_nobody_entitled(before, id, worker, token_hash, now);
}

/// The delay after an attempt is the base, doubled once for every attempt before
/// it, and never more than the maximum.
pub proof fn law_delay_doubles_with_every_attempt(base: int, maximum: int, attempts: int)
    requires
        1 <= base <= maximum <= 86_400,
        attempts >= 1,
    ensures
        delay_seconds(base, maximum, attempts) == if base * pow2((attempts - 1) as nat) < maximum {
            base * pow2((attempts - 1) as nat)
        } else {
            maximum
        },
{
    let exponent = (attempts - 1) as nat;
    vstd::arithmetic::power2::lemma2_to64_rest();
    assert(pow2(61) == 0x2000_0000_0000_0000 && pow2(62) == 0x4000_0000_0000_0000);
    lemma_pow2_pos(exponent);
    if attempts > 61 {
        if exponent > 61 {
            lemma_pow2_strictly_increases(61, exponent);
        }
        assert(base * pow2(exponent) >= 0x2000_0000_0000_0000) by (nonlinear_arith)
            requires
                base >= 1,
                pow2(exponent) >= 0x2000_0000_0000_0000,
        ;
        assert(base * pow2(62) >= 0x4000_0000_0000_0000) by (nonlinear_arith)
            requires
                base >= 1,
                pow2(62) == 0x4000_0000_0000_0000,
        ;
    }
    assert(base * pow2(exponent) >= 1) by (nonlinear_arith)
        requires
            base >= 1,
            pow2(exponent) >= 1,
    ;
}

/// Beyond bounded policies, the delay is exact up to the limits of the machine:
/// sixty-two doublings are the most, and stand for attempts that were never
/// counted; what does not fit is cut off.
pub proof fn law_delay_is_cut_off(base: i64, maximum: i64, attempts: i32)
    ensures
        delay_seconds(base as int, maximum as int, attempts as int) == ({
            let exponent = if 1 <= attempts <= 63 {
                (attempts - 1) as nat
            } else {
                62nat
            };
            let product = base * pow2(exponent);
            let doubled = if product > 0x7fff_ffff_ffff_ffff {
                0x7fff_ffff_ffff_ffff
            } else if product < -0x8000_0000_0000_0000 {
                -0x8000_0000_0000_0000
            } else {
                product
            };
            if maximum < doubled {
                maximum as int
            } else {
                doubled
            }
        }),
{
}

/// A failed attempt that is retried makes the job available exactly after the
/// delay for that attempt: the base, doubled once for every attempt before it, and
/// never more than the maximum.
pub proof fn law_retry_waits_its_delay(
    before: Seq<Job>,
    after: Seq<Job>,
    id: Seq<char>,
    worker: Seq<char>,
    token_hash: Seq<u8>,
    failure_code: Seq<char>,
    policy: RetryPolicy,
    now: int,
    i: int,
)
    requires
        1 <= policy.base_seconds <= policy.max_seconds <= 86_400,
        fail_step(
            before,
            after,
            id,
            worker,
            token_hash,
            failure_code,
            true,
            policy,
            now,
            Some(i),
        ),
        1 <= before[i].attempts < before[i].max_attempts,
    ensures
        after[i].available_at == now + 1_000_000 * ({
            let doubled = policy.base_seconds * pow2((before[i].attempts - 1) as nat);
            if doubled < policy.max_seconds {
                doubled
            } else {
                policy.max_seconds as int
            }
        }),
{
    law_delay_doubles_with_every_attempt(
        policy.base_seconds as int,
        policy.max_seconds as int,
        before[i].attempts,
    );
}

/// Two failures in a row: the second waits twice as long as the first, or the
/// maximum.
pub proof fn law_second_retry_waits_twice_as_long(
    policy: RetryPolicy,
    job: Job,
    later: Job,
    failure_code: Seq<char>,
    other_code: Seq<char>,
    now: int,
    then: int,
)
    requires
        1 <= policy.base_seconds <= policy.max_seconds <= 86_400,
        1 <= job.attempts,
        later.attempts == job.attempts + 1,
        job.attempts < job.max_attempts,
        later.attempts < later.max_attempts,
    ensures
        ({
            let first = job.failed_attempt(failure_code, true, policy, now).available_at - now;
            let second = later.failed_attempt(other_code, true, policy, then).available_at - then;
            &&& first >= policy.base_seconds * 1_000_000
            &&& second == if 2 * first < policy.max_seconds * 1_000_000 {
                2 * first
            } else {
                policy.max_seconds * 1_000_000
            }
        }),
{
    crate::retry::law_retry_delay_doubles_up_to_the_maximum(policy, job.attempts);
    crate::retry::law_retry_delay_doubles_up_to_the_maximum(policy, later.attempts);
}

/// No operation takes an attempt back: a claim counts one for the job it starts,
/// and apart from that the attempts and leases of every job stay counted as they
/// were.
pub proof fn law_attempts_are_never_taken_back(
    before: Seq<Job>,
    after: Seq<Job>,
    queue: Seq<char>,
    id: Seq<char>,
    worker: Seq<char>,
    token_hash: Seq<u8>,
    lease_seconds: int,
    failure_code: Seq<char>,
    retryable: bool,
    policy: RetryPolicy,
    now: int,
    at: Option<int>,
    j: int,
)
    requires
        consistent(before),
        0 <= j < before.len(),
    ensures
        claim_step(before, after, queue, worker, token_hash, lease_seconds, now, at) ==> {
            let started = if at == Some(j) {
                1int
            } else {
                0int
            };
            &&& after[j].attempts == before[j].attempts + started
            &&& after[j].lease_generation == before[j].lease_generation + started
        },
        renew_step(before, after, id, worker, token_hash, lease_seconds, now, at)
            || complete_step(before, after, id, worker, token_hash, now, at) || fail_step(
            before,
            after,
            id,
            worker,
            token_hash,
            failure_code,
            retryable,
            policy,
            now,
            at,
        ) ==> {
            &&& after[j].attempts == before[j].attempts
            &&& after[j].lease_generation == before[j].lease_generation
        },
{
    if claim_step(before, after, queue, worker, token_hash, lease_seconds, now, at) {
        if let Some(i) = at {
            law_claim_writes_a_fresh_lease(
                before,
                after,
                queue,
                worker,
                token_hash,
                lease_seconds,
                now,
                i,
            );
        }
        if at != Some(j) && after[j] != before[j] {
            law_retired_jobs_end_as_exhausted(
                before,
                after,
                queue,
                worker,
                token_hash,
                lease_seconds,
                now,
                at,
                j,
            );
        }
    }
}

/// A job whose key its producer has not used, and whose identifier nobody has, is
/// stored behind the others: waiting, never attempted, exactly as it was asked for.
/// A taken identifier is a failure of storage. Either way no stored job changes.
pub proof fn law_new_job_is_stored_as_asked(
    before: Seq<Job>,
    after: Seq<Job>,
    new: NewJob,
    now: int,
    outcome: Result<EnqueueOutcome, JobsError>,
)
    requires
        enqueue_step(before, after, new, now, outcome),
        forall|i: int|
            0 <= i < before.len() ==> !((#[trigger] before[i]).producer == new.producer@
                && before[i].idempotency_key == new.idempotency_key@),
    ensures
        if forall|i: int| 0 <= i < before.len() ==> (#[trigger] before[i]).id != new.id@ {
            &&& outcome matches Ok(EnqueueOutcome::Created(id)) && id@ == new.id@
            &&& after == before.push(
                Job {
                    id: new.id@,
                    producer: new.producer@,
                    queue: new.queue@,
                    kind: new.kind@,
                    payload: new.payload,
                    idempotency_key: new.idempotency_key@,
                    status: JobStatus::Queued,
                    max_attempts: new.max_attempts as int,
                    attempts: 0,
                    available_at: new.available_at.micros as int,
                    lease_generation: 0,
                    lease_owner: None,
                    lease_token_hash: None,
                    lease_expires_at: None,
                    last_failure_code: None,
                    created_at: now,
                    updated_at: now,
                },
            )
        } else {
            &&& outcome matches Err(JobsError::Database { operation }) && operation@
                == "insert job"@
            &&& after == before
        },
{
    assert forall|i: int| 0 <= i < before.len() implies !new.shares_key(#[trigger] before[i]) by {
        assert(!(before[i].producer == new.producer@ && before[i].idempotency_key
            == new.idempotency_key@));
    }
}

/// A key that its producer has used leads to the stored job exactly if queue, kind,
/// payload, availability and number of attempts all agree. Otherwise it is a
/// conflict. Either way nothing is stored.
pub proof fn law_taken_key_needs_equal_content(
    before: Seq<Job>,
    after: Seq<Job>,
    new: NewJob,
    now: int,
    outcome: Result<EnqueueOutcome, JobsError>,
    i: int,
)
    requires
        consistent(before),
        enqueue_step(before, after, new, now, outcome),
        0 <= i < before.len(),
        before[i].producer == new.producer@,
        before[i].idempotency_key == new.idempotency_key@,
    ensures
        after == before,
        if before[i].queue == new.queue@ && before[i].kind == new.kind@ && json_equal(
            before[i].payload,
            new.payload,
        ) && before[i].available_at == new.available_at.micros && before[i].max_attempts
            == new.max_attempts {
            outcome matches Ok(EnqueueOutcome::Existing(id)) && id@ == before[i].id
        } else {
            outcome matches Ok(EnqueueOutcome::Conflict)
        },
{
    assert(new.shares_key(before[i]));
    assert forall|k: int| 0 <= k < before.len() && new.shares_key(
        #[trigger] before[k],
    ) implies k == i by {
        if k != i {
            assert(before[k].producer == before[i].producer);
        }
    }
}

/// Resolving a taken key by the columns of its holder goes by the same columns:
/// the identifier of the holder if all of them agree, a conflict if any differs,
/// and a failure if the holder is gone.
pub proof fn law_conflict_needs_equal_columns(
    new: NewJob,
    existing: Option<ExistingJob>,
    outcome: Result<EnqueueOutcome, JobsError>,
)
    requires
        conflict_resolved(new, existing, outcome),
    ensures
        match existing {
            Some(row) => if row.queue@ == new.queue@ && row.kind@ == new.kind@ && json_equal(
                row.payload,
                new.payload,
            ) && row.available_at.micros == new.available_at.micros && row.max_attempts
                == new.max_attempts {
                outcome matches Ok(EnqueueOutcome::Existing(id)) && id@ == row.id@
            } else {
                outcome matches Ok(EnqueueOutcome::Conflict)
            },
            None => outcome matches Err(JobsError::IdempotencyInvariant),
        },
{
}

/// What is read of a job for its claimant, for an observer and for a repeated key
/// are its columns.
pub proof fn law_columns_are_read_as_stored(
    job: Job,
    claim: ClaimedJob,
    look: InspectedJob,
    existing: ExistingJob,
)
    ensures
        claim.reads(job) ==> {
            &&& claim.id@ == job.id
            &&& claim.queue@ == job.queue
            &&& claim.kind@ == job.kind
            &&& claim.payload == job.payload
            &&& claim.attempts == job.attempts
            &&& claim.max_attempts == job.max_attempts
            &&& job.lease_expires_at matches Some(expiry) && claim.lease_expires_at.micros == expiry
        },
        look.reads(job) ==> {
            &&& look.id@ == job.id
            &&& look.queue@ == job.queue
            &&& look.kind@ == job.kind
            &&& look.status@ == match job.status {
                JobStatus::Queued => "queued"@,
                JobStatus::Running => "running"@,
                JobStatus::Succeeded => "succeeded"@,
                JobStatus::Failed => "failed"@,
            }
            &&& look.attempts == job.attempts
            &&& look.max_attempts == job.max_attempts
            &&& look.available_at.micros == job.available_at
            &&& match (look.lease_expires_at, job.lease_expires_at) {
                (Some(told), Some(expiry)) => told.micros == expiry,
                (None, None) => true,
                _ => false,
            }
            &&& match (look.last_failure_code, job.last_failure_code) {
                (Some(told), Some(code)) => told@ == code,
                (None, None) => true,
                _ => false,
            }
            &&& look.created_at.micros == job.created_at
            &&& look.updated_at.micros == job.updated_at
        },
        existing.reads(job) <==> {
            &&& existing.id@ == job.id
            &&& existing.queue@ == job.queue
            &&& existing.kind@ == job.kind
            &&& existing.payload == job.payload
            &&& existing.available_at.micros == job.available_at
            &&& existing.max_attempts == job.max_attempts
        },
{
}

/// A look finds the job with the identifier, if there is one, and nothing
/// otherwise.
pub proof fn law_inspection_finds_the_job(
    jobs: Seq<Job>,
    id: Seq<char>,
    found: Option<InspectedJob>,
)
    requires
        inspection(jobs, id, found),
    ensures
        match found {
            Some(look) => look.id@ == id && exists|i: int|
                0 <= i < jobs.len() && (#[trigger] jobs[i]).id == id && look.reads(jobs[i]),
            None => forall|i: int| 0 <= i < jobs.len() ==> (#[trigger] jobs[i]).id != id,
        },
{
}

} // verus!
