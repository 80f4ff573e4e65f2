//! What holds across operations: of the jobs table, and of the requests that reach
//! it.
use vstd::prelude::*;
use vstd::utf8::encode_utf8;

use crate::capability::{
    ClaimError, ClaimRequest, CompleteError, CompleteRequest, EnqueueError, EnqueueRequest,
    FailError, FailRequest, FailResponse, FailResponseStatus, InspectError, InspectRequest,
    InspectResponse, InspectResponseStatus, RenewError, RenewRequest,
};
use crate::config::JobsConfig;
use crate::errors::JobsError;
use crate::jobs::{Job, JobStatus};
use crate::names::has_text;
use crate::order::{claim_rank, lemma_rank_total, lemma_rank_transitive, retirement_rank};
use crate::payload::json_members;
use crate::provider::{Admission, PostgresJobsProvider};
use crate::responses::status_named;
use crate::retry::{law_retry_delay_doubles_up_to_the_maximum, RetryPolicy};
use crate::table::{
    claim_step, complete_step, conflict_resolved, consistent, enqueue_step, fail_step, held,
    inspection, key_free, lemma_next_claimed_unique, lemma_update_consistent, next_claimed,
    next_retired, nothing_held, renew_step, status_text, swept, ClaimedJob, EnqueueOutcome,
    ExistingJob, FailedAttempt, InspectedJob, NewJob, EXPIRED_RETIREMENT_BATCH_LIMIT,
};
use crate::timestamps::rfc3339_nanos;
use crate::tokens::sha256_digest;

verus! {

/// How many jobs are to be retired.
pub open spec fn retirable_count(jobs: Seq<Job>, queue: Seq<char>, now: int) -> nat
    decreases jobs.len(),
{
    if jobs.len() == 0 {
        0
    } else {
        retirable_count(jobs.drop_last(), queue, now) + if jobs.last().retirable(queue, now) {
            1nat
        } else {
            0nat
        }
    }
}

/// Retiring a job leaves one less to be retired.
pub proof fn lemma_count_after_retirement(jobs: Seq<Job>, queue: Seq<char>, now: int, i: int)
    requires
        0 <= i < jobs.len(),
        jobs[i].retirable(queue, now),
    ensures
        retirable_count(jobs, queue, now) == retirable_count(
            jobs.update(i, jobs[i].retired(now)),
            queue,
            now,
        ) + 1,
    decreases jobs.len(),
{
    let after = jobs.update(i, jobs[i].retired(now));
    if i == jobs.len() - 1 {
        assert(after.drop_last() == jobs.drop_last());
    } else {
        lemma_count_after_retirement(jobs.drop_last(), queue, now, i);
        assert(after.drop_last() == jobs.drop_last().update(i, jobs[i].retired(now)));
    }
}

/// Where no job is to be retired, none is counted.
pub proof fn lemma_count_none(jobs: Seq<Job>, queue: Seq<char>, now: int)
    requires
        forall|i: int| 0 <= i < jobs.len() ==> !(#[trigger] jobs[i]).retirable(queue, now),
    ensures
        retirable_count(jobs, queue, now) == 0,
    decreases jobs.len(),
{
    if jobs.len() > 0 {
        assert forall|i: int| 0 <= i < jobs.drop_last().len() implies !(
        #[trigger] jobs.drop_last()[i]).retirable(queue, now) by {
            assert(jobs.drop_last()[i] == jobs[i]);
        }
        lemma_count_none(jobs.drop_last(), queue, now);
    }
}

/// Among jobs to be retired there is a first one.
pub proof fn lemma_next_retired_exists(
    jobs: Seq<Job>,
    queue: Seq<char>,
    now: int,
    upto: int,
) -> (r: int)
    requires
        consistent(jobs),
        0 <= upto <= jobs.len(),
        exists|i: int| 0 <= i < upto && (#[trigger] jobs[i]).retirable(queue, now),
    ensures
        0 <= r < upto,
        jobs[r].retirable(queue, now),
        forall|j: int|
            0 <= j < upto && j != r && (#[trigger] jobs[j]).retirable(queue, now)
                ==> retirement_rank(jobs[r]).precedes(retirement_rank(jobs[j])),
    decreases upto,
{
    let last = upto - 1;
    if !(exists|i: int| 0 <= i < last && (#[trigger] jobs[i]).retirable(queue, now)) {
        last
    } else {
        let r = lemma_next_retired_exists(jobs, queue, now, last);
        if !jobs[last].retirable(queue, now) {
            r
        } else {
            assert(jobs[r].id != jobs[last].id);
            lemma_rank_total(
                retirement_rank(jobs[r]),
                retirement_rank(jobs[last]),
                jobs[r].id,
                jobs[last].id,
            );
            if retirement_rank(jobs[r]).precedes(retirement_rank(jobs[last])) {
                r
            } else {
                assert forall|j: int| 0 <= j < last && (#[trigger] jobs[j]).retirable(
                    queue,
                    now,
                ) implies retirement_rank(jobs[last]).precedes(retirement_rank(jobs[j])) by {
                    if j != r {
                        lemma_rank_transitive(
                            retirement_rank(jobs[last]),
                            retirement_rank(jobs[r]),
                            retirement_rank(jobs[j]),
                        );
                    }
                }
                last
            }
        }
    }
}

/// One claim retires at most `limit` jobs of its queue. It retires as many as it
/// may: all that are to be retired, or `limit` of them. It retires those whose
/// leases ended first, and changes nothing else.
pub proof fn law_retirement_is_bounded(jobs: Seq<Job>, queue: Seq<char>, now: int, limit: nat)
    requires
        consistent(jobs),
    ensures
        ({
            let after = swept(jobs, queue, now, limit);
            let before_count = retirable_count(jobs, queue, now);
            &&& consistent(after)
            &&& after.len() == jobs.len()
            &&& forall|i: int|
                0 <= i < jobs.len() ==> #[trigger] after[i] == jobs[i] || (jobs[i].retirable(
                    queue,
                    now,
                ) && after[i] == jobs[i].retired(now))
            &&& retirable_count(after, queue, now) == if before_count <= limit {
                0
            } else {
                before_count - limit
            }
            &&& forall|i: int, j: int|
                0 <= i < jobs.len() && 0 <= j < jobs.len() && jobs[i].retirable(queue, now)
                    && #[trigger] after[i] == jobs[i].retired(now) && (#[trigger] after[j]).retirable(
                    queue,
                    now,
                ) ==> retirement_rank(jobs[i]).precedes(retirement_rank(jobs[j]))
        }),
    decreases limit,
{
    if limit > 0 && exists|i: int| next_retired(jobs, queue, now, i) {
        let first = choose|i: int| next_retired(jobs, queue, now, i);
        let next = jobs.update(first, jobs[first].retired(now));
        let after = swept(jobs, queue, now, limit);
        lemma_update_consistent(jobs, first, jobs[first].retired(now));
        law_retirement_is_bounded(next, queue, now, (limit - 1) as nat);
        lemma_count_after_retirement(jobs, queue, now, first);
        assert(after == swept(next, queue, now, (limit - 1) as nat));
        assert(after[first] == next[first]);
        assert forall|i: int| 0 <= i < jobs.len() implies #[trigger] after[i] == jobs[i] || (
        jobs[i].retirable(queue, now) && after[i] == jobs[i].retired(now)) by {
            if i != first {
                assert(next[i] == jobs[i]);
            }
        }
        assert forall|i: int, j: int|
            0 <= i < jobs.len() && 0 <= j < jobs.len() && jobs[i].retirable(queue, now)
                && #[trigger] after[i] == jobs[i].retired(now) && (#[trigger] after[j]).retirable(
                queue,
                now,
            ) implies retirement_rank(jobs[i]).precedes(retirement_rank(jobs[j])) by {
            assert(j != first);
            assert(next[j] == jobs[j]);
            assert(after[j] == jobs[j]);
            if i != first {
                assert(next[i] == jobs[i]);
            }
        }
    } else {
        if limit > 0 {
            assert forall|i: int| 0 <= i < jobs.len() implies !(#[trigger] jobs[i]).retirable(
                queue,
                now,
            ) by {
                if jobs[i].retirable(queue, now) {
                    let first = lemma_next_retired_exists(jobs, queue, now, jobs.len() as int);
                    assert(next_retired(jobs, queue, now, first));
                }
            }
            lemma_count_none(jobs, queue, now);
        }
    }
}

/// The admission of a request that goes to storage.
pub open spec fn admitted<E>() -> Admission<E> {
    Ok(Ok(()))
}

/// The admission of a request that is refused for this reason.
pub open spec fn refused<E>(reason: E) -> Admission<E> {
    Ok(Err(reason))
}

/// The admission of a request when there is no storage, given its admission when
/// there is.
pub open spec fn without_storage<E>(admission: Admission<E>) -> Admission<E> {
    match admission {
        Ok(Ok(_)) => Err(()),
        _ => admission,
    }
}

/// Sweeping neither creates nor removes work: a job is claimable afterwards exactly
/// if it was before, and then it is unchanged.
pub proof fn lemma_sweep_keeps_claimable(jobs: Seq<Job>, queue: Seq<char>, now: int, limit: nat)
    requires
        consistent(jobs),
    ensures
        swept(jobs, queue, now, limit).len() == jobs.len(),
        forall|i: int|
            0 <= i < jobs.len() ==> {
                let after = #[trigger] swept(jobs, queue, now, limit)[i];
                &&& after.claimable(queue, now) == jobs[i].claimable(queue, now)
                &&& jobs[i].claimable(queue, now) ==> after == jobs[i]
            },
{
    law_retirement_is_bounded(jobs, queue, now, limit);
}

/// Exhausted jobs never stand in the way of others: a claim starts an attempt
/// exactly if its queue has a claimable job, namely at the one that comes first,
/// and leaves the other claimable jobs as they are.
pub proof fn law_claim_takes_the_first_claimable_job(
    before: Seq<Job>,
    after: Seq<Job>,
    queue: Seq<char>,
    worker: Seq<char>,
    token_hash: Seq<u8>,
    lease_seconds: int,
    now: int,
    claimed: Option<int>,
)
    requires
        consistent(before),
        claim_step(before, after, queue, worker, token_hash, lease_seconds, now, claimed),
    ensures
        after.len() == before.len(),
        match claimed {
            Some(i) => {
                &&& next_claimed(before, queue, now, i)
                &&& after[i] == before[i].claimed(worker, token_hash, lease_seconds, now)
            },
            None => forall|i: int|
                0 <= i < before.len() ==> !(#[trigger] before[i]).claimable(queue, now),
        },
        forall|j: int|
            0 <= j < before.len() && claimed != Some(j) && before[j].claimable(queue, now)
                ==> #[trigger] after[j] == before[j],
{
    let limit = EXPIRED_RETIREMENT_BATCH_LIMIT as nat;
    let jobs = swept(before, queue, now, limit);
    lemma_sweep_keeps_claimable(before, queue, now, limit);
    match claimed {
        Some(i) => {
            assert(jobs[i] == before[i]);
            assert forall|j: int|
                0 <= j < before.len() && j != i && (#[trigger] before[j]).claimable(
                    queue,
                    now,
                ) implies claim_rank(before[i]).precedes(claim_rank(before[j])) by {
                assert(jobs[j] == before[j]);
            }
        },
        None => {
            assert forall|i: int| 0 <= i < before.len() implies !(#[trigger] before[i]).claimable(
                queue,
                now,
            ) by {
                assert(jobs[i].claimable(queue, now) == before[i].claimable(queue, now));
            }
        },
    }
    assert forall|j: int|
        0 <= j < before.len() && claimed != Some(j) && before[j].claimable(
            queue,
            now,
        ) implies #[trigger] after[j] == before[j] by {
        assert(jobs[j] == before[j]);
    }
}

/// A claim leaves nothing to chance: the jobs, the request and the time decide which
/// job it takes and what the table is afterwards.
pub proof fn law_claim_is_determined(
    before: Seq<Job>,
    after: Seq<Job>,
    other_after: Seq<Job>,
    queue: Seq<char>,
    worker: Seq<char>,
    token_hash: Seq<u8>,
    lease_seconds: int,
    now: int,
    claimed: Option<int>,
    other_claimed: Option<int>,
)
    requires
        claim_step(before, after, queue, worker, token_hash, lease_seconds, now, claimed),
        claim_step(
            before,
            other_after,
            queue,
            worker,
            token_hash,
            lease_seconds,
            now,
            other_claimed,
        ),
    ensures
        claimed == other_claimed,
        after == other_after,
{
    let jobs = swept(before, queue, now, EXPIRED_RETIREMENT_BATCH_LIMIT as nat);
    if let (Some(i), Some(j)) = (claimed, other_claimed) {
        lemma_next_claimed_unique(jobs, queue, now, i, j);
    }
}

/// A claim concerns its own queue only, and no job that has succeeded or failed.
pub proof fn law_claim_leaves_other_jobs_alone(
    before: Seq<Job>,
    after: Seq<Job>,
    queue: Seq<char>,
    worker: Seq<char>,
    token_hash: Seq<u8>,
    lease_seconds: int,
    now: int,
    claimed: Option<int>,
)
    requires
        consistent(before),
        claim_step(before, after, queue, worker, token_hash, lease_seconds, now, claimed),
    ensures
        after.len() == before.len(),
        forall|j: int|
            0 <= j < before.len() && (before[j].queue != queue || before[j].terminal())
                ==> #[trigger] after[j] == before[j],
{
    law_retirement_is_bounded(before, queue, now, EXPIRED_RETIREMENT_BATCH_LIMIT as nat);
    law_claim_takes_the_first_claimable_job(
        before,
        after,
        queue,
        worker,
        token_hash,
        lease_seconds,
        now,
        claimed,
    );
    let jobs = swept(before, queue, now, EXPIRED_RETIREMENT_BATCH_LIMIT as nat);
    assert forall|j: int|
        0 <= j < before.len() && (before[j].queue != queue
            || before[j].terminal()) implies #[trigger] after[j] == before[j] by {
        assert(jobs[j] == before[j]);
        assert(!before[j].claimable(queue, now));
    }
}

/// A job that has succeeded or failed is in nobody's hands, so no renewal,
/// completion or reported failure changes it, and no claim retires or takes it.
pub proof fn law_terminal_jobs_are_out_of_reach(
    job: Job,
    queue: Seq<char>,
    worker: Seq<char>,
    token_hash: Seq<u8>,
    now: int,
)
    requires
        job.terminal(),
    ensures
        !job.leased(worker, token_hash, now),
        !job.claimable(queue, now),
        !job.retirable(queue, now),
{
}

/// An expired lease can never complete a job, nor renew itself or report a failure:
/// whoever presents whatever token, such a step concerns no job and changes
/// nothing.
pub proof fn law_expired_lease_gives_no_rights(
    before: Seq<Job>,
    after: Seq<Job>,
    i: int,
    worker: Seq<char>,
    token_hash: Seq<u8>,
    lease_seconds: int,
    failure_code: Seq<char>,
    retryable: bool,
    policy: RetryPolicy,
    now: int,
    at: Option<int>,
)
    requires
        consistent(before),
        0 <= i < before.len(),
        before[i].expired(now),
        renew_step(before, after, before[i].id, worker, token_hash, lease_seconds, now, at)
            || complete_step(before, after, before[i].id, worker, token_hash, now, at) || fail_step(
            before,
            after,
            before[i].id,
            worker,
            token_hash,
            failure_code,
            retryable,
            policy,
            now,
            at,
        ),
    ensures
        nothing_held(before, before[i].id, worker, token_hash, now),
        at is None,
        after == before,
{
    assert forall|j: int| !#[trigger] held(before, before[i].id, worker, token_hash, now, j) by {
        if held(before, before[i].id, worker, token_hash, now, j) && j != i {
            assert(before[j].id == before[i].id);
        }
    }
}

/// A job that waits in its queue has an attempt left.
pub open spec fn waits_with_reason(job: Job) -> bool {
    job.status == JobStatus::Queued ==> job.attempts < job.max_attempts
}

/// A job that may be attempted at all waits with an attempt left, and whatever
/// happens to it later, it never waits without one.
pub proof fn law_waiting_jobs_have_an_attempt_left(
    new: NewJob,
    job: Job,
    worker: Seq<char>,
    token_hash: Seq<u8>,
    seconds: int,
    failure_code: Seq<char>,
    retryable: bool,
    policy: RetryPolicy,
    now: int,
)
    requires
        new.max_attempts >= 1,
        waits_with_reason(job),
    ensures
        waits_with_reason(new.stored(now)),
        waits_with_reason(job.retired(now)),
        waits_with_reason(job.claimed(worker, token_hash, seconds, now)),
        waits_with_reason(job.renewed(seconds, now)),
        waits_with_reason(job.completed(now)),
        waits_with_reason(job.failed_attempt(failure_code, retryable, policy, now)),
{
}

/// No job is stranded: one that has neither succeeded nor failed can be claimed, or
/// is to be retired, as soon as it is available and its lease, if it has one, is
/// over.
pub proof fn law_no_job_is_stranded(job: Job, now: int)
    requires
        job.wf(),
        waits_with_reason(job),
        !job.terminal(),
        job.available_at <= now,
        job.lease_expires_at matches Some(expiry) ==> expiry <= now,
    ensures
        job.claimable(job.queue, now) != job.retirable(job.queue, now),
{
}

/// An expired job with an attempt left may be claimed again.
pub proof fn law_expired_job_may_be_reclaimed(job: Job, now: int)
    requires
        job.expired(now),
        job.attempts < job.max_attempts,
    ensures
        job.claimable(job.queue, now),
{
}

/// A claim puts the job in the hands of its worker under its token until the lease
/// ends, and in nobody else's: every other token, an earlier one of the same
/// worker included, is fenced off.
pub proof fn law_claim_fences_other_tokens(
    before: Seq<Job>,
    after: Seq<Job>,
    queue: Seq<char>,
    worker: Seq<char>,
    token_hash: Seq<u8>,
    lease_seconds: int,
    now: int,
    i: int,
    other_worker: Seq<char>,
    other_hash: Seq<u8>,
    later: int,
)
    requires
        consistent(before),
        claim_step(before, after, queue, worker, token_hash, lease_seconds, now, Some(i)),
    ensures
        later < now + lease_seconds * 1_000_000 ==> held(
            after,
            before[i].id,
            worker,
            token_hash,
            later,
            i,
        ),
        other_hash != token_hash || other_worker != worker ==> nothing_held(
            after,
            before[i].id,
            other_worker,
            other_hash,
            later,
        ),
{
    law_claim_takes_the_first_claimable_job(
        before,
        after,
        queue,
        worker,
        token_hash,
        lease_seconds,
        now,
        Some(i),
    );
    law_claim_keeps_jobs(
        before,
        after,
        queue,
        worker,
        token_hash,
        lease_seconds,
        now,
        Some(i),
    );
    if other_hash != token_hash || other_worker != worker {
        assert forall|j: int| !#[trigger] held(
            after,
            before[i].id,
            other_worker,
            other_hash,
            later,
            j,
        ) by {
            if held(after, before[i].id, other_worker, other_hash, later, j) && j != i {
                assert(after[j].id == after[i].id);
            }
        }
    }
}

/// While a lease lasts, no further claim takes the job.
pub proof fn law_leased_job_is_not_claimed_again(
    first: Seq<Job>,
    second: Seq<Job>,
    third: Seq<Job>,
    queue: Seq<char>,
    worker: Seq<char>,
    token_hash: Seq<u8>,
    lease_seconds: int,
    now: int,
    i: int,
    next_worker: Seq<char>,
    next_hash: Seq<u8>,
    later: int,
    j: int,
)
    requires
        consistent(first),
        claim_step(first, second, queue, worker, token_hash, lease_seconds, now, Some(i)),
        claim_step(second, third, queue, next_worker, next_hash, lease_seconds, later, Some(j)),
        later < now + lease_seconds * 1_000_000,
    ensures
        i != j,
        second[i].id != third[j].id,
{
    law_claim_keeps_jobs(
        first,
        second,
        queue,
        worker,
        token_hash,
        lease_seconds,
        now,
        Some(i),
    );
    law_claim_takes_the_first_claimable_job(
        first,
        second,
        queue,
        worker,
        token_hash,
        lease_seconds,
        now,
        Some(i),
    );
    law_claim_takes_the_first_claimable_job(
        second,
        third,
        queue,
        next_worker,
        next_hash,
        lease_seconds,
        later,
        Some(j),
    );
    assert(!second[i].claimable(queue, later));
    assert(second[i].id != second[j].id);
}

/// A claim counts one attempt, and a job is never claimed more often than its
/// producer allowed.
pub proof fn law_attempts_are_bounded(
    before: Seq<Job>,
    after: Seq<Job>,
    queue: Seq<char>,
    worker: Seq<char>,
    token_hash: Seq<u8>,
    lease_seconds: int,
    now: int,
    i: int,
)
    requires
        consistent(before),
        claim_step(before, after, queue, worker, token_hash, lease_seconds, now, Some(i)),
    ensures
        after[i].attempts == before[i].attempts + 1,
        after[i].lease_generation == before[i].lease_generation + 1,
        1 <= after[i].attempts <= after[i].max_attempts == before[i].max_attempts,
{
    law_claim_takes_the_first_claimable_job(
        before,
        after,
        queue,
        worker,
        token_hash,
        lease_seconds,
        now,
        Some(i),
    );
}

/// No job is lost: a table of jobs turns into one with the same jobs in the same
/// places, in which everything that was stored for good is as it was.
pub open spec fn keeps_jobs(before: Seq<Job>, after: Seq<Job>) -> bool {
    &&& after.len() == before.len()
    &&& forall|i: int| 0 <= i < before.len() ==> (#[trigger] after[i]).same_identity(before[i])
}

/// A claim loses no job and keeps what was stored.
pub proof fn law_claim_keeps_jobs(
    before: Seq<Job>,
    after: Seq<Job>,
    queue: Seq<char>,
    worker: Seq<char>,
    token_hash: Seq<u8>,
    lease_seconds: int,
    now: int,
    claimed: Option<int>,
)
    requires
        consistent(before),
        claim_step(before, after, queue, worker, token_hash, lease_seconds, now, claimed),
    ensures
        keeps_jobs(before, after),
        consistent(after),
{
    let limit = EXPIRED_RETIREMENT_BATCH_LIMIT as nat;
    let jobs = swept(before, queue, now, limit);
    law_retirement_is_bounded(before, queue, now, limit);
    assert(keeps_jobs(before, jobs)) by {
        assert forall|i: int| 0 <= i < before.len() implies (#[trigger] jobs[i]).same_identity(
            before[i],
        ) by {}
    }
    if let Some(i) = claimed {
        lemma_update_consistent(
            jobs,
            i,
            jobs[i].claimed(worker, token_hash, lease_seconds, now),
        );
        assert forall|j: int| 0 <= j < before.len() implies (#[trigger] after[j]).same_identity(
            before[j],
        ) by {
            assert(jobs[j].same_identity(before[j]));
        }
    }
}

/// Renewing, completing and reporting a failure lose no job, keep what was stored,
/// and change one job at most: the one that the lease is on.
pub proof fn law_reports_change_one_job(
    before: Seq<Job>,
    after: Seq<Job>,
    id: Seq<char>,
    worker: Seq<char>,
    token_hash: Seq<u8>,
    lease_seconds: int,
    failure_code: Seq<char>,
    retryable: bool,
    policy: RetryPolicy,
    now: int,
    at: Option<int>,
)
    requires
        consistent(before),
        renew_step(before, after, id, worker, token_hash, lease_seconds, now, at) || complete_step(
            before,
            after,
            id,
            worker,
            token_hash,
            now,
            at,
        ) || fail_step(
            before,
            after,
            id,
            worker,
            token_hash,
            failure_code,
            retryable,
            policy,
            now,
            at,
        ),
    ensures
        keeps_jobs(before, after),
        consistent(after),
        forall|j: int| 0 <= j < before.len() && at != Some(j) ==> #[trigger] after[j] == before[j],
        at matches Some(i) ==> before[i].id == id && before[i].leased(worker, token_hash, now),
{
    if let Some(i) = at {
        lemma_update_consistent(before, i, after[i]);
        assert(after == before.update(i, after[i]));
    }
}

/// A claimant is told the payload that the producer sent.
pub proof fn law_claim_returns_what_was_enqueued(
    new: NewJob,
    producer: Seq<char>,
    request: EnqueueRequest,
    stored_at: int,
    row: Job,
    claim: ClaimedJob,
)
    requires
        new.asked_by(producer, request),
        row.same_identity(new.stored(stored_at)),
        claim.reads(row),
    ensures
        claim.id@ == new.id@,
        claim.queue@ == request.queue@,
        claim.kind@ == request.kind@,
        claim.max_attempts == request.max_attempts,
        json_members(claim.payload) == Some(request.payload@),
{
}

/// A producer that repeats a request under its key is led to the job it stored
/// first, whatever identifier was drawn the second time, for as long as no retry
/// has moved the job's availability.
pub proof fn law_repeated_request_meets_its_job(
    first: NewJob,
    again: NewJob,
    producer: Seq<char>,
    request: EnqueueRequest,
    stored_at: int,
    row: Job,
)
    requires
        first.asked_by(producer, request),
        again.asked_by(producer, request),
        row.same_identity(first.stored(stored_at)),
        row.available_at == first.available_at.micros,
    ensures
        again.shares_key(row),
        again.copies(row),
        row.id == first.id@,
{
}

/// The two outcomes lead to the same job, or are both conflicts.
pub open spec fn same_outcome(
    left: Result<EnqueueOutcome, JobsError>,
    right: Result<EnqueueOutcome, JobsError>,
) -> bool {
    match (left, right) {
        (Ok(EnqueueOutcome::Existing(id)), Ok(EnqueueOutcome::Existing(other))) => id@ == other@,
        (Ok(EnqueueOutcome::Conflict), Ok(EnqueueOutcome::Conflict)) => true,
        _ => false,
    }
}

/// A taken key may be resolved by the columns of the job that holds it alone: the
/// outcome is the one that storing the job in the whole table has, and the table
/// stays as it is.
pub proof fn law_conflicts_resolve_as_in_the_table(
    before: Seq<Job>,
    after: Seq<Job>,
    new: NewJob,
    now: int,
    stored: Result<EnqueueOutcome, JobsError>,
    i: int,
    existing: ExistingJob,
    resolved: Result<EnqueueOutcome, JobsError>,
)
    requires
        consistent(before),
        enqueue_step(before, after, new, now, stored),
        0 <= i < before.len(),
        new.shares_key(before[i]),
        existing.reads(before[i]),
        conflict_resolved(new, Some(existing), resolved),
    ensures
        same_outcome(stored, resolved),
        after == before,
{
    assert forall|k: int| 0 <= k < before.len() && new.shares_key(
        #[trigger] before[k],
    ) implies k == i by {
        if k != i {
            assert(before[k].producer == before[i].producer);
        }
    }
}

/// Keys belong to their producers: another producer's job never stands in the way.
pub proof fn law_keys_are_scoped_by_producer(jobs: Seq<Job>, new: NewJob)
    requires
        forall|i: int| 0 <= i < jobs.len() ==> (#[trigger] jobs[i]).producer != new.producer@,
    ensures
        key_free(jobs, new),
{
}

/// A completed job cannot be completed, renewed or reported on again.
pub proof fn law_completion_happens_once(
    before: Seq<Job>,
    after: Seq<Job>,
    id: Seq<char>,
    worker: Seq<char>,
    token_hash: Seq<u8>,
    now: int,
    i: int,
    other_worker: Seq<char>,
    other_hash: Seq<u8>,
    later: int,
)
    requires
        consistent(before),
        complete_step(before, after, id, worker, token_hash, now, Some(i)),
    ensures
        after[i].status == JobStatus::Succeeded,
        nothing_held(after, id, other_worker, other_hash, later),
{
    lemma_update_consistent(before, i, before[i].completed(now));
    assert forall|j: int| !#[trigger] held(after, id, other_worker, other_hash, later, j) by {
        if held(after, id, other_worker, other_hash, later, j) && j != i {
            assert(after[j].id == after[i].id);
        }
    }
}

/// A renewed lease stays with its worker and token until its new end.
pub proof fn law_renewal_extends_the_lease(
    before: Seq<Job>,
    after: Seq<Job>,
    id: Seq<char>,
    worker: Seq<char>,
    token_hash: Seq<u8>,
    lease_seconds: int,
    now: int,
    i: int,
    later: int,
)
    requires
        renew_step(before, after, id, worker, token_hash, lease_seconds, now, Some(i)),
        later < now + lease_seconds * 1_000_000,
    ensures
        held(after, id, worker, token_hash, later, i),
{
}

/// A reported failure ends the lease for everybody. A failure that may be retried, with an
/// attempt left, puts the job back between the least and the greatest delay from
/// now, out of reach until then and claimable from then on; any other failure is
/// final.
pub proof fn law_failure_is_retried_or_final(
    before: Seq<Job>,
    after: Seq<Job>,
    id: Seq<char>,
    worker: Seq<char>,
    token_hash: Seq<u8>,
    failure_code: Seq<char>,
    retryable: bool,
    policy: RetryPolicy,
    now: int,
    i: int,
    other_worker: Seq<char>,
    other_hash: Seq<u8>,
    later: int,
)
    requires
        consistent(before),
        policy.bounded(),
        fail_step(
            before,
            after,
            id,
            worker,
            token_hash,
            failure_code,
            retryable,
            policy,
            now,
            Some(i),
        ),
    ensures
        nothing_held(after, id, other_worker, other_hash, later),
        after[i].last_failure_code == Some(failure_code),
        after[i].attempts == before[i].attempts,
        if retryable && before[i].attempts < before[i].max_attempts {
            &&& after[i].status == JobStatus::Queued
            &&& now + policy.base_seconds * 1_000_000 <= after[i].available_at <= now
                + policy.max_seconds * 1_000_000
            &&& after[i].claimable(after[i].queue, later) == (after[i].available_at <= later)
        } else {
            after[i].status == JobStatus::Failed && after[i].terminal()
        },
{
    law_retry_delay_doubles_up_to_the_maximum(policy, before[i].attempts);
    lemma_update_consistent(
        before,
        i,
        before[i].failed_attempt(failure_code, retryable, policy, now),
    );
    assert forall|j: int| !#[trigger] held(after, id, other_worker, other_hash, later, j) by {
        if held(after, id, other_worker, other_hash, later, j) && j != i {
            assert(after[j].id == after[i].id);
        }
    }
}

/// The token that a claim was made under opens the job to its worker until the
/// lease ends.
pub proof fn law_token_of_a_claim_opens_its_lease(
    before: Seq<Job>,
    after: Seq<Job>,
    queue: Seq<char>,
    worker: Seq<char>,
    token: Seq<char>,
    lease_seconds: int,
    now: int,
    i: int,
    later: int,
)
    requires
        consistent(before),
        claim_step(
            before,
            after,
            queue,
            worker,
            sha256_digest(encode_utf8(token)),
            lease_seconds,
            now,
            Some(i),
        ),
        later < now + lease_seconds * 1_000_000,
    ensures
        held(after, before[i].id, worker, sha256_digest(encode_utf8(token)), later, i),
{
    law_claim_takes_the_first_claimable_job(
        before,
        after,
        queue,
        worker,
        sha256_digest(encode_utf8(token)),
        lease_seconds,
        now,
        Some(i),
    );
}

/// Only the configured instances get anything done: a caller that the
/// configuration does not name is refused every operation.
pub proof fn law_strangers_are_refused(
    provider: PostgresJobsProvider,
    caller: Option<&str>,
    enqueue: EnqueueRequest,
    claim: ClaimRequest,
    renew: RenewRequest,
    complete: CompleteRequest,
    fail: FailRequest,
    inspect: InspectRequest,
)
    requires
        !provider.may_inspect(caller),
    ensures
        provider.enqueue_admission(caller, enqueue) == refused(EnqueueError::Unauthorized),
        provider.claim_admission(caller, claim) == refused(ClaimError::Unauthorized),
        provider.renew_admission(caller, renew) == refused(RenewError::Unauthorized),
        provider.complete_admission(caller, complete) == refused(CompleteError::Unauthorized),
        provider.fail_admission(caller, fail) == refused(FailError::Unauthorized),
        provider.inspect_admission(caller, inspect) == refused(InspectError::Unauthorized),
{
}

/// Jobs enter and leave the declared queues only.
pub proof fn law_undeclared_queues_are_refused(
    provider: PostgresJobsProvider,
    caller: Option<&str>,
    enqueue: EnqueueRequest,
    claim: ClaimRequest,
)
    ensures
        !has_text(provider.config.queues@, enqueue.queue@) ==> provider.enqueue_admission(
            caller,
            enqueue,
        ) matches Ok(Err(_)),
        !has_text(provider.config.queues@, claim.queue@) ==> provider.claim_admission(
            caller,
            claim,
        ) matches Ok(Err(_)),
{
}

/// The same request meets the same refusal before and after the module is
/// prepared: refusals never touch storage.
pub proof fn law_refusals_precede_storage(
    provider: PostgresJobsProvider,
    unprepared: PostgresJobsProvider,
    caller: Option<&str>,
    enqueue: EnqueueRequest,
    claim: ClaimRequest,
    renew: RenewRequest,
    complete: CompleteRequest,
    fail: FailRequest,
    inspect: InspectRequest,
)
    requires
        provider.prepared,
        unprepared == (PostgresJobsProvider { prepared: false, ..provider }),
    ensures
        unprepared.enqueue_admission(caller, enqueue) == without_storage(
            provider.enqueue_admission(caller, enqueue),
        ),
        unprepared.claim_admission(caller, claim) == without_storage(
            provider.claim_admission(caller, claim),
        ),
        unprepared.renew_admission(caller, renew) == without_storage(
            provider.renew_admission(caller, renew),
        ),
        unprepared.complete_admission(caller, complete) == without_storage(
            provider.complete_admission(caller, complete),
        ),
        unprepared.fail_admission(caller, fail) == without_storage(
            provider.fail_admission(caller, fail),
        ),
        unprepared.inspect_admission(caller, inspect) == without_storage(
            provider.inspect_admission(caller, inspect),
        ),
{
}

/// A valid configuration leases for a time that passes, retries within bounds, and
/// leaves somebody to enqueue, something to enqueue to and somebody to work.
pub proof fn law_valid_configuration_bounds_time(config: JobsConfig)
    requires
        config.valid(),
    ensures
        1 <= config.lease_seconds <= 3_600,
        config.policy().bounded(),
        config.queues@.len() > 0,
        config.producer_instances@.len() > 0,
        config.worker_instances@.len() > 0,
{
}

/// What an observer is told of a status.
pub open spec fn status_told(status: JobStatus) -> InspectResponseStatus {
    match status {
        JobStatus::Queued => InspectResponseStatus::Queued,
        JobStatus::Running => InspectResponseStatus::Running,
        JobStatus::Succeeded => InspectResponseStatus::Succeeded,
        JobStatus::Failed => InspectResponseStatus::Failed,
    }
}

/// Every status that is stored is told as what it is.
pub proof fn law_stored_statuses_can_be_read(status: JobStatus)
    ensures
        status_named(status_text(status)) == Some(status_told(status)),
{
    reveal_strlit("queued");
    reveal_strlit("running");
    reveal_strlit("succeeded");
    reveal_strlit("failed");
    assert("queued"@[0] != "running"@[0]);
    assert("queued"@[0] != "succeeded"@[0]);
    assert("queued"@[0] != "failed"@[0]);
    assert("running"@[0] != "succeeded"@[0]);
    assert("running"@[0] != "failed"@[0]);
    assert("succeeded"@[0] != "failed"@[0]);
}

/// `response` tells the state of `job`: where it is in its life, how often it was
/// attempted, when it is available and leased, and how it failed last.
pub open spec fn tells_state(response: InspectResponse, job: Job) -> bool {
    &&& response.job_id@ == job.id
    &&& response.queue@ == job.queue
    &&& response.kind@ == job.kind
    &&& response.status == status_told(job.status)
    &&& response.attempts == job.attempts
    &&& response.max_attempts == job.max_attempts
    &&& rfc3339_nanos(response.available_at@) == Some(job.available_at * 1000)
    &&& rfc3339_nanos(response.created_at@) == Some(job.created_at * 1000)
    &&& rfc3339_nanos(response.updated_at@) == Some(job.updated_at * 1000)
    &&& match (response.lease_expires_at, job.lease_expires_at) {
        (Some(Some(text)), Some(expiry)) => rfc3339_nanos(text@) == Some(expiry * 1000),
        (Some(None), None) => true,
        _ => false,
    }
    &&& match (response.last_failure_code, job.last_failure_code) {
        (Some(Some(code)), Some(last)) => code@ == last,
        (Some(None), None) => true,
        _ => false,
    }
}

/// An observer of a stored job is told its durable state.
pub proof fn law_inspection_tells_the_state(
    jobs: Seq<Job>,
    i: int,
    found: Option<InspectedJob>,
    response: InspectResponse,
)
    requires
        consistent(jobs),
        0 <= i < jobs.len(),
        inspection(jobs, jobs[i].id, found),
        found matches Some(row) ==> row.told_as(response),
    ensures
        found is Some,
        tells_state(response, jobs[i]),
{
    assert(found is Some);
    let row = found->0;
    let at = choose|at: int|
        0 <= at < jobs.len() && (#[trigger] jobs[at]).id == jobs[i].id && row.reads(jobs[at]);
    assert(at == i) by {
        if at != i {
            assert(jobs[at].id != jobs[i].id);
        }
    }
    law_stored_statuses_can_be_read(jobs[i].status);
}

/// After a failure that is not retried, the worker is told that the job failed, and
/// so is every producer, worker and observer who inspects it: with the reported
/// code and without a lease. Any other caller is refused.
pub proof fn law_final_failure_is_told(
    provider: PostgresJobsProvider,
    worker: &str,
    request: FailRequest,
    before: Seq<Job>,
    after: Seq<Job>,
    now: int,
    i: int,
    outcome: FailedAttempt,
    reply: FailResponse,
    observer: Option<&str>,
    inspect: InspectRequest,
    found: Option<InspectedJob>,
    response: InspectResponse,
)
    requires
        consistent(before),
        provider.fail_admission(Some(worker), request) == admitted::<FailError>(),
        fail_step(
            before,
            after,
            request.job_id@,
            worker@,
            sha256_digest(encode_utf8(request.lease_token@)),
            request.failure_code@,
            request.retryable,
            provider.config.policy(),
            now,
            Some(i),
        ),
        !before[i].retried(request.retryable),
        outcome.retry == before[i].retried(request.retryable),
        outcome.told_as(reply),
        inspect.job_id == request.job_id,
        inspection(after, inspect.job_id@, found),
        found matches Some(row) ==> row.told_as(response),
    ensures
        reply.status == FailResponseStatus::Failed,
        reply.available_at is None,
        provider.inspect_admission(observer, inspect) == if provider.may_inspect(observer) {
            admitted()
        } else {
            refused(InspectError::Unauthorized)
        },
        found is Some,
        response.job_id@ == request.job_id@,
        response.status == InspectResponseStatus::Failed,
        response.last_failure_code matches Some(Some(code)) && code@ == request.failure_code@,
        response.lease_expires_at == Some(None::<String>),
{
    lemma_update_consistent(
        before,
        i,
        before[i].failed_attempt(
            request.failure_code@,
            request.retryable,
            provider.config.policy(),
            now,
        ),
    );
    law_inspection_tells_the_state(after, i, found, response);
}

} // verus!
