//! What a caller can rely on: every operation from its arguments to its result.
//!
//! These laws speak of the functions themselves. Whatever a call returned, and
//! whatever it left behind, is told by its arguments.
use vstd::arithmetic::power2::pow2;
use vstd::prelude::*;
use vstd::utf8::encode_utf8;

use crate::capability::{
    ClaimError, ClaimRequest, ClaimResponse, CompleteError, CompleteRequest, CompleteResponse,
    EnqueueError, EnqueueRequest, EnqueueResponse, FailError, FailRequest, FailResponse,
    FailResponseStatus, InspectError, InspectRequest, InspectResponse, InspectResponseStatus,
    RenewError, RenewRequest, RenewResponse,
};
use crate::config::{JobsConfig, JobsConfigError};
use crate::errors::{JobsError, RuntimeFailure};
use crate::jobs::{Job, JobRow, JobStatus};
use crate::laws::law_claim_keeps_jobs;
use crate::lifecycle::{JobsFactory, PrepareAction, PrepareEvent};
use crate::names::{
    has_text, is_job_id, is_lease_token, is_name, valid_job_id, valid_lease_token, valid_name,
};
use crate::outcomes::{
    law_claim_starts_due_jobs_only, law_claim_writes_a_fresh_lease,
    law_completion_ends_the_lease_in_success, law_conflict_needs_equal_columns,
    law_delay_doubles_with_every_attempt, law_failure_ends_the_lease_in_waiting_or_failure,
    law_new_job_is_stored_as_asked, law_renewal_moves_the_end_of_the_lease,
    law_retired_jobs_end_as_exhausted, law_retry_waits_its_delay,
    law_taken_key_needs_equal_content,
};
use crate::payload::{json_equal, json_members};
use crate::provider::{
    claim_reply, complete_reply, enqueue_reply, fail_reply, inspect_reply, renew_reply,
    ClaimCommand, CompleteCommand, FailCommand, PostgresJobsProvider, RenewCommand, Step,
};
use crate::responses::{decode_claim, decode_failure, decode_inspection};
use crate::retry::{retry_delay, RetryPolicy};
use crate::table::{
    claim_step, complete_step, consistent, fail_step, inserted, renew_step, resolve_conflict,
    ClaimedJob, EnqueueOutcome, ExistingJob, FailedAttempt, InspectedJob, JobTable, NewJob,
};
use crate::terms::known;
use crate::timestamps::{
    format_time, parse_time, rfc3339_nanos, rfc3339_offset, OffsetTime, Timestamp,
};
use crate::tokens::{lease_hash, sha256_digest};

verus! {

/// A claim that returns a job returns one of its queue that was due: not before its
/// time, not under somebody's lease, not without an attempt left. The job runs from
/// now on under the worker's lease, and the claimant is told the attempt that this
/// is and what was stored. A claim that returns nothing left no such job behind.
/// Every other job that it changed had used up its attempts, and has failed.
pub open spec fn claim_promise(
    before: Seq<Job>,
    after: Seq<Job>,
    queue: Seq<char>,
    worker: Seq<char>,
    token_hash: Seq<u8>,
    lease_seconds: int,
    now: int,
    r: Option<ClaimedJob>,
) -> bool {
    &&& match r {
        Some(claim) => exists|i: int|
            {
                let job = #[trigger] before[i];
                &&& 0 <= i < before.len()
                &&& job.queue == queue
                &&& job.attempts < job.max_attempts
                &&& job.status == JobStatus::Queued || job.status == JobStatus::Running
                &&& job.status == JobStatus::Queued ==> job.available_at <= now
                &&& job.status == JobStatus::Running ==> (job.lease_expires_at matches Some(expiry)
                    && expiry <= now)
                &&& after[i] == (Job {
                    status: JobStatus::Running,
                    attempts: job.attempts + 1,
                    lease_generation: job.lease_generation + 1,
                    lease_owner: Some(worker),
                    lease_token_hash: Some(token_hash),
                    lease_expires_at: Some(now + lease_seconds * 1_000_000),
                    updated_at: now,
                    ..job
                })
                &&& claim.id@ == job.id
                &&& claim.queue@ == job.queue
                &&& claim.kind@ == job.kind
                &&& claim.payload == job.payload
                &&& claim.attempts == job.attempts + 1
                &&& claim.max_attempts == job.max_attempts
                &&& claim.lease_expires_at.micros == now + lease_seconds * 1_000_000
            },
        None => forall|j: int|
            0 <= j < before.len() && (#[trigger] before[j]).queue == queue && before[j].attempts
                < before[j].max_attempts ==> {
                &&& before[j].status == JobStatus::Queued ==> before[j].available_at > now
                &&& before[j].status == JobStatus::Running ==> (
                before[j].lease_expires_at matches Some(expiry) && expiry > now)
            },
    }
    &&& after.len() == before.len()
    &&& forall|j: int|
        0 <= j < before.len() ==> {
            ||| #[trigger] after[j] == before[j]
            ||| r matches Some(claim) && claim.id@ == before[j].id
            ||| before[j].attempts >= before[j].max_attempts && after[j].status == JobStatus::Failed
                && after[j].last_failure_code == Some("attempts_exhausted"@)
        }
}

/// [`JobTable::claim`] keeps what a claim promises.
pub proof fn law_claim_call(
    queue: &str,
    worker: &str,
    lease_token_hash: &[u8],
    lease_seconds: i64,
    now: Timestamp,
    r: Option<ClaimedJob>,
)
    ensures
        forall|table: &mut JobTable|
            consistent((*table)@) && #[trigger] call_ensures(
                JobTable::claim,
                (table, queue, worker, lease_token_hash, lease_seconds, now),
                r,
            ) ==> claim_promise(
                (*table)@,
                (*final(table))@,
                queue@,
                worker@,
                lease_token_hash@,
                lease_seconds as int,
                now.micros as int,
                r,
            ),
{
    assert forall|table: &mut JobTable|
        consistent((*table)@) && #[trigger] call_ensures(
            JobTable::claim,
            (table, queue, worker, lease_token_hash, lease_seconds, now),
            r,
        ) implies claim_promise(
        (*table)@,
        (*final(table))@,
        queue@,
        worker@,
        lease_token_hash@,
        lease_seconds as int,
        now.micros as int,
        r,
    ) by {
        let before = (*table)@;
        let after = (*final(table))@;
        let at = now.micros as int;
        let claimed = match r {
            Some(claim) => Some(
                choose|i: int|
                    {
                        &&& #[trigger] claim_step(
                            before,
                            after,
                            queue@,
                            worker@,
                            lease_token_hash@,
                            lease_seconds as int,
                            at,
                            Some(i),
                        )
                        &&& claim.reads(after[i])
                    },
            ),
            None => None,
        };
        law_claim_starts_due_jobs_only(
            before,
            after,
            queue@,
            worker@,
            lease_token_hash@,
            lease_seconds as int,
            at,
            claimed,
        );
        law_claim_keeps_jobs(
            before,
            after,
            queue@,
            worker@,
            lease_token_hash@,
            lease_seconds as int,
            at,
            claimed,
        );
        if let Some(i) = claimed {
            law_claim_writes_a_fresh_lease(
                before,
                after,
                queue@,
                worker@,
                lease_token_hash@,
                lease_seconds as int,
                at,
                i,
            );
            assert(before[i].queue == queue@);
        }
        assert forall|j: int| 0 <= j < before.len() implies {
            ||| #[trigger] after[j] == before[j]
            ||| r matches Some(claim) && claim.id@ == before[j].id
            ||| before[j].attempts >= before[j].max_attempts && after[j].status == JobStatus::Failed
                && after[j].last_failure_code == Some("attempts_exhausted"@)
        } by {
            if after[j] != before[j] && claimed != Some(j) {
                law_retired_jobs_end_as_exhausted(
                    before,
                    after,
                    queue@,
                    worker@,
                    lease_token_hash@,
                    lease_seconds as int,
                    at,
                    claimed,
                    j,
                );
            }
        }
    }
}

/// `worker` presents the token of a lease of the job that is not over.
pub open spec fn entitled(
    job: Job,
    id: Seq<char>,
    worker: Seq<char>,
    token_hash: Seq<u8>,
    now: int,
) -> bool {
    &&& job.id == id
    &&& job.status == JobStatus::Running
    &&& job.lease_owner == Some(worker)
    &&& job.lease_token_hash == Some(token_hash)
    &&& job.lease_expires_at matches Some(expiry) && now < expiry
}

/// A renewal that returns an end of the lease was asked for by the holder of an
/// unexpired lease, and moved its end there; nothing else of any job changed. One
/// that returns nothing changed nothing, and nobody held such a lease.
pub proof fn law_renew_call(
    job_id: &str,
    worker: &str,
    lease_token_hash: &[u8],
    lease_seconds: i64,
    now: Timestamp,
    r: Option<Timestamp>,
)
    ensures
        forall|table: &mut JobTable| #[trigger]
            call_ensures(
                JobTable::renew,
                (table, job_id, worker, lease_token_hash, lease_seconds, now),
                r,
            ) ==> match r {
                Some(end) => end.micros == now.micros + lease_seconds * 1_000_000 && exists|i: int|
                    0 <= i < (*table)@.len() && entitled(
                        #[trigger] (*table)@[i],
                        job_id@,
                        worker@,
                        lease_token_hash@,
                        now.micros as int,
                    ) && (*final(table))@ == (*table)@.update(
                        i,
                        Job {
                            lease_expires_at: Some(end.micros as int),
                            updated_at: now.micros as int,
                            ..(*table)@[i]
                        },
                    ),
                None => (*final(table))@ == (*table)@ && forall|j: int|
                    0 <= j < (*table)@.len() ==> !entitled(
                        #[trigger] (*table)@[j],
                        job_id@,
                        worker@,
                        lease_token_hash@,
                        now.micros as int,
                    ),
            },
{
    assert forall|table: &mut JobTable| #[trigger]
        call_ensures(
            JobTable::renew,
            (table, job_id, worker, lease_token_hash, lease_seconds, now),
            r,
        ) implies match r {
        Some(end) => end.micros == now.micros + lease_seconds * 1_000_000 && exists|i: int|
            0 <= i < (*table)@.len() && entitled(
                #[trigger] (*table)@[i],
                job_id@,
                worker@,
                lease_token_hash@,
                now.micros as int,
            ) && (*final(table))@ == (*table)@.update(
                i,
                Job {
                    lease_expires_at: Some(end.micros as int),
                    updated_at: now.micros as int,
                    ..(*table)@[i]
                },
            ),
        None => (*final(table))@ == (*table)@ && forall|j: int|
            0 <= j < (*table)@.len() ==> !entitled(
                #[trigger] (*table)@[j],
                job_id@,
                worker@,
                lease_token_hash@,
                now.micros as int,
            ),
    } by {
        let before = (*table)@;
        let after = (*final(table))@;
        let at = match r {
            Some(_) => Some(
                choose|i: int| #[trigger]
                    renew_step(
                        before,
                        after,
                        job_id@,
                        worker@,
                        lease_token_hash@,
                        lease_seconds as int,
                        now.micros as int,
                        Some(i),
                    ),
            ),
            None => None,
        };
        law_renewal_moves_the_end_of_the_lease(
            before,
            after,
            job_id@,
            worker@,
            lease_token_hash@,
            lease_seconds as int,
            now.micros as int,
            at,
        );
        if let Some(i) = at {
            assert(entitled(
                before[i],
                job_id@,
                worker@,
                lease_token_hash@,
                now.micros as int,
            ));
        }
    }
}

/// A completion is acknowledged exactly where the worker held an unexpired lease of
/// the job. The job has then succeeded and is free; nothing else changed, and
/// nothing at all where the completion was not acknowledged.
pub proof fn law_complete_call(
    job_id: &str,
    worker: &str,
    lease_token_hash: &[u8],
    now: Timestamp,
    r: bool,
)
    ensures
        forall|table: &mut JobTable| #[trigger]
            call_ensures(
                JobTable::complete,
                (table, job_id, worker, lease_token_hash, now),
                r,
            ) ==> if r {
                exists|i: int|
                    0 <= i < (*table)@.len() && entitled(
                        #[trigger] (*table)@[i],
                        job_id@,
                        worker@,
                        lease_token_hash@,
                        now.micros as int,
                    ) && (*final(table))@ == (*table)@.update(
                        i,
                        Job {
                            status: JobStatus::Succeeded,
                            lease_owner: None,
                            lease_token_hash: None,
                            lease_expires_at: None,
                            updated_at: now.micros as int,
                            ..(*table)@[i]
                        },
                    )
            } else {
                (*final(table))@ == (*table)@ && forall|j: int|
                    0 <= j < (*table)@.len() ==> !entitled(
                        #[trigger] (*table)@[j],
                        job_id@,
                        worker@,
                        lease_token_hash@,
                        now.micros as int,
                    )
            },
{
    assert forall|table: &mut JobTable| #[trigger]
        call_ensures(
            JobTable::complete,
            (table, job_id, worker, lease_token_hash, now),
            r,
        ) implies if r {
        exists|i: int|
            0 <= i < (*table)@.len() && entitled(
                #[trigger] (*table)@[i],
                job_id@,
                worker@,
                lease_token_hash@,
                now.micros as int,
            ) && (*final(table))@ == (*table)@.update(
                i,
                Job {
                    status: JobStatus::Succeeded,
                    lease_owner: None,
                    lease_token_hash: None,
                    lease_expires_at: None,
                    updated_at: now.micros as int,
                    ..(*table)@[i]
                },
            )
    } else {
        (*final(table))@ == (*table)@ && forall|j: int|
            0 <= j < (*table)@.len() ==> !entitled(
                #[trigger] (*table)@[j],
                job_id@,
                worker@,
                lease_token_hash@,
                now.micros as int,
            )
    } by {
        let before = (*table)@;
        let after = (*final(table))@;
        let at = if r {
            Some(
                choose|i: int| #[trigger]
                    complete_step(
                        before,
                        after,
                        job_id@,
                        worker@,
                        lease_token_hash@,
                        now.micros as int,
                        Some(i),
                    ),
            )
        } else {
            None
        };
        law_completion_ends_the_lease_in_success(
            before,
            after,
            job_id@,
            worker@,
            lease_token_hash@,
            now.micros as int,
            at,
        );
        if let Some(i) = at {
            assert(entitled(
                before[i],
                job_id@,
                worker@,
                lease_token_hash@,
                now.micros as int,
            ));
        }
    }
}

/// A report of failure is recorded exactly where the worker held an unexpired lease
/// of the job. The job is free and has the reported code. With an attempt left, and
/// if the failure may be retried, it waits: for the base delay, doubled once for
/// every attempt before this one, and never longer than the maximum. Otherwise it
/// has failed. Where nothing was recorded, nothing changed.
pub open spec fn fail_promise(
    before: Seq<Job>,
    after: Seq<Job>,
    id: Seq<char>,
    worker: Seq<char>,
    token_hash: Seq<u8>,
    failure_code: Seq<char>,
    retryable: bool,
    policy: RetryPolicy,
    now: int,
    r: Option<FailedAttempt>,
) -> bool {
    match r {
        Some(outcome) => exists|i: int|
            {
                let job = #[trigger] before[i];
                let again = retryable && job.attempts < job.max_attempts;
                let doubled = policy.base_seconds * pow2((job.attempts - 1) as nat);
                &&& 0 <= i < before.len()
                &&& entitled(job, id, worker, token_hash, now)
                &&& outcome.retry == again
                &&& !again ==> outcome.available_at.micros == job.available_at
                &&& again && job.attempts >= 1 ==> outcome.available_at.micros == now + 1_000_000
                    * (if doubled < policy.max_seconds {
                    doubled
                } else {
                    policy.max_seconds as int
                })
                &&& after == before.update(
                    i,
                    Job {
                        status: if again {
                            JobStatus::Queued
                        } else {
                            JobStatus::Failed
                        },
                        available_at: outcome.available_at.micros as int,
                        last_failure_code: Some(failure_code),
                        lease_owner: None,
                        lease_token_hash: None,
                        lease_expires_at: None,
                        updated_at: now,
                        ..job
                    },
                )
            },
        None => after == before && forall|j: int|
            0 <= j < before.len() ==> !entitled(
                #[trigger] before[j],
                id,
                worker,
                token_hash,
                now,
            ),
    }
}

/// [`JobTable::fail`] keeps what a report of failure promises, under every bounded
/// policy.
pub proof fn law_fail_call(
    job_id: &str,
    worker: &str,
    lease_token_hash: &[u8],
    failure_code: &str,
    retryable: bool,
    policy: RetryPolicy,
    now: Timestamp,
    r: Option<FailedAttempt>,
)
    requires
        1 <= policy.base_seconds <= policy.max_seconds <= 86_400,
    ensures
        forall|table: &mut JobTable| #[trigger]
            call_ensures(
                JobTable::fail,
                (
                    table,
                    job_id,
                    worker,
                    lease_token_hash,
                    failure_code,
                    retryable,
                    policy,
                    now,
                ),
                r,
            ) ==> fail_promise(
                (*table)@,
                (*final(table))@,
                job_id@,
                worker@,
                lease_token_hash@,
                failure_code@,
                retryable,
                policy,
                now.micros as int,
                r,
            ),
{
    assert forall|table: &mut JobTable| #[trigger]
        call_ensures(
            JobTable::fail,
            (table, job_id, worker, lease_token_hash, failure_code, retryable, policy, now),
            r,
        ) implies fail_promise(
        (*table)@,
        (*final(table))@,
        job_id@,
        worker@,
        lease_token_hash@,
        failure_code@,
        retryable,
        policy,
        now.micros as int,
        r,
    ) by {
        let before = (*table)@;
        let after = (*final(table))@;
        let at = match r {
            Some(outcome) => Some(
                choose|i: int|
                    {
                        &&& #[trigger] fail_step(
                            before,
                            after,
                            job_id@,
                            worker@,
                            lease_token_hash@,
                            failure_code@,
                            retryable,
                            policy,
                            now.micros as int,
                            Some(i),
                        )
                        &&& outcome.retry == before[i].retried(retryable)
                        &&& outcome.available_at.micros == after[i].available_at
                    },
            ),
            None => None,
        };
        law_failure_ends_the_lease_in_waiting_or_failure(
            before,
            after,
            job_id@,
            worker@,
            lease_token_hash@,
            failure_code@,
            retryable,
            policy,
            now.micros as int,
            at,
        );
        if let Some(i) = at {
            assert(entitled(
                before[i],
                job_id@,
                worker@,
                lease_token_hash@,
                now.micros as int,
            ));
            if retryable && 1 <= before[i].attempts < before[i].max_attempts {
                law_retry_waits_its_delay(
                    before,
                    after,
                    job_id@,
                    worker@,
                    lease_token_hash@,
                    failure_code@,
                    policy,
                    now.micros as int,
                    i,
                );
            }
        }
    }
}

/// A job that is stored is stored behind the others, waiting, as it was asked for,
/// and only where its producer has not used the key and nobody the identifier.
/// Where the producer has used the key, the stored job is the answer exactly if
/// queue, kind, payload, availability and number of attempts agree, a conflict is
/// the answer otherwise, and nothing changes.
pub open spec fn enqueue_promise(
    before: Seq<Job>,
    after: Seq<Job>,
    new: NewJob,
    now: int,
    r: Result<EnqueueOutcome, JobsError>,
) -> bool {
    &&& forall|i: int|
        0 <= i < before.len() && (#[trigger] before[i]).producer == new.producer@
            && before[i].idempotency_key == new.idempotency_key@ ==> {
            &&& after == before
            &&& if before[i].queue == new.queue@ && before[i].kind == new.kind@ && json_equal(
                before[i].payload,
                new.payload,
            ) && before[i].available_at == new.available_at.micros && before[i].max_attempts
                == new.max_attempts {
                r matches Ok(EnqueueOutcome::Existing(id)) && id@ == before[i].id
            } else {
                r matches Ok(EnqueueOutcome::Conflict)
            }
        }
    &&& (forall|i: int|
        0 <= i < before.len() ==> !((#[trigger] before[i]).producer == new.producer@
            && before[i].idempotency_key == new.idempotency_key@) && before[i].id != new.id@) ==> {
        &&& r matches Ok(EnqueueOutcome::Created(id)) && id@ == new.id@
        &&& after == before.push(
            Job {
                id: new.id@,
                producer: new.producer@,
                queue: new.queue@,
                kind: new.kind@,
                payload: new.payload,
                idempotency_key: new.idempotency_key@,
                status: JobStatus::Queued,
                max_attempts: new.max_attempts as int,
                attempts: 0,
                available_at: new.available_at.micros as int,
                lease_generation: 0,
                lease_owner: None,
                lease_token_hash: None,
                lease_expires_at: None,
                last_failure_code: None,
                created_at: now,
                updated_at: now,
            },
        )
    }
}

/// [`JobTable::enqueue`] keeps what enqueueing promises.
pub proof fn law_enqueue_call(
    new: NewJob,
    now: Timestamp,
    r: Result<EnqueueOutcome, JobsError>,
)
    ensures
        forall|table: &mut JobTable|
            consistent((*table)@) && #[trigger] call_ensures(
                JobTable::enqueue,
                (table, new, now),
                r,
            ) ==> enqueue_promise((*table)@, (*final(table))@, new, now.micros as int, r),
{
    assert forall|table: &mut JobTable|
        consistent((*table)@) && #[trigger] call_ensures(
            JobTable::enqueue,
            (table, new, now),
            r,
        ) implies enqueue_promise((*table)@, (*final(table))@, new, now.micros as int, r) by {
        let before = (*table)@;
        let after = (*final(table))@;
        assert forall|i: int|
            0 <= i < before.len() && (#[trigger] before[i]).producer == new.producer@
                && before[i].idempotency_key == new.idempotency_key@ implies {
            &&& after == before
            &&& if before[i].queue == new.queue@ && before[i].kind == new.kind@ && json_equal(
                before[i].payload,
                new.payload,
            ) && before[i].available_at == new.available_at.micros && before[i].max_attempts
                == new.max_attempts {
                r matches Ok(EnqueueOutcome::Existing(id)) && id@ == before[i].id
            } else {
                r matches Ok(EnqueueOutcome::Conflict)
            }
        } by {
            law_taken_key_needs_equal_content(before, after, new, now.micros as int, r, i);
        }
        if forall|i: int|
            0 <= i < before.len() ==> !((#[trigger] before[i]).producer == new.producer@
                && before[i].idempotency_key == new.idempotency_key@) && before[i].id != new.id@ {
            law_new_job_is_stored_as_asked(before, after, new, now.micros as int, r);
        }
    }
}

/// A repeated key is resolved by the content of its holder.
pub proof fn law_resolve_conflict_call(
    new: NewJob,
    existing: Option<ExistingJob>,
    r: Result<EnqueueOutcome, JobsError>,
)
    requires
        call_ensures(resolve_conflict, (&new, existing), r),
    ensures
        match existing {
            Some(row) => if row.queue@ == new.queue@ && row.kind@ == new.kind@ && json_equal(
                row.payload,
                new.payload,
            ) && row.available_at.micros == new.available_at.micros && row.max_attempts
                == new.max_attempts {
                r matches Ok(EnqueueOutcome::Existing(id)) && id@ == row.id@
            } else {
                r matches Ok(EnqueueOutcome::Conflict)
            },
            None => r matches Err(JobsError::IdempotencyInvariant),
        },
{
    law_conflict_needs_equal_columns(new, existing, r);
}

/// The delay after an attempt under a bounded policy is the base, doubled once for
/// every attempt before it, and never more than the maximum.
pub proof fn law_retry_delay_call(base: i64, maximum: i64, attempts: i32, r: i64)
    requires
        call_ensures(retry_delay, (base, maximum, attempts), r),
        1 <= base <= maximum <= 86_400,
        attempts >= 1,
    ensures
        r == if base * pow2((attempts - 1) as nat) < maximum {
            base * pow2((attempts - 1) as nat)
        } else {
            maximum as int
        },
{
    law_delay_doubles_with_every_attempt(base as int, maximum as int, attempts as int);
}

/// Enqueueing, from the caller's request to the reply: an admitted request goes to
/// storage as the caller's job, under an identifier of the one shape, and the reply
/// tells the stored job's identifier, whether it is new, or the conflict.
pub proof fn law_enqueue_is_answered(
    provider: PostgresJobsProvider,
    caller: Option<&str>,
    request: EnqueueRequest,
    step: Step<NewJob, EnqueueResponse, EnqueueError>,
    outcome: Result<EnqueueOutcome, JobsError>,
    reply: Result<Result<EnqueueResponse, EnqueueError>, RuntimeFailure>,
)
    requires
        call_ensures(PostgresJobsProvider::enqueue, (&provider, caller, request), step),
        call_ensures(enqueue_reply, (outcome,), reply),
    ensures
        !known(caller, provider.config.producer_instances@) ==> (step matches Step::Done(
            Ok(Err(EnqueueError::Unauthorized)),
        )),
        known(caller, provider.config.producer_instances@) ==> if !has_text(
            provider.config.queues@,
            request.queue@,
        ) || !request.valid() {
            step matches Step::Done(Ok(Err(EnqueueError::InvalidJob)))
        } else if provider.prepared {
            step is Perform || (step matches Step::Done(
                Err(RuntimeFailure::ModuleFailure { detail }),
            ) && detail@ == "operating-system random source is unavailable"@)
        } else {
            step matches Step::Done(Err(RuntimeFailure::ModuleFailure { detail })) && detail@
                == "Jobs Module is not prepared"@
        },
        step matches Step::Perform(job) ==> {
            &&& caller matches Some(name) && job.producer@ == name@
            &&& known(caller, provider.config.producer_instances@)
            &&& exists|i: int|
                0 <= i < provider.config.queues@.len() && (
                #[trigger] provider.config.queues@[i])@ == request.queue@
            &&& provider.prepared
            &&& is_job_id(job.id@)
            &&& job.queue@ == request.queue@
            &&& job.kind@ == request.kind@
            &&& job.idempotency_key@ == request.idempotency_key@
            &&& json_members(job.payload) == Some(request.payload@)
            &&& job.max_attempts == request.max_attempts
            &&& 1 <= job.max_attempts <= 100
            &&& rfc3339_nanos(request.available_at@) matches Some(nanos) && job.available_at.micros
                * 1000 <= nanos < job.available_at.micros * 1000 + 1000
        },
        match outcome {
            Ok(EnqueueOutcome::Created(id)) => reply matches Ok(Ok(response)) && response.job_id@
                == id@ && response.created,
            Ok(EnqueueOutcome::Existing(id)) => reply matches Ok(Ok(response)) && response.job_id@
                == id@ && !response.created,
            Ok(EnqueueOutcome::Conflict) => reply matches Ok(
                Err(EnqueueError::IdempotencyConflict),
            ),
            Err(error) => reply matches Err(RuntimeFailure::ModuleFailure { detail }) && detail@
                == error.text(),
        },
{
}

/// Claiming, from the worker's request to the reply: an admitted request goes to
/// storage with the hash of a token of the one shape and the configured length of
/// the lease, and the reply gives the worker that token with the job.
pub proof fn law_claim_is_answered(
    provider: PostgresJobsProvider,
    caller: Option<&str>,
    request: ClaimRequest,
    step: Step<ClaimCommand, ClaimResponse, ClaimError>,
    lease_token: String,
    claimed: Result<Option<ClaimResponse>, JobsError>,
    reply: Result<Result<ClaimResponse, ClaimError>, RuntimeFailure>,
)
    requires
        call_ensures(PostgresJobsProvider::claim, (&provider, caller, request), step),
        call_ensures(claim_reply, (lease_token, claimed), reply),
    ensures
        !known(caller, provider.config.worker_instances@) ==> (step matches Step::Done(
            Ok(Err(ClaimError::Unauthorized)),
        )),
        known(caller, provider.config.worker_instances@) ==> if !is_name(request.queue@, 128)
            || !has_text(provider.config.queues@, request.queue@) {
            step matches Step::Done(Ok(Err(ClaimError::InvalidQueue)))
        } else if provider.prepared {
            step is Perform || (step matches Step::Done(
                Err(RuntimeFailure::ModuleFailure { detail }),
            ) && detail@ == "operating-system random source is unavailable"@)
        } else {
            step matches Step::Done(Err(RuntimeFailure::ModuleFailure { detail })) && detail@
                == "Jobs Module is not prepared"@
        },
        step matches Step::Perform(command) ==> {
            &&& caller matches Some(name) && command.worker@ == name@
            &&& known(caller, provider.config.worker_instances@)
            &&& exists|i: int|
                0 <= i < provider.config.queues@.len() && (
                #[trigger] provider.config.queues@[i])@ == request.queue@
            &&& provider.prepared
            &&& command.queue@ == request.queue@
            &&& is_lease_token(command.lease_token@)
            &&& command.lease_token_hash@ == sha256_digest(encode_utf8(command.lease_token@))
            &&& command.lease_seconds == provider.config.lease_seconds
        },
        match claimed {
            Ok(Some(job)) => reply matches Ok(Ok(response)) && {
                &&& response.lease_token@ == lease_token@
                &&& response.job_id@ == job.job_id@
                &&& response.queue@ == job.queue@
                &&& response.kind@ == job.kind@
                &&& response.payload@ == job.payload@
                &&& response.attempt == job.attempt
                &&& response.max_attempts == job.max_attempts
                &&& response.lease_expires_at@ == job.lease_expires_at@
            },
            Ok(None) => reply matches Ok(Err(ClaimError::NoJobAvailable)),
            Err(error) => reply matches Err(RuntimeFailure::ModuleFailure { detail }) && detail@
                == error.text(),
        },
{
}

/// Renewing, from the worker's request to the reply: an admitted request goes to
/// storage with the hash of the presented token, and the reply tells the end of the
/// lease or that there is none.
pub proof fn law_renew_is_answered(
    provider: PostgresJobsProvider,
    caller: Option<&str>,
    request: RenewRequest,
    step: Step<RenewCommand, RenewResponse, RenewError>,
    expiry: Result<Option<Timestamp>, JobsError>,
    reply: Result<Result<RenewResponse, RenewError>, RuntimeFailure>,
)
    requires
        call_ensures(PostgresJobsProvider::renew, (&provider, caller, request), step),
        call_ensures(renew_reply, (expiry,), reply),
    ensures
        !known(caller, provider.config.worker_instances@) ==> (step matches Step::Done(
            Ok(Err(RenewError::Unauthorized)),
        )),
        known(caller, provider.config.worker_instances@) ==> if !is_job_id(request.job_id@)
            || !is_lease_token(request.lease_token@) {
            step matches Step::Done(Ok(Err(RenewError::InvalidLease)))
        } else if provider.prepared {
            step is Perform
        } else {
            step matches Step::Done(Err(RuntimeFailure::ModuleFailure { detail })) && detail@
                == "Jobs Module is not prepared"@
        },
        step matches Step::Perform(command) ==> {
            &&& caller matches Some(name) && command.worker@ == name@
            &&& known(caller, provider.config.worker_instances@)
            &&& provider.prepared
            &&& is_job_id(request.job_id@)
            &&& is_lease_token(request.lease_token@)
            &&& command.job_id@ == request.job_id@
            &&& command.lease_token_hash@ == sha256_digest(encode_utf8(request.lease_token@))
            &&& command.lease_seconds == provider.config.lease_seconds
        },
        match expiry {
            Ok(Some(end)) => if -62_167_219_200_000_000 <= end.micros < 253_402_300_800_000_000 {
                reply matches Ok(Ok(response)) && rfc3339_nanos(response.lease_expires_at@) == Some(
                    end.micros * 1000,
                )
            } else {
                reply matches Err(RuntimeFailure::ModuleFailure { .. })
            },
            Ok(None) => reply matches Ok(Err(RenewError::InvalidLease)),
            Err(error) => reply matches Err(RuntimeFailure::ModuleFailure { detail }) && detail@
                == error.text(),
        },
{
}

/// Completing, from the worker's request to the reply: an admitted request goes to
/// storage with the hash of the presented token, and the reply tells that the job
/// is completed or that there is no such lease.
pub proof fn law_complete_is_answered(
    provider: PostgresJobsProvider,
    caller: Option<&str>,
    request: CompleteRequest,
    step: Step<CompleteCommand, CompleteResponse, CompleteError>,
    completed: Result<bool, JobsError>,
    reply: Result<Result<CompleteResponse, CompleteError>, RuntimeFailure>,
)
    requires
        call_ensures(PostgresJobsProvider::complete, (&provider, caller, request), step),
        call_ensures(complete_reply, (completed,), reply),
    ensures
        !known(caller, provider.config.worker_instances@) ==> (step matches Step::Done(
            Ok(Err(CompleteError::Unauthorized)),
        )),
        known(caller, provider.config.worker_instances@) ==> if !is_job_id(request.job_id@)
            || !is_lease_token(request.lease_token@) {
            step matches Step::Done(Ok(Err(CompleteError::InvalidLease)))
        } else if provider.prepared {
            step is Perform
        } else {
            step matches Step::Done(Err(RuntimeFailure::ModuleFailure { detail })) && detail@
                == "Jobs Module is not prepared"@
        },
        step matches Step::Perform(command) ==> {
            &&& caller matches Some(name) && command.worker@ == name@
            &&& known(caller, provider.config.worker_instances@)
            &&& provider.prepared
            &&& is_job_id(request.job_id@)
            &&& is_lease_token(request.lease_token@)
            &&& command.job_id@ == request.job_id@
            &&& command.lease_token_hash@ == sha256_digest(encode_utf8(request.lease_token@))
        },
        match completed {
            Ok(true) => reply matches Ok(Ok(response)) && response.completed,
            Ok(false) => reply matches Ok(Err(CompleteError::InvalidLease)),
            Err(error) => reply matches Err(RuntimeFailure::ModuleFailure { detail }) && detail@
                == error.text(),
        },
{
}

/// Reporting a failure, from the worker's request to the reply: an admitted request
/// goes to storage with the hash of the presented token, the reported code and the
/// configured delays, and the reply tells whether the job waits again and since
/// when, or that there is no such lease.
pub proof fn law_fail_is_answered(
    provider: PostgresJobsProvider,
    caller: Option<&str>,
    request: FailRequest,
    step: Step<FailCommand, FailResponse, FailError>,
    recorded: FailedAttempt,
    decoded: Result<FailResponse, JobsError>,
    outcome: Result<Option<FailResponse>, JobsError>,
    reply: Result<Result<FailResponse, FailError>, RuntimeFailure>,
)
    requires
        call_ensures(PostgresJobsProvider::fail, (&provider, caller, request), step),
        call_ensures(decode_failure, (recorded,), decoded),
        call_ensures(fail_reply, (outcome,), reply),
    ensures
        !known(caller, provider.config.worker_instances@) ==> (step matches Step::Done(
            Ok(Err(FailError::Unauthorized)),
        )),
        known(caller, provider.config.worker_instances@) ==> if !is_job_id(request.job_id@)
            || !is_lease_token(request.lease_token@) {
            step matches Step::Done(Ok(Err(FailError::InvalidLease)))
        } else if !is_name(request.failure_code@, 128) {
            step matches Step::Done(Ok(Err(FailError::InvalidFailure)))
        } else if provider.prepared {
            step is Perform
        } else {
            step matches Step::Done(Err(RuntimeFailure::ModuleFailure { detail })) && detail@
                == "Jobs Module is not prepared"@
        },
        step matches Step::Perform(command) ==> {
            &&& caller matches Some(name) && command.worker@ == name@
            &&& known(caller, provider.config.worker_instances@)
            &&& provider.prepared
            &&& is_job_id(request.job_id@)
            &&& is_lease_token(request.lease_token@)
            &&& command.job_id@ == request.job_id@
            &&& command.lease_token_hash@ == sha256_digest(encode_utf8(request.lease_token@))
            &&& command.failure_code@ == request.failure_code@
            &&& command.retryable == request.retryable
            &&& command.retry_policy.base_seconds == provider.config.retry_base_seconds
            &&& command.retry_policy.max_seconds == provider.config.retry_max_seconds
        },
        if recorded.retry {
            if -62_167_219_200_000_000 <= recorded.available_at.micros < 253_402_300_800_000_000 {
                decoded matches Ok(response) && response.status == FailResponseStatus::Queued && (
                response.available_at matches Some(text) && rfc3339_nanos(text@) == Some(
                    recorded.available_at.micros * 1000,
                ))
            } else {
                decoded matches Err(JobsError::Timestamp)
            }
        } else {
            decoded matches Ok(response) && response.status == FailResponseStatus::Failed
                && response.available_at is None
        },
        match outcome {
            Ok(Some(told)) => reply matches Ok(Ok(response)) && response.status == told.status
                && response.available_at == told.available_at,
            Ok(None) => reply matches Ok(Err(FailError::InvalidLease)),
            Err(error) => reply matches Err(RuntimeFailure::ModuleFailure { detail }) && detail@
                == error.text(),
        },
{
}

/// Inspecting, from the caller's request to the reply: an admitted request looks
/// the identifier up, the columns that are found are told as they are, and the
/// reply tells them or that there is no such job.
pub proof fn law_inspect_is_answered(
    provider: PostgresJobsProvider,
    caller: Option<&str>,
    request: InspectRequest,
    step: Step<String, InspectResponse, InspectError>,
    look: InspectedJob,
    decoded: Result<InspectResponse, JobsError>,
    outcome: Result<Option<InspectResponse>, JobsError>,
    reply: Result<Result<InspectResponse, InspectError>, RuntimeFailure>,
)
    requires
        call_ensures(PostgresJobsProvider::inspect, (&provider, caller, request), step),
        call_ensures(decode_inspection, (look,), decoded),
        call_ensures(inspect_reply, (outcome,), reply),
    ensures
        !known(caller, provider.config.producer_instances@) && !known(
            caller,
            provider.config.worker_instances@,
        ) && !known(caller, provider.config.observer_instances@) ==> (step matches Step::Done(
            Ok(Err(InspectError::Unauthorized)),
        )),
        known(caller, provider.config.producer_instances@) || known(
            caller,
            provider.config.worker_instances@,
        ) || known(caller, provider.config.observer_instances@) ==> if !is_job_id(request.job_id@) {
            step matches Step::Done(Ok(Err(InspectError::JobNotFound)))
        } else if provider.prepared {
            step is Perform
        } else {
            step matches Step::Done(Err(RuntimeFailure::ModuleFailure { detail })) && detail@
                == "Jobs Module is not prepared"@
        },
        step matches Step::Perform(job_id) ==> {
            &&& job_id@ == request.job_id@
            &&& is_job_id(request.job_id@)
            &&& provider.prepared
        },
        decoded matches Err(error) ==> if look.status@ == "queued"@ || look.status@ == "running"@
            || look.status@ == "succeeded"@ || look.status@ == "failed"@ {
            error == JobsError::Timestamp && !look.printable()
        } else {
            error == JobsError::InvalidStoredStatus
        },
        decoded matches Ok(response) ==> {
            &&& response.job_id@ == look.id@
            &&& response.queue@ == look.queue@
            &&& response.kind@ == look.kind@
            &&& response.attempts == look.attempts
            &&& response.max_attempts == look.max_attempts
            &&& look.status@ == match response.status {
                InspectResponseStatus::Queued => "queued"@,
                InspectResponseStatus::Running => "running"@,
                InspectResponseStatus::Succeeded => "succeeded"@,
                InspectResponseStatus::Failed => "failed"@,
            }
            &&& match (look.lease_expires_at, response.lease_expires_at) {
                (Some(end), Some(Some(text))) => rfc3339_nanos(text@) == Some(end.micros * 1000),
                (None, Some(None)) => true,
                _ => false,
            }
            &&& match (look.last_failure_code, response.last_failure_code) {
                (Some(code), Some(Some(text))) => text@ == code@,
                (None, Some(None)) => true,
                _ => false,
            }
            &&& rfc3339_nanos(response.available_at@) == Some(look.available_at.micros * 1000)
            &&& rfc3339_nanos(response.created_at@) == Some(look.created_at.micros * 1000)
            &&& rfc3339_nanos(response.updated_at@) == Some(look.updated_at.micros * 1000)
        },
        match outcome {
            Ok(Some(told)) => reply == Ok::<
                Result<InspectResponse, InspectError>,
                RuntimeFailure,
            >(Ok(told)),
            Ok(None) => reply matches Ok(Err(InspectError::JobNotFound)),
            Err(error) => reply matches Err(RuntimeFailure::ModuleFailure { detail }) && detail@
                == error.text(),
        },
{
}

/// A claimed row is told as it is: the members of its payload, its attempt, and the
/// end of its lease as a text that denotes it. A payload that is no object, or an
/// end without a text, is an error.
pub proof fn law_decode_claim_call(row: ClaimedJob, r: Result<ClaimResponse, JobsError>)
    requires
        call_ensures(decode_claim, (row,), r),
    ensures
        match json_members(row.payload) {
            None => r matches Err(JobsError::InvalidStoredPayload),
            Some(members) => if -62_167_219_200_000_000 <= row.lease_expires_at.micros
                < 253_402_300_800_000_000 {
                r matches Ok(response) && {
                    &&& response.payload@ == members
                    &&& response.job_id@ == row.id@
                    &&& response.queue@ == row.queue@
                    &&& response.kind@ == row.kind@
                    &&& response.attempt == row.attempts
                    &&& response.max_attempts == row.max_attempts
                    &&& response.lease_token@.len() == 0
                    &&& rfc3339_nanos(response.lease_expires_at@) == Some(
                        row.lease_expires_at.micros * 1000,
                    )
                }
            } else {
                r matches Err(JobsError::Timestamp)
            },
        },
{
}

/// What is read from a text and written again reads back as the same time, in the
/// same offset; and a text that denotes no time is refused.
pub proof fn law_times_survive_the_round_trip(
    value: &str,
    read: Result<OffsetTime, JobsError>,
    time: OffsetTime,
    written: Result<String, JobsError>,
    text: &str,
    again: Result<OffsetTime, JobsError>,
)
    requires
        call_ensures(parse_time, (value,), read),
        call_ensures(format_time, (time,), written),
        written matches Ok(shown) ==> shown@ == text@,
        call_ensures(parse_time, (text,), again),
    ensures
        read is Ok <==> rfc3339_nanos(value@) is Some,
        read matches Err(error) ==> error == JobsError::Timestamp,
        read matches Ok(parsed) ==> {
            &&& rfc3339_nanos(value@) matches Some(nanos) && parsed.instant.micros * 1000 <= nanos
                < parsed.instant.micros * 1000 + 1000
            &&& rfc3339_offset(value@) == Some(parsed.offset_seconds as int)
        },
        read == Ok::<OffsetTime, JobsError>(time) ==> written is Ok && again == Ok::<
            OffsetTime,
            JobsError,
        >(time),
        written matches Err(error) ==> error == JobsError::Timestamp,
{
}

/// Texts are judged by their shape, and a token is kept as its digest.
pub proof fn law_texts_are_judged_by_shape(
    value: &str,
    maximum: usize,
    name: bool,
    id: bool,
    token: bool,
    hash: Vec<u8>,
)
    requires
        call_ensures(valid_name, (value, maximum), name),
        call_ensures(valid_job_id, (value,), id),
        call_ensures(valid_lease_token, (value,), token),
        call_ensures(lease_hash, (value,), hash),
    ensures
        name <==> {
            &&& 0 < value@.len() <= maximum
            &&& forall|i: int|
                0 <= i < value@.len() ==> {
                    ||| 'a' <= #[trigger] value@[i] <= 'z'
                    ||| 'A' <= value@[i] <= 'Z'
                    ||| '0' <= value@[i] <= '9'
                    ||| value@[i] == '.'
                    ||| value@[i] == '_'
                    ||| value@[i] == '-'
                    ||| value@[i] == ':'
                    ||| value@[i] == '/'
                }
        },
        id == is_job_id(value@),
        token == is_lease_token(value@),
        hash@ == sha256_digest(encode_utf8(value@)),
{
}

/// An instance is made exactly for the default entrypoint with a readable and valid
/// configuration. It keeps that configuration and is not prepared.
pub proof fn law_instantiate_call(
    factory: JobsFactory,
    entrypoint: &str,
    configuration: Result<JobsConfig, String>,
    r: Result<PostgresJobsProvider, RuntimeFailure>,
)
    requires
        call_ensures(JobsFactory::instantiate, (&factory, entrypoint, configuration), r),
    ensures
        r is Ok <==> entrypoint@ == "default"@ && (configuration matches Ok(config)
            && config.error() is None),
        r matches Ok(provider) ==> configuration == Ok::<JobsConfig, String>(provider.config)
            && !provider.prepared,
        entrypoint@ != "default"@ ==> (r matches Err(RuntimeFailure::InvalidResolvedPlan { detail })
            && detail@ == "unsupported Jobs entrypoint `"@ + entrypoint@ + "`"@),
        entrypoint@ == "default"@ ==> match configuration {
            Err(reason) => r matches Err(RuntimeFailure::InvalidResolvedPlan { detail }) && detail@
                == "Jobs configuration is invalid: "@ + reason@,
            Ok(config) => config.error() matches Some(error) ==> (r matches Err(
                RuntimeFailure::InvalidResolvedPlan { detail },
            ) && detail@ == "Jobs configuration is invalid: "@ + error.text()),
        },
{
}

/// A configuration passes exactly if nothing is wrong with it, and otherwise the
/// first thing that is wrong is reported.
pub proof fn law_validate_call(config: JobsConfig, r: Result<(), JobsConfigError>)
    requires
        call_ensures(JobsConfig::validate, (&config,), r),
    ensures
        r is Ok <==> config.error() is None,
        r matches Err(error) ==> config.error() == Some(error),
{
}

/// A new configuration is what it was made of, without observers, and one with
/// observers is the other with these. Neither is made if anything is wrong with it.
pub proof fn law_configurations_are_what_they_are_made_of(
    schema: String,
    database_url_secret: String,
    lease_seconds: i64,
    retry_base_seconds: i64,
    retry_max_seconds: i64,
    queues: Vec<String>,
    producers: Vec<String>,
    workers: Vec<String>,
    r: Result<JobsConfig, JobsConfigError>,
    config: JobsConfig,
    observers: Vec<String>,
    observed: Result<JobsConfig, JobsConfigError>,
)
    requires
        call_ensures(
            JobsConfig::new,
            (
                schema,
                database_url_secret,
                lease_seconds,
                retry_base_seconds,
                retry_max_seconds,
                queues,
                producers,
                workers,
            ),
            r,
        ),
        call_ensures(JobsConfig::with_observer_instances, (config, observers), observed),
    ensures
        r matches Ok(made) ==> {
            &&& made.error() is None
            &&& made.schema@ == schema@
            &&& made.database_url_secret@ == database_url_secret@
            &&& made.lease_seconds == lease_seconds
            &&& made.retry_base_seconds == retry_base_seconds
            &&& made.retry_max_seconds == retry_max_seconds
            &&& made.queues@ == queues@
            &&& made.producer_instances@ == producers@
            &&& made.worker_instances@ == workers@
            &&& made.observer_instances@.len() == 0
        },
        r matches Err(error) ==> forall|made: JobsConfig|
            made.schema == schema && made.database_url_secret == database_url_secret
                && made.lease_seconds == lease_seconds && made.retry_base_seconds
                == retry_base_seconds && made.retry_max_seconds == retry_max_seconds && made.queues
                == queues && made.producer_instances == producers && made.worker_instances
                == workers && made.observer_instances@ == Seq::<String>::empty() ==> (
            #[trigger] made.error()) == Some(error),
        ({
            let with = JobsConfig { observer_instances: observers, ..config };
            match observed {
                Ok(made) => made == with && with.error() is None,
                Err(error) => with.error() == Some(error),
            }
        }),
{
}

/// A look at the table finds the one job with the identifier, as it is stored.
pub proof fn law_inspect_call(table: JobTable, job_id: &str, r: Option<InspectedJob>)
    requires
        call_ensures(JobTable::inspect, (&table, job_id), r),
    ensures
        match r {
            Some(look) => exists|i: int|
                {
                    let job = #[trigger] table@[i];
                    &&& 0 <= i < table@.len()
                    &&& job.id == job_id@
                    &&& look.id@ == job.id
                    &&& look.queue@ == job.queue
                    &&& look.kind@ == job.kind
                    &&& look.status@ == match job.status {
                        JobStatus::Queued => "queued"@,
                        JobStatus::Running => "running"@,
                        JobStatus::Succeeded => "succeeded"@,
                        JobStatus::Failed => "failed"@,
                    }
                    &&& look.attempts == job.attempts
                    &&& look.max_attempts == job.max_attempts
                    &&& look.available_at.micros == job.available_at
                    &&& match (look.lease_expires_at, job.lease_expires_at) {
                        (Some(told), Some(expiry)) => told.micros == expiry,
                        (None, None) => true,
                        _ => false,
                    }
                    &&& match (look.last_failure_code, job.last_failure_code) {
                        (Some(told), Some(code)) => told@ == code,
                        (None, None) => true,
                        _ => false,
                    }
                    &&& look.created_at.micros == job.created_at
                    &&& look.updated_at.micros == job.updated_at
                },
            None => forall|i: int| 0 <= i < table@.len() ==> (#[trigger] table@[i]).id != job_id@,
        },
{
    if let Some(look) = r {
        let i = choose|i: int|
            0 <= i < table@.len() && (#[trigger] table@[i]).id == job_id@ && look.reads(table@[i]);
        assert(table@[i].id == job_id@);
    }
}

/// A table is made of rows exactly if they are consistent, and is made of those
/// rows in their order. An insertion is settled exactly if it affected one row.
pub proof fn law_tables_are_made_of_rows(
    rows: Vec<JobRow>,
    r: Option<JobTable>,
    rows_affected: u64,
    job_id: &str,
    settled: Option<EnqueueOutcome>,
)
    requires
        call_ensures(JobTable::from_rows, (rows,), r),
        call_ensures(inserted, (rows_affected, job_id), settled),
    ensures
        match r {
            Some(table) => {
                &&& consistent(table@)
                &&& table@.len() == rows@.len()
                &&& forall|i: int| 0 <= i < rows@.len() ==> #[trigger] table@[i] == rows@[i]@
            },
            None => !consistent(Seq::new(rows@.len(), |i: int| rows@[i]@)),
        },
        match settled {
            Some(outcome) => rows_affected == 1 && (outcome matches EnqueueOutcome::Created(id)
                && id@ == job_id@),
            None => rows_affected != 1,
        },
{
}

/// An instance becomes prepared by connecting and by nothing else, and deactivating
/// it says whether it was and leaves it unprepared. Its configuration stays. Every
/// event is answered by the next thing to do, with the configured secret and schema,
/// or by the failure that it is.
pub proof fn law_prepared_by_connecting_only<F>(
    event: PrepareEvent<F>,
    action: PrepareAction<F>,
    closes: bool,
)
    ensures
        forall|provider: &mut PostgresJobsProvider| #[trigger]
            call_ensures(PostgresJobsProvider::prepare::<F>, (provider, event), action) ==> {
                &&& (*final(provider)).config == (*provider).config
                &&& (*final(provider)).prepared <==> (*provider).prepared || event is Connected
                &&& match event {
                    PrepareEvent::Started => action matches PrepareAction::ResolveSecret {
                        reference,
                        timeout_seconds,
                    } && reference@ == (*provider).config.database_url_secret@ && timeout_seconds
                        == 10,
                    PrepareEvent::SecretResolved => action matches PrepareAction::Connect { schema }
                        && schema@ == (*provider).config.schema@,
                    PrepareEvent::SecretRejected => action matches PrepareAction::Abort(
                        RuntimeFailure::ModuleFailure { detail },
                    ) && detail@ == "Jobs database secret `"@ + (
                    *provider).config.database_url_secret@ + "` was rejected"@,
                    PrepareEvent::SecretUnavailable(cause) => action matches PrepareAction::HandOn(
                        failure,
                    ) && failure == cause,
                    PrepareEvent::Connected => action is Finish,
                    PrepareEvent::PlanRefused(reason) => action matches PrepareAction::Abort(
                        RuntimeFailure::InvalidResolvedPlan { detail },
                    ) && detail@ == reason@,
                    PrepareEvent::DatabaseFailed(reason) => action matches PrepareAction::Abort(
                        RuntimeFailure::ModuleFailure { detail },
                    ) && detail@ == reason@,
                }
            },
        forall|provider: &mut PostgresJobsProvider| #[trigger]
            call_ensures(PostgresJobsProvider::deactivate, (provider,), closes) ==> {
                &&& (*final(provider)).config == (*provider).config
                &&& !(*final(provider)).prepared
                &&& closes == (*provider).prepared
            },
{
}

} // verus!
