use std::collections::BTreeMap;

use lenso_jobs::capability::{
    ClaimError, ClaimRequest, ClaimResponse, CompleteError, CompleteRequest, CompleteResponse,
    EnqueueError, EnqueueRequest, EnqueueResponse, FailError, FailRequest, FailResponse,
    FailResponseStatus, InspectError, InspectRequest, InspectResponse, InspectResponseStatus,
    RenewError, RenewRequest, RenewResponse,
};
use lenso_jobs::errors::JobsError;
use lenso_jobs::jobs::{JobRow, JobStatus};
use lenso_jobs::provider::{
    claim_reply, complete_reply, enqueue_reply, fail_reply, inspect_reply, renew_reply,
    PostgresJobsProvider, Step,
};
use lenso_jobs::responses::{
    claim_response, decode_claim, decode_failure, decode_inspection, decode_status,
};
use lenso_jobs::retry::RetryPolicy;
use lenso_jobs::table::{
    inserted, resolve_conflict, status_column, ClaimedJob, EnqueueOutcome, ExistingJob,
    FailedAttempt, InspectedJob, JobTable, NewJob, EXPIRED_RETIREMENT_BATCH_LIMIT,
};
use lenso_jobs::timestamps::{format_time, OffsetTime, Timestamp};
use lenso_jobs::tokens::lease_hash;
use lenso_jobs::JobsConfig;
use serde_json::Value;

const SECOND: i64 = 1_000_000;
const HOUR: i64 = 3_600 * SECOND;
const START: i64 = 1_787_572_800 * SECOND;

/// A provider whose jobs table is in memory and whose clock is set by hand.
struct Service {
    provider: PostgresJobsProvider,
    table: JobTable,
    now: Timestamp,
}

type Reply<R, E> = Result<R, E>;

impl Service {
    fn new() -> Self {
        let config = JobsConfig::new(
            "jobs".to_owned(),
            "jobs/database".to_owned(),
            1,
            1,
            4,
            vec!["email".to_owned()],
            vec!["producer".to_owned()],
            vec![
                "worker".to_owned(),
                "worker-a".to_owned(),
                "worker-b".to_owned(),
            ],
        )
        .unwrap()
        .with_observer_instances(vec!["observer".to_owned()])
        .unwrap();
        Service {
            provider: PostgresJobsProvider {
                config,
                prepared: true,
            },
            table: JobTable::new(),
            now: Timestamp { micros: START },
        }
    }

    fn sleep(&mut self, micros: i64) {
        self.now = Timestamp {
            micros: self.now.micros + micros,
        };
    }

    fn request(&self, key: &str, kind: &str, max_attempts: i64) -> EnqueueRequest {
        EnqueueRequest {
            queue: "email".to_owned(),
            kind: kind.to_owned(),
            payload: BTreeMap::from([(
                "message_id".to_owned(),
                Value::String("msg-42".to_owned()),
            )]),
            idempotency_key: key.to_owned(),
            available_at: format_time(OffsetTime::utc(Timestamp {
                micros: self.now.micros - HOUR,
            }))
            .unwrap(),
            max_attempts,
        }
    }

    fn enqueue(
        &mut self,
        caller: &str,
        request: EnqueueRequest,
    ) -> Reply<EnqueueResponse, EnqueueError> {
        match self.provider.enqueue(Some(caller), request) {
            Step::Perform(job) => enqueue_reply(self.table.enqueue(job, self.now)).unwrap(),
            Step::Done(reply) => reply.unwrap(),
        }
    }

    fn claim(&mut self, caller: &str) -> Reply<ClaimResponse, ClaimError> {
        let request = ClaimRequest {
            queue: "email".to_owned(),
        };
        match self.provider.claim(Some(caller), request) {
            Step::Perform(command) => {
                let claimed = self.table.claim(
                    &command.queue,
                    &command.worker,
                    &command.lease_token_hash,
                    command.lease_seconds,
                    self.now,
                );
                claim_reply(command.lease_token, claimed.map(decode_claim).transpose())
                    .ok()
                    .unwrap()
            }
            Step::Done(reply) => reply.ok().unwrap(),
        }
    }

    fn renew(
        &mut self,
        caller: &str,
        job_id: &str,
        lease_token: &str,
    ) -> Reply<RenewResponse, RenewError> {
        let request = RenewRequest {
            job_id: job_id.to_owned(),
            lease_token: lease_token.to_owned(),
        };
        match self.provider.renew(Some(caller), request) {
            Step::Perform(command) => renew_reply(Ok(self.table.renew(
                &command.job_id,
                &command.worker,
                &command.lease_token_hash,
                command.lease_seconds,
                self.now,
            )))
            .unwrap(),
            Step::Done(reply) => reply.unwrap(),
        }
    }

    fn complete(
        &mut self,
        caller: &str,
        job_id: &str,
        lease_token: &str,
    ) -> Reply<CompleteResponse, CompleteError> {
        let request = CompleteRequest {
            job_id: job_id.to_owned(),
            lease_token: lease_token.to_owned(),
        };
        match self.provider.complete(Some(caller), request) {
            Step::Perform(command) => complete_reply(Ok(self.table.complete(
                &command.job_id,
                &command.worker,
                &command.lease_token_hash,
                self.now,
            )))
            .unwrap(),
            Step::Done(reply) => reply.unwrap(),
        }
    }

    fn fail(
        &mut self,
        caller: &str,
        job_id: &str,
        lease_token: &str,
        failure_code: &str,
        retryable: bool,
    ) -> Reply<FailResponse, FailError> {
        let request = FailRequest {
            job_id: job_id.to_owned(),
            lease_token: lease_token.to_owned(),
            failure_code: failure_code.to_owned(),
            retryable,
        };
        match self.provider.fail(Some(caller), request) {
            Step::Perform(command) => {
                let recorded = self.table.fail(
                    &command.job_id,
                    &command.worker,
                    &command.lease_token_hash,
                    &command.failure_code,
                    command.retryable,
                    command.retry_policy,
                    self.now,
                );
                fail_reply(recorded.map(decode_failure).transpose()).unwrap()
            }
            Step::Done(reply) => reply.unwrap(),
        }
    }

    fn inspect(&self, caller: &str, job_id: &str) -> Reply<InspectResponse, InspectError> {
        let request = InspectRequest {
            job_id: job_id.to_owned(),
        };
        match self.provider.inspect(Some(caller), request) {
            Step::Perform(job_id) => {
                let inspected = self.table.inspect(&job_id);
                inspect_reply(inspected.map(decode_inspection).transpose()).unwrap()
            }
            Step::Done(reply) => reply.unwrap(),
        }
    }

    fn count(&self, prefix: &str, status: JobStatus) -> u64 {
        self.table
            .rows()
            .iter()
            .filter(|row| row.id.starts_with(prefix) && row.status == status)
            .count() as u64
    }
}

fn claimed(reply: Reply<ClaimResponse, ClaimError>) -> ClaimResponse {
    match reply {
        Ok(response) => response,
        Err(error) => panic!("no claim: {error:?}"),
    }
}

fn refused_claim(reply: Reply<ClaimResponse, ClaimError>) -> ClaimError {
    match reply {
        Ok(response) => panic!("claimed {}", response.job_id),
        Err(error) => error,
    }
}

fn row(id: &str, status: JobStatus, max_attempts: i32, attempts: i32, available_at: i64) -> JobRow {
    JobRow {
        id: id.to_owned(),
        producer_instance: "producer".to_owned(),
        queue: "email".to_owned(),
        kind: "email.send".to_owned(),
        payload: serde_json::from_str("{}").unwrap(),
        idempotency_key: id.to_owned(),
        status,
        max_attempts,
        attempts,
        available_at: Timestamp {
            micros: available_at,
        },
        lease_generation: i64::from(attempts),
        lease_owner: None,
        lease_token_hash: None,
        lease_expires_at: None,
        last_failure_code: None,
        created_at: Timestamp { micros: START },
        updated_at: Timestamp { micros: START },
    }
}

fn expired_row(id: &str, max_attempts: i32, available_at: i64, expiry: i64) -> JobRow {
    let mut row = row(id, JobStatus::Running, max_attempts, 1, available_at);
    row.lease_owner = Some("expired-worker".to_owned());
    row.lease_token_hash = Some(vec![0; 32]);
    row.lease_expires_at = Some(Timestamp { micros: expiry });
    row
}

fn at(micros: i64) -> Timestamp {
    Timestamp { micros }
}

#[test]
fn durable_jobs_preserve_idempotency_fencing_retry_and_terminal_state() {
    let mut service = Service::new();

    let enqueue = service.request("message-42", "email.send", 3);
    let first = service.enqueue("producer", enqueue.clone()).unwrap();
    assert!(first.created);
    let duplicate = service.enqueue("producer", enqueue).unwrap();
    assert_eq!(duplicate.job_id, first.job_id);
    assert!(!duplicate.created);

    let other = service.request("message-42", "email.delete", 3);
    let conflict = service.enqueue("producer", other).unwrap_err();
    assert_eq!(conflict, EnqueueError::IdempotencyConflict);
    let intruding = service.request("intruder", "email.send", 3);
    let unauthorized = service.enqueue("intruder", intruding).unwrap_err();
    assert_eq!(unauthorized, EnqueueError::Unauthorized);

    let claim = claimed(service.claim("worker"));
    assert_eq!(claim.job_id, first.job_id);
    assert_eq!(claim.attempt, 1);
    assert!(!claim.redacted().contains(&claim.lease_token));
    assert!(!claim.redacted().contains("msg-42"));

    let running = service.inspect("observer", &first.job_id).unwrap();
    assert_eq!(running.status, InspectResponseStatus::Running);
    assert_eq!(running.attempts, 1);

    service.sleep(1_100_000);
    let reclaimed = claimed(service.claim("worker"));
    assert_eq!(reclaimed.job_id, first.job_id);
    assert_eq!(reclaimed.attempt, 2);
    assert_ne!(
        lease_hash(&reclaimed.lease_token),
        lease_hash(&claim.lease_token)
    );

    let fenced = service
        .complete("worker", &first.job_id, &claim.lease_token)
        .unwrap_err();
    assert_eq!(fenced, CompleteError::InvalidLease);
    service
        .complete("worker", &first.job_id, &reclaimed.lease_token)
        .unwrap();
    let succeeded = service.inspect("producer", &first.job_id).unwrap();
    assert_eq!(succeeded.status, InspectResponseStatus::Succeeded);

    let retry = service.request("retry", "email.send", 2);
    let retry_job = service.enqueue("producer", retry).unwrap();
    let retry_claim = claimed(service.claim("worker"));
    let retried = service
        .fail(
            "worker",
            &retry_job.job_id,
            &retry_claim.lease_token,
            "provider_unavailable",
            true,
        )
        .unwrap();
    assert_eq!(retried.status, FailResponseStatus::Queued);
    assert_eq!(
        refused_claim(service.claim("worker")),
        ClaimError::NoJobAvailable
    );

    service.sleep(1_100_000);
    let final_claim = claimed(service.claim("worker"));
    let failed = service
        .fail(
            "worker",
            &retry_job.job_id,
            &final_claim.lease_token,
            "invalid_recipient",
            false,
        )
        .unwrap();
    assert_eq!(failed.status, FailResponseStatus::Failed);
    let terminal = service.inspect("observer", &retry_job.job_id).unwrap();
    assert_eq!(terminal.status, InspectResponseStatus::Failed);
    assert_eq!(
        terminal.last_failure_code,
        Some(Some("invalid_recipient".to_owned()))
    );

    bounded_expired_maintenance_preserves_retryable_work(&mut service);
}

fn bounded_expired_maintenance_preserves_retryable_work(service: &mut Service) {
    let exhausted_total = EXPIRED_RETIREMENT_BATCH_LIMIT + 17;
    let now = service.now.micros;
    let mut rows = service.table.rows().clone();
    for series in 1..=exhausted_total {
        rows.push(expired_row(
            &format!("audit-exhausted-{series}"),
            1,
            now - 3 * HOUR,
            now - 2 * HOUR,
        ));
    }
    rows.push(expired_row("audit-retryable", 2, now - 4 * HOUR, now - 2 * HOUR));
    rows.push(row("audit-queued-a", JobStatus::Queued, 2, 0, now - HOUR));
    rows.push(row("audit-queued-b", JobStatus::Queued, 2, 0, now - HOUR));
    service.table = JobTable::from_rows(rows).unwrap();

    let retryable = claimed(service.claim("worker"));
    assert_eq!(retryable.job_id, "audit-retryable");
    assert_eq!(retryable.attempt, 2);

    let retired_after_one_claim = service.count("audit-exhausted-", JobStatus::Failed);
    assert_eq!(retired_after_one_claim, EXPIRED_RETIREMENT_BATCH_LIMIT);
    let still_expired = service.count("audit-exhausted-", JobStatus::Running);
    assert_eq!(
        still_expired,
        exhausted_total - EXPIRED_RETIREMENT_BATCH_LIMIT
    );

    let first_claim = claimed(service.claim("worker-a"));
    let second_claim = claimed(service.claim("worker-b"));
    assert_ne!(first_claim.job_id, second_claim.job_id);
    assert!(first_claim.job_id.starts_with("audit-queued-"));
    assert!(second_claim.job_id.starts_with("audit-queued-"));

    let retired_after_concurrent_claims = service.count("audit-exhausted-", JobStatus::Failed);
    assert_eq!(retired_after_concurrent_claims, exhausted_total);
}

#[test]
fn a_claim_gives_back_what_was_enqueued() {
    let mut service = Service::new();
    let request = service.request("message-42", "email.send", 3);
    let job = service.enqueue("producer", request.clone()).unwrap();
    let claim = claimed(service.claim("worker"));
    assert_eq!(claim.job_id, job.job_id);
    assert_eq!(claim.queue, request.queue);
    assert_eq!(claim.kind, request.kind);
    assert_eq!(claim.payload, request.payload);
    assert_eq!(claim.max_attempts, 3);
    assert_eq!(claim.lease_expires_at, "2026-08-24T12:00:01Z");
}

#[test]
fn an_inspection_tells_the_whole_state() {
    let mut service = Service::new();
    let request = service.request("message-42", "email.send", 3);
    let job = service.enqueue("producer", request).unwrap();
    let queued = service.inspect("observer", &job.job_id).unwrap();
    assert_eq!(
        queued,
        InspectResponse {
            attempts: 0,
            available_at: "2026-08-24T11:00:00Z".to_owned(),
            created_at: "2026-08-24T12:00:00Z".to_owned(),
            job_id: job.job_id.clone(),
            kind: "email.send".to_owned(),
            last_failure_code: Some(None),
            lease_expires_at: Some(None),
            max_attempts: 3,
            queue: "email".to_owned(),
            status: InspectResponseStatus::Queued,
            updated_at: "2026-08-24T12:00:00Z".to_owned(),
        }
    );
    service.sleep(SECOND);
    claimed(service.claim("worker"));
    let running = service.inspect("observer", &job.job_id).unwrap();
    assert_eq!(
        running.lease_expires_at,
        Some(Some("2026-08-24T12:00:02Z".to_owned()))
    );
    assert_eq!(running.updated_at, "2026-08-24T12:00:01Z");
    assert_eq!(running.created_at, "2026-08-24T12:00:00Z");
    assert_eq!(
        service
            .inspect("observer", &format!("job_{}", "a".repeat(24)))
            .unwrap_err(),
        InspectError::JobNotFound
    );
}

#[test]
fn scheduled_jobs_wait_for_their_time() {
    let mut service = Service::new();
    let mut request = service.request("later", "email.send", 1);
    request.available_at = "2026-08-24T12:00:00.000001Z".to_owned();
    service.enqueue("producer", request).unwrap();
    assert_eq!(
        refused_claim(service.claim("worker")),
        ClaimError::NoJobAvailable
    );
    service.sleep(1);
    claimed(service.claim("worker"));
}

#[test]
fn a_leased_job_is_not_claimed_again_before_expiry() {
    let mut service = Service::new();
    let request = service.request("one", "email.send", 3);
    service.enqueue("producer", request).unwrap();
    claimed(service.claim("worker-a"));
    service.sleep(SECOND - 1);
    assert_eq!(
        refused_claim(service.claim("worker-b")),
        ClaimError::NoJobAvailable
    );
    service.sleep(1);
    assert_eq!(claimed(service.claim("worker-b")).attempt, 2);
}

#[test]
fn an_expired_lease_has_no_rights() {
    let mut service = Service::new();
    let request = service.request("one", "email.send", 3);
    let id = service.enqueue("producer", request).unwrap().job_id;
    let token = claimed(service.claim("worker")).lease_token;
    service.sleep(SECOND);
    assert_eq!(
        service.renew("worker", &id, &token).unwrap_err(),
        RenewError::InvalidLease
    );
    assert_eq!(
        service.complete("worker", &id, &token).unwrap_err(),
        CompleteError::InvalidLease
    );
    assert_eq!(
        service.fail("worker", &id, &token, "late", true).unwrap_err(),
        FailError::InvalidLease
    );
    let state = service.inspect("observer", &id).unwrap();
    assert_eq!(state.status, InspectResponseStatus::Running);
    assert_eq!(state.updated_at, "2026-08-24T12:00:00Z");
}

#[test]
fn a_lease_belongs_to_its_worker() {
    let mut service = Service::new();
    let request = service.request("one", "email.send", 3);
    let id = service.enqueue("producer", request).unwrap().job_id;
    let token = claimed(service.claim("worker-a")).lease_token;
    assert_eq!(
        service.complete("worker-b", &id, &token).unwrap_err(),
        CompleteError::InvalidLease
    );
    assert_eq!(
        service.complete("worker-a", &id, &token).unwrap(),
        CompleteResponse { completed: true }
    );
}

#[test]
fn a_renewed_lease_lasts_longer() {
    let mut service = Service::new();
    let request = service.request("one", "email.send", 3);
    let id = service.enqueue("producer", request).unwrap().job_id;
    let token = claimed(service.claim("worker")).lease_token;
    service.sleep(600_000);
    assert_eq!(
        service.renew("worker", &id, &token).unwrap(),
        RenewResponse {
            lease_expires_at: "2026-08-24T12:00:01.6Z".to_owned()
        }
    );
    service.sleep(600_000);
    assert_eq!(
        refused_claim(service.claim("worker")),
        ClaimError::NoJobAvailable
    );
    service.complete("worker", &id, &token).unwrap();
}

#[test]
fn a_completed_job_stays_completed() {
    let mut service = Service::new();
    let request = service.request("one", "email.send", 3);
    let id = service.enqueue("producer", request).unwrap().job_id;
    let token = claimed(service.claim("worker")).lease_token;
    service.complete("worker", &id, &token).unwrap();
    let state = service.inspect("observer", &id).unwrap();
    assert_eq!(state.lease_expires_at, Some(None));
    assert_eq!(
        service.complete("worker", &id, &token).unwrap_err(),
        CompleteError::InvalidLease
    );
    assert_eq!(
        service.fail("worker", &id, &token, "late", true).unwrap_err(),
        FailError::InvalidLease
    );
    service.sleep(HOUR);
    assert_eq!(
        refused_claim(service.claim("worker")),
        ClaimError::NoJobAvailable
    );
    assert_eq!(service.inspect("observer", &id).unwrap(), state);
}

#[test]
fn failures_back_off_and_run_out() {
    let mut service = Service::new();
    let request = service.request("one", "email.send", 4);
    let id = service.enqueue("producer", request).unwrap().job_id;
    for (available_at, wait) in [
        ("2026-08-24T12:00:01Z", SECOND),
        ("2026-08-24T12:00:03Z", 2 * SECOND),
        ("2026-08-24T12:00:07Z", 4 * SECOND),
    ] {
        let token = claimed(service.claim("worker")).lease_token;
        let outcome = service.fail("worker", &id, &token, "busy", true).unwrap();
        assert_eq!(
            outcome,
            FailResponse {
                available_at: Some(available_at.to_owned()),
                status: FailResponseStatus::Queued
            }
        );
        service.sleep(wait - 1);
        assert_eq!(
            refused_claim(service.claim("worker")),
            ClaimError::NoJobAvailable
        );
        service.sleep(1);
    }
    let claim = claimed(service.claim("worker"));
    assert_eq!(claim.attempt, 4);
    let outcome = service
        .fail("worker", &id, &claim.lease_token, "busy", true)
        .unwrap();
    assert_eq!(
        outcome,
        FailResponse {
            available_at: None,
            status: FailResponseStatus::Failed
        }
    );
}

#[test]
fn the_last_attempt_is_retired_when_its_lease_ends() {
    let mut service = Service::new();
    let request = service.request("one", "email.send", 1);
    let id = service.enqueue("producer", request).unwrap().job_id;
    claimed(service.claim("worker"));
    service.sleep(SECOND);
    assert_eq!(
        refused_claim(service.claim("worker")),
        ClaimError::NoJobAvailable
    );
    let state = service.inspect("observer", &id).unwrap();
    assert_eq!(state.status, InspectResponseStatus::Failed);
    assert_eq!(
        state.last_failure_code,
        Some(Some("attempts_exhausted".to_owned()))
    );
    assert_eq!(state.lease_expires_at, Some(None));
}

#[test]
fn keys_belong_to_their_producers() {
    let mut table = JobTable::new();
    let job = |producer: &str, id: &str| NewJob {
        id: id.to_owned(),
        producer: producer.to_owned(),
        queue: "email".to_owned(),
        kind: "email.send".to_owned(),
        payload: serde_json::from_str("{}").unwrap(),
        idempotency_key: "same".to_owned(),
        available_at: at(0),
        max_attempts: 1,
    };
    assert_eq!(
        table.enqueue(job("a", "1"), at(0)),
        Ok(EnqueueOutcome::Created("1".to_owned()))
    );
    assert_eq!(
        table.enqueue(job("b", "2"), at(0)),
        Ok(EnqueueOutcome::Created("2".to_owned()))
    );
    assert_eq!(
        table.enqueue(job("a", "3"), at(9)),
        Ok(EnqueueOutcome::Existing("1".to_owned()))
    );
    let mut taken = job("c", "2");
    taken.idempotency_key = "other".to_owned();
    assert_eq!(
        table.enqueue(taken, at(0)),
        Err(JobsError::Database {
            operation: "insert job"
        })
    );
    assert_eq!(table.rows().len(), 2);
}

#[test]
fn the_same_key_needs_the_same_content() {
    let job = NewJob {
        id: "2".to_owned(),
        producer: "a".to_owned(),
        queue: "email".to_owned(),
        kind: "email.send".to_owned(),
        payload: serde_json::from_str(r#"{"a": 1, "b": [true, null]}"#).unwrap(),
        idempotency_key: "key".to_owned(),
        available_at: at(5),
        max_attempts: 3,
    };
    let existing = ExistingJob {
        id: "1".to_owned(),
        queue: "email".to_owned(),
        kind: "email.send".to_owned(),
        payload: serde_json::from_str(r#"{"b": [true, null], "a": 1}"#).unwrap(),
        available_at: at(5),
        max_attempts: 3,
    };
    assert_eq!(
        resolve_conflict(&job, Some(existing.clone())),
        Ok(EnqueueOutcome::Existing("1".to_owned()))
    );
    let changes: Vec<fn(&mut ExistingJob)> = vec![
        |row| row.queue = "other".to_owned(),
        |row| row.kind = "other".to_owned(),
        |row| row.payload = serde_json::from_str(r#"{"a": 1}"#).unwrap(),
        |row| row.payload = Value::Null,
        |row| row.available_at = at(6),
        |row| row.max_attempts = 4,
    ];
    for change in changes {
        let mut row = existing.clone();
        change(&mut row);
        assert_eq!(
            resolve_conflict(&job, Some(row)),
            Ok(EnqueueOutcome::Conflict)
        );
    }
    assert_eq!(
        resolve_conflict(&job, None),
        Err(JobsError::IdempotencyInvariant)
    );
    assert_eq!(
        inserted(1, "2"),
        Some(EnqueueOutcome::Created("2".to_owned()))
    );
    assert_eq!(inserted(0, "2"), None);
}

#[test]
fn a_retried_job_is_another_job_to_its_key() {
    let mut service = Service::new();
    let request = service.request("one", "email.send", 3);
    let id = service
        .enqueue("producer", request.clone())
        .unwrap()
        .job_id;
    let token = claimed(service.claim("worker")).lease_token;
    assert!(!service.enqueue("producer", request.clone()).unwrap().created);
    service.fail("worker", &id, &token, "busy", true).unwrap();
    assert_eq!(
        service.enqueue("producer", request).unwrap_err(),
        EnqueueError::IdempotencyConflict
    );
}

#[test]
fn claims_go_by_availability_then_creation_then_identifier() {
    let mut late = row("a", JobStatus::Queued, 1, 0, START - 1);
    late.created_at = at(1);
    let mut newer = row("b", JobStatus::Queued, 1, 0, START - 2);
    newer.created_at = at(3);
    let mut older = row("d", JobStatus::Queued, 1, 0, START - 2);
    older.created_at = at(2);
    let mut tied = row("c", JobStatus::Queued, 1, 0, START - 2);
    tied.created_at = at(2);
    let mut elsewhere = row("0", JobStatus::Queued, 1, 0, 0);
    elsewhere.queue = "other".to_owned();
    let mut table = JobTable::from_rows(vec![late, newer, older, tied, elsewhere]).unwrap();
    let mut order = vec![];
    while let Some(job) = table.claim("email", "worker", &[7; 32], 30, at(START)) {
        order.push(job.id);
    }
    assert_eq!(order, ["c", "d", "b", "a"]);
}

#[test]
fn retirement_goes_by_expiry_then_identifier() {
    let mut rows = vec![];
    for number in 0..=EXPIRED_RETIREMENT_BATCH_LIMIT {
        rows.push(expired_row(&format!("x{number:03}"), 1, 0, START - 9));
    }
    rows.push(expired_row("z", 1, 0, START - 10));
    let mut table = JobTable::from_rows(rows).unwrap();
    assert!(table
        .claim("email", "worker", &[7; 32], 30, at(START))
        .is_none());
    let left: Vec<&str> = table
        .rows()
        .iter()
        .filter(|row| row.status == JobStatus::Running)
        .map(|row| row.id.as_str())
        .collect();
    assert_eq!(left, ["x063", "x064"]);
}

#[test]
fn inconsistent_rows_are_no_table() {
    let sound = || row("a", JobStatus::Queued, 1, 0, 0);
    assert!(JobTable::from_rows(vec![sound()]).is_some());
    assert!(JobTable::from_rows(vec![sound(), sound()]).is_none());
    let mut same_key = sound();
    same_key.id = "b".to_owned();
    assert!(JobTable::from_rows(vec![sound(), same_key.clone()]).is_none());
    same_key.producer_instance = "other".to_owned();
    assert!(JobTable::from_rows(vec![sound(), same_key]).is_some());
    let mut leased = sound();
    leased.lease_owner = Some("worker".to_owned());
    assert!(!leased.well_formed());
    assert!(JobTable::from_rows(vec![leased]).is_none());
    let mut generation = sound();
    generation.lease_generation = 1;
    assert!(!generation.well_formed());
    let mut overrun = sound();
    overrun.attempts = 2;
    overrun.lease_generation = 2;
    assert!(!overrun.well_formed());
}

#[test]
fn operations_without_a_lease_change_nothing() {
    let mut table =
        JobTable::from_rows(vec![row("a", JobStatus::Queued, 1, 0, START + 1)]).unwrap();
    let policy = RetryPolicy {
        base_seconds: 1,
        max_seconds: 4,
    };
    assert_eq!(table.renew("a", "worker", &[7; 32], 30, at(START)), None);
    assert!(!table.complete("a", "worker", &[7; 32], at(START)));
    assert!(table
        .fail("a", "worker", &[7; 32], "code", true, policy, at(START))
        .is_none());
    assert!(table
        .claim("email", "worker", &[7; 32], 30, at(START))
        .is_none());
    let row = &table.rows()[0];
    assert_eq!(row.status, JobStatus::Queued);
    assert_eq!(row.updated_at, at(START));
    assert_eq!(row.attempts, 0);
    assert!(table.inspect("b").is_none());
}

#[test]
fn stored_statuses_can_be_read() {
    for (status, text, told) in [
        (JobStatus::Queued, "queued", InspectResponseStatus::Queued),
        (
            JobStatus::Running,
            "running",
            InspectResponseStatus::Running,
        ),
        (
            JobStatus::Succeeded,
            "succeeded",
            InspectResponseStatus::Succeeded,
        ),
        (JobStatus::Failed, "failed", InspectResponseStatus::Failed),
    ] {
        assert_eq!(status_column(status), text);
        assert_eq!(decode_status(text), Ok(told));
    }
    for text in ["", "Queued", "cancelled"] {
        assert_eq!(decode_status(text), Err(JobsError::InvalidStoredStatus));
    }
}

#[test]
fn unreadable_columns_are_reported() {
    let claim = |payload: Value, expiry: i64| ClaimedJob {
        id: "a".to_owned(),
        queue: "email".to_owned(),
        kind: "email.send".to_owned(),
        payload,
        attempts: 1,
        max_attempts: 2,
        lease_expires_at: at(expiry),
    };
    let object: Value = serde_json::from_str(r#"{"a": [1]}"#).unwrap();
    let response = decode_claim(claim(object.clone(), 0)).ok().unwrap();
    assert_eq!(response.payload.len(), 1);
    assert_eq!(
        response.payload["a"],
        serde_json::from_str::<Value>("[1]").unwrap()
    );
    assert_eq!(response.lease_token, "");
    for text in ["null", "true", "1", "\"a\"", "[{}]"] {
        let payload: Value = serde_json::from_str(text).unwrap();
        assert_eq!(
            decode_claim(claim(payload, i64::MAX)).err(),
            Some(JobsError::InvalidStoredPayload)
        );
    }
    assert_eq!(
        decode_claim(claim(object.clone(), i64::MAX)).err(),
        Some(JobsError::Timestamp)
    );
    let given = claim_response(claim(object, 0), Some(BTreeMap::new()), Ok("x".to_owned()))
        .ok()
        .unwrap();
    assert_eq!(given.lease_expires_at, "x");
    assert!(given.payload.is_empty());

    let inspected = |status: &str, available_at: i64| InspectedJob {
        id: "a".to_owned(),
        queue: "email".to_owned(),
        kind: "email.send".to_owned(),
        status: status.to_owned(),
        attempts: 1,
        max_attempts: 2,
        available_at: at(available_at),
        lease_expires_at: None,
        last_failure_code: Some("busy".to_owned()),
        created_at: at(0),
        updated_at: at(0),
    };
    assert_eq!(
        decode_inspection(inspected("paused", i64::MAX)),
        Err(JobsError::InvalidStoredStatus)
    );
    assert_eq!(
        decode_inspection(inspected("queued", i64::MAX)),
        Err(JobsError::Timestamp)
    );
    let response = decode_inspection(inspected("queued", 0)).unwrap();
    assert_eq!(response.last_failure_code, Some(Some("busy".to_owned())));
    assert_eq!(response.lease_expires_at, Some(None));

    assert_eq!(
        decode_failure(FailedAttempt {
            retry: true,
            available_at: at(i64::MAX)
        }),
        Err(JobsError::Timestamp)
    );
    assert_eq!(
        decode_failure(FailedAttempt {
            retry: false,
            available_at: at(i64::MAX)
        }),
        Ok(FailResponse {
            available_at: None,
            status: FailResponseStatus::Failed
        })
    );
}

#[test]
fn every_abandoned_job_is_claimed_again_or_retired() {
    let mut service = Service::new();
    for (key, attempts) in [("one", 1), ("two", 2), ("three", 3)] {
        let request = service.request(key, "email.send", attempts);
        service.enqueue("producer", request).unwrap();
    }
    let mut claims = 0;
    for _ in 0..10 {
        if service.claim("worker").is_ok() {
            claims += 1;
        }
        service.sleep(SECOND);
    }
    assert_eq!(claims, 1 + 2 + 3);
    assert_eq!(service.count("job_", JobStatus::Failed), 3);
}

#[test]
fn other_queues_and_finished_jobs_are_left_alone() {
    let mut elsewhere = expired_row("elsewhere", 1, 0, START - 1);
    elsewhere.queue = "other".to_owned();
    let mut finished = row("finished", JobStatus::Succeeded, 3, 1, 0);
    finished.last_failure_code = Some("busy".to_owned());
    let mut table = JobTable::from_rows(vec![
        elsewhere,
        finished,
        row("due", JobStatus::Queued, 1, 0, START),
    ])
    .unwrap();
    let claim = table
        .claim("email", "worker", &[7; 32], 30, at(START))
        .unwrap();
    assert_eq!(claim.id, "due");
    let rows = table.rows();
    assert_eq!(rows[0].status, JobStatus::Running);
    assert_eq!(rows[0].lease_owner, Some("expired-worker".to_owned()));
    assert_eq!(rows[1].status, JobStatus::Succeeded);
    assert_eq!(rows[1].attempts, 1);
    assert_eq!(rows[1].updated_at, at(START));
    assert_eq!(rows[2].status, JobStatus::Running);
    assert_eq!(rows[2].lease_token_hash, Some(vec![7; 32]));
    assert_eq!(rows[2].lease_generation, 1);
}

#[test]
fn a_taken_key_resolves_as_in_the_table() {
    for kind in ["email.send", "email.delete"] {
        let mut table = JobTable::from_rows(vec![row("a", JobStatus::Queued, 1, 0, 5)]).unwrap();
        let held = &table.rows()[0];
        let existing = ExistingJob {
            id: held.id.clone(),
            queue: held.queue.clone(),
            kind: held.kind.clone(),
            payload: held.payload.clone(),
            available_at: held.available_at,
            max_attempts: held.max_attempts,
        };
        let job = NewJob {
            id: "b".to_owned(),
            producer: "producer".to_owned(),
            queue: "email".to_owned(),
            kind: kind.to_owned(),
            payload: serde_json::from_str("{}").unwrap(),
            idempotency_key: "a".to_owned(),
            available_at: at(5),
            max_attempts: 1,
        };
        let resolved = resolve_conflict(&job, Some(existing));
        assert_eq!(table.enqueue(job, at(START)), resolved);
        assert_eq!(table.rows().len(), 1);
    }
}

#[test]
fn availability_is_an_instant_whatever_its_offset() {
    let mut service = Service::new();
    let mut request = service.request("one", "email.send", 3);
    request.available_at = "2026-08-24T13:00:00+02:00".to_owned();
    let id = service.enqueue("producer", request.clone()).unwrap().job_id;
    request.available_at = "2026-08-24T11:00:00Z".to_owned();
    assert!(!service.enqueue("producer", request).unwrap().created);
    assert_eq!(
        service.inspect("observer", &id).unwrap().available_at,
        "2026-08-24T11:00:00Z"
    );
}

/// The rows of a table after those with the same identifiers were written back.
fn write_back(mut rows: Vec<JobRow>, part: &JobTable) -> Vec<String> {
    for changed in part.rows() {
        for row in rows.iter_mut().filter(|row| row.id == changed.id) {
            *row = changed.clone();
        }
    }
    describe(&rows)
}

fn describe(rows: &[JobRow]) -> Vec<String> {
    rows.iter().map(|row| format!("{row:?}")).collect()
}

#[test]
fn a_claim_needs_the_first_jobs_only() {
    let mut rows = vec![];
    for number in 0..EXPIRED_RETIREMENT_BATCH_LIMIT + 3 {
        rows.push(expired_row(&format!("x{number:03}"), 1, 0, START - 9));
    }
    rows.push(row("second", JobStatus::Queued, 1, 0, START - 1));
    rows.push(row("first", JobStatus::Queued, 1, 0, START - 2));
    rows.push(row("done", JobStatus::Succeeded, 1, 1, 0));
    let in_hand: Vec<JobRow> = rows
        .iter()
        .filter(|row| row.id == "first" || (row.id.starts_with('x') && row.id.as_str() < "x064"))
        .cloned()
        .collect();
    assert_eq!(in_hand.len() as u64, EXPIRED_RETIREMENT_BATCH_LIMIT + 1);

    let mut whole = JobTable::from_rows(rows.clone()).unwrap();
    let mut part = JobTable::from_rows(in_hand).unwrap();
    let expected = whole
        .claim("email", "worker", &[7; 32], 30, at(START))
        .unwrap();
    let claim = part
        .claim("email", "worker", &[7; 32], 30, at(START))
        .unwrap();
    assert_eq!(claim.id, "first");
    assert_eq!(claim.id, expected.id);
    assert_eq!(write_back(rows, &part), describe(whole.rows()));
}

#[test]
fn a_report_needs_its_job_only() {
    let policy = RetryPolicy {
        base_seconds: 1,
        max_seconds: 4,
    };
    let rows = vec![
        expired_row("a", 3, 0, START + 9),
        expired_row("b", 3, 0, START + 9),
    ];
    let report = |table: &mut JobTable, which: u8, id: &str| match which {
        0 => table
            .renew(id, "expired-worker", &[0; 32], 30, at(START))
            .is_some(),
        1 => table.complete(id, "expired-worker", &[0; 32], at(START)),
        _ => table
            .fail(id, "expired-worker", &[0; 32], "busy", true, policy, at(START))
            .is_some(),
    };
    for which in 0..3 {
        let mut whole = JobTable::from_rows(rows.clone()).unwrap();
        let mut part = JobTable::from_rows(vec![rows[1].clone()]).unwrap();
        assert!(report(&mut whole, which, "b"));
        assert!(report(&mut part, which, "b"));
        assert_eq!(write_back(rows.clone(), &part), describe(whole.rows()));

        let mut whole = JobTable::from_rows(rows.clone()).unwrap();
        let mut nothing = JobTable::new();
        assert!(!report(&mut whole, which, "c"));
        assert!(!report(&mut nothing, which, "c"));
        assert_eq!(describe(whole.rows()), describe(&rows));
    }
}

#[test]
fn a_final_failure_is_told_to_everybody_who_may_inspect() {
    let mut service = Service::new();
    let request = service.request("one", "email.send", 3);
    let id = service.enqueue("producer", request).unwrap().job_id;
    let token = claimed(service.claim("worker")).lease_token;
    assert_eq!(
        service.fail("worker", &id, &token, "broken", false).unwrap(),
        FailResponse {
            available_at: None,
            status: FailResponseStatus::Failed
        }
    );
    for caller in ["producer", "worker-a", "observer"] {
        let state = service.inspect(caller, &id).unwrap();
        assert_eq!(state.job_id, id);
        assert_eq!(state.status, InspectResponseStatus::Failed);
        assert_eq!(state.last_failure_code, Some(Some("broken".to_owned())));
        assert_eq!(state.lease_expires_at, Some(None));
    }
    assert_eq!(
        service.inspect("intruder", &id).unwrap_err(),
        InspectError::Unauthorized
    );
}

#[test]
fn a_report_that_is_not_retried_needs_no_later_instant() {
    let end = i64::MAX;
    let policy = RetryPolicy {
        base_seconds: 1,
        max_seconds: 4,
    };
    let rows = vec![expired_row("a", 3, 0, end)];
    let mut table = JobTable::from_rows(rows).unwrap();
    let outcome = table
        .fail("a", "expired-worker", &[0; 32], "broken", false, policy, at(end - 1))
        .unwrap();
    assert!(!outcome.retry);
    assert_eq!(table.rows()[0].status, JobStatus::Failed);
}
