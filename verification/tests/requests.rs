use std::collections::BTreeMap;

use lenso_jobs::capability::{
    ClaimError, ClaimRequest, ClaimResponse, CompleteError, CompleteRequest, CompleteResponse,
    EnqueueError, EnqueueRequest, EnqueueResponse, FailError, FailRequest, FailResponse,
    FailResponseStatus, InspectError, InspectRequest, RenewError, RenewRequest, RenewResponse,
};
use lenso_jobs::errors::{JobsError, RuntimeFailure};
use lenso_jobs::names::{valid_job_id, valid_lease_token};
use lenso_jobs::provider::{
    acceptable_job, claim_reply, complete_reply, enqueue_reply, fail_reply, inspect_reply,
    plan_claim, plan_enqueue, renew_reply, valid_job_request, PostgresJobsProvider, Step,
    MAX_PAYLOAD_BYTES,
};
use lenso_jobs::table::EnqueueOutcome;
use lenso_jobs::timestamps::{OffsetTime, Timestamp};
use lenso_jobs::tokens::lease_hash;
use lenso_jobs::JobsConfig;
use serde_json::Value;

fn config() -> JobsConfig {
    JobsConfig::new(
        "jobs".to_owned(),
        "jobs/database".to_owned(),
        30,
        5,
        300,
        vec!["email".to_owned()],
        vec!["orders".to_owned()],
        vec!["worker".to_owned()],
    )
    .unwrap()
    .with_observer_instances(vec!["operations".to_owned()])
    .unwrap()
}

fn provider(prepared: bool) -> PostgresJobsProvider {
    PostgresJobsProvider {
        config: config(),
        prepared,
    }
}

fn order_request() -> EnqueueRequest {
    EnqueueRequest {
        available_at: "2026-08-24T12:00:00Z".to_owned(),
        idempotency_key: "order-42".to_owned(),
        kind: "orders.capture".to_owned(),
        max_attempts: 3,
        payload: [("order_id".to_owned(), Value::String("42".to_owned()))]
            .into_iter()
            .collect(),
        queue: "email".to_owned(),
    }
}

fn job_id() -> String {
    format!("job_{}", "a".repeat(24))
}

fn lease_token() -> String {
    format!("job_lease_{}", "b".repeat(43))
}

fn done<A, R, E>(step: Step<A, R, E>) -> Result<Result<R, E>, RuntimeFailure> {
    match step {
        Step::Done(reply) => reply,
        Step::Perform(_) => panic!("the request went to storage"),
    }
}

fn command<A, R, E>(step: Step<A, R, E>) -> A {
    match step {
        Step::Perform(command) => command,
        Step::Done(_) => panic!("the request did not go to storage"),
    }
}

fn refusal<A, R, E>(step: Step<A, R, E>) -> E {
    match done(step) {
        Ok(Err(error)) => error,
        _ => panic!("the request was not refused"),
    }
}

fn not_prepared<A, R, E>(step: Step<A, R, E>) -> bool {
    matches!(
        done(step),
        Err(RuntimeFailure::ModuleFailure { detail }) if detail == "Jobs Module is not prepared"
    )
}

#[test]
fn enqueue_validation_bounds_portable_payloads() {
    let request = EnqueueRequest {
        available_at: "2026-08-24T12:00:00Z".to_owned(),
        idempotency_key: "order-42".to_owned(),
        kind: "orders.capture".to_owned(),
        max_attempts: 3,
        payload: [("order_id".to_owned(), Value::String("42".to_owned()))]
            .into_iter()
            .collect(),
        queue: "orders".to_owned(),
    };
    assert!(valid_job_request(&request));
    assert!(!request.redacted().contains("order_id"));
}

#[test]
fn undeclared_queues_fail_before_storage_access() {
    let provider = PostgresJobsProvider {
        config: config(),
        prepared: false,
    };
    let mut enqueue = EnqueueRequest {
        available_at: "2026-08-24T12:00:00Z".to_owned(),
        idempotency_key: "order-42".to_owned(),
        kind: "orders.capture".to_owned(),
        max_attempts: 3,
        payload: BTreeMap::new(),
        queue: "billing".to_owned(),
    };
    let enqueue_result = done(provider.enqueue(Some("orders"), enqueue.clone())).unwrap();
    assert_eq!(enqueue_result, Err(EnqueueError::InvalidJob));

    enqueue.queue = "email".to_owned();
    let storage_failure = done(provider.enqueue(Some("orders"), enqueue));
    assert!(matches!(
        storage_failure,
        Err(RuntimeFailure::ModuleFailure { detail }) if detail.contains("not prepared")
    ));
}

#[test]
fn payloads_are_measured_as_json() {
    let mut request = order_request();
    // The braces, the quoted key, the colon and the quotes of the text.
    let frame = r#"{"k":""}"#.len();
    let text = "x".repeat(MAX_PAYLOAD_BYTES - frame);
    request.payload = BTreeMap::from([("k".to_owned(), Value::String(text.clone()))]);
    assert!(valid_job_request(&request));
    request.payload = BTreeMap::from([("k".to_owned(), Value::String(format!("{text}x")))]);
    assert!(!valid_job_request(&request));
    // A quote takes two bytes.
    let mut text = text;
    text.pop();
    text.push('"');
    request.payload = BTreeMap::from([("k".to_owned(), Value::String(text))]);
    assert!(!valid_job_request(&request));
    request.payload = BTreeMap::new();
    assert!(valid_job_request(&request));
}

#[test]
fn each_part_of_a_job_is_checked() {
    assert!(valid_job_request(&order_request()));
    let broken: Vec<fn(&mut EnqueueRequest)> = vec![
        |request| request.queue = "a b".to_owned(),
        |request| request.queue = "q".repeat(129),
        |request| request.kind = String::new(),
        |request| request.kind = "k".repeat(257),
        |request| request.idempotency_key = "é".to_owned(),
        |request| request.idempotency_key = "k".repeat(257),
        |request| request.max_attempts = 0,
        |request| request.max_attempts = 101,
        |request| request.available_at = "soon".to_owned(),
    ];
    for change in broken {
        let mut request = order_request();
        change(&mut request);
        assert!(!valid_job_request(&request));
    }
    for attempts in [1, 100] {
        let mut request = order_request();
        request.max_attempts = attempts;
        assert!(valid_job_request(&request));
    }
    assert!(acceptable_job(&order_request(), Some(0), true));
    assert!(!acceptable_job(&order_request(), None, true));
    assert!(!acceptable_job(&order_request(), Some(0), false));
}

#[test]
fn callers_play_the_roles_they_are_given() {
    let provider = provider(true);
    assert_eq!(provider.producer(Some("orders")), Some("orders".to_owned()));
    assert_eq!(provider.producer(Some("worker")), None);
    assert_eq!(provider.producer(None), None);
    assert_eq!(provider.worker(Some("worker")), Some("worker".to_owned()));
    assert_eq!(provider.worker(Some("operations")), None);
    assert_eq!(provider.worker(None), None);
    for caller in ["orders", "worker", "operations"] {
        assert!(provider.can_inspect(Some(caller)));
    }
    assert!(!provider.can_inspect(Some("intruder")));
    assert!(!provider.can_inspect(None));
    assert!(provider.queue_allowed("email"));
    assert!(!provider.queue_allowed("billing"));
}

#[test]
fn strangers_are_refused_everything() {
    for prepared in [false, true] {
        let provider = provider(prepared);
        for caller in [None, Some("intruder")] {
            assert_eq!(
                refusal(provider.enqueue(caller, order_request())),
                EnqueueError::Unauthorized
            );
            assert_eq!(
                refusal(provider.claim(
                    caller,
                    ClaimRequest {
                        queue: "email".to_owned()
                    }
                )),
                ClaimError::Unauthorized
            );
            assert_eq!(
                refusal(provider.renew(
                    caller,
                    RenewRequest {
                        job_id: job_id(),
                        lease_token: lease_token()
                    }
                )),
                RenewError::Unauthorized
            );
            assert_eq!(
                refusal(provider.complete(
                    caller,
                    CompleteRequest {
                        job_id: job_id(),
                        lease_token: lease_token()
                    }
                )),
                CompleteError::Unauthorized
            );
            assert_eq!(
                refusal(provider.fail(
                    caller,
                    FailRequest {
                        failure_code: "broken".to_owned(),
                        job_id: job_id(),
                        lease_token: lease_token(),
                        retryable: true
                    }
                )),
                FailError::Unauthorized
            );
            assert_eq!(
                refusal(provider.inspect(caller, InspectRequest { job_id: job_id() })),
                InspectError::Unauthorized
            );
        }
    }
}

#[test]
fn malformed_requests_are_refused_without_storage() {
    for prepared in [false, true] {
        let provider = provider(prepared);
        for queue in ["billing", "a b", ""] {
            assert_eq!(
                refusal(provider.claim(
                    Some("worker"),
                    ClaimRequest {
                        queue: queue.to_owned()
                    }
                )),
                ClaimError::InvalidQueue
            );
        }
        for (id, token) in [
            ("job_short".to_owned(), lease_token()),
            (job_id(), "job_lease_short".to_owned()),
        ] {
            assert_eq!(
                refusal(provider.renew(
                    Some("worker"),
                    RenewRequest {
                        job_id: id.clone(),
                        lease_token: token.clone()
                    }
                )),
                RenewError::InvalidLease
            );
            assert_eq!(
                refusal(provider.complete(
                    Some("worker"),
                    CompleteRequest {
                        job_id: id.clone(),
                        lease_token: token.clone()
                    }
                )),
                CompleteError::InvalidLease
            );
            assert_eq!(
                refusal(provider.fail(
                    Some("worker"),
                    FailRequest {
                        failure_code: "a b".to_owned(),
                        job_id: id,
                        lease_token: token,
                        retryable: false
                    }
                )),
                FailError::InvalidLease
            );
        }
        assert_eq!(
            refusal(provider.fail(
                Some("worker"),
                FailRequest {
                    failure_code: "a b".to_owned(),
                    job_id: job_id(),
                    lease_token: lease_token(),
                    retryable: false
                }
            )),
            FailError::InvalidFailure
        );
        assert_eq!(
            refusal(provider.inspect(
                Some("operations"),
                InspectRequest {
                    job_id: "job_unknown".to_owned()
                }
            )),
            InspectError::JobNotFound
        );
    }
}

#[test]
fn sound_requests_need_a_prepared_module() {
    let provider = provider(false);
    assert!(not_prepared(
        provider.enqueue(Some("orders"), order_request())
    ));
    assert!(not_prepared(provider.claim(
        Some("worker"),
        ClaimRequest {
            queue: "email".to_owned()
        }
    )));
    assert!(not_prepared(provider.renew(
        Some("worker"),
        RenewRequest {
            job_id: job_id(),
            lease_token: lease_token()
        }
    )));
    assert!(not_prepared(provider.complete(
        Some("worker"),
        CompleteRequest {
            job_id: job_id(),
            lease_token: lease_token()
        }
    )));
    assert!(not_prepared(provider.fail(
        Some("worker"),
        FailRequest {
            failure_code: "broken".to_owned(),
            job_id: job_id(),
            lease_token: lease_token(),
            retryable: true
        }
    )));
    assert!(not_prepared(
        provider.inspect(Some("orders"), InspectRequest { job_id: job_id() })
    ));
}

#[test]
fn an_admitted_job_is_stored_as_it_was_asked_for() {
    let job = command(provider(true).enqueue(Some("orders"), order_request()));
    assert!(valid_job_id(&job.id));
    assert_eq!(job.producer, "orders");
    assert_eq!(job.queue, "email");
    assert_eq!(job.kind, "orders.capture");
    assert_eq!(
        job.payload,
        serde_json::from_str::<Value>(r#"{"order_id": "42"}"#).unwrap()
    );
    assert_eq!(job.idempotency_key, "order-42");
    assert_eq!(
        job.available_at,
        Timestamp {
            micros: 1_787_572_800_000_000
        }
    );
    assert_eq!(job.max_attempts, 3);
}

#[test]
fn an_admitted_claim_carries_a_fresh_token() {
    let provider = provider(true);
    let request = ClaimRequest {
        queue: "email".to_owned(),
    };
    let first = command(provider.claim(Some("worker"), request.clone()));
    let second = command(provider.claim(Some("worker"), request));
    assert_eq!(first.queue, "email");
    assert_eq!(first.worker, "worker");
    assert_eq!(first.lease_seconds, 30);
    assert!(valid_lease_token(&first.lease_token));
    assert_eq!(first.lease_token_hash, lease_hash(&first.lease_token));
    assert_ne!(first.lease_token, second.lease_token);
}

#[test]
fn admitted_reports_carry_the_hash_of_their_token() {
    let provider = provider(true);
    let renew = command(provider.renew(
        Some("worker"),
        RenewRequest {
            job_id: job_id(),
            lease_token: lease_token(),
        },
    ));
    assert_eq!(renew.job_id, job_id());
    assert_eq!(renew.worker, "worker");
    assert_eq!(renew.lease_token_hash, lease_hash(&lease_token()));
    assert_eq!(renew.lease_seconds, 30);
    let complete = command(provider.complete(
        Some("worker"),
        CompleteRequest {
            job_id: job_id(),
            lease_token: lease_token(),
        },
    ));
    assert_eq!(complete.job_id, job_id());
    assert_eq!(complete.worker, "worker");
    assert_eq!(complete.lease_token_hash, lease_hash(&lease_token()));
    let fail = command(provider.fail(
        Some("worker"),
        FailRequest {
            failure_code: "broken".to_owned(),
            job_id: job_id(),
            lease_token: lease_token(),
            retryable: true,
        },
    ));
    assert_eq!(fail.job_id, job_id());
    assert_eq!(fail.worker, "worker");
    assert_eq!(fail.lease_token_hash, lease_hash(&lease_token()));
    assert_eq!(fail.failure_code, "broken");
    assert!(fail.retryable);
    assert_eq!(fail.retry_policy.base_seconds, 5);
    assert_eq!(fail.retry_policy.max_seconds, 300);
    assert_eq!(
        command(provider.inspect(Some("operations"), InspectRequest { job_id: job_id() })),
        job_id()
    );
}

#[test]
fn failures_while_planning_are_module_failures() {
    let failed = |error: JobsError| RuntimeFailure::ModuleFailure {
        detail: error.message(),
    };
    let instant = Timestamp { micros: 7 };
    let time = OffsetTime {
        instant,
        offset_seconds: 3_600,
    };
    assert_eq!(
        done(plan_enqueue(
            "orders".to_owned(),
            order_request(),
            Err(JobsError::Timestamp),
            Err(JobsError::Random)
        )),
        Err(failed(JobsError::Timestamp))
    );
    assert_eq!(
        done(plan_enqueue(
            "orders".to_owned(),
            order_request(),
            Ok(time),
            Err(JobsError::Random)
        )),
        Err(failed(JobsError::Random))
    );
    let job = command(plan_enqueue(
        "orders".to_owned(),
        order_request(),
        Ok(time),
        Ok("job_1".to_owned()),
    ));
    assert_eq!(job.id, "job_1");
    assert_eq!(job.available_at, instant);
    let request = ClaimRequest {
        queue: "email".to_owned(),
    };
    let claim = plan_claim("worker".to_owned(), request, 30, Err(JobsError::Random));
    match done(claim) {
        Err(failure) => assert_eq!(failure, failed(JobsError::Random)),
        Ok(_) => panic!("a claim without a token was planned"),
    }
}

#[test]
fn replies_tell_the_outcome_of_storage() {
    let failure = RuntimeFailure::ModuleFailure {
        detail: "PostgreSQL operation `x` failed".to_owned(),
    };
    let database = || JobsError::Database { operation: "x" };

    assert_eq!(
        enqueue_reply(Ok(EnqueueOutcome::Created("a".to_owned()))),
        Ok(Ok(EnqueueResponse {
            created: true,
            job_id: "a".to_owned()
        }))
    );
    assert_eq!(
        enqueue_reply(Ok(EnqueueOutcome::Existing("a".to_owned()))),
        Ok(Ok(EnqueueResponse {
            created: false,
            job_id: "a".to_owned()
        }))
    );
    assert_eq!(
        enqueue_reply(Ok(EnqueueOutcome::Conflict)),
        Ok(Err(EnqueueError::IdempotencyConflict))
    );
    assert_eq!(enqueue_reply(Err(database())), Err(failure.clone()));

    let claimed = ClaimResponse {
        attempt: 1,
        job_id: job_id(),
        kind: "email.send".to_owned(),
        lease_expires_at: "2026-08-24T12:00:00Z".to_owned(),
        lease_token: String::new(),
        max_attempts: 3,
        payload: BTreeMap::from([("message_id".to_owned(), Value::String("msg-42".to_owned()))]),
        queue: "email".to_owned(),
    };
    match claim_reply(lease_token(), Ok(Some(claimed))) {
        Ok(Ok(response)) => {
            assert_eq!(response.lease_token, lease_token());
            assert_eq!(response.job_id, job_id());
            assert_eq!(response.payload.len(), 1);
            assert!(!response.redacted().contains(&response.lease_token));
            assert!(!response.redacted().contains("msg-42"));
        }
        _ => panic!("the claimed job was not told"),
    }
    assert!(matches!(
        claim_reply(lease_token(), Ok(None)),
        Ok(Err(ClaimError::NoJobAvailable))
    ));
    assert!(matches!(
        claim_reply(lease_token(), Err(database())),
        Err(RuntimeFailure::ModuleFailure { .. })
    ));

    assert_eq!(
        renew_reply(Ok(Some(Timestamp { micros: 0 }))),
        Ok(Ok(RenewResponse {
            lease_expires_at: "1970-01-01T00:00:00Z".to_owned()
        }))
    );
    assert_eq!(
        renew_reply(Ok(Some(Timestamp { micros: i64::MAX }))),
        Err(RuntimeFailure::ModuleFailure {
            detail: "job timestamp is invalid".to_owned()
        })
    );
    assert_eq!(renew_reply(Ok(None)), Ok(Err(RenewError::InvalidLease)));
    assert_eq!(renew_reply(Err(database())), Err(failure.clone()));

    assert_eq!(
        complete_reply(Ok(true)),
        Ok(Ok(CompleteResponse { completed: true }))
    );
    assert_eq!(
        complete_reply(Ok(false)),
        Ok(Err(CompleteError::InvalidLease))
    );
    assert_eq!(complete_reply(Err(database())), Err(failure.clone()));

    let recorded = FailResponse {
        available_at: None,
        status: FailResponseStatus::Failed,
    };
    assert_eq!(
        fail_reply(Ok(Some(recorded.clone()))),
        Ok(Ok(recorded))
    );
    assert_eq!(fail_reply(Ok(None)), Ok(Err(FailError::InvalidLease)));
    assert_eq!(fail_reply(Err(database())), Err(failure.clone()));

    assert_eq!(inspect_reply(Ok(None)), Ok(Err(InspectError::JobNotFound)));
    assert_eq!(inspect_reply(Err(database())), Err(failure));
}
