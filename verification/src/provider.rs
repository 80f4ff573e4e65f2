//! What the module does with a request: whether it is admitted, what is asked of
//! storage for it, and what the caller is told in the end.
//!
//! Every operation takes two steps. The first refuses the request or names the
//! storage command to perform; the second turns the command's outcome into the
//! reply. A reply is `Ok(Ok(..))` for success, `Ok(Err(..))` for a refusal that is
//! part of the contract, and `Err(..)` for a failure of the module.
use vstd::prelude::*;
use vstd::utf8::encode_utf8;

use crate::capability::{
    ClaimError, ClaimRequest, ClaimResponse, CompleteError, CompleteRequest, CompleteResponse,
    EnqueueError, EnqueueRequest, EnqueueResponse, FailError, FailRequest, FailResponse,
    InspectError, InspectRequest, InspectResponse, RenewError, RenewRequest, RenewResponse,
};
use crate::config::JobsConfig;
use crate::errors::{runtime, JobsError, RuntimeFailure};
use crate::names::{
    contains_text, has_text, is_job_id, is_lease_token, is_name, lemma_ascii_chars, valid_job_id,
    valid_lease_token, valid_name,
};
use crate::payload::{encoded_len, json_members, object_json, object_value};
use crate::retry::RetryPolicy;
use crate::table::{EnqueueOutcome, NewJob};
use crate::timestamps::{format_time, parse_time, rfc3339_nanos, OffsetTime, Timestamp};
use crate::tokens::{
    base64_len, base64_url, law_generated_values_are_valid, lease_hash, random_value, sha256_digest,
};

verus! {

/// The most bytes a payload may take as JSON.
pub const MAX_PAYLOAD_BYTES: usize = 262_144;

/// The first step of an operation.
pub enum Step<A, R, E> {
    /// The storage command to perform.
    Perform(A),
    /// The reply, without any storage access.
    Done(Result<Result<R, E>, RuntimeFailure>),
}

/// What a claim asks of storage.
pub struct ClaimCommand {
    pub queue: String,
    pub worker: String,
    pub lease_token: String,
    pub lease_token_hash: Vec<u8>,
    pub lease_seconds: i64,
}

/// What a renewal asks of storage.
pub struct RenewCommand {
    pub job_id: String,
    pub worker: String,
    pub lease_token_hash: Vec<u8>,
    pub lease_seconds: i64,
}

/// What a completion asks of storage.
pub struct CompleteCommand {
    pub job_id: String,
    pub worker: String,
    pub lease_token_hash: Vec<u8>,
}

/// What a reported failure asks of storage.
pub struct FailCommand {
    pub job_id: String,
    pub worker: String,
    pub lease_token_hash: Vec<u8>,
    pub failure_code: String,
    pub retryable: bool,
    pub retry_policy: RetryPolicy,
}

/// Whether a request goes to storage: `Ok(Ok(()))` if it does, the refusal if it
/// is refused, and `Err(())` if the module is not prepared.
pub type Admission<E> = Result<Result<(), E>, ()>;

/// `reply` is what a request is told that does not go to storage.
pub open spec fn turned_away<R, E>(
    admission: Admission<E>,
    reply: Result<Result<R, E>, RuntimeFailure>,
) -> bool {
    match (admission, reply) {
        (Ok(Err(refusal)), Ok(Err(error))) => error == refusal,
        (Err(_), Err(failure)) => failure.fails_module("Jobs Module is not prepared"@),
        _ => false,
    }
}

/// The caller is one of `instances`.
pub open spec fn is_one_of(caller: Option<&str>, instances: Seq<String>) -> bool {
    caller matches Some(name) && has_text(instances, name@)
}

/// The JSON text of the payload exists and is not too long.
pub open spec fn payload_fits(encoded: Option<nat>) -> bool {
    encoded matches Some(length) && length <= MAX_PAYLOAD_BYTES
}

impl EnqueueRequest {
    /// The request describes a job, given the length of its payload as JSON and
    /// whether its time of availability can be read.
    pub open spec fn describes_job(self, encoded: Option<nat>, readable: bool) -> bool {
        &&& is_name(self.queue@, 128)
        &&& is_name(self.kind@, 256)
        &&& is_name(self.idempotency_key@, 256)
        &&& 1 <= self.max_attempts <= 100
        &&& payload_fits(encoded)
        &&& readable
    }

    /// The length of the payload as JSON.
    pub open spec fn encoded_payload(self) -> Option<nat> {
        match object_json(self.payload@) {
            Some(bytes) => Some(bytes.len()),
            None => None,
        }
    }

    /// The request describes a job.
    pub open spec fn valid(self) -> bool {
        self.describes_job(self.encoded_payload(), rfc3339_nanos(self.available_at@) is Some)
    }
}

/// Whether a request describes a job, given the length of its payload as JSON and
/// whether its time of availability can be read.
pub fn acceptable_job(request: &EnqueueRequest, encoded: Option<usize>, readable: bool) -> (r: bool)
    ensures
        r == request.describes_job(
            match encoded {
                Some(length) => Some(length as nat),
                None => None,
            },
            readable,
        ),
{
    let fits = match encoded {
        Some(length) => length <= MAX_PAYLOAD_BYTES,
        None => false,
    };
    valid_name(request.queue.as_str(), 128) && valid_name(request.kind.as_str(), 256)
        && valid_name(request.idempotency_key.as_str(), 256) && 1 <= request.max_attempts
        && request.max_attempts <= 100 && fits && readable
}

/// Whether a request describes a job.
pub fn valid_job_request(request: &EnqueueRequest) -> (r: bool)
    ensures
        r == request.valid(),
{
    let encoded = encoded_len(&request.payload);
    let readable = parse_time(request.available_at.as_str()).is_ok();
    acceptable_job(request, encoded, readable)
}

/// The provider of the job operations for one module instance.
pub struct PostgresJobsProvider {
    pub config: JobsConfig,
    /// Storage is at hand.
    pub prepared: bool,
}

impl PostgresJobsProvider {
    /// Storage is at hand, or the failure that reports that it is not.
    pub fn prepared(&self) -> (r: Result<(), RuntimeFailure>)
        ensures
            match r {
                Ok(_) => self.prepared,
                Err(failure) => !self.prepared && failure.fails_module(
                    "Jobs Module is not prepared"@,
                ),
            },
    {
        if self.prepared {
            Ok(())
        } else {
            Err(
                RuntimeFailure::ModuleFailure {
                    detail: "Jobs Module is not prepared".to_owned(),
                },
            )
        }
    }

    /// The caller, if it may enqueue.
    pub fn producer(&self, caller: Option<&str>) -> (r: Option<String>)
        ensures
            r is Some == is_one_of(caller, self.config.producer_instances@),
            r matches Some(name) ==> caller matches Some(given) && name@ == given@,
    {
        match caller {
            Some(name) => if contains_text(&self.config.producer_instances, name) {
                Some(name.to_owned())
            } else {
                None
            },
            None => None,
        }
    }

    /// The caller, if it may claim and report.
    pub fn worker(&self, caller: Option<&str>) -> (r: Option<String>)
        ensures
            r is Some == is_one_of(caller, self.config.worker_instances@),
            r matches Some(name) ==> caller matches Some(given) && name@ == given@,
    {
        match caller {
            Some(name) => if contains_text(&self.config.worker_instances, name) {
                Some(name.to_owned())
            } else {
                None
            },
            None => None,
        }
    }

    /// Whether the instance declares the queue.
    pub fn queue_allowed(&self, queue: &str) -> (r: bool)
        ensures
            r == has_text(self.config.queues@, queue@),
    {
        contains_text(&self.config.queues, queue)
    }

    /// The caller is a producer, a worker or an observer.
    pub open spec fn may_inspect(self, caller: Option<&str>) -> bool {
        ||| is_one_of(caller, self.config.producer_instances@)
        ||| is_one_of(caller, self.config.worker_instances@)
        ||| is_one_of(caller, self.config.observer_instances@)
    }

    /// Whether the caller may inspect jobs.
    pub fn can_inspect(&self, caller: Option<&str>) -> (r: bool)
        ensures
            r == self.may_inspect(caller),
    {
        match caller {
            Some(name) => contains_text(&self.config.producer_instances, name) || contains_text(
                &self.config.worker_instances,
                name,
            ) || contains_text(&self.config.observer_instances, name),
            None => false,
        }
    }

    pub open spec fn enqueue_admission(
        self,
        caller: Option<&str>,
        request: EnqueueRequest,
    ) -> Admission<EnqueueError> {
        if !is_one_of(caller, self.config.producer_instances@) {
            Ok(Err(EnqueueError::Unauthorized))
        } else if !has_text(self.config.queues@, request.queue@) || !request.valid() {
            Ok(Err(EnqueueError::InvalidJob))
        } else if !self.prepared {
            Err(())
        } else {
            Ok(Ok(()))
        }
    }

    /// Admits a request to enqueue, and names its producer.
    pub fn admit_enqueue(&self, caller: Option<&str>, request: &EnqueueRequest) -> (r: Result<
        Result<String, EnqueueError>,
        RuntimeFailure,
    >)
        ensures
            match r {
                Ok(Ok(producer)) => {
                    &&& self.enqueue_admission(caller, *request) == Ok::<
                        Result<(), EnqueueError>,
                        (),
                    >(Ok(()))
                    &&& caller matches Some(name) && producer@ == name@
                },
                _ => turned_away(self.enqueue_admission(caller, *request), r),
            },
    {
        let producer = match self.producer(caller) {
            Some(producer) => producer,
            None => {
                return Ok(Err(EnqueueError::Unauthorized));
            },
        };
        if !self.queue_allowed(request.queue.as_str()) || !valid_job_request(request) {
            return Ok(Err(EnqueueError::InvalidJob));
        }
        match self.prepared() {
            Ok(_) => Ok(Ok(producer)),
            Err(failure) => Err(failure),
        }
    }

    pub open spec fn claim_admission(
        self,
        caller: Option<&str>,
        request: ClaimRequest,
    ) -> Admission<ClaimError> {
        if !is_one_of(caller, self.config.worker_instances@) {
            Ok(Err(ClaimError::Unauthorized))
        } else if !is_name(request.queue@, 128) || !has_text(
            self.config.queues@,
            request.queue@,
        ) {
            Ok(Err(ClaimError::InvalidQueue))
        } else if !self.prepared {
            Err(())
        } else {
            Ok(Ok(()))
        }
    }

    /// Admits a request to claim, and names its worker.
    pub fn admit_claim(&self, caller: Option<&str>, request: &ClaimRequest) -> (r: Result<
        Result<String, ClaimError>,
        RuntimeFailure,
    >)
        ensures
            match r {
                Ok(Ok(worker)) => {
                    &&& self.claim_admission(caller, *request) == Ok::<Result<(), ClaimError>, ()>(
                        Ok(()),
                    )
                    &&& caller matches Some(name) && worker@ == name@
                },
                _ => turned_away(self.claim_admission(caller, *request), r),
            },
    {
        let worker = match self.worker(caller) {
            Some(worker) => worker,
            None => {
                return Ok(Err(ClaimError::Unauthorized));
            },
        };
        if !valid_name(request.queue.as_str(), 128) || !self.queue_allowed(request.queue.as_str()) {
            return Ok(Err(ClaimError::InvalidQueue));
        }
        match self.prepared() {
            Ok(_) => Ok(Ok(worker)),
            Err(failure) => Err(failure),
        }
    }

    /// The first step of enqueueing. The identifier of the job is random, so an
    /// admitted request fails where the operating system has no random bytes.
    pub fn enqueue(&self, caller: Option<&str>, request: EnqueueRequest) -> (r: Step<
        NewJob,
        EnqueueResponse,
        EnqueueError,
    >)
        ensures
            match (self.enqueue_admission(caller, request), r) {
                (Ok(Ok(_)), Step::Perform(job)) => {
                    &&& is_job_id(job.id@)
                    &&& caller matches Some(name) && job.asked_by(name@, request)
                },
                (Ok(Ok(_)), Step::Done(reply)) => reply matches Err(failure)
                    && failure.fails_module(JobsError::Random.text()),
                (admission, Step::Done(reply)) => turned_away(admission, reply),
                _ => false,
            },
    {
        match self.admit_enqueue(caller, &request) {
            Ok(Ok(producer)) => {
                let available_at = parse_time(request.available_at.as_str());
                proof {
                    lemma_prefix_lengths();
                }
                let id = random_value("job_", 18);
                proof {
                    if let Ok(text) = &id {
                        let bytes = choose|bytes: Seq<u8>|
                            bytes.len() == 18 && text@ == "job_"@ + #[trigger] base64_url(bytes);
                        law_generated_values_are_valid(bytes);
                    }
                }
                plan_enqueue(producer, request, available_at, id)
            },
            Ok(Err(error)) => Step::Done(Ok(Err(error))),
            Err(failure) => Step::Done(Err(failure)),
        }
    }

    /// The first step of claiming. The lease token is random, so an admitted
    /// request fails where the operating system has no random bytes.
    pub fn claim(&self, caller: Option<&str>, request: ClaimRequest) -> (r: Step<
        ClaimCommand,
        ClaimResponse,
        ClaimError,
    >)
        ensures
            match (self.claim_admission(caller, request), r) {
                (Ok(Ok(_)), Step::Perform(command)) => {
                    &&& command.queue == request.queue
                    &&& caller matches Some(name) && command.worker@ == name@
                    &&& is_lease_token(command.lease_token@)
                    &&& command.lease_token_hash@ == sha256_digest(
                        encode_utf8(command.lease_token@),
                    )
                    &&& command.lease_seconds == self.config.lease_seconds
                },
                (Ok(Ok(_)), Step::Done(reply)) => reply matches Err(failure)
                    && failure.fails_module(JobsError::Random.text()),
                (admission, Step::Done(reply)) => turned_away(admission, reply),
                _ => false,
            },
    {
        match self.admit_claim(caller, &request) {
            Ok(Ok(worker)) => {
                proof {
                    lemma_prefix_lengths();
                }
                let token = random_value("job_lease_", 32);
                proof {
                    if let Ok(text) = &token {
                        let bytes = choose|bytes: Seq<u8>|
                            bytes.len() == 32 && text@ == "job_lease_"@ + #[trigger] base64_url(
                                bytes,
                            );
                        law_generated_values_are_valid(bytes);
                    }
                }
                plan_claim(worker, request, self.config.lease_seconds, token)
            },
            Ok(Err(error)) => Step::Done(Ok(Err(error))),
            Err(failure) => Step::Done(Err(failure)),
        }
    }

    pub open spec fn renew_admission(
        self,
        caller: Option<&str>,
        request: RenewRequest,
    ) -> Admission<RenewError> {
        if !is_one_of(caller, self.config.worker_instances@) {
            Ok(Err(RenewError::Unauthorized))
        } else if !is_job_id(request.job_id@) || !is_lease_token(request.lease_token@) {
            Ok(Err(RenewError::InvalidLease))
        } else if !self.prepared {
            Err(())
        } else {
            Ok(Ok(()))
        }
    }

    /// The first step of renewing a lease.
    pub fn renew(&self, caller: Option<&str>, request: RenewRequest) -> (r: Step<
        RenewCommand,
        RenewResponse,
        RenewError,
    >)
        ensures
            match (self.renew_admission(caller, request), r) {
                (Ok(Ok(_)), Step::Perform(command)) => {
                    &&& command.job_id == request.job_id
                    &&& caller matches Some(name) && command.worker@ == name@
                    &&& command.lease_token_hash@ == sha256_digest(
                        encode_utf8(request.lease_token@),
                    )
                    &&& command.lease_seconds == self.config.lease_seconds
                },
                (admission, Step::Done(reply)) => turned_away(admission, reply),
                _ => false,
            },
    {
        let worker = match self.worker(caller) {
            Some(worker) => worker,
            None => {
                return Step::Done(Ok(Err(RenewError::Unauthorized)));
            },
        };
        if !valid_job_id(request.job_id.as_str()) || !valid_lease_token(
            request.lease_token.as_str(),
        ) {
            return Step::Done(Ok(Err(RenewError::InvalidLease)));
        }
        match self.prepared() {
            Ok(_) => Step::Perform(
                RenewCommand {
                    job_id: request.job_id,
                    worker,
                    lease_token_hash: lease_hash(request.lease_token.as_str()),
                    lease_seconds: self.config.lease_seconds,
                },
            ),
            Err(failure) => Step::Done(Err(failure)),
        }
    }

    pub open spec fn complete_admission(
        self,
        caller: Option<&str>,
        request: CompleteRequest,
    ) -> Admission<CompleteError> {
        if !is_one_of(caller, self.config.worker_instances@) {
            Ok(Err(CompleteError::Unauthorized))
        } else if !is_job_id(request.job_id@) || !is_lease_token(request.lease_token@) {
            Ok(Err(CompleteError::InvalidLease))
        } else if !self.prepared {
            Err(())
        } else {
            Ok(Ok(()))
        }
    }

    /// The first step of completing a job.
    pub fn complete(&self, caller: Option<&str>, request: CompleteRequest) -> (r: Step<
        CompleteCommand,
        CompleteResponse,
        CompleteError,
    >)
        ensures
            match (self.complete_admission(caller, request), r) {
                (Ok(Ok(_)), Step::Perform(command)) => {
                    &&& command.job_id == request.job_id
                    &&& caller matches Some(name) && command.worker@ == name@
                    &&& command.lease_token_hash@ == sha256_digest(
                        encode_utf8(request.lease_token@),
                    )
                },
                (admission, Step::Done(reply)) => turned_away(admission, reply),
                _ => false,
            },
    {
        let worker = match self.worker(caller) {
            Some(worker) => worker,
            None => {
                return Step::Done(Ok(Err(CompleteError::Unauthorized)));
            },
        };
        if !valid_job_id(request.job_id.as_str()) || !valid_lease_token(
            request.lease_token.as_str(),
        ) {
            return Step::Done(Ok(Err(CompleteError::InvalidLease)));
        }
        match self.prepared() {
            Ok(_) => Step::Perform(
                CompleteCommand {
                    job_id: request.job_id,
                    worker,
                    lease_token_hash: lease_hash(request.lease_token.as_str()),
                },
            ),
            Err(failure) => Step::Done(Err(failure)),
        }
    }

    pub open spec fn fail_admission(
        self,
        caller: Option<&str>,
        request: FailRequest,
    ) -> Admission<FailError> {
        if !is_one_of(caller, self.config.worker_instances@) {
            Ok(Err(FailError::Unauthorized))
        } else if !is_job_id(request.job_id@) || !is_lease_token(request.lease_token@) {
            Ok(Err(FailError::InvalidLease))
        } else if !is_name(request.failure_code@, 128) {
            Ok(Err(FailError::InvalidFailure))
        } else if !self.prepared {
            Err(())
        } else {
            Ok(Ok(()))
        }
    }

    /// The first step of reporting a failed attempt.
    pub fn fail(&self, caller: Option<&str>, request: FailRequest) -> (r: Step<
        FailCommand,
        FailResponse,
        FailError,
    >)
        ensures
            match (self.fail_admission(caller, request), r) {
                (Ok(Ok(_)), Step::Perform(command)) => {
                    &&& command.job_id == request.job_id
                    &&& caller matches Some(name) && command.worker@ == name@
                    &&& command.lease_token_hash@ == sha256_digest(
                        encode_utf8(request.lease_token@),
                    )
                    &&& command.failure_code == request.failure_code
                    &&& command.retryable == request.retryable
                    &&& command.retry_policy == self.config.policy()
                },
                (admission, Step::Done(reply)) => turned_away(admission, reply),
                _ => false,
            },
    {
        let worker = match self.worker(caller) {
            Some(worker) => worker,
            None => {
                return Step::Done(Ok(Err(FailError::Unauthorized)));
            },
        };
        if !valid_job_id(request.job_id.as_str()) || !valid_lease_token(
            request.lease_token.as_str(),
        ) {
            return Step::Done(Ok(Err(FailError::InvalidLease)));
        }
        if !valid_name(request.failure_code.as_str(), 128) {
            return Step::Done(Ok(Err(FailError::InvalidFailure)));
        }
        match self.prepared() {
            Ok(_) => Step::Perform(
                FailCommand {
                    job_id: request.job_id,
                    worker,
                    lease_token_hash: lease_hash(request.lease_token.as_str()),
                    failure_code: request.failure_code,
                    retryable: request.retryable,
                    retry_policy: RetryPolicy {
                        base_seconds: self.config.retry_base_seconds,
                        max_seconds: self.config.retry_max_seconds,
                    },
                },
            ),
            Err(failure) => Step::Done(Err(failure)),
        }
    }

    pub open spec fn inspect_admission(
        self,
        caller: Option<&str>,
        request: InspectRequest,
    ) -> Admission<InspectError> {
        if !self.may_inspect(caller) {
            Ok(Err(InspectError::Unauthorized))
        } else if !is_job_id(request.job_id@) {
            Ok(Err(InspectError::JobNotFound))
        } else if !self.prepared {
            Err(())
        } else {
            Ok(Ok(()))
        }
    }

    /// The first step of inspecting a job: the identifier to look up.
    pub fn inspect(&self, caller: Option<&str>, request: InspectRequest) -> (r: Step<
        String,
        InspectResponse,
        InspectError,
    >)
        ensures
            match (self.inspect_admission(caller, request), r) {
                (Ok(Ok(_)), Step::Perform(job_id)) => job_id == request.job_id,
                (admission, Step::Done(reply)) => turned_away(admission, reply),
                _ => false,
            },
    {
        if !self.can_inspect(caller) {
            return Step::Done(Ok(Err(InspectError::Unauthorized)));
        }
        if !valid_job_id(request.job_id.as_str()) {
            return Step::Done(Ok(Err(InspectError::JobNotFound)));
        }
        match self.prepared() {
            Ok(_) => Step::Perform(request.job_id),
            Err(failure) => Step::Done(Err(failure)),
        }
    }
}

impl NewJob {
    /// The job is the one that `producer` asked for with `request`.
    pub open spec fn asked_by(self, producer: Seq<char>, request: EnqueueRequest) -> bool {
        &&& self.producer@ == producer
        &&& self.queue == request.queue
        &&& self.kind == request.kind
        &&& json_members(self.payload) == Some(request.payload@)
        &&& self.idempotency_key == request.idempotency_key
        &&& rfc3339_nanos(request.available_at@) matches Some(nanos) && self.available_at.micros
            == nanos / 1000
        &&& self.max_attempts == request.max_attempts
    }
}

proof fn lemma_prefix_lengths()
    ensures
        encode_utf8("job_"@).len() == 4,
        encode_utf8("job_lease_"@).len() == 10,
        base64_len(18) == 24,
        base64_len(32) == 43,
{
    reveal_strlit("job_");
    reveal_strlit("job_lease_");
    lemma_ascii_chars("job_"@);
    lemma_ascii_chars("job_lease_"@);
}

/// The storage command for an admitted request to enqueue, given the time that its
/// availability denotes and the identifier drawn for the job.
pub fn plan_enqueue(
    producer: String,
    request: EnqueueRequest,
    available_at: Result<OffsetTime, JobsError>,
    id: Result<String, JobsError>,
) -> (r: Step<NewJob, EnqueueResponse, EnqueueError>)
    ensures
        match (available_at, id, r) {
            (Err(error), _, Step::Done(Err(failure))) => failure.fails_module(error.text()),
            (Ok(_), Err(error), Step::Done(Err(failure))) => failure.fails_module(error.text()),
            (Ok(time), Ok(drawn), Step::Perform(job)) => {
                &&& job.id == drawn
                &&& job.producer == producer
                &&& job.queue == request.queue
                &&& job.kind == request.kind
                &&& json_members(job.payload) == Some(request.payload@)
                &&& job.idempotency_key == request.idempotency_key
                &&& job.available_at == time.instant
                &&& job.max_attempts == request.max_attempts
            },
            _ => false,
        },
{
    let available_at = match available_at {
        Ok(time) => time.instant,
        Err(error) => {
            return Step::Done(Err(runtime(error)));
        },
    };
    match id {
        Ok(id) => Step::Perform(
            NewJob {
                id,
                producer,
                queue: request.queue,
                kind: request.kind,
                payload: object_value(request.payload),
                idempotency_key: request.idempotency_key,
                available_at,
                max_attempts: request.max_attempts,
            },
        ),
        Err(error) => Step::Done(Err(runtime(error))),
    }
}

/// The reply to a request to enqueue.
pub fn enqueue_reply(outcome: Result<EnqueueOutcome, JobsError>) -> (r: Result<
    Result<EnqueueResponse, EnqueueError>,
    RuntimeFailure,
>)
    ensures
        match (outcome, r) {
            (Ok(EnqueueOutcome::Created(id)), Ok(Ok(response))) => response.job_id == id
                && response.created,
            (Ok(EnqueueOutcome::Existing(id)), Ok(Ok(response))) => response.job_id == id
                && !response.created,
            (Ok(EnqueueOutcome::Conflict), Ok(Err(error))) => error
                == EnqueueError::IdempotencyConflict,
            (Err(error), Err(failure)) => failure.fails_module(error.text()),
            _ => false,
        },
{
    match outcome {
        Ok(EnqueueOutcome::Created(job_id)) => Ok(Ok(EnqueueResponse { created: true, job_id })),
        Ok(EnqueueOutcome::Existing(job_id)) => Ok(Ok(EnqueueResponse { created: false, job_id })),
        Ok(EnqueueOutcome::Conflict) => Ok(Err(EnqueueError::IdempotencyConflict)),
        Err(error) => Err(runtime(error)),
    }
}

/// The storage command for an admitted request to claim, given the token drawn
/// for the lease.
pub fn plan_claim(
    worker: String,
    request: ClaimRequest,
    lease_seconds: i64,
    token: Result<String, JobsError>,
) -> (r: Step<ClaimCommand, ClaimResponse, ClaimError>)
    ensures
        match (token, r) {
            (Ok(drawn), Step::Perform(command)) => {
                &&& command.queue == request.queue
                &&& command.worker == worker
                &&& command.lease_token == drawn
                &&& command.lease_token_hash@ == sha256_digest(encode_utf8(drawn@))
                &&& command.lease_seconds == lease_seconds
            },
            (Err(error), Step::Done(Err(failure))) => failure.fails_module(error.text()),
            _ => false,
        },
{
    match token {
        Ok(lease_token) => {
            let lease_token_hash = lease_hash(lease_token.as_str());
            Step::Perform(
                ClaimCommand {
                    queue: request.queue,
                    worker,
                    lease_token,
                    lease_token_hash,
                    lease_seconds,
                },
            )
        },
        Err(error) => Step::Done(Err(runtime(error))),
    }
}

/// The reply to a request to claim, under the token drawn for the lease.
pub fn claim_reply(lease_token: String, claimed: Result<Option<ClaimResponse>, JobsError>) -> (r:
    Result<Result<ClaimResponse, ClaimError>, RuntimeFailure>)
    ensures
        match (claimed, r) {
            (Ok(Some(job)), Ok(Ok(response))) => response == (ClaimResponse { lease_token, ..job }),
            (Ok(None), Ok(Err(error))) => error == ClaimError::NoJobAvailable,
            (Err(error), Err(failure)) => failure.fails_module(error.text()),
            _ => false,
        },
{
    match claimed {
        Ok(Some(job)) => Ok(Ok(ClaimResponse { lease_token, ..job })),
        Ok(None) => Ok(Err(ClaimError::NoJobAvailable)),
        Err(error) => Err(runtime(error)),
    }
}

/// The reply to a request to renew, given the end of the renewed lease.
pub fn renew_reply(expiry: Result<Option<Timestamp>, JobsError>) -> (r: Result<
    Result<RenewResponse, RenewError>,
    RuntimeFailure,
>)
    ensures
        match (expiry, r) {
            (Ok(Some(instant)), Ok(Ok(response))) => instant.shown_as(response.lease_expires_at@),
            (Ok(Some(instant)), Err(failure)) => !instant.printable() && failure.fails_module(
                JobsError::Timestamp.text(),
            ),
            (Ok(None), Ok(Err(error))) => error == RenewError::InvalidLease,
            (Err(error), Err(failure)) => failure.fails_module(error.text()),
            _ => false,
        },
{
    match expiry {
        Ok(Some(instant)) => match format_time(OffsetTime::utc(instant)) {
            Ok(lease_expires_at) => Ok(Ok(RenewResponse { lease_expires_at })),
            Err(error) => Err(runtime(error)),
        },
        Ok(None) => Ok(Err(RenewError::InvalidLease)),
        Err(error) => Err(runtime(error)),
    }
}

/// The reply to a request to complete.
pub fn complete_reply(completed: Result<bool, JobsError>) -> (r: Result<
    Result<CompleteResponse, CompleteError>,
    RuntimeFailure,
>)
    ensures
        match (completed, r) {
            (Ok(done), Ok(Ok(response))) => done && response.completed,
            (Ok(done), Ok(Err(error))) => !done && error == CompleteError::InvalidLease,
            (Err(error), Err(failure)) => failure.fails_module(error.text()),
            _ => false,
        },
{
    match completed {
        Ok(completed) => if completed {
            Ok(Ok(CompleteResponse { completed }))
        } else {
            Ok(Err(CompleteError::InvalidLease))
        },
        Err(error) => Err(runtime(error)),
    }
}

/// The reply to a reported failure.
pub fn fail_reply(recorded: Result<Option<FailResponse>, JobsError>) -> (r: Result<
    Result<FailResponse, FailError>,
    RuntimeFailure,
>)
    ensures
        match (recorded, r) {
            (Ok(Some(outcome)), Ok(Ok(response))) => response == outcome,
            (Ok(None), Ok(Err(error))) => error == FailError::InvalidLease,
            (Err(error), Err(failure)) => failure.fails_module(error.text()),
            _ => false,
        },
{
    match recorded {
        Ok(Some(response)) => Ok(Ok(response)),
        Ok(None) => Ok(Err(FailError::InvalidLease)),
        Err(error) => Err(runtime(error)),
    }
}

/// The reply to a request to inspect.
pub fn inspect_reply(inspected: Result<Option<InspectResponse>, JobsError>) -> (r: Result<
    Result<InspectResponse, InspectError>,
    RuntimeFailure,
>)
    ensures
        match (inspected, r) {
            (Ok(Some(job)), Ok(Ok(response))) => response == job,
            (Ok(None), Ok(Err(error))) => error == InspectError::JobNotFound,
            (Err(error), Err(failure)) => failure.fails_module(error.text()),
            _ => false,
        },
{
    match inspected {
        Ok(Some(response)) => Ok(Ok(response)),
        Ok(None) => Ok(Err(InspectError::JobNotFound)),
        Err(error) => Err(runtime(error)),
    }
}

} // verus!
