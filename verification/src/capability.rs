//! The requests, responses and refusals of the six job operations.
//!
//! A payload and a lease token are for their owners alone, so no type of this module
//! that holds one has a debug text; [`EnqueueRequest::redacted`] and
//! [`ClaimResponse::redacted`] describe a value without them.
use serde_json::Value;
use std::collections::BTreeMap;
use vstd::prelude::*;

verus! {

/// A producer asks for a job to be stored.
#[derive(Clone)]
pub struct EnqueueRequest {
    pub available_at: String,
    pub idempotency_key: String,
    pub kind: String,
    pub max_attempts: i64,
    pub payload: BTreeMap<String, Value>,
    pub queue: String,
}

/// Which job a producer's request led to, and whether it is new.
#[derive(Clone, Debug, PartialEq, Eq)]
pub struct EnqueueResponse {
    pub created: bool,
    pub job_id: String,
}

#[derive(Clone, Copy, Debug, PartialEq, Eq, Structural)]
pub enum EnqueueError {
    IdempotencyConflict,
    InvalidJob,
    Unauthorized,
}

/// A worker asks for a job.
#[derive(Clone, Debug)]
pub struct ClaimRequest {
    pub queue: String,
}

/// A job, and the lease under which a worker has it.
#[derive(Clone)]
pub struct ClaimResponse {
    pub attempt: i64,
    pub job_id: String,
    pub kind: String,
    pub lease_expires_at: String,
    pub lease_token: String,
    pub max_attempts: i64,
    pub payload: BTreeMap<String, Value>,
    pub queue: String,
}

#[derive(Clone, Copy, Debug, PartialEq, Eq, Structural)]
pub enum ClaimError {
    InvalidQueue,
    NoJobAvailable,
    Unauthorized,
}

/// A worker asks for more time.
#[derive(Clone)]
pub struct RenewRequest {
    pub job_id: String,
    pub lease_token: String,
}

/// When a renewed lease ends.
#[derive(Clone, Debug, PartialEq, Eq)]
pub struct RenewResponse {
    pub lease_expires_at: String,
}

#[derive(Clone, Copy, Debug, PartialEq, Eq, Structural)]
pub enum RenewError {
    InvalidLease,
    Unauthorized,
}

/// A worker reports a job as done.
#[derive(Clone)]
pub struct CompleteRequest {
    pub job_id: String,
    pub lease_token: String,
}

#[derive(Clone, Debug, PartialEq, Eq)]
pub struct CompleteResponse {
    pub completed: bool,
}

#[derive(Clone, Copy, Debug, PartialEq, Eq, Structural)]
pub enum CompleteError {
    InvalidLease,
    Unauthorized,
}

/// A worker reports a failed attempt.
#[derive(Clone)]
pub struct FailRequest {
    pub failure_code: String,
    pub job_id: String,
    pub lease_token: String,
    pub retryable: bool,
}

/// What became of the job, and when it is available again if it is.
#[derive(Clone, Debug, PartialEq, Eq)]
pub struct FailResponse {
    pub available_at: Option<String>,
    pub status: FailResponseStatus,
}

#[derive(Clone, Copy, Debug, PartialEq, Eq, Structural)]
pub enum FailResponseStatus {
    Queued,
    Failed,
}

#[derive(Clone, Copy, Debug, PartialEq, Eq, Structural)]
pub enum FailError {
    InvalidFailure,
    InvalidLease,
    Unauthorized,
}

/// An observer asks about a job.
#[derive(Clone, Debug)]
pub struct InspectRequest {
    pub job_id: String,
}

/// The durable state of a job. The outer option of a nullable member says that
/// the member is present.
#[derive(Clone, Debug, PartialEq, Eq)]
pub struct InspectResponse {
    pub attempts: i64,
    pub available_at: String,
    pub created_at: String,
    pub job_id: String,
    pub kind: String,
    pub last_failure_code: Option<Option<String>>,
    pub lease_expires_at: Option<Option<String>>,
    pub max_attempts: i64,
    pub queue: String,
    pub status: InspectResponseStatus,
    pub updated_at: String,
}

#[derive(Clone, Copy, Debug, PartialEq, Eq, Structural)]
pub enum InspectResponseStatus {
    Queued,
    Running,
    Succeeded,
    Failed,
}

#[derive(Clone, Copy, Debug, PartialEq, Eq, Structural)]
pub enum InspectError {
    JobNotFound,
    Unauthorized,
}

impl EnqueueRequest {
    /// A description of the request that does not depend on its payload.
    pub fn redacted(&self) -> (r: String)
        ensures
            r@ == "EnqueueRequest { queue: "@ + self.queue@ + ", kind: "@ + self.kind@
                + ", idempotency_key: "@ + self.idempotency_key@ + ", available_at: "@
                + self.available_at@ + ", .. }"@,
    {
        let text = "EnqueueRequest { queue: ".to_owned();
        let text = text.concat(self.queue.as_str()).concat(", kind: ").concat(self.kind.as_str());
        let text = text.concat(", idempotency_key: ").concat(self.idempotency_key.as_str());
        text.concat(", available_at: ").concat(self.available_at.as_str()).concat(", .. }")
    }
}

impl ClaimResponse {
    /// A description of the claim that depends neither on its payload nor on its
    /// lease token.
    pub fn redacted(&self) -> (r: String)
        ensures
            r@ == "ClaimResponse { job_id: "@ + self.job_id@ + ", queue: "@ + self.queue@
                + ", kind: "@ + self.kind@ + ", lease_expires_at: "@ + self.lease_expires_at@
                + ", .. }"@,
    {
        let text = "ClaimResponse { job_id: ".to_owned();
        let text = text.concat(self.job_id.as_str()).concat(", queue: ").concat(self.queue.as_str());
        let text = text.concat(", kind: ").concat(self.kind.as_str());
        text.concat(", lease_expires_at: ").concat(self.lease_expires_at.as_str()).concat(", .. }")
    }
}

} // verus!
