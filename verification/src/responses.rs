//! How stored columns become responses.
use serde_json::Value;
use std::collections::BTreeMap;
use vstd::prelude::*;

use crate::capability::{
    ClaimResponse, FailResponse, FailResponseStatus, InspectResponse, InspectResponseStatus,
};
use crate::errors::JobsError;
use crate::names::same_text;
use crate::payload::{json_members, object_members};
use crate::table::{ClaimedJob, FailedAttempt, InspectedJob};
use crate::timestamps::{format_time, OffsetTime, Timestamp};

verus! {

/// What an observer is told of a status column, unless its text is no status.
pub open spec fn status_named(text: Seq<char>) -> Option<InspectResponseStatus> {
    if text == "queued"@ {
        Some(InspectResponseStatus::Queued)
    } else if text == "running"@ {
        Some(InspectResponseStatus::Running)
    } else if text == "succeeded"@ {
        Some(InspectResponseStatus::Succeeded)
    } else if text == "failed"@ {
        Some(InspectResponseStatus::Failed)
    } else {
        None
    }
}

/// Reads a status column.
pub fn decode_status(text: &str) -> (r: Result<InspectResponseStatus, JobsError>)
    ensures
        match r {
            Ok(status) => status_named(text@) == Some(status),
            Err(error) => status_named(text@) is None && error == JobsError::InvalidStoredStatus,
        },
{
    if same_text(text, "queued") {
        Ok(InspectResponseStatus::Queued)
    } else if same_text(text, "running") {
        Ok(InspectResponseStatus::Running)
    } else if same_text(text, "succeeded") {
        Ok(InspectResponseStatus::Succeeded)
    } else if same_text(text, "failed") {
        Ok(InspectResponseStatus::Failed)
    } else {
        Err(JobsError::InvalidStoredStatus)
    }
}

/// The response to a claim, before its token is known: the claimed columns, the
/// members of the payload if it is an object, and the text of the expiry.
pub fn claim_response(
    row: ClaimedJob,
    members: Option<BTreeMap<String, Value>>,
    expiry: Result<String, JobsError>,
) -> (r: Result<ClaimResponse, JobsError>)
    ensures
        match (members, expiry, r) {
            (None, _, Err(error)) => error == JobsError::InvalidStoredPayload,
            (Some(_), Err(cause), Err(error)) => error == cause,
            (Some(payload), Ok(text), Ok(response)) => {
                &&& response.attempt == row.attempts
                &&& response.job_id == row.id
                &&& response.kind == row.kind
                &&& response.lease_expires_at == text
                &&& response.lease_token@ == Seq::<char>::empty()
                &&& response.max_attempts == row.max_attempts
                &&& response.payload == payload
                &&& response.queue == row.queue
            },
            _ => false,
        },
{
    match members {
        None => Err(JobsError::InvalidStoredPayload),
        Some(payload) => match expiry {
            Err(error) => Err(error),
            Ok(lease_expires_at) => Ok(
                ClaimResponse {
                    attempt: row.attempts as i64,
                    job_id: row.id,
                    kind: row.kind,
                    lease_expires_at,
                    lease_token: String::new(),
                    max_attempts: row.max_attempts as i64,
                    payload,
                    queue: row.queue,
                },
            ),
        },
    }
}

/// The response to a claim, before its token is known.
pub fn decode_claim(row: ClaimedJob) -> (r: Result<ClaimResponse, JobsError>)
    ensures
        match r {
            Ok(response) => {
                &&& json_members(row.payload) == Some(response.payload@)
                &&& row.lease_expires_at.shown_as(response.lease_expires_at@)
                &&& response.attempt == row.attempts
                &&& response.job_id == row.id
                &&& response.kind == row.kind
                &&& response.lease_token@ == Seq::<char>::empty()
                &&& response.max_attempts == row.max_attempts
                &&& response.queue == row.queue
            },
            Err(error) => if json_members(row.payload) is None {
                error == JobsError::InvalidStoredPayload
            } else {
                &&& !row.lease_expires_at.printable()
                &&& error == JobsError::Timestamp
            },
        },
{
    let members = object_members(row.payload.clone());
    let expiry = format_time(OffsetTime::utc(row.lease_expires_at));
    claim_response(row, members, expiry)
}

/// `text` is the text of an instant that may be missing.
pub open spec fn optional_shown_as(instant: Option<Timestamp>, text: Option<String>) -> bool {
    match (instant, text) {
        (Some(instant), Some(text)) => instant.shown_as(text@),
        (None, None) => true,
        _ => false,
    }
}

/// An instant that may be missing has a text unless it is.
pub open spec fn optional_printable(instant: Option<Timestamp>) -> bool {
    instant matches Some(instant) ==> instant.printable()
}

fn format_optional_time(value: Option<Timestamp>) -> (r: Result<Option<String>, JobsError>)
    ensures
        match r {
            Ok(text) => optional_printable(value) && optional_shown_as(value, text),
            Err(error) => !optional_printable(value) && error == JobsError::Timestamp,
        },
{
    match value {
        Some(instant) => match format_time(OffsetTime::utc(instant)) {
            Ok(text) => Ok(Some(text)),
            Err(error) => Err(error),
        },
        None => Ok(None),
    }
}

/// The texts of the instants that an observer is told.
pub struct InspectedTimes {
    pub available_at: String,
    pub lease_expires_at: Option<String>,
    pub created_at: String,
    pub updated_at: String,
}

/// The response to an inspection: the inspected columns and the texts of their
/// instants.
pub fn inspect_response(row: InspectedJob, times: Result<InspectedTimes, JobsError>) -> (r: Result<
    InspectResponse,
    JobsError,
>)
    ensures
        match (status_named(row.status@), times, r) {
            (None, _, Err(error)) => error == JobsError::InvalidStoredStatus,
            (Some(_), Err(cause), Err(error)) => error == cause,
            (Some(status), Ok(texts), Ok(response)) => {
                &&& response.attempts == row.attempts
                &&& response.available_at == texts.available_at
                &&& response.created_at == texts.created_at
                &&& response.job_id == row.id
                &&& response.kind == row.kind
                &&& response.last_failure_code == Some(row.last_failure_code)
                &&& response.lease_expires_at == Some(texts.lease_expires_at)
                &&& response.max_attempts == row.max_attempts
                &&& response.queue == row.queue
                &&& response.status == status
                &&& response.updated_at == texts.updated_at
            },
            _ => false,
        },
{
    match decode_status(row.status.as_str()) {
        Err(error) => Err(error),
        Ok(status) => match times {
            Err(error) => Err(error),
            Ok(texts) => Ok(
                InspectResponse {
                    attempts: row.attempts as i64,
                    available_at: texts.available_at,
                    created_at: texts.created_at,
                    job_id: row.id,
                    kind: row.kind,
                    last_failure_code: Some(row.last_failure_code),
                    lease_expires_at: Some(texts.lease_expires_at),
                    max_attempts: row.max_attempts as i64,
                    queue: row.queue,
                    status,
                    updated_at: texts.updated_at,
                },
            ),
        },
    }
}

impl InspectedJob {
    /// Every instant of the job has a text.
    pub open spec fn printable(self) -> bool {
        &&& self.available_at.printable()
        &&& optional_printable(self.lease_expires_at)
        &&& self.created_at.printable()
        &&& self.updated_at.printable()
    }

    /// `response` tells an observer every column of the job.
    pub open spec fn told_as(self, response: InspectResponse) -> bool {
        &&& status_named(self.status@) == Some(response.status)
        &&& self.available_at.shown_as(response.available_at@)
        &&& response.lease_expires_at matches Some(text) && optional_shown_as(
            self.lease_expires_at,
            text,
        )
        &&& self.created_at.shown_as(response.created_at@)
        &&& self.updated_at.shown_as(response.updated_at@)
        &&& response.attempts == self.attempts
        &&& response.job_id == self.id
        &&& response.kind == self.kind
        &&& response.last_failure_code == Some(self.last_failure_code)
        &&& response.max_attempts == self.max_attempts
        &&& response.queue == self.queue
    }

    fn times(&self) -> (r: Result<InspectedTimes, JobsError>)
        ensures
            match r {
                Ok(texts) => {
                    &&& self.available_at.shown_as(texts.available_at@)
                    &&& optional_shown_as(self.lease_expires_at, texts.lease_expires_at)
                    &&& self.created_at.shown_as(texts.created_at@)
                    &&& self.updated_at.shown_as(texts.updated_at@)
                },
                Err(error) => !self.printable() && error == JobsError::Timestamp,
            },
    {
        let available_at = match format_time(OffsetTime::utc(self.available_at)) {
            Ok(text) => text,
            Err(error) => {
                return Err(error);
            },
        };
        let lease_expires_at = match format_optional_time(self.lease_expires_at) {
            Ok(text) => text,
            Err(error) => {
                return Err(error);
            },
        };
        let created_at = match format_time(OffsetTime::utc(self.created_at)) {
            Ok(text) => text,
            Err(error) => {
                return Err(error);
            },
        };
        let updated_at = match format_time(OffsetTime::utc(self.updated_at)) {
            Ok(text) => text,
            Err(error) => {
                return Err(error);
            },
        };
        Ok(InspectedTimes { available_at, lease_expires_at, created_at, updated_at })
    }
}

/// The response to an inspection.
pub fn decode_inspection(row: InspectedJob) -> (r: Result<InspectResponse, JobsError>)
    ensures
        match r {
            Ok(response) => row.told_as(response),
            Err(error) => if status_named(row.status@) is None {
                error == JobsError::InvalidStoredStatus
            } else {
                !row.printable() && error == JobsError::Timestamp
            },
        },
{
    let times = row.times();
    inspect_response(row, times)
}

/// The response to a reported failure, given the text of the job's availability.
pub fn fail_response(retry: bool, available_at: Result<String, JobsError>) -> (r: Result<
    FailResponse,
    JobsError,
>)
    ensures
        match (retry, available_at, r) {
            (false, _, Ok(response)) => {
                &&& response.status == FailResponseStatus::Failed
                &&& response.available_at is None
            },
            (true, Ok(text), Ok(response)) => {
                &&& response.status == FailResponseStatus::Queued
                &&& response.available_at == Some(text)
            },
            (true, Err(cause), Err(error)) => error == cause,
            _ => false,
        },
{
    if retry {
        match available_at {
            Ok(text) => Ok(
                FailResponse { available_at: Some(text), status: FailResponseStatus::Queued },
            ),
            Err(error) => Err(error),
        }
    } else {
        Ok(FailResponse { available_at: None, status: FailResponseStatus::Failed })
    }
}

impl FailedAttempt {
    /// `response` tells the worker what became of the job.
    pub open spec fn told_as(self, response: FailResponse) -> bool {
        if self.retry {
            &&& response.status == FailResponseStatus::Queued
            &&& response.available_at matches Some(text) && self.available_at.shown_as(text@)
        } else {
            &&& response.status == FailResponseStatus::Failed
            &&& response.available_at is None
        }
    }
}

/// The response to a reported failure. Only the availability of a job that is
/// queued again is told.
pub fn decode_failure(outcome: FailedAttempt) -> (r: Result<FailResponse, JobsError>)
    ensures
        match r {
            Ok(response) => outcome.told_as(response),
            Err(error) => {
                &&& outcome.retry
                &&& !outcome.available_at.printable()
                &&& error == JobsError::Timestamp
            },
        },
{
    fail_response(outcome.retry, format_time(OffsetTime::utc(outcome.available_at)))
}

} // verus!
