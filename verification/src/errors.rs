//! Failures: what a caller is told, and what an operator is told.
use vstd::prelude::*;

verus! {

/// A job operation could not be carried out.
#[derive(Clone, Debug, PartialEq, Eq)]
pub enum JobsError {
    /// The named PostgreSQL operation failed.
    Database { operation: &'static str },
    InvalidStoredPayload,
    InvalidStoredStatus,
    IdempotencyInvariant,
    Random,
    Timestamp,
}

impl JobsError {
    /// The sentence that describes the failure.
    pub open spec fn text(self) -> Seq<char> {
        match self {
            JobsError::Database { operation } => "PostgreSQL operation `"@ + operation@
                + "` failed"@,
            JobsError::InvalidStoredPayload => "stored job payload is not an object"@,
            JobsError::InvalidStoredStatus => "stored job status is invalid"@,
            JobsError::IdempotencyInvariant =>
                "idempotency conflict did not resolve to a durable job"@,
            JobsError::Random => "operating-system random source is unavailable"@,
            JobsError::Timestamp => "job timestamp is invalid"@,
        }
    }

    /// The sentence that describes the failure.
    pub fn message(&self) -> (r: String)
        ensures
            r@ == self.text(),
    {
        match self {
            JobsError::Database { operation } => {
                let head = "PostgreSQL operation `".to_owned();
                head.concat(operation).concat("` failed")
            },
            JobsError::InvalidStoredPayload => "stored job payload is not an object".to_owned(),
            JobsError::InvalidStoredStatus => "stored job status is invalid".to_owned(),
            JobsError::IdempotencyInvariant =>
                "idempotency conflict did not resolve to a durable job".to_owned(),
            JobsError::Random => "operating-system random source is unavailable".to_owned(),
            JobsError::Timestamp => "job timestamp is invalid".to_owned(),
        }
    }
}

/// A failure of the module itself rather than a reply to a request.
#[derive(Clone, Debug, PartialEq, Eq)]
pub enum RuntimeFailure {
    /// The resolved application plan cannot be carried out.
    InvalidResolvedPlan { detail: String },
    /// The module cannot do its work.
    ModuleFailure { detail: String },
}

impl RuntimeFailure {
    /// The plan is refused with exactly this detail.
    pub open spec fn refuses_plan(self, text: Seq<char>) -> bool {
        self matches RuntimeFailure::InvalidResolvedPlan { detail } && detail@ == text
    }

    /// The module fails with exactly this detail.
    pub open spec fn fails_module(self, text: Seq<char>) -> bool {
        self matches RuntimeFailure::ModuleFailure { detail } && detail@ == text
    }
}

/// The module failure that reports `error`.
pub fn runtime(error: JobsError) -> (r: RuntimeFailure)
    ensures
        r.fails_module(error.text()),
{
    RuntimeFailure::ModuleFailure { detail: error.message() }
}

} // verus!
