//! The immutable policy of one module instance.
use vstd::prelude::*;

use crate::names::{is_name, is_secret_reference, valid_name, valid_secret_reference};
use crate::retry::RetryPolicy;
use crate::schema::{is_owned_schema, valid_schema};

verus! {

/// Package identity of the module.
pub const PACKAGE_ID: &'static str = "lenso.jobs";

/// Package version of the module.
pub const PACKAGE_VERSION: &'static str = "0.1.0";

/// Immutable policy and resource references for one module instance.
#[derive(Clone, Debug, PartialEq, Eq)]
pub struct JobsConfig {
    pub schema: String,
    pub database_url_secret: String,
    pub lease_seconds: i64,
    pub retry_base_seconds: i64,
    pub retry_max_seconds: i64,
    pub queues: Vec<String>,
    pub producer_instances: Vec<String>,
    pub worker_instances: Vec<String>,
    pub observer_instances: Vec<String>,
}

/// Why a configuration is refused.
#[derive(Clone, Copy, Debug, PartialEq, Eq, Structural)]
pub enum JobsConfigError {
    InvalidSchema,
    InvalidSecretReference,
    InvalidLeaseDuration,
    InvalidRetryPolicy,
    InvalidQueues,
    DuplicateQueue,
    EmptyCallers,
    InvalidCaller,
    DuplicateCaller,
}

impl JobsConfigError {
    /// The sentence that describes the error.
    pub open spec fn text(self) -> Seq<char> {
        match self {
            JobsConfigError::InvalidSchema => "invalid owned PostgreSQL schema"@,
            JobsConfigError::InvalidSecretReference => "invalid database URL secret reference"@,
            JobsConfigError::InvalidLeaseDuration =>
                "lease duration must be between 1 and 3600 seconds"@,
            JobsConfigError::InvalidRetryPolicy =>
                "retry delays must be ordered and between 1 and 86400 seconds"@,
            JobsConfigError::InvalidQueues => "at least one valid queue is required"@,
            JobsConfigError::DuplicateQueue => "configured queues must not contain duplicates"@,
            JobsConfigError::EmptyCallers => "at least one authorized caller is required"@,
            JobsConfigError::InvalidCaller => "invalid authorized Module Instance"@,
            JobsConfigError::DuplicateCaller =>
                "authorized Module Instances must not contain duplicates"@,
        }
    }

    /// The sentence that describes the error.
    pub fn message(&self) -> (r: String)
        ensures
            r@ == self.text(),
    {
        match self {
            JobsConfigError::InvalidSchema => "invalid owned PostgreSQL schema".to_owned(),
            JobsConfigError::InvalidSecretReference =>
                "invalid database URL secret reference".to_owned(),
            JobsConfigError::InvalidLeaseDuration =>
                "lease duration must be between 1 and 3600 seconds".to_owned(),
            JobsConfigError::InvalidRetryPolicy =>
                "retry delays must be ordered and between 1 and 86400 seconds".to_owned(),
            JobsConfigError::InvalidQueues => "at least one valid queue is required".to_owned(),
            JobsConfigError::DuplicateQueue =>
                "configured queues must not contain duplicates".to_owned(),
            JobsConfigError::EmptyCallers =>
                "at least one authorized caller is required".to_owned(),
            JobsConfigError::InvalidCaller => "invalid authorized Module Instance".to_owned(),
            JobsConfigError::DuplicateCaller =>
                "authorized Module Instances must not contain duplicates".to_owned(),
        }
    }
}

/// Every value is a name of at most `maximum` characters.
pub open spec fn all_names(values: Seq<String>, maximum: nat) -> bool {
    forall|i: int| 0 <= i < values.len() ==> is_name((#[trigger] values[i])@, maximum)
}

/// No value occurs twice.
pub open spec fn all_distinct(values: Seq<String>) -> bool {
    forall|i: int, j: int|
        0 <= i < j < values.len() ==> (#[trigger] values[i])@ != (#[trigger] values[j])@
}

/// What is wrong with a list of queues, if anything is.
pub open spec fn queues_error(queues: Seq<String>) -> Option<JobsConfigError> {
    if queues.len() == 0 || !all_names(queues, 128) {
        Some(JobsConfigError::InvalidQueues)
    } else if !all_distinct(queues) {
        Some(JobsConfigError::DuplicateQueue)
    } else {
        None
    }
}

/// What is wrong with a list of callers, if anything is.
pub open spec fn callers_error(callers: Seq<String>, required: bool) -> Option<JobsConfigError> {
    if required && callers.len() == 0 {
        Some(JobsConfigError::EmptyCallers)
    } else if !all_names(callers, 256) {
        Some(JobsConfigError::InvalidCaller)
    } else if !all_distinct(callers) {
        Some(JobsConfigError::DuplicateCaller)
    } else {
        None
    }
}

fn names_only(values: &Vec<String>, maximum: usize) -> (r: bool)
    ensures
        r == all_names(values@, maximum as nat),
{
    let mut i: usize = 0;
    while i < values.len()
        invariant
            i <= values.len(),
            forall|j: int| 0 <= j < i ==> is_name((#[trigger] values@[j])@, maximum as nat),
        decreases values.len() - i,
    {
        if !valid_name(values[i].as_str(), maximum) {
            return false;
        }
        i = i + 1;
    }
    true
}

fn distinct(values: &Vec<String>) -> (r: bool)
    ensures
        r == all_distinct(values@),
{
    let mut i: usize = 0;
    while i < values.len()
        invariant
            i <= values.len(),
            forall|a: int, b: int|
                0 <= a < b < i ==> (#[trigger] values@[a])@ != (#[trigger] values@[b])@,
        decreases values.len() - i,
    {
        let mut j: usize = 0;
        while j < i
            invariant
                j <= i < values.len(),
                forall|a: int| 0 <= a < j ==> (#[trigger] values@[a])@ != values@[i as int]@,
            decreases i - j,
        {
            if values[j] == values[i] {
                return false;
            }
            j = j + 1;
        }
        i = i + 1;
    }
    true
}

/// Checks the queues of an instance.
pub fn validate_queues(values: &Vec<String>) -> (r: Result<(), JobsConfigError>)
    ensures
        match r {
            Ok(_) => queues_error(values@) is None,
            Err(error) => queues_error(values@) == Some(error),
        },
{
    if values.len() == 0 || !names_only(values, 128) {
        return Err(JobsConfigError::InvalidQueues);
    }
    if !distinct(values) {
        return Err(JobsConfigError::DuplicateQueue);
    }
    Ok(())
}

/// Checks one of the caller lists of an instance.
pub fn validate_callers(values: &Vec<String>, required: bool) -> (r: Result<(), JobsConfigError>)
    ensures
        match r {
            Ok(_) => callers_error(values@, required) is None,
            Err(error) => callers_error(values@, required) == Some(error),
        },
{
    if required && values.len() == 0 {
        return Err(JobsConfigError::EmptyCallers);
    }
    if !names_only(values, 256) {
        return Err(JobsConfigError::InvalidCaller);
    }
    if !distinct(values) {
        return Err(JobsConfigError::DuplicateCaller);
    }
    Ok(())
}

/// The first thing that is wrong with these settings, if anything is.
pub open spec fn settings_error(
    schema: Seq<char>,
    database_url_secret: Seq<char>,
    lease_seconds: int,
    policy: RetryPolicy,
    queues: Seq<String>,
    producers: Seq<String>,
    workers: Seq<String>,
    observers: Seq<String>,
) -> Option<JobsConfigError> {
    if !is_owned_schema(schema) {
        Some(JobsConfigError::InvalidSchema)
    } else if !is_secret_reference(database_url_secret) {
        Some(JobsConfigError::InvalidSecretReference)
    } else if !(1 <= lease_seconds <= 3_600) {
        Some(JobsConfigError::InvalidLeaseDuration)
    } else if !policy.bounded() {
        Some(JobsConfigError::InvalidRetryPolicy)
    } else if queues_error(queues) is Some {
        queues_error(queues)
    } else if callers_error(producers, true) is Some {
        callers_error(producers, true)
    } else if callers_error(workers, true) is Some {
        callers_error(workers, true)
    } else {
        callers_error(observers, false)
    }
}

impl JobsConfig {
    /// The first thing that is wrong with the configuration, if anything is.
    pub open spec fn error(self) -> Option<JobsConfigError> {
        settings_error(
            self.schema@,
            self.database_url_secret@,
            self.lease_seconds as int,
            self.policy(),
            self.queues@,
            self.producer_instances@,
            self.worker_instances@,
            self.observer_instances@,
        )
    }

    /// Nothing is wrong with the configuration.
    pub open spec fn valid(self) -> bool {
        self.error() is None
    }

    /// The bounds of retry delays.
    pub open spec fn policy(self) -> RetryPolicy {
        RetryPolicy {
            base_seconds: self.retry_base_seconds,
            max_seconds: self.retry_max_seconds,
        }
    }

    /// Creates the validated policy of one instance, with no observers.
    pub fn new(
        schema: String,
        database_url_secret: String,
        lease_seconds: i64,
        retry_base_seconds: i64,
        retry_max_seconds: i64,
        queues: Vec<String>,
        producer_instances: Vec<String>,
        worker_instances: Vec<String>,
    ) -> (r: Result<JobsConfig, JobsConfigError>)
        ensures
            match r {
                Ok(config) => {
                    &&& config.valid()
                    &&& config.schema == schema
                    &&& config.database_url_secret == database_url_secret
                    &&& config.lease_seconds == lease_seconds
                    &&& config.retry_base_seconds == retry_base_seconds
                    &&& config.retry_max_seconds == retry_max_seconds
                    &&& config.queues == queues
                    &&& config.producer_instances == producer_instances
                    &&& config.worker_instances == worker_instances
                    &&& config.observer_instances@ == Seq::<String>::empty()
                },
                Err(error) => settings_error(
                    schema@,
                    database_url_secret@,
                    lease_seconds as int,
                    RetryPolicy { base_seconds: retry_base_seconds, max_seconds: retry_max_seconds },
                    queues@,
                    producer_instances@,
                    worker_instances@,
                    Seq::empty(),
                ) == Some(error),
            },
    {
        let config = JobsConfig {
            schema,
            database_url_secret,
            lease_seconds,
            retry_base_seconds,
            retry_max_seconds,
            queues,
            producer_instances,
            worker_instances,
            observer_instances: Vec::new(),
        };
        match config.validate() {
            Ok(_) => Ok(config),
            Err(error) => Err(error),
        }
    }

    /// Sets the instances that may inspect jobs.
    pub fn with_observer_instances(self, observers: Vec<String>) -> (r: Result<
        JobsConfig,
        JobsConfigError,
    >)
        ensures
            ({
                let config = JobsConfig { observer_instances: observers, ..self };
                match r {
                    Ok(updated) => config.valid() && updated == config,
                    Err(error) => config.error() == Some(error),
                }
            }),
    {
        let config = JobsConfig { observer_instances: observers, ..self };
        match config.validate() {
            Ok(_) => Ok(config),
            Err(error) => Err(error),
        }
    }

    /// Checks the configuration and reports the first thing that is wrong.
    pub fn validate(&self) -> (r: Result<(), JobsConfigError>)
        ensures
            match r {
                Ok(_) => self.valid(),
                Err(error) => self.error() == Some(error),
            },
    {
        if !valid_schema(self.schema.as_str()) {
            return Err(JobsConfigError::InvalidSchema);
        }
        if !valid_secret_reference(self.database_url_secret.as_str()) {
            return Err(JobsConfigError::InvalidSecretReference);
        }
        if self.lease_seconds < 1 || self.lease_seconds > 3_600 {
            return Err(JobsConfigError::InvalidLeaseDuration);
        }
        if self.retry_base_seconds < 1 || self.retry_max_seconds < self.retry_base_seconds
            || self.retry_max_seconds > 86_400 {
            return Err(JobsConfigError::InvalidRetryPolicy);
        }
        match validate_queues(&self.queues) {
            Ok(_) => {},
            Err(error) => {
                return Err(error);
            },
        }
        match validate_callers(&self.producer_instances, true) {
            Ok(_) => {},
            Err(error) => {
                return Err(error);
            },
        }
        match validate_callers(&self.worker_instances, true) {
            Ok(_) => {},
            Err(error) => {
                return Err(error);
            },
        }
        validate_callers(&self.observer_instances, false)
    }
}

} // verus!
