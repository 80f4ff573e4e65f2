use lenso_jobs::config::{validate_callers, validate_queues};
use lenso_jobs::schema::valid_schema;
use lenso_jobs::{JobsConfig, JobsConfigError};

fn names(values: &[&str]) -> Vec<String> {
    values.iter().map(|value| value.to_string()).collect()
}

fn config() -> JobsConfig {
    JobsConfig::new(
        "jobs".to_owned(),
        "jobs/database".to_owned(),
        30,
        5,
        300,
        names(&["email"]),
        names(&["orders"]),
        names(&["worker"]),
    )
    .unwrap()
}

#[test]
fn configuration_rejects_unsafe_or_unbounded_policy() {
    let mut invalid = config();
    invalid.schema = "public".to_owned();
    assert_eq!(invalid.validate(), Err(JobsConfigError::InvalidSchema));

    let mut invalid = config();
    invalid.lease_seconds = 0;
    assert_eq!(
        invalid.validate(),
        Err(JobsConfigError::InvalidLeaseDuration)
    );

    let mut invalid = config();
    invalid.worker_instances = vec!["worker".to_owned(), "worker".to_owned()];
    assert_eq!(invalid.validate(), Err(JobsConfigError::DuplicateCaller));
}

#[test]
fn new_configuration_keeps_every_setting() {
    let config = config();
    assert_eq!(config.schema, "jobs");
    assert_eq!(config.database_url_secret, "jobs/database");
    assert_eq!(config.lease_seconds, 30);
    assert_eq!(config.retry_base_seconds, 5);
    assert_eq!(config.retry_max_seconds, 300);
    assert_eq!(config.queues, names(&["email"]));
    assert_eq!(config.producer_instances, names(&["orders"]));
    assert_eq!(config.worker_instances, names(&["worker"]));
    assert!(config.observer_instances.is_empty());
}

#[test]
fn observers_are_optional_but_checked() {
    let observed = config()
        .with_observer_instances(names(&["operations"]))
        .unwrap();
    assert_eq!(observed.observer_instances, names(&["operations"]));
    assert_eq!(observed.schema, "jobs");
    assert_eq!(
        config().with_observer_instances(vec![]).unwrap(),
        config()
    );
    assert_eq!(
        config().with_observer_instances(names(&["a b"])),
        Err(JobsConfigError::InvalidCaller)
    );
    assert_eq!(
        config().with_observer_instances(names(&["a", "a"])),
        Err(JobsConfigError::DuplicateCaller)
    );
}

#[test]
fn secret_references_are_relative_paths() {
    for reference in ["", "/jobs", "jobs/", "jobs//url", "jobs/../url", ".", "a/./b", "a:b"] {
        let mut invalid = config();
        invalid.database_url_secret = reference.to_owned();
        assert_eq!(
            invalid.validate(),
            Err(JobsConfigError::InvalidSecretReference),
            "{reference}"
        );
    }
    for reference in ["jobs/database-url", "a", "...", ".a/b..", "a_b.c"] {
        let mut valid = config();
        valid.database_url_secret = reference.to_owned();
        assert_eq!(valid.validate(), Ok(()), "{reference}");
    }
    let mut long = config();
    long.database_url_secret = "a".repeat(256);
    assert_eq!(long.validate(), Ok(()));
    long.database_url_secret.push('a');
    assert_eq!(
        long.validate(),
        Err(JobsConfigError::InvalidSecretReference)
    );
}

#[test]
fn lease_and_retry_bounds_are_inclusive() {
    for (lease, expected) in [
        (1, Ok(())),
        (3_600, Ok(())),
        (3_601, Err(JobsConfigError::InvalidLeaseDuration)),
        (-1, Err(JobsConfigError::InvalidLeaseDuration)),
    ] {
        let mut config = config();
        config.lease_seconds = lease;
        assert_eq!(config.validate(), expected);
    }
    for (base, max, expected) in [
        (1, 1, Ok(())),
        (1, 86_400, Ok(())),
        (86_400, 86_400, Ok(())),
        (0, 10, Err(JobsConfigError::InvalidRetryPolicy)),
        (10, 9, Err(JobsConfigError::InvalidRetryPolicy)),
        (1, 86_401, Err(JobsConfigError::InvalidRetryPolicy)),
    ] {
        let mut config = config();
        config.retry_base_seconds = base;
        config.retry_max_seconds = max;
        assert_eq!(config.validate(), expected);
    }
}

#[test]
fn the_first_wrong_setting_is_reported() {
    let mut invalid = config();
    invalid.schema = "Jobs".to_owned();
    invalid.lease_seconds = 0;
    invalid.queues = vec![];
    assert_eq!(invalid.validate(), Err(JobsConfigError::InvalidSchema));
    invalid.schema = "jobs".to_owned();
    assert_eq!(
        invalid.validate(),
        Err(JobsConfigError::InvalidLeaseDuration)
    );
    invalid.lease_seconds = 1;
    invalid.producer_instances = vec![];
    assert_eq!(invalid.validate(), Err(JobsConfigError::InvalidQueues));
    invalid.queues = names(&["email"]);
    assert_eq!(invalid.validate(), Err(JobsConfigError::EmptyCallers));
}

#[test]
fn queues_and_callers_are_names_without_repetition() {
    assert_eq!(validate_queues(&names(&["a", "b"])), Ok(()));
    assert_eq!(
        validate_queues(&vec![]),
        Err(JobsConfigError::InvalidQueues)
    );
    assert_eq!(
        validate_queues(&names(&["a", ""])),
        Err(JobsConfigError::InvalidQueues)
    );
    assert_eq!(
        validate_queues(&vec!["q".repeat(129)]),
        Err(JobsConfigError::InvalidQueues)
    );
    assert_eq!(
        validate_queues(&names(&["a", "b", "a"])),
        Err(JobsConfigError::DuplicateQueue)
    );
    assert_eq!(
        validate_callers(&vec![], true),
        Err(JobsConfigError::EmptyCallers)
    );
    assert_eq!(validate_callers(&vec![], false), Ok(()));
    assert_eq!(validate_callers(&vec!["c".repeat(256)], true), Ok(()));
    assert_eq!(
        validate_callers(&vec!["c".repeat(257)], true),
        Err(JobsConfigError::InvalidCaller)
    );
    assert_eq!(
        validate_callers(&names(&["a", "a"]), false),
        Err(JobsConfigError::DuplicateCaller)
    );
}

#[test]
fn owned_schemas_are_plain_unreserved_identifiers() {
    for schema in ["jobs", "jobs_email", "j", "j2", "pgjobs"] {
        assert!(valid_schema(schema), "{schema}");
    }
    for schema in [
        "",
        "public",
        "information_schema",
        "pg_jobs",
        "_jobs",
        "2jobs",
        "Jobs",
        "jobs-email",
        "jobs é",
        "jobsé",
    ] {
        assert!(!valid_schema(schema), "{schema}");
    }
    assert!(valid_schema(&"a".repeat(63)));
    assert!(!valid_schema(&"a".repeat(64)));
}

#[test]
fn every_configuration_error_has_its_sentence() {
    for (error, sentence) in [
        (
            JobsConfigError::InvalidSchema,
            "invalid owned PostgreSQL schema",
        ),
        (
            JobsConfigError::InvalidSecretReference,
            "invalid database URL secret reference",
        ),
        (
            JobsConfigError::InvalidLeaseDuration,
            "lease duration must be between 1 and 3600 seconds",
        ),
        (
            JobsConfigError::InvalidRetryPolicy,
            "retry delays must be ordered and between 1 and 86400 seconds",
        ),
        (
            JobsConfigError::InvalidQueues,
            "at least one valid queue is required",
        ),
        (
            JobsConfigError::DuplicateQueue,
            "configured queues must not contain duplicates",
        ),
        (
            JobsConfigError::EmptyCallers,
            "at least one authorized caller is required",
        ),
        (
            JobsConfigError::InvalidCaller,
            "invalid authorized Module Instance",
        ),
        (
            JobsConfigError::DuplicateCaller,
            "authorized Module Instances must not contain duplicates",
        ),
    ] {
        assert_eq!(error.message(), sentence);
    }
}
