use lenso_jobs::capability::{InspectError, InspectRequest};
use lenso_jobs::errors::RuntimeFailure;
use lenso_jobs::lifecycle::{PrepareAction, PrepareEvent};
use lenso_jobs::provider::{PostgresJobsProvider, Step};
use lenso_jobs::{JobsConfig, JobsFactory, PACKAGE_ID, PACKAGE_VERSION};

fn config(schema: &str) -> JobsConfig {
    JobsConfig {
        schema: schema.to_owned(),
        database_url_secret: "jobs/database".to_owned(),
        lease_seconds: 30,
        retry_base_seconds: 5,
        retry_max_seconds: 300,
        queues: vec!["email".to_owned()],
        producer_instances: vec!["producer".to_owned()],
        worker_instances: vec!["worker".to_owned()],
        observer_instances: vec![],
    }
}

fn provider() -> PostgresJobsProvider {
    JobsFactory
        .instantiate("default", Ok(config("jobs")))
        .ok()
        .unwrap()
}

#[test]
fn invalid_configuration_fails_before_module_preparation() {
    let result = JobsFactory.instantiate("default", Ok(config("public")));
    assert!(matches!(
        result,
        Err(RuntimeFailure::InvalidResolvedPlan { detail })
            if detail.contains("invalid owned PostgreSQL schema")
    ));
}

#[test]
fn the_factory_names_its_package() {
    assert_eq!(JobsFactory.package_id(), "lenso.jobs");
    assert_eq!(JobsFactory.package_id(), PACKAGE_ID);
    assert_eq!(JobsFactory.package_version(), PACKAGE_VERSION);
}

#[test]
fn unknown_entrypoints_and_unreadable_configurations_are_refused() {
    assert!(matches!(
        JobsFactory.instantiate("other", Ok(config("public"))),
        Err(RuntimeFailure::InvalidResolvedPlan { detail })
            if detail == "unsupported Jobs entrypoint `other`"
    ));
    assert!(matches!(
        JobsFactory.instantiate("default", Err("missing field".to_owned())),
        Err(RuntimeFailure::InvalidResolvedPlan { detail })
            if detail == "Jobs configuration is invalid: missing field"
    ));
    assert!(matches!(
        JobsFactory.instantiate("default", Ok(config("public"))),
        Err(RuntimeFailure::InvalidResolvedPlan { detail })
            if detail == "Jobs configuration is invalid: invalid owned PostgreSQL schema"
    ));
}

#[test]
fn a_new_instance_is_unprepared() {
    let provider = provider();
    assert!(!provider.prepared);
    assert_eq!(provider.config, config("jobs"));
    assert_eq!(
        provider.prepared(),
        Err(RuntimeFailure::ModuleFailure {
            detail: "Jobs Module is not prepared".to_owned()
        })
    );
}

#[test]
fn preparation_resolves_the_secret_and_then_connects() {
    let mut provider = provider();
    assert!(matches!(
        provider.prepare::<()>(PrepareEvent::Started),
        PrepareAction::ResolveSecret { reference, timeout_seconds: 10 }
            if reference == "jobs/database"
    ));
    assert!(matches!(
        provider.prepare::<()>(PrepareEvent::SecretResolved),
        PrepareAction::Connect { schema } if schema == "jobs"
    ));
    assert!(!provider.prepared);
    assert!(matches!(
        provider.prepare::<()>(PrepareEvent::Connected),
        PrepareAction::Finish
    ));
    assert!(provider.prepared);
    assert_eq!(provider.prepared(), Ok(()));
}

#[test]
fn a_failed_preparation_says_why_and_prepares_nothing() {
    let mut provider = provider();
    assert!(matches!(
        provider.prepare::<()>(PrepareEvent::SecretRejected),
        PrepareAction::Abort(RuntimeFailure::ModuleFailure { detail })
            if detail == "Jobs database secret `jobs/database` was rejected"
    ));
    assert!(matches!(
        provider.prepare(PrepareEvent::SecretUnavailable(7)),
        PrepareAction::HandOn(7)
    ));
    assert!(matches!(
        provider.prepare::<()>(PrepareEvent::PlanRefused("no plan".to_owned())),
        PrepareAction::Abort(RuntimeFailure::InvalidResolvedPlan { detail })
            if detail == "no plan"
    ));
    assert!(matches!(
        provider.prepare::<()>(PrepareEvent::DatabaseFailed("no database".to_owned())),
        PrepareAction::Abort(RuntimeFailure::ModuleFailure { detail })
            if detail == "no database"
    ));
    assert!(!provider.prepared);
}

#[test]
fn deactivation_gives_storage_up_once() {
    let mut provider = provider();
    assert!(!provider.deactivate());
    provider.prepare::<()>(PrepareEvent::Connected);
    let request = InspectRequest {
        job_id: "job_aaaaaaaaaaaaaaaaaaaaaaaa".to_owned(),
    };
    assert!(matches!(
        provider.inspect(Some("worker"), request.clone()),
        Step::Perform(_)
    ));
    assert!(provider.deactivate());
    assert!(!provider.deactivate());
    assert!(matches!(
        provider.inspect(Some("worker"), request.clone()),
        Step::Done(Err(RuntimeFailure::ModuleFailure { .. }))
    ));
    assert!(matches!(
        provider.inspect(Some("intruder"), request),
        Step::Done(Ok(Err(InspectError::Unauthorized)))
    ));
}
