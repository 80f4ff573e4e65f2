//! How an instance of the module comes to be and becomes ready.
use vstd::prelude::*;

use crate::config::{JobsConfig, PACKAGE_ID, PACKAGE_VERSION};
use crate::errors::RuntimeFailure;
use crate::names::same_text;
use crate::provider::PostgresJobsProvider;

verus! {

/// The factory of the module's instances.
#[derive(Clone, Copy, Debug, Default)]
pub struct JobsFactory;

/// The detail with which a configuration is refused.
pub open spec fn invalid_configuration(reason: Seq<char>) -> Seq<char> {
    "Jobs configuration is invalid: "@ + reason
}

fn refuse_configuration(reason: &str) -> (r: RuntimeFailure)
    ensures
        r.refuses_plan(invalid_configuration(reason@)),
{
    RuntimeFailure::InvalidResolvedPlan {
        detail: "Jobs configuration is invalid: ".to_owned().concat(reason),
    }
}

impl JobsFactory {
    pub fn package_id(&self) -> (r: &'static str)
        ensures
            r@ == "lenso.jobs"@,
    {
        PACKAGE_ID
    }

    pub fn package_version(&self) -> (r: &'static str)
        ensures
            r@ == "0.1.0"@,
    {
        PACKAGE_VERSION
    }

    /// Makes an unprepared instance, given its configuration or the reason why
    /// that could not be read.
    pub fn instantiate(&self, entrypoint: &str, configuration: Result<JobsConfig, String>) -> (r:
        Result<PostgresJobsProvider, RuntimeFailure>)
        ensures
            if entrypoint@ != "default"@ {
                r matches Err(failure) && failure.refuses_plan(
                    "unsupported Jobs entrypoint `"@ + entrypoint@ + "`"@,
                )
            } else {
                match configuration {
                    Err(reason) => r matches Err(failure) && failure.refuses_plan(
                        invalid_configuration(reason@),
                    ),
                    Ok(config) => match (config.error(), r) {
                        (Some(error), Err(failure)) => failure.refuses_plan(
                            invalid_configuration(error.text()),
                        ),
                        (None, Ok(provider)) => provider.config == config && !provider.prepared,
                        _ => false,
                    },
                }
            },
    {
        if !same_text(entrypoint, "default") {
            let detail = "unsupported Jobs entrypoint `".to_owned().concat(entrypoint).concat("`");
            return Err(RuntimeFailure::InvalidResolvedPlan { detail });
        }
        let config = match configuration {
            Ok(config) => config,
            Err(reason) => {
                return Err(refuse_configuration(reason.as_str()));
            },
        };
        match config.validate() {
            Ok(_) => Ok(PostgresJobsProvider { config, prepared: false }),
            Err(error) => Err(refuse_configuration(error.message().as_str())),
        }
    }
}

/// How long the module waits for a dependency.
pub const DEPENDENCY_TIMEOUT_SECONDS: u64 = 10;

/// What has happened to a preparation. `F` is a failure of the surrounding
/// runtime, which the module hands on as it is.
pub enum PrepareEvent<F> {
    Started,
    SecretResolved,
    /// The secret provider turned the reference down.
    SecretRejected,
    /// The secret provider could not be asked.
    SecretUnavailable(F),
    Connected,
    /// The schema plan was not accepted, for this reason.
    PlanRefused(String),
    /// The database could not be prepared, for this reason.
    DatabaseFailed(String),
}

/// What is to be done next in a preparation.
pub enum PrepareAction<F> {
    /// Ask for the secret with this reference.
    ResolveSecret { reference: String, timeout_seconds: u64 },
    /// Open this schema of the database at the resolved location.
    Connect { schema: String },
    Finish,
    Abort(RuntimeFailure),
    /// Stop with the failure of the surrounding runtime.
    HandOn(F),
}

impl PostgresJobsProvider {
    /// Takes the next step of a preparation.
    pub fn prepare<F>(&mut self, event: PrepareEvent<F>) -> (r: PrepareAction<F>)
        ensures
            final(self).config == old(self).config,
            final(self).prepared == (old(self).prepared || event is Connected),
            match (event, r) {
                (
                    PrepareEvent::Started,
                    PrepareAction::ResolveSecret { reference, timeout_seconds },
                ) => reference@ == old(self).config.database_url_secret@ && timeout_seconds
                    == DEPENDENCY_TIMEOUT_SECONDS,
                (PrepareEvent::SecretResolved, PrepareAction::Connect { schema }) => schema@
                    == old(self).config.schema@,
                (PrepareEvent::SecretRejected, PrepareAction::Abort(failure)) =>
                    failure.fails_module(
                    "Jobs database secret `"@ + old(self).config.database_url_secret@
                        + "` was rejected"@,
                ),
                (PrepareEvent::SecretUnavailable(cause), PrepareAction::HandOn(failure)) => failure
                    == cause,
                (PrepareEvent::Connected, PrepareAction::Finish) => true,
                (PrepareEvent::PlanRefused(reason), PrepareAction::Abort(failure)) =>
                    failure.refuses_plan(reason@),
                (PrepareEvent::DatabaseFailed(reason), PrepareAction::Abort(failure)) =>
                    failure.fails_module(reason@),
                _ => false,
            },
    {
        match event {
            PrepareEvent::Started => PrepareAction::ResolveSecret {
                reference: self.config.database_url_secret.clone(),
                timeout_seconds: DEPENDENCY_TIMEOUT_SECONDS,
            },
            PrepareEvent::SecretResolved => PrepareAction::Connect {
                schema: self.config.schema.clone(),
            },
            PrepareEvent::SecretRejected => {
                let detail = "Jobs database secret `".to_owned().concat(
                    self.config.database_url_secret.as_str(),
                ).concat("` was rejected");
                PrepareAction::Abort(RuntimeFailure::ModuleFailure { detail })
            },
            PrepareEvent::SecretUnavailable(failure) => PrepareAction::HandOn(failure),
            PrepareEvent::Connected => {
                self.prepared = true;
                PrepareAction::Finish
            },
            PrepareEvent::PlanRefused(detail) => PrepareAction::Abort(
                RuntimeFailure::InvalidResolvedPlan { detail },
            ),
            PrepareEvent::DatabaseFailed(detail) => PrepareAction::Abort(
                RuntimeFailure::ModuleFailure { detail },
            ),
        }
    }

    /// Gives storage up, and says whether there is a connection to close.
    pub fn deactivate(&mut self) -> (r: bool)
        ensures
            r == old(self).prepared,
            final(self).config == old(self).config,
            !final(self).prepared,
    {
        let prepared = self.prepared;
        self.prepared = false;
        prepared
    }
}

} // verus!
