//! Durable single-step jobs.
//!
//! One authorized producer enqueues a job. One authorized worker claims it under an
//! opaque, expiring lease and completes it or reports a failure, which is retried
//! within bounds or final. An observer inspects the durable state.
//!
//! - [`config`] is the immutable policy of one instance, and [`lifecycle`] how an
//!   instance is made, prepared and given up.
//! - [`capability`] holds the requests and responses of the six operations,
//!   [`provider`] admits requests and words replies, and [`responses`] turns stored
//!   columns into responses.
//! - [`jobs`] says what a job is, [`table`] what each operation does to the jobs it
//!   is given, [`order`] which of them comes first, and [`retry`] when a failed
//!   attempt may be repeated.
//! - [`names`], [`tokens`], [`timestamps`], [`payload`], [`schema`] and [`errors`]
//!   are the values that these are made of.
//! - [`laws`] states what holds across operations, and [`excerpts`] that an operation
//!   needs no more than some of the jobs in hand.
//! - [`outcomes`] tells every operation by the columns of the jobs alone, and [`terms`]
//!   tells what the words of the contracts mean. [`calls`] tells every operation from
//!   its arguments to its result.

pub mod calls;
pub mod capability;
pub mod config;
pub mod errors;
pub mod excerpts;
pub mod jobs;
pub mod laws;
pub mod lifecycle;
pub mod names;
pub mod order;
pub mod outcomes;
pub mod payload;
pub mod provider;
pub mod responses;
pub mod retry;
pub mod schema;
pub mod table;
pub mod terms;
pub mod timestamps;
pub mod tokens;

pub use crate::config::{JobsConfig, JobsConfigError, PACKAGE_ID, PACKAGE_VERSION};
pub use crate::lifecycle::JobsFactory;
