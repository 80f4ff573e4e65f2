//! What the terms of the contracts mean, told character by character and number by
//! number: which texts, requests, callers and configurations are taken, and what
//! everybody is told.
use vstd::prelude::*;

use crate::capability::{
    ClaimError, ClaimRequest, CompleteError, CompleteRequest, EnqueueError, EnqueueRequest,
    FailError, FailRequest, FailResponse, FailResponseStatus, InspectError, InspectRequest,
    InspectResponse, InspectResponseStatus, RenewError, RenewRequest,
};
use crate::config::{
    all_distinct, all_names, callers_error, queues_error, settings_error, JobsConfig,
    JobsConfigError,
};
use crate::errors::{JobsError, RuntimeFailure};
use crate::jobs::JobStatus;
use crate::lifecycle::invalid_configuration;
use crate::names::{
    has_text, is_job_id, is_lease_token, is_name, is_plain_segment, is_random_value,
    is_secret_reference, is_segment,
};
use crate::payload::{json_members, object_json};
use crate::provider::{is_one_of, turned_away, Admission, PostgresJobsProvider};
use crate::responses::status_named;
use crate::retry::RetryPolicy;
use crate::schema::is_owned_schema;
use crate::table::{status_text, FailedAttempt, InspectedJob, NewJob};
use crate::timestamps::{
    has_four_digit_year, is_offset, rfc3339_nanos, rfc3339_offset, rfc3339_text, OffsetTime,
    Timestamp,
};

verus! {

/// A name is not empty, not longer than allowed, and made of ASCII letters, digits,
/// `.`, `_`, `-`, `:` and `/`.
pub proof fn law_names_are_plain(text: Seq<char>, maximum: nat)
    ensures
        is_name(text, maximum) <==> {
            &&& 0 < text.len() <= maximum
            &&& forall|i: int|
                0 <= i < text.len() ==> {
                    ||| 'a' <= #[trigger] text[i] <= 'z'
                    ||| 'A' <= text[i] <= 'Z'
                    ||| '0' <= text[i] <= '9'
                    ||| text[i] == '.'
                    ||| text[i] == '_'
                    ||| text[i] == '-'
                    ||| text[i] == ':'
                    ||| text[i] == '/'
                }
        },
{
}

/// A job identifier is `job_` and 24 characters of the URL-safe base64 alphabet,
/// and a lease token `job_lease_` and 43 of them.
pub proof fn law_identifiers_have_one_shape(text: Seq<char>)
    ensures
        is_job_id(text) <==> {
            &&& text.len() == 28
            &&& text.take(4) == "job_"@
            &&& forall|i: int|
                4 <= i < 28 ==> {
                    ||| 'a' <= #[trigger] text[i] <= 'z'
                    ||| 'A' <= text[i] <= 'Z'
                    ||| '0' <= text[i] <= '9'
                    ||| text[i] == '-'
                    ||| text[i] == '_'
                }
        },
        is_lease_token(text) <==> {
            &&& text.len() == 53
            &&& text.take(10) == "job_lease_"@
            &&& forall|i: int|
                10 <= i < 53 ==> {
                    ||| 'a' <= #[trigger] text[i] <= 'z'
                    ||| 'A' <= text[i] <= 'Z'
                    ||| '0' <= text[i] <= '9'
                    ||| text[i] == '-'
                    ||| text[i] == '_'
                }
        },
{
    reveal_strlit("job_");
    reveal_strlit("job_lease_");
    if text.len() == 28 {
        assert(text.take(4) == "job_"@ <==> "job_"@.is_prefix_of(text));
    }
    if text.len() == 53 {
        assert(text.take(10) == "job_lease_"@ <==> "job_lease_"@.is_prefix_of(text));
    }
}

/// A random value is its prefix and so many characters of the URL-safe base64
/// alphabet, and nothing else.
pub proof fn law_random_values_have_one_shape(
    text: Seq<char>,
    prefix: Seq<char>,
    encoded_length: nat,
)
    ensures
        is_random_value(text, prefix, encoded_length) <==> {
            &&& text.len() == prefix.len() + encoded_length
            &&& forall|i: int| 0 <= i < prefix.len() ==> #[trigger] text[i] == prefix[i]
            &&& forall|i: int|
                prefix.len() <= i < text.len() ==> {
                    ||| 'a' <= #[trigger] text[i] <= 'z'
                    ||| 'A' <= text[i] <= 'Z'
                    ||| '0' <= text[i] <= '9'
                    ||| text[i] == '-'
                    ||| text[i] == '_'
                }
        },
{
    if text.len() == prefix.len() + encoded_length {
        let head = text.subrange(0, prefix.len() as int);
        assert((forall|i: int| 0 <= i < prefix.len() ==> #[trigger] text[i] == prefix[i]) ==> head
            =~= prefix);
        if prefix.is_prefix_of(text) {
            assert forall|i: int| 0 <= i < prefix.len() implies #[trigger] text[i] == prefix[i] by {
                assert(head[i] == text[i]);
            }
        }
    }
}

/// A piece of a path begins at `i`.
spec fn begins(text: Seq<char>, i: int) -> bool {
    i == 0 || text[i - 1] == '/'
}

/// A piece of a path ends before `i`.
spec fn ends(text: Seq<char>, i: int) -> bool {
    i == text.len() || text[i] == '/'
}

/// The piece that begins at `from` ends somewhere.
proof fn lemma_segment_ends(text: Seq<char>, from: int, start: int) -> (to: int)
    requires
        0 <= from <= start <= text.len(),
        begins(text, from),
        forall|i: int| from <= i < start ==> text[i] != '/',
    ensures
        start <= to,
        is_segment(text, from, to),
    decreases text.len() - start,
{
    if start == text.len() || text[start] == '/' {
        start
    } else {
        lemma_segment_ends(text, from, start + 1)
    }
}

/// A secret reference is a relative path of ASCII letters, digits, `.`, `_` and `-`
/// between single slashes: it neither begins nor ends with a slash, no two slashes
/// follow each other, and none of its pieces is `.` or `..`.
pub proof fn law_secret_references_are_relative(text: Seq<char>)
    ensures
        is_secret_reference(text) <==> {
            &&& 0 < text.len() <= 256
            &&& forall|i: int|
                0 <= i < text.len() ==> {
                    ||| 'a' <= #[trigger] text[i] <= 'z'
                    ||| 'A' <= text[i] <= 'Z'
                    ||| '0' <= text[i] <= '9'
                    ||| text[i] == '.'
                    ||| text[i] == '_'
                    ||| text[i] == '-'
                    ||| text[i] == '/'
                }
            &&& text[0] != '/'
            &&& text[text.len() - 1] != '/'
            &&& forall|i: int|
                0 < i < text.len() && #[trigger] text[i] == '/' ==> text[i - 1] != '/'
            &&& forall|i: int|
                0 <= i < text.len() && #[trigger] text[i] == '.' && (i == 0 || text[i - 1] == '/')
                    ==> {
                    &&& i + 1 < text.len()
                    &&& text[i + 1] != '/'
                    &&& text[i + 1] == '.' ==> i + 2 < text.len() && text[i + 2] != '/'
                }
        },
{
    if is_secret_reference(text) {
        let first = lemma_segment_ends(text, 0, 0);
        assert(is_plain_segment(text.subrange(0, first)));
        assert(text[text.len() - 1] != '/') by {
            if text[text.len() - 1] == '/' {
                assert(is_segment(text, text.len() as int, text.len() as int));
                assert(is_plain_segment(text.subrange(text.len() as int, text.len() as int)));
            }
        }
        assert forall|i: int| 0 < i < text.len() && #[trigger] text[i] == '/' implies text[i - 1]
            != '/' by {
            if text[i - 1] == '/' {
                assert(is_segment(text, i, i));
                assert(is_plain_segment(text.subrange(i, i)));
            }
        }
        assert forall|i: int|
            0 <= i < text.len() && #[trigger] text[i] == '.' && (i == 0 || text[i - 1]
                == '/') implies {
            &&& i + 1 < text.len()
            &&& text[i + 1] != '/'
            &&& text[i + 1] == '.' ==> i + 2 < text.len() && text[i + 2] != '/'
        } by {
            if i + 1 == text.len() || text[i + 1] == '/' {
                assert(is_segment(text, i, i + 1));
                assert(text.subrange(i, i + 1) =~= seq!['.']);
            } else if text[i + 1] == '.' && (i + 2 == text.len() || text[i + 2] == '/') {
                assert(is_segment(text, i, i + 2));
                assert(text.subrange(i, i + 2) =~= seq!['.', '.']);
            }
        }
    }
    let plain = {
        &&& 0 < text.len() <= 256
        &&& forall|i: int|
            0 <= i < text.len() ==> {
                ||| 'a' <= #[trigger] text[i] <= 'z'
                ||| 'A' <= text[i] <= 'Z'
                ||| '0' <= text[i] <= '9'
                ||| text[i] == '.'
                ||| text[i] == '_'
                ||| text[i] == '-'
                ||| text[i] == '/'
            }
        &&& text[0] != '/'
        &&& text[text.len() - 1] != '/'
        &&& forall|i: int| 0 < i < text.len() && #[trigger] text[i] == '/' ==> text[i - 1] != '/'
        &&& forall|i: int|
            0 <= i < text.len() && #[trigger] text[i] == '.' && (i == 0 || text[i - 1] == '/') ==> {
                &&& i + 1 < text.len()
                &&& text[i + 1] != '/'
                &&& text[i + 1] == '.' ==> i + 2 < text.len() && text[i + 2] != '/'
            }
    };
    if plain {
        assert forall|from: int, to: int| #[trigger]
            is_segment(text, from, to) implies is_plain_segment(text.subrange(from, to)) by {
            let segment = text.subrange(from, to);
            if from == to {
                if from == text.len() {
                    assert(text[text.len() - 1] == '/');
                } else {
                    assert(text[from] == '/');
                }
            } else {
                assert(segment[0] == text[from]);
                if segment == seq!['.'] {
                    assert(segment.len() == 1 && segment[0] == '.');
                    assert(text[from] == '.');
                }
                if segment == seq!['.', '.'] {
                    assert(segment.len() == 2 && segment[0] == '.' && segment[1] == '.');
                    assert(text[from] == '.');
                    assert(text[from + 1] == segment[1]);
                }
            }
        }
    }
}

/// An owned schema has a short lower-case name that is nobody else's.
pub proof fn law_owned_schemas_are_plain(name: Seq<char>)
    ensures
        is_owned_schema(name) <==> {
            &&& 1 <= name.len() <= 63
            &&& 'a' <= name[0] <= 'z'
            &&& forall|i: int|
                0 <= i < name.len() ==> 'a' <= #[trigger] name[i] <= 'z' || '0' <= name[i] <= '9'
                    || name[i] == '_'
            &&& name != "public"@
            &&& name != "information_schema"@
            &&& name.len() >= 3 ==> name.take(3) != "pg_"@
        },
{
    reveal_strlit("pg_");
    if name.len() >= 3 {
        assert(name.take(3) == "pg_"@ <==> "pg_"@.is_prefix_of(name));
    }
}

/// A text is one of some values exactly if it is equal to one of them.
pub proof fn law_texts_are_found_by_content(values: Seq<String>, value: Seq<char>)
    ensures
        has_text(values, value) <==> exists|i: int|
            0 <= i < values.len() && (#[trigger] values[i])@ == value,
        all_distinct(values) <==> forall|i: int, j: int|
            0 <= i < values.len() && 0 <= j < values.len() && i != j ==> (#[trigger] values[i])@
                != (#[trigger] values[j])@,
{
    if all_distinct(values) {
        assert forall|i: int, j: int|
            0 <= i < values.len() && 0 <= j < values.len() && i != j implies (
        #[trigger] values[i])@ != (#[trigger] values[j])@ by {
            if i > j {
                assert(values[j]@ != values[i]@);
            }
        }
    }
}

/// A configuration is valid exactly if its schema can be owned, its secret is a
/// relative path, its lease lasts between a second and an hour, its delays are
/// ordered and at most a day, it has queues, producers and workers, and every queue
/// and caller is a name that occurs once.
pub proof fn law_valid_configurations(config: JobsConfig)
    ensures
        config.valid() <==> {
            &&& is_owned_schema(config.schema@)
            &&& is_secret_reference(config.database_url_secret@)
            &&& 1 <= config.lease_seconds <= 3_600
            &&& 1 <= config.retry_base_seconds
            &&& config.retry_base_seconds <= config.retry_max_seconds
            &&& config.retry_max_seconds <= 86_400
            &&& config.queues@.len() > 0
            &&& config.producer_instances@.len() > 0
            &&& config.worker_instances@.len() > 0
            &&& forall|i: int|
                0 <= i < config.queues@.len() ==> is_name((#[trigger] config.queues@[i])@, 128)
            &&& forall|i: int|
                0 <= i < config.producer_instances@.len() ==> is_name(
                    (#[trigger] config.producer_instances@[i])@,
                    256,
                )
            &&& forall|i: int|
                0 <= i < config.worker_instances@.len() ==> is_name(
                    (#[trigger] config.worker_instances@[i])@,
                    256,
                )
            &&& forall|i: int|
                0 <= i < config.observer_instances@.len() ==> is_name(
                    (#[trigger] config.observer_instances@[i])@,
                    256,
                )
            &&& forall|i: int, j: int|
                0 <= i < j < config.queues@.len() ==> (#[trigger] config.queues@[i])@ != (
                #[trigger] config.queues@[j])@
            &&& forall|i: int, j: int|
                0 <= i < j < config.producer_instances@.len() ==> (
                #[trigger] config.producer_instances@[i])@ != (
                #[trigger] config.producer_instances@[j])@
            &&& forall|i: int, j: int|
                0 <= i < j < config.worker_instances@.len() ==> (
                #[trigger] config.worker_instances@[i])@ != (
                #[trigger] config.worker_instances@[j])@
            &&& forall|i: int, j: int|
                0 <= i < j < config.observer_instances@.len() ==> (
                #[trigger] config.observer_instances@[i])@ != (
                #[trigger] config.observer_instances@[j])@
        },
{
}

/// What is wrong with lists of queues and of callers: they are missing, then some
/// entry is no name, then some entry occurs twice. Observers need not be there.
pub proof fn law_list_errors(values: Seq<String>)
    ensures
        queues_error(values) == if values.len() == 0 || exists|i: int|
            0 <= i < values.len() && !is_name((#[trigger] values[i])@, 128) {
            Some(JobsConfigError::InvalidQueues)
        } else if exists|i: int, j: int|
            0 <= i < j < values.len() && (#[trigger] values[i])@ == (#[trigger] values[j])@ {
            Some(JobsConfigError::DuplicateQueue)
        } else {
            None
        },
        forall|required: bool| #[trigger]
            callers_error(values, required) == if required && values.len() == 0 {
                Some(JobsConfigError::EmptyCallers)
            } else if exists|i: int|
                0 <= i < values.len() && !is_name((#[trigger] values[i])@, 256) {
                Some(JobsConfigError::InvalidCaller)
            } else if exists|i: int, j: int|
                0 <= i < j < values.len() && (#[trigger] values[i])@ == (#[trigger] values[j])@ {
                Some(JobsConfigError::DuplicateCaller)
            } else {
                None
            },
{
    assert(all_names(values, 128) <==> !exists|i: int|
        0 <= i < values.len() && !is_name((#[trigger] values[i])@, 128));
    assert(all_names(values, 256) <==> !exists|i: int|
        0 <= i < values.len() && !is_name((#[trigger] values[i])@, 256));
    assert(all_distinct(values) <==> !exists|i: int, j: int|
        0 <= i < j < values.len() && (#[trigger] values[i])@ == (#[trigger] values[j])@);
}

/// The first thing that is wrong is reported, in this order: schema, secret, lease,
/// delays, queues, producers, workers, observers.
pub proof fn law_first_error_is_reported(config: JobsConfig)
    ensures
        config.error() == if !is_owned_schema(config.schema@) {
            Some(JobsConfigError::InvalidSchema)
        } else if !is_secret_reference(config.database_url_secret@) {
            Some(JobsConfigError::InvalidSecretReference)
        } else if config.lease_seconds < 1 || config.lease_seconds > 3_600 {
            Some(JobsConfigError::InvalidLeaseDuration)
        } else if config.retry_base_seconds < 1 || config.retry_max_seconds
            < config.retry_base_seconds || config.retry_max_seconds > 86_400 {
            Some(JobsConfigError::InvalidRetryPolicy)
        } else if queues_error(config.queues@) is Some {
            queues_error(config.queues@)
        } else if callers_error(config.producer_instances@, true) is Some {
            callers_error(config.producer_instances@, true)
        } else if callers_error(config.worker_instances@, true) is Some {
            callers_error(config.worker_instances@, true)
        } else {
            callers_error(config.observer_instances@, false)
        },
        config.valid() <==> config.error() is None,
        config.error() == settings_error(
            config.schema@,
            config.database_url_secret@,
            config.lease_seconds as int,
            RetryPolicy {
                base_seconds: config.retry_base_seconds,
                max_seconds: config.retry_max_seconds,
            },
            config.queues@,
            config.producer_instances@,
            config.worker_instances@,
            config.observer_instances@,
        ),
        config.policy().base_seconds == config.retry_base_seconds,
        config.policy().max_seconds == config.retry_max_seconds,
{
}

/// A request describes a job exactly if queue, kind and key are names, it may be
/// attempted once to a hundred times, its payload takes at most a quarter of a
/// mebibyte as JSON, and its availability can be read.
pub proof fn law_valid_job_requests(request: EnqueueRequest)
    ensures
        request.valid() <==> {
            &&& is_name(request.queue@, 128)
            &&& is_name(request.kind@, 256)
            &&& is_name(request.idempotency_key@, 256)
            &&& 1 <= request.max_attempts <= 100
            &&& object_json(request.payload@) matches Some(bytes) && bytes.len() <= 262_144
            &&& rfc3339_nanos(request.available_at@) is Some
        },
        forall|encoded: Option<nat>, readable: bool| #[trigger]
            request.describes_job(encoded, readable) <==> {
                &&& is_name(request.queue@, 128)
                &&& is_name(request.kind@, 256)
                &&& is_name(request.idempotency_key@, 256)
                &&& 1 <= request.max_attempts <= 100
                &&& encoded matches Some(length) && length <= 262_144
                &&& readable
            },
{
}

/// A caller is known by its name, and a caller without one is nobody.
pub open spec fn known(caller: Option<&str>, instances: Seq<String>) -> bool {
    caller matches Some(name) && exists|i: int|
        0 <= i < instances.len() && (#[trigger] instances[i])@ == name@
}

/// Callers are told apart by their names; without a name, nobody is known.
pub proof fn law_callers_are_known_by_name(
    provider: PostgresJobsProvider,
    caller: Option<&str>,
    instances: Seq<String>,
)
    ensures
        caller is None ==> !is_one_of(caller, instances) && !provider.may_inspect(caller),
        caller matches Some(name) ==> {
            &&& is_one_of(caller, instances) <==> exists|i: int|
                0 <= i < instances.len() && (#[trigger] instances[i])@ == name@
            &&& provider.may_inspect(caller) <==> {
                ||| exists|i: int|
                    0 <= i < provider.config.producer_instances@.len() && (
                    #[trigger] provider.config.producer_instances@[i])@ == name@
                ||| exists|i: int|
                    0 <= i < provider.config.worker_instances@.len() && (
                    #[trigger] provider.config.worker_instances@[i])@ == name@
                ||| exists|i: int|
                    0 <= i < provider.config.observer_instances@.len() && (
                    #[trigger] provider.config.observer_instances@[i])@ == name@
            }
        },
{
}

/// Requests to enqueue and to claim are refused first for their caller and then for
/// what they ask; those that are left go to storage if there is any.
pub proof fn law_admission_to_queues(
    provider: PostgresJobsProvider,
    caller: Option<&str>,
    enqueue: EnqueueRequest,
    claim: ClaimRequest,
)
    ensures
        provider.enqueue_admission(caller, enqueue) == if !known(
            caller,
            provider.config.producer_instances@,
        ) {
            Ok::<Result<(), EnqueueError>, ()>(Err(EnqueueError::Unauthorized))
        } else if !has_text(provider.config.queues@, enqueue.queue@) || !enqueue.valid() {
            Ok(Err(EnqueueError::InvalidJob))
        } else if provider.prepared {
            Ok(Ok(()))
        } else {
            Err(())
        },
        provider.claim_admission(caller, claim) == if !known(
            caller,
            provider.config.worker_instances@,
        ) {
            Ok::<Result<(), ClaimError>, ()>(Err(ClaimError::Unauthorized))
        } else if !is_name(claim.queue@, 128) || !has_text(
            provider.config.queues@,
            claim.queue@,
        ) {
            Ok(Err(ClaimError::InvalidQueue))
        } else if provider.prepared {
            Ok(Ok(()))
        } else {
            Err(())
        },
{
}

/// Reports under a lease are refused first for their caller, then for an
/// identifier or token that cannot exist, and then for a code that is no name;
/// looks are refused for their caller and then for an identifier that cannot exist.
/// Those that are left go to storage if there is any.
pub proof fn law_admission_to_jobs(
    provider: PostgresJobsProvider,
    caller: Option<&str>,
    renew: RenewRequest,
    complete: CompleteRequest,
    fail: FailRequest,
    inspect: InspectRequest,
)
    ensures
        provider.renew_admission(caller, renew) == if !known(
            caller,
            provider.config.worker_instances@,
        ) {
            Ok::<Result<(), RenewError>, ()>(Err(RenewError::Unauthorized))
        } else if !is_job_id(renew.job_id@) || !is_lease_token(renew.lease_token@) {
            Ok(Err(RenewError::InvalidLease))
        } else if provider.prepared {
            Ok(Ok(()))
        } else {
            Err(())
        },
        provider.complete_admission(caller, complete) == if !known(
            caller,
            provider.config.worker_instances@,
        ) {
            Ok::<Result<(), CompleteError>, ()>(Err(CompleteError::Unauthorized))
        } else if !is_job_id(complete.job_id@) || !is_lease_token(complete.lease_token@) {
            Ok(Err(CompleteError::InvalidLease))
        } else if provider.prepared {
            Ok(Ok(()))
        } else {
            Err(())
        },
        provider.fail_admission(caller, fail) == if !known(
            caller,
            provider.config.worker_instances@,
        ) {
            Ok::<Result<(), FailError>, ()>(Err(FailError::Unauthorized))
        } else if !is_job_id(fail.job_id@) || !is_lease_token(fail.lease_token@) {
            Ok(Err(FailError::InvalidLease))
        } else if !is_name(fail.failure_code@, 128) {
            Ok(Err(FailError::InvalidFailure))
        } else if provider.prepared {
            Ok(Ok(()))
        } else {
            Err(())
        },
        provider.inspect_admission(caller, inspect) == if !known(
            caller,
            provider.config.producer_instances@,
        ) && !known(caller, provider.config.worker_instances@) && !known(
            caller,
            provider.config.observer_instances@,
        ) {
            Ok::<Result<(), InspectError>, ()>(Err(InspectError::Unauthorized))
        } else if !is_job_id(inspect.job_id@) {
            Ok(Err(InspectError::JobNotFound))
        } else if provider.prepared {
            Ok(Ok(()))
        } else {
            Err(())
        },
{
}

/// A request that does not go to storage is told why: its refusal, or that the
/// module is not prepared.
pub proof fn law_turned_away_requests_are_told_why<R, E>(
    admission: Admission<E>,
    reply: Result<Result<R, E>, RuntimeFailure>,
)
    requires
        turned_away(admission, reply),
    ensures
        match admission {
            Ok(Ok(_)) => false,
            Ok(Err(refusal)) => reply matches Ok(Err(error)) && error == refusal,
            Err(_) => reply matches Err(RuntimeFailure::ModuleFailure { detail }) && detail@
                == "Jobs Module is not prepared"@,
        },
{
}

/// The job that is stored for a request is the caller's, and is what it asked for;
/// its availability is the last whole microsecond at or before the time in the
/// request.
pub proof fn law_stored_job_is_what_was_asked(
    new: NewJob,
    producer: Seq<char>,
    request: EnqueueRequest,
    nanos: int,
)
    requires
        new.asked_by(producer, request),
        rfc3339_nanos(request.available_at@) == Some(nanos),
    ensures
        new.producer@ == producer,
        new.queue@ == request.queue@,
        new.kind@ == request.kind@,
        json_members(new.payload) == Some(request.payload@),
        new.idempotency_key@ == request.idempotency_key@,
        new.max_attempts == request.max_attempts,
        new.available_at.micros * 1000 <= nanos < new.available_at.micros * 1000 + 1000,
{
}

/// A status column holds one of four words, and names the state that the word
/// stands for.
pub proof fn law_status_words(text: Seq<char>)
    ensures
        status_text(JobStatus::Queued) == "queued"@,
        status_text(JobStatus::Running) == "running"@,
        status_text(JobStatus::Succeeded) == "succeeded"@,
        status_text(JobStatus::Failed) == "failed"@,
        status_named(text) == if text == "queued"@ {
            Some(InspectResponseStatus::Queued)
        } else if text == "running"@ {
            Some(InspectResponseStatus::Running)
        } else if text == "succeeded"@ {
            Some(InspectResponseStatus::Succeeded)
        } else if text == "failed"@ {
            Some(InspectResponseStatus::Failed)
        } else {
            None
        },
{
}

/// An observer is told the columns as they are, and the instants as texts that
/// denote them; a lease and a failure are told exactly if there are any.
pub proof fn law_observers_are_told_the_columns(look: InspectedJob, response: InspectResponse)
    requires
        look.told_as(response),
    ensures
        response.job_id@ == look.id@,
        response.queue@ == look.queue@,
        response.kind@ == look.kind@,
        status_named(look.status@) == Some(response.status),
        response.attempts == look.attempts,
        response.max_attempts == look.max_attempts,
        rfc3339_nanos(response.available_at@) == Some(look.available_at.micros * 1000),
        rfc3339_nanos(response.created_at@) == Some(look.created_at.micros * 1000),
        rfc3339_nanos(response.updated_at@) == Some(look.updated_at.micros * 1000),
        match (look.lease_expires_at, response.lease_expires_at) {
            (Some(expiry), Some(Some(text))) => rfc3339_nanos(text@) == Some(expiry.micros * 1000),
            (None, Some(None)) => true,
            _ => false,
        },
        match (look.last_failure_code, response.last_failure_code) {
            (Some(code), Some(Some(told))) => told@ == code@,
            (None, Some(None)) => true,
            _ => false,
        },
{
}

/// A look can be told exactly if every instant in it lies in the years 0 to 9999.
pub proof fn law_looks_that_can_be_told(look: InspectedJob)
    ensures
        look.printable() <==> {
            &&& -62_167_219_200_000_000 <= look.available_at.micros < 253_402_300_800_000_000
            &&& -62_167_219_200_000_000 <= look.created_at.micros < 253_402_300_800_000_000
            &&& -62_167_219_200_000_000 <= look.updated_at.micros < 253_402_300_800_000_000
            &&& look.lease_expires_at matches Some(expiry) ==> -62_167_219_200_000_000
                <= expiry.micros < 253_402_300_800_000_000
        },
{
}

/// A worker that reports a failure is told whether the job waits again, and then
/// since when it may be claimed.
pub proof fn law_workers_are_told_the_outcome(outcome: FailedAttempt, response: FailResponse)
    requires
        outcome.told_as(response),
    ensures
        outcome.retry ==> {
            &&& response.status == FailResponseStatus::Queued
            &&& response.available_at matches Some(text) && rfc3339_nanos(text@) == Some(
                outcome.available_at.micros * 1000,
            )
        },
        !outcome.retry ==> {
            &&& response.status == FailResponseStatus::Failed
            &&& response.available_at is None
        },
{
}

/// A time is written as what a clock at its offset shows. It can be written exactly
/// if the offset is in whole minutes below a day and the clock shows one of the
/// years 0 to 9999, and a text is read as the last whole microsecond at or before
/// what it denotes, in its own offset.
pub proof fn law_times_are_written_and_read(time: OffsetTime, text: Seq<char>, seconds: int)
    ensures
        time.printable() <==> {
            let local = time.instant.micros * 1000 + time.offset_seconds * 1_000_000_000;
            &&& -86_400 < time.offset_seconds < 86_400
            &&& time.offset_seconds % 60 == 0
            &&& -62_167_219_200_000_000_000 <= local
            &&& local < 253_402_300_800_000_000_000
        },
        time.shown_as(text) ==> {
            &&& time.printable()
            &&& text == rfc3339_text(
                time.instant.micros * 1000 + time.offset_seconds * 1_000_000_000,
                time.offset_seconds as int,
            )
            &&& rfc3339_nanos(text) == Some(time.instant.micros * 1000)
            &&& rfc3339_offset(text) == Some(time.offset_seconds as int)
        },
        time.reads(text) ==> {
            &&& rfc3339_nanos(text) matches Some(nanos) && time.instant.micros * 1000 <= nanos
                < time.instant.micros * 1000 + 1000
            &&& rfc3339_offset(text) == Some(time.offset_seconds as int)
        },
        is_offset(seconds) <==> -86_400 < seconds < 86_400 && seconds % 60 == 0,
        has_four_digit_year(seconds) <==> -62_167_219_200_000_000_000 <= seconds
            < 253_402_300_800_000_000_000,
{
}

/// A stored instant is told in UTC, and can be told exactly in the years 0 to 9999.
/// An instant so many seconds later exists exactly if its microseconds fit.
pub proof fn law_instants_are_told_in_utc(instant: Timestamp, text: Seq<char>, seconds: int)
    ensures
        instant.in_utc().instant == instant,
        instant.in_utc().offset_seconds == 0,
        instant.printable() <==> -62_167_219_200_000_000 <= instant.micros
            < 253_402_300_800_000_000,
        instant.shown_as(text) ==> {
            &&& text == rfc3339_text(instant.micros * 1000, 0)
            &&& rfc3339_nanos(text) == Some(instant.micros * 1000)
            &&& rfc3339_offset(text) == Some(0int)
        },
        instant.reaches(seconds) <==> -0x8000_0000_0000_0000 <= instant.micros + seconds
            * 1_000_000 <= 0x7fff_ffff_ffff_ffff,
{
}

/// A failure tells its kind and its detail, and nothing else does.
pub proof fn law_failures_tell_their_detail(failure: RuntimeFailure, text: Seq<char>)
    ensures
        failure.refuses_plan(text) <==> match failure {
            RuntimeFailure::InvalidResolvedPlan { detail } => detail@ == text,
            RuntimeFailure::ModuleFailure { .. } => false,
        },
        failure.fails_module(text) <==> match failure {
            RuntimeFailure::ModuleFailure { detail } => detail@ == text,
            RuntimeFailure::InvalidResolvedPlan { .. } => false,
        },
        invalid_configuration(text) == "Jobs configuration is invalid: "@ + text,
{
}

/// Every error is described by its own sentence.
pub proof fn law_errors_have_their_sentences(error: JobsError, wrong: JobsConfigError)
    ensures
        error.text() == match error {
            JobsError::Database { operation } => "PostgreSQL operation `"@ + operation@
                + "` failed"@,
            JobsError::InvalidStoredPayload => "stored job payload is not an object"@,
            JobsError::InvalidStoredStatus => "stored job status is invalid"@,
            JobsError::IdempotencyInvariant =>
                "idempotency conflict did not resolve to a durable job"@,
            JobsError::Random => "operating-system random source is unavailable"@,
            JobsError::Timestamp => "job timestamp is invalid"@,
        },
        wrong.text() == match wrong {
            JobsConfigError::InvalidSchema => "invalid owned PostgreSQL schema"@,
            JobsConfigError::InvalidSecretReference => "invalid database URL secret reference"@,
            JobsConfigError::InvalidLeaseDuration =>
                "lease duration must be between 1 and 3600 seconds"@,
            JobsConfigError::InvalidRetryPolicy =>
                "retry delays must be ordered and between 1 and 86400 seconds"@,
            JobsConfigError::InvalidQueues => "at least one valid queue is required"@,
            JobsConfigError::DuplicateQueue => "configured queues must not contain duplicates"@,
            JobsConfigError::EmptyCallers => "at least one authorized caller is required"@,
            JobsConfigError::InvalidCaller => "invalid authorized Module Instance"@,
            JobsConfigError::DuplicateCaller =>
                "authorized Module Instances must not contain duplicates"@,
        },
{
}

} // verus!
