use lenso_jobs::errors::{runtime, JobsError, RuntimeFailure};
use lenso_jobs::names::{
    same_text, valid_job_id, valid_lease_token, valid_name, valid_random_value,
    valid_secret_reference,
};
use lenso_jobs::timestamps::{format_time, parse_time, truncate_nanos, OffsetTime, Timestamp};
use lenso_jobs::tokens::{lease_hash, prefixed_value, random_value};

fn utc(micros: i64) -> OffsetTime {
    OffsetTime::utc(Timestamp { micros })
}

fn at_offset(micros: i64, offset_seconds: i32) -> OffsetTime {
    OffsetTime {
        instant: Timestamp { micros },
        offset_seconds,
    }
}

#[test]
fn identifiers_and_lease_tokens_are_strict() {
    let job_id = random_value("job_", 18).unwrap();
    let lease = random_value("job_lease_", 32).unwrap();
    assert!(valid_job_id(&job_id));
    assert!(valid_lease_token(&lease));
    assert!(!valid_lease_token("job_lease_not-a-token"));
    assert_ne!(lease_hash(&lease), lease.as_bytes());
}

#[test]
fn random_values_differ() {
    assert_ne!(
        random_value("job_lease_", 32).unwrap(),
        random_value("job_lease_", 32).unwrap()
    );
    assert_eq!(random_value("job_", 0).unwrap(), "job_");
}

#[test]
fn values_are_written_in_url_safe_base64() {
    assert_eq!(prefixed_value("job_", b""), "job_");
    assert_eq!(prefixed_value("", b"f"), "Zg");
    assert_eq!(prefixed_value("", b"fo"), "Zm8");
    assert_eq!(prefixed_value("x", b"foobar"), "xZm9vYmFy");
    assert_eq!(prefixed_value("", &[0xfb, 0xff, 0xfe]), "-__-");
}

#[test]
fn tokens_are_stored_as_sha256() {
    assert_eq!(
        lease_hash("abc"),
        vec![
            0xba, 0x78, 0x16, 0xbf, 0x8f, 0x01, 0xcf, 0xea, 0x41, 0x41, 0x40, 0xde, 0x5d, 0xae,
            0x22, 0x23, 0xb0, 0x03, 0x61, 0xa3, 0x96, 0x17, 0x7a, 0x9c, 0xb4, 0x10, 0xff, 0x61,
            0xf2, 0x00, 0x15, 0xad
        ]
    );
    assert_eq!(lease_hash("").len(), 32);
}

#[test]
fn random_value_shapes_are_exact() {
    let encoded = "A".repeat(24);
    assert!(valid_job_id(&format!("job_{encoded}")));
    assert!(!valid_job_id(&format!("job_{encoded}A")));
    assert!(!valid_job_id(&encoded));
    assert!(!valid_job_id(&format!("jobs{encoded}")));
    assert!(!valid_job_id(&format!("job_{}+", "A".repeat(23))));
    assert!(!valid_job_id(&format!("job_{}é", "A".repeat(22))));
    assert!(valid_random_value("p--__", "p", 4));
    assert!(!valid_random_value("p--__", "p", 3));
    assert!(valid_random_value("", "", 0));
}

#[test]
fn names_have_a_small_alphabet_and_a_bound() {
    assert!(valid_name("orders.capture", 256));
    assert!(valid_name("aZ09._-:/", 9));
    assert!(!valid_name("aZ09._-:/", 8));
    assert!(!valid_name("", 10));
    assert!(!valid_name("a b", 10));
    assert!(!valid_name("é", 10));
    assert!(!valid_name("a", 0));
}

#[test]
fn secret_references_have_no_dot_segments() {
    assert!(valid_secret_reference("jobs/database"));
    assert!(!valid_secret_reference("jobs/.."));
    assert!(!valid_secret_reference("./jobs"));
    assert!(!valid_secret_reference("jobs/é"));
}

#[test]
fn texts_are_compared_by_content() {
    assert!(same_text("email", "email"));
    assert!(!same_text("email", "Email"));
    assert!(!same_text("email", "emails"));
}

#[test]
fn timestamps_are_read_at_microsecond_precision() {
    assert_eq!(parse_time("1970-01-01T00:00:00Z"), Ok(utc(0)));
    assert_eq!(
        parse_time("2026-08-24T12:00:00Z"),
        Ok(utc(1_787_572_800_000_000))
    );
    assert_eq!(
        parse_time("2026-08-24T14:00:00.123456789+02:00"),
        Ok(at_offset(1_787_572_800_123_456, 7_200))
    );
    assert_eq!(parse_time("1969-12-31T23:59:59.9999995Z"), Ok(utc(-1)));
}

#[test]
fn texts_that_are_no_timestamps_are_refused() {
    for text in ["", "today", "2026-08-24", "2026-13-01T00:00:00Z", "2026-08-24T12:00:00"] {
        assert_eq!(parse_time(text), Err(JobsError::Timestamp), "{text}");
    }
}

#[test]
fn timestamps_are_written_in_their_offset() {
    for (time, text) in [
        (utc(1_787_572_800_123_450), "2026-08-24T12:00:00.12345Z"),
        (utc(-1_000_000), "1969-12-31T23:59:59Z"),
        (
            at_offset(1_787_572_800_000_000, 7_200),
            "2026-08-24T14:00:00+02:00",
        ),
        (
            at_offset(1_787_572_800_000_000, -1_800),
            "2026-08-24T11:30:00-00:30",
        ),
        (
            at_offset(1_787_572_800_000_001, 86_340),
            "2026-08-25T11:59:00.000001+23:59",
        ),
    ] {
        assert_eq!(format_time(time), Ok(text.to_owned()));
        assert_eq!(parse_time(text), Ok(time));
    }
}

#[test]
fn only_local_years_of_four_digits_are_written() {
    let first: i64 = -62_167_219_200_000_000;
    let end: i64 = 253_402_300_800_000_000;
    assert_eq!(
        format_time(utc(first)),
        Ok("0000-01-01T00:00:00Z".to_owned())
    );
    assert_eq!(
        format_time(utc(end - 1)),
        Ok("9999-12-31T23:59:59.999999Z".to_owned())
    );
    assert_eq!(
        format_time(at_offset(first - 1, 60)),
        Ok("0000-01-01T00:00:59.999999+00:01".to_owned())
    );
    for time in [
        utc(first - 1),
        utc(end),
        utc(i64::MIN),
        utc(i64::MAX),
        at_offset(first, -60),
        at_offset(end - 1, 60),
        at_offset(i64::MAX, 86_340),
    ] {
        assert_eq!(format_time(time), Err(JobsError::Timestamp));
    }
}

#[test]
fn offsets_are_whole_minutes_below_a_day() {
    for offset in [1, -59, 86_400, -86_400, 90_000, i32::MIN, i32::MAX] {
        assert_eq!(format_time(at_offset(0, offset)), Err(JobsError::Timestamp));
    }
    assert_eq!(
        format_time(at_offset(0, -86_340)),
        Ok("1969-12-31T00:01:00-23:59".to_owned())
    );
}

#[test]
fn a_written_timestamp_reads_back() {
    for micros in [
        0,
        -1,
        1,
        -62_167_219_200_000_000,
        253_402_300_799_999_999,
        1_787_572_800_000_010,
        1_483_228_799_999_999,
    ] {
        let time = utc(micros);
        assert_eq!(parse_time(&format_time(time).unwrap()), Ok(time));
    }
}

#[test]
fn a_read_timestamp_survives_writing() {
    for text in [
        "0000-01-01T00:00:00+01:00",
        "0000-01-01T00:00:00+23:59",
        "9999-12-31T23:59:59-01:00",
        "9999-12-31T23:59:59.999999-23:59",
        "2026-08-24T14:00:00+02:00",
        "2026-08-24T12:00:00Z",
    ] {
        let time = parse_time(text).unwrap();
        assert_eq!(format_time(time), Ok(text.to_owned()));
    }
    for text in [
        "2016-12-31T23:59:60Z",
        "9999-12-31T23:59:59.999999999-12:00",
        "2026-08-24 12:00:00-00:00",
        "1969-12-31t23:59:59.9999999z",
    ] {
        let time = parse_time(text).unwrap();
        assert_eq!(parse_time(&format_time(time).unwrap()), Ok(time));
    }
}

#[test]
fn the_widest_readable_instants_are_in_range() {
    assert_eq!(
        parse_time("0000-01-01T00:00:00+23:59"),
        Ok(at_offset(-62_167_219_200_000_000 - 86_340_000_000, 86_340))
    );
    assert_eq!(
        parse_time("9999-12-31T23:59:59.999999-23:59"),
        Ok(at_offset(253_402_300_799_999_999 + 86_340_000_000, -86_340))
    );
}

#[test]
fn truncation_goes_towards_the_past() {
    assert_eq!(truncate_nanos(1_999), Timestamp { micros: 1 });
    assert_eq!(truncate_nanos(-1), Timestamp { micros: -1 });
    assert_eq!(truncate_nanos(-1_000), Timestamp { micros: -1 });
    assert_eq!(truncate_nanos(-1_001), Timestamp { micros: -2 });
}

#[test]
fn later_instants_are_exact() {
    let instant = Timestamp { micros: -5 }.after_seconds(3);
    assert_eq!(instant, Timestamp { micros: 2_999_995 });
}

#[test]
fn every_error_has_its_sentence() {
    for (error, sentence) in [
        (
            JobsError::Database {
                operation: "claim due job",
            },
            "PostgreSQL operation `claim due job` failed",
        ),
        (
            JobsError::InvalidStoredPayload,
            "stored job payload is not an object",
        ),
        (
            JobsError::InvalidStoredStatus,
            "stored job status is invalid",
        ),
        (
            JobsError::IdempotencyInvariant,
            "idempotency conflict did not resolve to a durable job",
        ),
        (
            JobsError::Random,
            "operating-system random source is unavailable",
        ),
        (JobsError::Timestamp, "job timestamp is invalid"),
    ] {
        assert_eq!(error.message(), sentence);
        assert_eq!(
            runtime(error),
            RuntimeFailure::ModuleFailure {
                detail: sentence.to_owned()
            }
        );
    }
}
