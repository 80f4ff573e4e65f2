//! Instants at the precision of a PostgreSQL `timestamptz`, times with an offset,
//! and RFC 3339 texts.
use time::format_description::well_known::Rfc3339;
use time::{OffsetDateTime, UtcOffset};
use vstd::prelude::*;

use crate::errors::JobsError;

verus! {

/// The error with which a timestamp text is refused.
#[verifier::external_type_specification]
#[verifier::external_body]
pub struct ExParseError(time::error::Parse);

/// An instant in whole microseconds since the Unix epoch.
#[derive(Clone, Copy, Debug, PartialEq, Eq, Structural)]
pub struct Timestamp {
    pub micros: i64,
}

impl Timestamp {
    /// The instant `seconds` later is representable.
    pub open spec fn reaches(self, seconds: int) -> bool {
        i64::MIN <= self.micros + seconds * 1_000_000 <= i64::MAX
    }

    /// The instant as a time in UTC.
    pub open spec fn in_utc(self) -> OffsetTime {
        OffsetTime { instant: self, offset_seconds: 0 }
    }

    /// The year of the instant, in UTC, has four digits.
    pub open spec fn printable(self) -> bool {
        self.in_utc().printable()
    }

    /// `text` is the RFC 3339 text of the instant in UTC, and denotes it.
    pub open spec fn shown_as(self, text: Seq<char>) -> bool {
        self.in_utc().shown_as(text)
    }

    /// The instant `seconds` later.
    pub fn after_seconds(self, seconds: i64) -> (r: Timestamp)
        requires
            self.reaches(seconds as int),
        ensures
            r.micros == self.micros + seconds * 1_000_000,
    {
        Timestamp { micros: (self.micros as i128 + seconds as i128 * 1_000_000) as i64 }
    }
}

/// An instant together with the offset from UTC in which it is told.
#[derive(Clone, Copy, Debug, PartialEq, Eq, Structural)]
pub struct OffsetTime {
    pub instant: Timestamp,
    /// Positive to the east of Greenwich.
    pub offset_seconds: i32,
}

impl OffsetTime {
    /// What a clock at the offset shows, as nanoseconds since that clock showed the
    /// Unix epoch.
    pub open spec fn local_nanos(self) -> int {
        self.instant.micros * 1000 + self.offset_seconds * 1_000_000_000
    }

    /// RFC 3339 can write the offset, and the local year has four digits.
    pub open spec fn printable(self) -> bool {
        is_offset(self.offset_seconds as int) && has_four_digit_year(self.local_nanos())
    }

    /// `text` is the RFC 3339 text of the time, and denotes its instant and offset.
    pub open spec fn shown_as(self, text: Seq<char>) -> bool {
        &&& self.printable()
        &&& text == rfc3339_text(self.local_nanos(), self.offset_seconds as int)
        &&& rfc3339_nanos(text) == Some(self.instant.micros * 1000)
        &&& rfc3339_offset(text) == Some(self.offset_seconds as int)
    }

    /// The time is what `text` denotes, less what is finer than a microsecond.
    pub open spec fn reads(self, text: Seq<char>) -> bool {
        &&& rfc3339_nanos(text) matches Some(nanos) && self.instant.micros == nanos / 1000
        &&& rfc3339_offset(text) == Some(self.offset_seconds as int)
    }

    /// The time of an instant in UTC.
    pub fn utc(instant: Timestamp) -> (r: OffsetTime)
        ensures
            r == instant.in_utc(),
    {
        OffsetTime { instant, offset_seconds: 0 }
    }
}

/// The nanoseconds since the Unix epoch that an RFC 3339 text denotes, if it
/// denotes an instant.
pub uninterp spec fn rfc3339_nanos(text: Seq<char>) -> Option<int>;

/// The offset from UTC, in seconds, that an RFC 3339 text denotes, if it denotes
/// an instant.
pub uninterp spec fn rfc3339_offset(text: Seq<char>) -> Option<int>;

/// The RFC 3339 text of what a clock at the offset shows so many nanoseconds after
/// it showed the Unix epoch.
pub uninterp spec fn rfc3339_text(local_nanos: int, offset: int) -> Seq<char>;

/// An offset in whole minutes below a day.
pub open spec fn is_offset(seconds: int) -> bool {
    -86_400 < seconds < 86_400 && seconds % 60 == 0
}

/// The clock shows one of the years 0 to 9999.
pub open spec fn has_four_digit_year(local_nanos: int) -> bool {
    -62_167_219_200_000_000_000 <= local_nanos < 253_402_300_800_000_000_000
}

/// `OffsetDateTime::parse` with the `Rfc3339` description, read as nanoseconds
/// since the Unix epoch and as seconds of offset.
///
/// The year that the text gives has four digits, in the offset of the text, and
/// the offset has at most 23 hours and 59 minutes and no seconds.
#[verifier::external_body]
fn parse_rfc3339(text: &str) -> (r: Result<(i128, i32), time::error::Parse>)
    ensures
        match r {
            Ok((nanos, offset)) => {
                &&& rfc3339_nanos(text@) == Some(nanos as int)
                &&& rfc3339_offset(text@) == Some(offset as int)
                &&& is_offset(offset as int)
                &&& has_four_digit_year(nanos + offset * 1_000_000_000)
            },
            Err(_) => rfc3339_nanos(text@) is None && rfc3339_offset(text@) is None,
        },
{
    OffsetDateTime::parse(text, &Rfc3339).map(
        |time| (time.unix_timestamp_nanos(), time.offset().whole_seconds()),
    )
}

/// `OffsetDateTime::format` with the `Rfc3339` description, of the time at the
/// offset whose clock shows so many nanoseconds after the Unix epoch.
///
/// The description takes exactly the local years of four digits, all of which
/// `OffsetDateTime` represents. It writes every digit of the nanoseconds up to the
/// last that is not zero, and the offset in hours and minutes, so the text denotes
/// the same instant and offset again.
#[verifier::external_body]
fn format_rfc3339(local_nanos: i128, offset: i32) -> (r: Option<String>)
    requires
        is_offset(offset as int),
    ensures
        match r {
            Some(text) => {
                &&& has_four_digit_year(local_nanos as int)
                &&& text@ == rfc3339_text(local_nanos as int, offset as int)
                &&& rfc3339_nanos(text@) == Some(local_nanos - offset * 1_000_000_000)
                &&& rfc3339_offset(text@) == Some(offset as int)
            },
            None => !has_four_digit_year(local_nanos as int),
        },
{
    let local = OffsetDateTime::from_unix_timestamp_nanos(local_nanos).ok()?;
    let offset = UtcOffset::from_whole_seconds(offset).ok()?;
    local.replace_offset(offset).format(&Rfc3339).ok()
}

/// Reads an RFC 3339 text as a time, dropping what is finer than a microsecond.
/// Every time that can be read can be written again.
pub fn parse_time(value: &str) -> (r: Result<OffsetTime, JobsError>)
    ensures
        match r {
            Ok(time) => time.reads(value@) && time.printable(),
            Err(error) => {
                &&& rfc3339_nanos(value@) is None
                &&& rfc3339_offset(value@) is None
                &&& error == JobsError::Timestamp
            },
        },
{
    match parse_rfc3339(value) {
        Ok((nanos, offset_seconds)) => Ok(
            OffsetTime { instant: truncate_nanos(nanos), offset_seconds },
        ),
        Err(_) => Err(JobsError::Timestamp),
    }
}

/// The last whole microsecond at or before an instant given in nanoseconds.
pub fn truncate_nanos(nanos: i128) -> (r: Timestamp)
    requires
        i64::MIN <= nanos as int / 1000 <= i64::MAX,
    ensures
        r.micros == nanos as int / 1000,
{
    let quotient: i128 = nanos / 1000;
    let micros: i128 = if nanos % 1000 < 0 { quotient - 1 } else { quotient };
    Timestamp { micros: micros as i64 }
}

/// The RFC 3339 text of a time, in its offset. Reading it gives the time back.
pub fn format_time(value: OffsetTime) -> (r: Result<String, JobsError>)
    ensures
        match r {
            Ok(text) => value.shown_as(text@),
            Err(error) => !value.printable() && error == JobsError::Timestamp,
        },
{
    let offset: i32 = value.offset_seconds;
    if offset <= -86_400 || offset >= 86_400 || offset % 60 != 0 {
        return Err(JobsError::Timestamp);
    }
    let local_nanos: i128 = value.instant.micros as i128 * 1000 + offset as i128 * 1_000_000_000;
    match format_rfc3339(local_nanos, offset) {
        Some(text) => Ok(text),
        None => Err(JobsError::Timestamp),
    }
}

/// A time survives being written and read again: what is read from the text that
/// shows it is the same instant in the same offset. [`parse_time`] reads only times
/// that can be written, so this holds of every text that can be read.
pub proof fn law_written_time_reads_back(
    time: OffsetTime,
    shown: Seq<char>,
    again: OffsetTime,
)
    requires
        time.shown_as(shown),
        again.reads(shown),
    ensures
        again == time,
{
}

} // verus!
