//! Timestamps as the server sends them: signed microseconds since
//! 2000-01-01 00:00:00 UTC.
use vstd::prelude::*;

use crate::primitives::{be_uint, read_i64, signed64};

verus! {

/// Julian day number of 1970-01-01.
pub const UNIX_EPOCH_JDATE: i64 = 2440588;

/// Julian day number of 2000-01-01.
pub const POSTGRES_EPOCH_JDATE: i64 = 2451545;

pub const SECS_PER_DAY: i64 = 86400;

/// Microseconds from the Unix epoch to the PostgreSQL epoch.
pub const TIME_ADJUST: i64 = (POSTGRES_EPOCH_JDATE - UNIX_EPOCH_JDATE) * SECS_PER_DAY * 1_000_000;

/// Microseconds since 2000-01-01 00:00:00 UTC.
#[derive(Debug, Clone, Copy, PartialEq, Eq, Structural)]
pub struct Pgtime(pub i64);

/// A timestamp that falls outside the range of calendar dates that can be
/// rendered; it carries the timestamp's microseconds.
#[derive(Debug, Clone, Copy, PartialEq, Eq, Structural)]
pub struct TimeRangeError(pub i64);

/// The earliest instant that can be rendered, as microseconds since the Unix
/// epoch: the start of January 1 of year -262143 (262144 BCE).
pub const MIN_UNIX_MICROS: i64 = -8_334_601_228_800_000_000;

/// The latest instant that can be rendered, as microseconds since the Unix
/// epoch: the last microsecond of December 31 of year 262142.
pub const MAX_UNIX_MICROS: i64 = 8_210_266_876_799_999_999;

/// The calendar text `YYYY-MM-DD HH:MM:SS.ffffff` (UTC) of the instant
/// `micros` microseconds after 1970-01-01 00:00:00 UTC.
pub uninterp spec fn utc_text(micros: int) -> Seq<char>;

/// Relies on chrono's `DateTime::<Utc>::from_timestamp_micros`, which gives
/// `None` exactly for an instant outside chrono's range of dates
/// (`NaiveDate::MIN` to `NaiveDate::MAX`), and on its `format` with
/// `%Y-%m-%d %H:%M:%S%.6f`, whose text depends on the instant alone.
#[verifier::external_body]
fn format_unix_micros(micros: i64) -> (r: Option<String>)
    ensures
        r is Some <==> MIN_UNIX_MICROS <= micros <= MAX_UNIX_MICROS,
        r matches Some(s) ==> s@ == utc_text(micros as int),
{
    match chrono::DateTime::from_timestamp_micros(micros) {
        Some(t) => Some(t.format("%Y-%m-%d %H:%M:%S%.6f").to_string()),
        None => None,
    }
}

/// Relies on chrono's `From<SystemTime> for DateTime<Utc>`, which takes clock
/// readings before 1970 too, and `DateTime::timestamp_micros`: the current
/// time as microseconds since 1970-01-01 00:00:00 UTC. Nothing is promised of
/// its value.
#[verifier::external_body]
fn unix_micros_now() -> (r: i64) {
    chrono::DateTime::<chrono::Utc>::from(std::time::SystemTime::now()).timestamp_micros()
}

impl Pgtime {
    /// The timestamp `micros` microseconds after the Unix epoch, or `None`
    /// where it does not fit in 64 bits.
    pub fn from_unix_micros(micros: i64) -> (r: Option<Pgtime>)
        ensures
            r is Some <==> micros - TIME_ADJUST >= i64::MIN,
            r matches Some(t) ==> t.0 == micros - TIME_ADJUST,
    {
        if micros >= i64::MIN + TIME_ADJUST {
            Some(Pgtime(micros - TIME_ADJUST))
        } else {
            None
        }
    }

    /// The wall-clock time now, or `None` where the clock reads an instant
    /// that does not fit.
    pub fn now() -> (r: Option<Pgtime>)
        ensures
            r matches Some(t) ==> t.0 <= i64::MAX - TIME_ADJUST,
    {
        Pgtime::from_unix_micros(unix_micros_now())
    }

    /// The timestamp whose big-endian two's complement encoding is `bytes`.
    pub fn from_be_bytes(bytes: [u8; 8]) -> (r: Pgtime)
        ensures
            r.0 == signed64(be_uint(bytes@)),
    {
        let b = bytes.as_slice();
        proof {
            assert(b@.skip(0).take(8) =~= bytes@);
        }
        match read_i64(b, 0) {
            Ok((v, _)) => Pgtime(v),
            Err(_) => {
                proof {
                    assert(false);
                }
                Pgtime(0)
            },
        }
    }

    /// Renders the timestamp as UTC calendar text with microseconds, such as
    /// `2000-01-01 00:00:00.000000`. Fails where the instant is outside the
    /// range of dates that can be rendered.
    pub fn format(&self) -> (r: Result<String, TimeRangeError>)
        ensures
            r is Ok <==> MIN_UNIX_MICROS <= self.0 + TIME_ADJUST <= MAX_UNIX_MICROS,
            r matches Ok(s) ==> s@ == utc_text(self.0 + TIME_ADJUST),
            r matches Err(e) ==> e == TimeRangeError(self.0),
    {
        if self.0 > i64::MAX - TIME_ADJUST {
            return Err(TimeRangeError(self.0));
        }
        match format_unix_micros(self.0 + TIME_ADJUST) {
            Some(s) => Ok(s),
            None => Err(TimeRangeError(self.0)),
        }
    }
}

} // verus!
