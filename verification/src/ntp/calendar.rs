//! Calendar-time conversions for the fixed-point values. The split of a
//! timestamp into whole seconds and nanoseconds is verified; only the step
//! between such plain parts and chrono's calendar types is trusted.

use vstd::prelude::*;
use crate::ntp::types::{
    short_frac_nanos, short_fraction, short_nanos_frac, short_seconds, short_with_fraction,
    short_with_seconds, lemma_short_nanos_roundtrip, lemma_timestamp_nanos_roundtrip,
    ts_frac_nanos, ts_fraction, ts_nanos_frac, ts_seconds, ts_with_fraction, ts_with_seconds,
    Short, TimeError, Timestamp, TimestampTrait, NTP_UNIX_OFFSET_SECONDS,
};

verus! {

/// A UTC calendar instant exactly as chrono holds it, kept whole behind this
/// opaque wrapper: chrono's `DateTime` is generic over its time-zone trait,
/// which the verifier cannot take in a type declaration.
#[verifier::external_body]
pub struct UtcDateTime {
    datetime: chrono::DateTime<chrono::Utc>,
}

#[verifier::external_type_specification]
#[verifier::external_body]
pub struct ExTimeDelta(chrono::TimeDelta);

/// A name for what chrono::DateTime::from_timestamp returns: the UTC instant
/// of a Unix timestamp, a pure function of the seconds and nanoseconds alone.
pub uninterp spec fn utc_of(seconds: i64, nanoseconds: u32) -> UtcDateTime;

/// A name for what chrono::DateTime::timestamp returns: the whole non-leap
/// seconds since the Unix epoch of an instant, a pure function of it.
pub uninterp spec fn unix_seconds_of(datetime: UtcDateTime) -> i64;

/// A name for what chrono::DateTime::timestamp_subsec_nanos returns: the
/// nanoseconds since an instant's last whole second, a pure function of it.
pub uninterp spec fn unix_subsec_nanos_of(datetime: UtcDateTime) -> u32;

impl UtcDateTime {
    /// Relies on chrono::DateTime::from_timestamp: the UTC instant of a Unix
    /// timestamp, `utc_of` the two parts; `Some` whenever the seconds lie
    /// well inside chrono's roughly ±262000-year date range and the
    /// nanoseconds stay below one billion.
    #[verifier::external_body]
    fn from_unix(seconds: i64, nanoseconds: u32) -> (r: Option<UtcDateTime>)
        ensures
            (-8_000_000_000_000 <= seconds <= 8_000_000_000_000 && nanoseconds < 1_000_000_000)
                ==> r is Some,
            r matches Some(datetime) ==> datetime == utc_of(seconds, nanoseconds),
    {
        match chrono::DateTime::from_timestamp(seconds, nanoseconds) {
            Some(datetime) => Some(UtcDateTime { datetime }),
            None => None,
        }
    }

    /// Relies on chrono::DateTime::timestamp: the instant as whole non-leap
    /// seconds since the Unix epoch, floored — `unix_seconds_of` the instant;
    /// chrono's date range keeps the value within ten trillion either way.
    #[verifier::external_body]
    pub fn unix_seconds(&self) -> (r: i64)
        ensures
            r == unix_seconds_of(*self),
            -10_000_000_000_000 <= r <= 10_000_000_000_000,
    {
        self.datetime.timestamp()
    }

    /// Relies on chrono::DateTime::timestamp_subsec_nanos: the nanoseconds
    /// since the last whole second — `unix_subsec_nanos_of` the instant —
    /// below two billion (a represented leap second can push the value past
    /// one billion).
    #[verifier::external_body]
    pub fn unix_subsec_nanos(&self) -> (r: u32)
        ensures
            r == unix_subsec_nanos_of(*self),
            r < 2_000_000_000,
    {
        self.datetime.timestamp_subsec_nanos()
    }

    /// Relies on chrono::DateTime::to_rfc3339_opts: the instant written as an
    /// RFC 3339 string with nanosecond precision and a Z suffix.
    #[verifier::external_body]
    pub fn to_rfc3339_nanos(&self) -> String {
        self.datetime.to_rfc3339_opts(chrono::SecondsFormat::Nanos, true)
    }
}

/// A name for what chrono::TimeDelta::new returns on success: the duration of
/// given seconds and nanoseconds, a pure function of the two parts alone.
pub uninterp spec fn delta_of(seconds: i64, nanoseconds: u32) -> chrono::TimeDelta;

/// A name for what chrono::TimeDelta::num_seconds returns: a duration's whole
/// seconds truncated toward zero, a pure function of it.
pub uninterp spec fn delta_secs_of(delta: chrono::TimeDelta) -> i64;

/// A name for what chrono::TimeDelta::subsec_nanos returns: a duration's
/// nanosecond remainder, a pure function of it.
pub uninterp spec fn delta_nanos_of(delta: chrono::TimeDelta) -> i64;

/// Relies on chrono::TimeDelta::new: the duration of the given seconds and
/// nanoseconds, `delta_of` the two parts; `Some` whenever the seconds lie
/// well inside chrono's range of ±(i64::MAX milliseconds) and the nanoseconds
/// stay below one billion.
#[verifier::external_body]
fn delta_from_parts(seconds: i64, nanoseconds: u32) -> (r: Option<chrono::TimeDelta>)
    ensures
        (0 <= seconds <= 1_000_000_000_000 && nanoseconds < 1_000_000_000) ==> r is Some,
        r matches Some(delta) ==> delta == delta_of(seconds, nanoseconds),
{
    chrono::TimeDelta::new(seconds, nanoseconds)
}

/// Relies on chrono::TimeDelta::num_seconds and TimeDelta::subsec_nanos: the
/// duration as whole seconds truncated toward zero and the nanosecond
/// remainder — `delta_secs_of` and `delta_nanos_of` the duration. The
/// remainder carries the same sign as the whole seconds and stays below one
/// billion in magnitude.
#[verifier::external_body]
fn delta_split(delta: &chrono::TimeDelta) -> (r: (i64, i64))
    ensures
        r.0 == delta_secs_of(*delta),
        r.1 == delta_nanos_of(*delta),
        -1_000_000_000 < r.1 < 1_000_000_000,
        r.0 > 0 ==> r.1 >= 0,
        r.0 < 0 ==> r.1 <= 0,
{
    (delta.num_seconds(), delta.subsec_nanos() as i64)
}

/// The timestamp a duration since the NTP epoch converts to: its seconds in
/// the high half and its nanoseconds as a binary fraction in the low half, or
/// `OutOfRange` where the seconds do not fit 32 bits or the nanoseconds do
/// not name a fraction of one second.
pub open spec fn spec_timestamp_from_epoch_parts(seconds: int, nanoseconds: int) -> Result<
    Timestamp,
    TimeError,
> {
    if 0 <= seconds <= u32::MAX && 0 <= nanoseconds < 1_000_000_000 {
        Ok(
            Timestamp(
                ts_with_fraction(
                    ts_with_seconds(0, seconds as u32),
                    ts_nanos_frac(nanoseconds as u32) as u32,
                ),
            ),
        )
    } else {
        Err(TimeError::OutOfRange)
    }
}

/// The short value a duration converts to: its seconds in the high half and
/// its nanoseconds as a binary fraction in the low half, or `OutOfRange`
/// where the seconds do not fit 16 bits or the nanoseconds do not name a
/// fraction of one second.
pub open spec fn spec_short_from_duration_parts(seconds: int, nanoseconds: int) -> Result<
    Short,
    TimeError,
> {
    if 0 <= seconds <= u16::MAX && 0 <= nanoseconds < 1_000_000_000 {
        Ok(
            Short(
                short_with_fraction(
                    short_with_seconds(0, seconds as u16),
                    short_nanos_frac(nanoseconds as u32) as u16,
                ),
            ),
        )
    } else {
        Err(TimeError::OutOfRange)
    }
}

impl Timestamp {
    /// The timestamp of a duration since the NTP epoch, handed in as whole
    /// seconds and nanoseconds; `OutOfRange` exactly where the duration does
    /// not fit the 64-bit fixed-point width.
    pub fn from_epoch_parts(seconds: i64, nanoseconds: i64) -> (r: Result<Timestamp, TimeError>)
        ensures
            r == spec_timestamp_from_epoch_parts(seconds as int, nanoseconds as int),
    {
        if seconds < 0 || seconds > u32::MAX as i64 || nanoseconds < 0 || nanoseconds
            >= 1_000_000_000 {
            return Err(TimeError::OutOfRange);
        }
        let base = Timestamp(0).set_seconds(seconds as u32);
        match base.fraction_from_nanoseconds(nanoseconds as u32) {
            Ok(t) => Ok(t),
            Err(_) => Err(TimeError::OutOfRange),
        }
    }

    /// The calendar instant this timestamp names: the NTP epoch plus the
    /// seconds half plus the fraction half as nanoseconds. The split into
    /// parts is verified; chrono only places them on the calendar.
    pub fn into_utc_datetime(self) -> (r: UtcDateTime)
        ensures
            r == utc_of(
                (ts_seconds(self.0) - NTP_UNIX_OFFSET_SECONDS) as i64,
                ts_frac_nanos(ts_fraction(self.0)) as u32,
            ),
    {
        let seconds = self.get_seconds();
        let nanoseconds = self.fraction_as_nanoseconds();
        proof {
            lemma_timestamp_nanos_roundtrip(crate::ntp::types::ts_fraction(self.0));
        }
        let unix = seconds as i64 - NTP_UNIX_OFFSET_SECONDS as i64;
        match UtcDateTime::from_unix(unix, nanoseconds) {
            Some(datetime) => datetime,
            None => vstd::pervasive::unreached(),
        }
    }

    /// The timestamp of a calendar instant: its duration since the NTP epoch,
    /// split by chrono into plain parts and converted exactly as
    /// `from_epoch_parts`; `OutOfRange` where the instant lies before the NTP
    /// epoch or past the 32-bit seconds range.
    pub fn from_utc_datetime(datetime: UtcDateTime) -> (r: Result<Timestamp, TimeError>)
        ensures
            r == spec_timestamp_from_epoch_parts(
                unix_seconds_of(datetime) + NTP_UNIX_OFFSET_SECONDS,
                unix_subsec_nanos_of(datetime) as int,
            ),
    {
        let unix = datetime.unix_seconds();
        let nanoseconds = datetime.unix_subsec_nanos();
        let epoch_seconds = unix + NTP_UNIX_OFFSET_SECONDS as i64;
        Timestamp::from_epoch_parts(epoch_seconds, nanoseconds as i64)
    }
}

impl Short {
    /// The short value of a duration handed in as whole seconds and
    /// nanoseconds; `OutOfRange` exactly where the duration does not fit the
    /// 32-bit fixed-point width.
    pub fn from_duration_parts(seconds: i64, nanoseconds: i64) -> (r: Result<Short, TimeError>)
        ensures
            r == spec_short_from_duration_parts(seconds as int, nanoseconds as int),
    {
        if seconds < 0 || seconds > u16::MAX as i64 || nanoseconds < 0 || nanoseconds
            >= 1_000_000_000 {
            return Err(TimeError::OutOfRange);
        }
        let base = Short(0).set_seconds(seconds as u16);
        match base.fraction_from_nanoseconds(nanoseconds as u32) {
            Ok(t) => Ok(t),
            Err(_) => Err(TimeError::OutOfRange),
        }
    }

    /// The duration this short value names: its seconds half plus its
    /// fraction half as nanoseconds. The split into parts is verified; chrono
    /// only carries them as a duration.
    pub fn into_duration(self) -> (r: chrono::TimeDelta)
        ensures
            r == delta_of(
                short_seconds(self.0) as i64,
                short_frac_nanos(short_fraction(self.0)) as u32,
            ),
    {
        let seconds = self.get_seconds();
        let nanoseconds = self.fraction_as_nanoseconds();
        proof {
            lemma_short_nanos_roundtrip(crate::ntp::types::short_fraction(self.0));
        }
        match delta_from_parts(seconds as i64, nanoseconds) {
            Some(delta) => delta,
            None => vstd::pervasive::unreached(),
        }
    }

    /// The short value of a chrono duration, split by chrono into plain parts
    /// and converted exactly as `from_duration_parts`; `OutOfRange` where the
    /// duration is negative or past the 16-bit seconds range.
    pub fn from_duration(duration: chrono::TimeDelta) -> (r: Result<Short, TimeError>)
        ensures
            r == spec_short_from_duration_parts(
                delta_secs_of(duration) as int,
                delta_nanos_of(duration) as int,
            ),
    {
        let (seconds, nanoseconds) = delta_split(&duration);
        Short::from_duration_parts(seconds, nanoseconds)
    }
}

} // verus!
