//! Instants and the fixed UTC+9 zone in which every record is kept.

use vstd::prelude::*;
use crate::types::Timestamp;

verus! {

/// Offset of the zone of record (UTC+9) from UTC, in seconds.
pub const JST_OFFSET_SECS: i32 = 32400;

/// Nanoseconds in a minute.
pub const NANOS_PER_MINUTE: i128 = 60_000_000_000;

/// Farthest distance from the Unix epoch, in seconds, of an instant that the
/// library writes out as a date: some 253,000 years either way.
pub const MAX_WRITABLE_SECS: i64 = 8_000_000_000_000;

/// Whether the library writes the instant out as a date.
pub open spec fn is_writable(t: Timestamp) -> bool {
    -MAX_WRITABLE_SECS <= t.secs <= MAX_WRITABLE_SECS
}

/// Nanoseconds from the Unix epoch to `t`.
pub open spec fn instant_nanos(t: Timestamp) -> int {
    t.secs * 1_000_000_000 + t.nanos
}

/// Quotient rounded toward zero, for a positive divisor.
pub open spec fn div_toward_zero(a: int, b: int) -> int {
    if a >= 0 {
        a / b
    } else {
        -((-a) / b)
    }
}

/// Remainder that goes with `div_toward_zero`; it has the sign of `a`.
pub open spec fn rem_toward_zero(a: int, b: int) -> int {
    a - b * div_toward_zero(a, b)
}

/// Whole minutes from `from` to `to`, rounded toward zero; negative when `to`
/// lies before `from`.
pub open spec fn minutes_between(from: Timestamp, to: Timestamp) -> int {
    div_toward_zero(instant_nanos(to) - instant_nanos(from), 60_000_000_000)
}

/// Seconds since local midnight in the zone of record.
pub open spec fn jst_second_of_day(t: Timestamp) -> int {
    (t.secs + 32400) % 86400
}

/// Hour of the day (0 to 23) in the zone of record.
pub open spec fn jst_hour(t: Timestamp) -> int {
    jst_second_of_day(t) / 3600
}

/// Minute of the hour (0 to 59) in the zone of record.
pub open spec fn jst_minute(t: Timestamp) -> int {
    (jst_second_of_day(t) % 3600) / 60
}

pub(crate) fn quotient_toward_zero(a: i128, b: i128) -> (q: i128)
    requires
        b > 0,
        a > i128::MIN,
    ensures
        q == div_toward_zero(a as int, b as int),
{
    if a >= 0 {
        let ua: u128 = a as u128;
        let ub: u128 = b as u128;
        (ua / ub) as i128
    } else {
        let ua: u128 = (-a) as u128;
        let ub: u128 = b as u128;
        -((ua / ub) as i128)
    }
}

pub(crate) fn remainder_toward_zero(a: i128, b: i128) -> (r: i128)
    requires
        b > 0,
        a > i128::MIN,
    ensures
        r == rem_toward_zero(a as int, b as int),
{
    if a >= 0 {
        let ua: u128 = a as u128;
        let ub: u128 = b as u128;
        proof {
            vstd::arithmetic::div_mod::lemma_fundamental_div_mod(a as int, b as int);
        }
        (ua % ub) as i128
    } else {
        let ua: u128 = (-a) as u128;
        let ub: u128 = b as u128;
        proof {
            let q = (-(a as int)) / (b as int);
            vstd::arithmetic::div_mod::lemma_fundamental_div_mod(-(a as int), b as int);
            assert((b as int) * (-q) == -((b as int) * q)) by (nonlinear_arith);
        }
        -((ua % ub) as i128)
    }
}

impl Timestamp {
    /// Whole minutes from `self` to `later`, rounded toward zero.
    pub fn minutes_until(&self, later: &Timestamp) -> (m: i128)
        ensures
            m == minutes_between(*self, *later),
            -0x1000_0000_0000_0000 < m < 0x1000_0000_0000_0000,
    {
        let a: i128 = (self.secs as i128) * 1_000_000_000 + (self.nanos as i128);
        let b: i128 = (later.secs as i128) * 1_000_000_000 + (later.nanos as i128);
        quotient_toward_zero(b - a, NANOS_PER_MINUTE)
    }

    /// Seconds since local midnight in the zone of record.
    pub fn second_of_day_jst(&self) -> (s: u32)
        ensures
            s == jst_second_of_day(*self),
            s < 86400,
    {
        // 106_751_991_167_301 days reach past the earliest instant there is.
        let lifted: i128 = (self.secs as i128) + 32400 + 86400 * 106_751_991_167_301;
        let second: u128 = (lifted as u128) % 86400;
        proof {
            vstd::arithmetic::div_mod::lemma_mod_multiples_vanish(
                106_751_991_167_301,
                self.secs + 32400,
                86400,
            );
        }
        second as u32
    }

    /// Hour of the day in the zone of record.
    pub fn hour_jst(&self) -> (h: u32)
        ensures
            h == jst_hour(*self),
            h < 24,
    {
        self.second_of_day_jst() / 3600
    }

    /// Minute of the hour in the zone of record.
    pub fn minute_jst(&self) -> (m: u32)
        ensures
            m == jst_minute(*self),
            m < 60,
    {
        (self.second_of_day_jst() % 3600) / 60
    }
}

/// What an RFC 3339 text denotes: seconds since the Unix epoch and the
/// nanoseconds within the second, or nothing where the text is no such date.
pub uninterp spec fn rfc3339_instant(s: Seq<char>) -> Option<(i64, u32)>;

/// The RFC 3339 text, to the second, of an instant seen at a fixed offset from UTC.
pub uninterp spec fn rfc3339_at_offset(secs: i64, nanos: u32, offset_secs: i32) -> Option<Seq<char>>;

/// The text of an instant seen at a fixed offset from UTC, written after a
/// `strftime` pattern.
pub uninterp spec fn formatted_at_offset(
    secs: i64,
    nanos: u32,
    offset_secs: i32,
    pattern: Seq<char>,
) -> Option<Seq<char>>;

/// The pattern of a calendar date: `YYYY-MM-DD`.
pub open spec fn date_pattern() -> Seq<char> {
    "%Y-%m-%d"@
}

/// The pattern of a date with the time of day: `YYYY-MM-DD HH:MM:SS`.
pub open spec fn date_time_pattern() -> Seq<char> {
    "%Y-%m-%d %H:%M:%S"@
}

/// The instant made of seconds and nanoseconds, where there are any.
pub open spec fn timestamp_of(p: Option<(i64, u32)>) -> Option<Timestamp> {
    match p {
        Some(v) => Some(Timestamp { secs: v.0, nanos: v.1 }),
        None => None,
    }
}

/// An optional text holds exactly the expected characters, or is absent with them.
pub open spec fn text_matches(r: Option<String>, expected: Option<Seq<char>>) -> bool {
    match r {
        Some(s) => expected == Some(s@),
        None => expected is None,
    }
}

/// Calls chrono's `DateTime::parse_from_rfc3339` and reads the instant with
/// `timestamp` and `timestamp_subsec_nanos`. Trusted: the outcome depends on
/// the text alone.
#[verifier::external_body]
pub(crate) fn parse_rfc3339(s: &str) -> (r: Option<Timestamp>)
    ensures
        r == timestamp_of(rfc3339_instant(s@)),
{
    match chrono::DateTime::parse_from_rfc3339(s) {
        Ok(dt) => Some(Timestamp { secs: dt.timestamp(), nanos: dt.timestamp_subsec_nanos() }),
        Err(_) => None,
    }
}

/// Calls chrono's `DateTime::from_timestamp`, `with_timezone` and
/// `to_rfc3339_opts` (seconds precision). Trusted: the text depends on the
/// instant and the offset alone; there is none where chrono cannot represent
/// the instant or the offset. Instants near the ends of chrono's range, where
/// the local time would fall outside it, are kept out.
#[verifier::external_body]
pub(crate) fn render_rfc3339(t: Timestamp, offset_secs: i32) -> (r: Option<String>)
    requires
        is_writable(t),
    ensures
        text_matches(r, rfc3339_at_offset(t.secs, t.nanos, offset_secs)),
{
    let utc = chrono::DateTime::from_timestamp(t.secs, t.nanos)?;
    let zone = chrono::FixedOffset::east_opt(offset_secs)?;
    Some(utc.with_timezone(&zone).to_rfc3339_opts(chrono::SecondsFormat::Secs, true))
}

/// Calls chrono's `DateTime::from_timestamp`, `with_timezone` and `format`
/// with one of the two patterns above. Trusted: the text depends on the
/// instant, the offset and the pattern alone; there is none where chrono
/// cannot represent the instant or the offset.
#[verifier::external_body]
pub(crate) fn render_formatted(t: Timestamp, offset_secs: i32, pattern: &str) -> (r: Option<String>)
    requires
        is_writable(t),
        pattern@ == date_pattern() || pattern@ == date_time_pattern(),
    ensures
        text_matches(r, formatted_at_offset(t.secs, t.nanos, offset_secs, pattern@)),
{
    let utc = chrono::DateTime::from_timestamp(t.secs, t.nanos)?;
    let zone = chrono::FixedOffset::east_opt(offset_secs)?;
    Some(utc.with_timezone(&zone).format(pattern).to_string())
}

/// The RFC 3339 text of an instant in the zone of record, to the second;
/// none for an instant that is not writable or that chrono cannot represent.
pub open spec fn jst_rfc3339(t: Timestamp) -> Option<Seq<char>> {
    if is_writable(t) {
        rfc3339_at_offset(t.secs, t.nanos, JST_OFFSET_SECS)
    } else {
        None
    }
}

/// The text of an instant in the zone of record after a pattern; none for an
/// instant that is not writable or that chrono cannot represent.
pub open spec fn jst_text(t: Timestamp, pattern: Seq<char>) -> Option<Seq<char>> {
    if is_writable(t) {
        formatted_at_offset(t.secs, t.nanos, JST_OFFSET_SECS, pattern)
    } else {
        None
    }
}

impl Timestamp {
    fn writable(&self) -> (w: bool)
        ensures
            w == is_writable(*self),
    {
        -MAX_WRITABLE_SECS <= self.secs && self.secs <= MAX_WRITABLE_SECS
    }

    /// The instant in the zone of record as RFC 3339 text, to the second.
    pub fn rfc3339_jst(&self) -> (r: Option<String>)
        ensures
            text_matches(r, jst_rfc3339(*self)),
    {
        if self.writable() {
            render_rfc3339(*self, JST_OFFSET_SECS)
        } else {
            None
        }
    }

    /// The calendar date of the instant in the zone of record.
    pub fn date_jst(&self) -> (r: Option<String>)
        ensures
            text_matches(r, jst_text(*self, date_pattern())),
    {
        if self.writable() {
            render_formatted(*self, JST_OFFSET_SECS, "%Y-%m-%d")
        } else {
            None
        }
    }

    /// Date and time of day of the instant in the zone of record.
    pub fn date_time_jst(&self) -> (r: Option<String>)
        ensures
            text_matches(r, jst_text(*self, date_time_pattern())),
    {
        if self.writable() {
            render_formatted(*self, JST_OFFSET_SECS, "%Y-%m-%d %H:%M:%S")
        } else {
            None
        }
    }
}

} // verus!
