//! Instants and spans of time as plain integers, and the calls that read the
//! clock and the RFC 3339 notation.
use vstd::prelude::*;

verus! {

/// An instant in UTC: seconds since the Unix epoch and nanoseconds into the
/// second.
///
/// `nanos` is below 1,000,000,000 except inside a leap second, which RFC 3339
/// texts can name; there it runs on to 1,999,999,999.
#[derive(Debug, Clone, Copy, PartialEq, Eq, Structural)]
pub struct Timestamp {
    pub secs: i64,
    pub nanos: u32,
}

/// A span of time: whole seconds and nanoseconds below one second.
#[derive(Debug, Clone, Copy, PartialEq, Eq, Structural)]
pub struct TimeSpan {
    pub secs: u64,
    pub nanos: u32,
}

/// Nanoseconds in one second.
pub open spec fn nanos_per_sec() -> int {
    1_000_000_000
}

/// The first second that a calendar date can be given for (year -262143).
pub open spec fn first_second() -> int {
    -8_334_601_228_800
}

/// The last second that a calendar date can be given for (year 262142).
pub open spec fn last_second() -> int {
    8_210_266_876_799
}

/// The last second of year 9999.
pub open spec fn last_four_digit_second() -> int {
    253_402_300_799
}

impl Timestamp {
    /// Nanoseconds since the epoch.
    pub open spec fn since_epoch(self) -> int {
        self.secs * nanos_per_sec() + self.nanos
    }

    /// Whether the instant lies outside a leap second and has a calendar date.
    pub open spec fn ordinary(self) -> bool {
        &&& self.nanos < nanos_per_sec()
        &&& first_second() <= self.secs <= last_second()
    }

    /// Whether `self` is at or after `other`.
    pub open spec fn not_before(self, other: Timestamp) -> bool {
        self.secs > other.secs || (self.secs == other.secs && self.nanos >= other.nanos)
    }

    /// Whether this instant is at or after `other`.
    pub fn at_or_after(&self, other: &Timestamp) -> (later: bool)
        ensures
            later == self.not_before(*other),
    {
        self.secs > other.secs || (self.secs == other.secs && self.nanos >= other.nanos)
    }
}

impl TimeSpan {
    /// The length in nanoseconds.
    pub open spec fn total_nanos(self) -> int {
        self.secs * nanos_per_sec() + self.nanos
    }

    /// Whether the nanoseconds stay below one second.
    pub open spec fn wf(self) -> bool {
        self.nanos < nanos_per_sec()
    }

    /// A span of `ms` milliseconds.
    pub fn from_millis(ms: u64) -> (span: TimeSpan)
        ensures
            span.wf(),
            span.total_nanos() == ms * 1_000_000,
            span.secs == ms / 1_000,
            span.nanos == (ms % 1_000) * 1_000_000,
    {
        TimeSpan { secs: ms / 1_000, nanos: ((ms % 1_000) as u32) * 1_000_000 }
    }
}

/// Whether a signed 64-bit count of milliseconds can hold the span.
pub open spec fn fits_millis(span: TimeSpan) -> bool {
    span.total_nanos() <= 0x7fff_ffff_ffff_ffff * 1_000_000
}

/// Why a span that does not fit is refused.
pub open spec fn out_of_range_text() -> Seq<char> {
    "Source duration value is out of range for the target type"@
}

/// `chrono::Duration::from_std`: refuses a span whose length in milliseconds is
/// above `i64::MAX`, with the text that chrono's error displays.
#[verifier::external_body]
pub(crate) fn check_span(span: TimeSpan) -> (fits: Result<(), String>)
    requires
        span.wf(),
    ensures
        fits is Ok <==> fits_millis(span),
        fits matches Err(reason) ==> reason@ == out_of_range_text(),
{
    match chrono::Duration::from_std(std::time::Duration::new(span.secs, span.nanos)) {
        Ok(_) => Ok(()),
        Err(e) => Err(e.to_string()),
    }
}

/// `chrono::Utc::now`: the current instant, never before the epoch and never
/// inside a leap second. It panics on a machine whose clock is set to before
/// the epoch.
#[verifier::external_body]
pub(crate) fn utc_now() -> (now: Timestamp)
    ensures
        now.ordinary(),
        now.secs >= 0,
{
    let now = chrono::Utc::now();
    Timestamp { secs: now.timestamp(), nanos: now.timestamp_subsec_nanos() }
}

/// The current instant.
pub fn now() -> (now: Timestamp)
    ensures
        now.ordinary(),
        now.secs >= 0,
{
    utc_now()
}

/// What `chrono::DateTime::to_rfc3339` writes for an instant.
pub uninterp spec fn rfc3339(secs: i64, nanos: u32) -> Seq<char>;

/// The instant that `chrono::DateTime::parse_from_rfc3339` reads from a text,
/// as seconds and nanoseconds; `None` where it refuses the text.
pub uninterp spec fn rfc3339_instant(text: Seq<char>) -> Option<(i64, u32)>;

/// `chrono::DateTime::to_rfc3339` of a UTC instant. Within the years 1970 to
/// 9999 the text reads back as the instant it was written for.
#[verifier::external_body]
pub(crate) fn write_rfc3339(at: Timestamp) -> (text: String)
    requires
        at.ordinary(),
    ensures
        text@ == rfc3339(at.secs, at.nanos),
        0 <= at.secs <= last_four_digit_second() ==> rfc3339_instant(text@) == Some(
            (at.secs, at.nanos),
        ),
{
    match chrono::DateTime::from_timestamp(at.secs, at.nanos) {
        Some(instant) => instant.to_rfc3339(),
        None => String::new(),
    }
}

/// `chrono::DateTime::parse_from_rfc3339`, moved to UTC.
#[verifier::external_body]
pub(crate) fn read_rfc3339(text: &str) -> (at: Option<Timestamp>)
    ensures
        at is Some <==> rfc3339_instant(text@) is Some,
        at matches Some(t) ==> rfc3339_instant(text@) == Some((t.secs, t.nanos)),
{
    match chrono::DateTime::parse_from_rfc3339(text) {
        Ok(instant) => Some(
            Timestamp { secs: instant.timestamp(), nanos: instant.timestamp_subsec_nanos() },
        ),
        Err(_) => None,
    }
}

/// What the standard library's debug format of a duration writes (`1.5s`,
/// `50ms`).
pub uninterp spec fn duration_debug(secs: u64, nanos: u32) -> Seq<char>;

/// The debug format of `std::time::Duration`.
#[verifier::external_body]
pub(crate) fn duration_text(span: TimeSpan) -> (text: String)
    requires
        span.wf(),
    ensures
        text@ == duration_debug(span.secs, span.nanos),
{
    format!("{:?}", std::time::Duration::new(span.secs, span.nanos))
}

/// Whole milliseconds from `start` to `end`; zero where `end` is not after
/// `start`.
pub open spec fn millis_between(start: Timestamp, end: Timestamp) -> int {
    let elapsed = end.since_epoch() - start.since_epoch();
    if elapsed <= 0 {
        0
    } else {
        elapsed / 1_000_000
    }
}

/// The duration reported for what ran from `start` to `end`: the largest count
/// where the milliseconds do not fit.
pub open spec fn duration_ms(start: Timestamp, end: Timestamp) -> u64 {
    if millis_between(start, end) > u64::MAX {
        u64::MAX
    } else {
        millis_between(start, end) as u64
    }
}

/// Whole milliseconds from `start` to `end`, zero where the clock went back,
/// and the largest count where it does not fit.
pub fn elapsed_ms(start: Timestamp, end: Timestamp) -> (ms: u64)
    ensures
        ms == duration_ms(start, end),
{
    let from: i128 = start.secs as i128 * 1_000_000_000 + start.nanos as i128;
    let to: i128 = end.secs as i128 * 1_000_000_000 + end.nanos as i128;
    let elapsed: i128 = to - from;
    if elapsed <= 0 {
        0
    } else {
        let ms: i128 = elapsed / 1_000_000;
        if ms > 0xffff_ffff_ffff_ffff {
            0xffff_ffff_ffff_ffff
        } else {
            ms as u64
        }
    }
}

/// A duration counts the whole milliseconds from the start to the end: the
/// nanoseconds in between are at least as many and less than one millisecond
/// more; none are counted where the clock stood still or went back.
pub proof fn law_durations_count_milliseconds(start: Timestamp, end: Timestamp, ms: u64)
    requires
        call_ensures(elapsed_ms, (start, end), ms),
    ensures
        ({
            let nanos = (end.secs - start.secs) * 1_000_000_000 + end.nanos - start.nanos;
            &&& nanos <= 0 ==> ms == 0
            &&& nanos > 0 && ms < u64::MAX ==> ms * 1_000_000 <= nanos < (ms + 1) * 1_000_000
            &&& ms == u64::MAX ==> nanos >= u64::MAX * 1_000_000
        }),
{
}

/// The instant a span before another lies as many nanoseconds before it as the
/// span is long.
pub proof fn law_earlier_lies_a_span_before(now: Timestamp, span: TimeSpan, at: Option<Timestamp>)
    requires
        now.ordinary(),
        span.wf(),
        call_ensures(before, (now, span), at),
    ensures
        at matches Some(t) ==> t.nanos < 1_000_000_000 && (now.secs - t.secs) * 1_000_000_000
            + now.nanos - t.nanos == span.secs * 1_000_000_000 + span.nanos,
        span.secs <= 8_000_000_000_000 && now.secs >= 0 ==> at is Some,
{
}

/// The instant `span` before `now`.
pub open spec fn earlier(now: Timestamp, span: TimeSpan) -> Timestamp {
    let at = now.since_epoch() - span.total_nanos();
    Timestamp { secs: (at / nanos_per_sec()) as i64, nanos: (at % nanos_per_sec()) as u32 }
}

/// The instant `span` before `now`, where it has a calendar date.
pub fn before(now: Timestamp, span: TimeSpan) -> (at: Option<Timestamp>)
    requires
        now.ordinary(),
        span.wf(),
    ensures
        at is Some <==> now.since_epoch() - span.total_nanos() >= first_second() * nanos_per_sec(),
        at matches Some(t) ==> {
            &&& t == earlier(now, span)
            &&& t.ordinary()
            &&& t.since_epoch() == now.since_epoch() - span.total_nanos()
        },
{
    let at: i128 = now.secs as i128 * 1_000_000_000 + now.nanos as i128 - (span.secs as i128
        * 1_000_000_000 + span.nanos as i128);
    if at < -8_334_601_228_800 * 1_000_000_000 {
        return None;
    }
    let shifted: i128 = at + 8_334_601_228_800 * 1_000_000_000;
    let secs: i128 = shifted / 1_000_000_000;
    let nanos: i128 = shifted % 1_000_000_000;
    Some(Timestamp { secs: (secs - 8_334_601_228_800) as i64, nanos: nanos as u32 })
}

} // verus!
