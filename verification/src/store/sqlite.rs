//! The notation in which the SQLite store keeps checkpoints.
use crate::checkpoint_meta::{status_named, CheckpointStatus};
use crate::clock::{
    last_four_digit_second, read_rfc3339, rfc3339, rfc3339_instant, utc_now, write_rfc3339,
    Timestamp,
};
use vstd::prelude::*;

verus! {

/// The status that a stored name stands for, `Complete` where it is none.
pub fn parse_status(s: &str) -> (status: CheckpointStatus)
    ensures
        status == status_named(s@),
{
    CheckpointStatus::from_name(s)
}

/// The instant that a stored text stands for, or `fallback` where it is none.
pub open spec fn instant_or(text: Seq<char>, fallback: Timestamp) -> Timestamp {
    match rfc3339_instant(text) {
        Some(at) => Timestamp { secs: at.0, nanos: at.1 },
        None => fallback,
    }
}

/// Reads a stored time of creation; `fallback` stands in for an unreadable one.
pub fn read_created_at_or(text: &str, fallback: Timestamp) -> (at: Timestamp)
    ensures
        at == instant_or(text@, fallback),
{
    match read_rfc3339(text) {
        Some(at) => at,
        None => fallback,
    }
}

/// Reads a stored time of creation; the current time stands in for an
/// unreadable one.
pub fn read_created_at(text: &str) -> (at: Timestamp)
    ensures
        rfc3339_instant(text@) matches Some(i) ==> at == (Timestamp { secs: i.0, nanos: i.1 }),
        rfc3339_instant(text@) is None ==> at.ordinary() && at.secs >= 0,
{
    match read_rfc3339(text) {
        Some(at) => at,
        None => utc_now(),
    }
}

/// Writes a time of creation or a cutoff as it is stored. A time of the years
/// 1970 to 9999 reads back as itself.
pub fn write_created_at(at: Timestamp) -> (text: String)
    requires
        at.ordinary(),
    ensures
        text@ == rfc3339(at.secs, at.nanos),
        0 <= at.secs <= last_four_digit_second() ==> forall|fallback: Timestamp| #[trigger]
            instant_or(text@, fallback) == at,
{
    write_rfc3339(at)
}

/// A time of the years 1970 to 9999 is read back as it was written, whatever
/// stands in for an unreadable one; the stand-in counts only for a text that is
/// no time.
pub proof fn law_times_read_back(
    at: Timestamp,
    text: String,
    stored: &str,
    fallback: Timestamp,
    read: Timestamp,
    other: &str,
    other_read: Timestamp,
)
    requires
        at.ordinary(),
        0 <= at.secs <= 253_402_300_799,
        call_ensures(write_created_at, (at,), text),
        stored@ == text@,
        call_ensures(read_created_at_or, (stored, fallback), read),
        call_ensures(read_created_at_or, (other, fallback), other_read),
    ensures
        read == at,
        rfc3339_instant(other@) is None ==> other_read == fallback,
        rfc3339_instant(other@) matches Some(i) ==> other_read.secs == i.0 && other_read.nanos
            == i.1,
{
}

} // verus!
