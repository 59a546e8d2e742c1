//! Instants in UTC as plain second counts, and the calendar arithmetic the
//! branch listing takes from `chrono`.
use vstd::prelude::*;
use chrono::{TimeZone, Utc};

verus! {

/// A point in time: whole seconds since 1970-01-01 00:00:00 UTC, plus
/// nanoseconds within that second.
#[derive(Debug, Clone, Copy)]
pub struct Instant {
    pub secs: i64,
    pub nanos: u32,
}

/// Seconds of 00:00:00 on January 1 of year -262143 (chrono's earliest date).
pub open spec fn earliest_utc_secs() -> int {
    -8334601228800
}

/// Seconds of 23:59:59 on December 31 of year 262142 (chrono's latest date).
pub open spec fn latest_utc_secs() -> int {
    8210266876799
}

/// Whether `secs` names a second chrono can represent as a UTC date.
pub open spec fn utc_representable(secs: int) -> bool {
    earliest_utc_secs() <= secs <= latest_utc_secs()
}

/// Whether `i` is an instant chrono can represent.
pub open spec fn instant_valid(i: Instant) -> bool {
    utc_representable(i.secs as int) && i.nanos < 1_000_000_000
}

/// `a / b` rounded toward zero, as Rust's `/` on integers (`b > 0`).
pub open spec fn div_toward_zero(a: int, b: int) -> int {
    if a >= 0 {
        a / b
    } else {
        -((-a) / b)
    }
}

/// chrono's `(later - earlier).num_days()` for `later` at
/// (`later_secs`, `later_nanos`) and `earlier` at (`earlier_secs`, 0): the
/// difference is a `TimeDelta` of `later_secs - earlier_secs` seconds and
/// `later_nanos` nanoseconds; `num_seconds` rounds it toward zero and
/// `num_days` divides that by 86 400, rounding toward zero.
pub open spec fn whole_days_between(later_secs: int, later_nanos: int, earlier_secs: int) -> int {
    let secs = later_secs - earlier_secs;
    let num_seconds = if secs < 0 && later_nanos > 0 {
        secs + 1
    } else {
        secs
    };
    div_toward_zero(num_seconds, 86400)
}

/// The `%Y-%m-%d` text chrono's `format` writes for the UTC date of `secs`.
pub uninterp spec fn ymd_text(secs: i64) -> Seq<char>;

/// Whether `Utc.timestamp_opt(secs, 0)` (chrono) yields a date: chrono's
/// `DateTime::from_timestamp` accepts exactly the seconds from the start of
/// its earliest date to the end of its latest one.
#[verifier::external_body]
pub fn utc_timestamp_valid(secs: i64) -> (ok: bool)
    ensures
        ok == utc_representable(secs as int),
{
    Utc.timestamp_opt(secs, 0).single().is_some()
}

/// chrono: `(Utc.timestamp_opt(later.secs, later.nanos) - Utc.timestamp_opt(earlier_secs, 0)).num_days()`,
/// claimed equal to `whole_days_between` (chrono's `TimeDelta` keeps
/// nanoseconds in `0..1e9`, and `num_days` is `num_seconds() / 86_400`).
#[verifier::external_body]
pub fn days_between(later: Instant, earlier_secs: i64) -> (days: i64)
    requires
        instant_valid(later),
        utc_representable(earlier_secs as int),
    ensures
        days == whole_days_between(later.secs as int, later.nanos as int, earlier_secs as int),
{
    let later = Utc.timestamp_opt(later.secs, later.nanos).unwrap();
    let earlier = Utc.timestamp_opt(earlier_secs, 0).unwrap();
    (later - earlier).num_days()
}

/// chrono: `Utc.timestamp_opt(secs, 0).unwrap().format("%Y-%m-%d").to_string()`,
/// claimed to be the function `ymd_text` of `secs`; the calendar itself is
/// not stated.
#[verifier::external_body]
pub fn format_ymd(secs: i64) -> (text: String)
    requires
        utc_representable(secs as int),
    ensures
        text@ == ymd_text(secs),
{
    Utc.timestamp_opt(secs, 0).unwrap().format("%Y-%m-%d").to_string()
}

} // verus!
