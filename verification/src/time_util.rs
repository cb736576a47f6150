//! Conversions of times and durations to milliseconds.

use vstd::prelude::*;

use std::time::{Duration, SystemTime};

verus! {

#[verifier::external_type_specification]
#[verifier::external_body]
pub struct ExSystemTime(SystemTime);

/// The moment `ms` milliseconds after the Unix epoch.
pub uninterp spec fn system_time_at_millis(ms: u64) -> SystemTime;

/// Calls `UNIX_EPOCH.checked_add(Duration::from_millis(ms))`; the moment
/// depends on `ms` alone and is named `system_time_at_millis`. `None` where
/// the platform's `SystemTime` cannot hold that moment; nothing is stated
/// of when that happens, which depends on the platform.
#[verifier::external_body]
fn epoch_plus_millis(ms: u64) -> (t: Option<SystemTime>)
    ensures
        t matches Some(x) ==> x == system_time_at_millis(ms),
{
    std::time::UNIX_EPOCH.checked_add(Duration::from_millis(ms))
}

/// Reads `std::time::UNIX_EPOCH`, the moment zero milliseconds after the
/// epoch on every platform.
#[verifier::external_body]
pub(crate) fn unix_epoch() -> (t: SystemTime)
    ensures
        t == system_time_at_millis(0),
{
    std::time::UNIX_EPOCH
}

/// The moment `ms` milliseconds after the Unix epoch; `None` where the
/// platform cannot represent it.
pub fn ms_to_system_time(ms: u64) -> (t: Option<SystemTime>)
    ensures
        t matches Some(x) ==> x == system_time_at_millis(ms),
{
    epoch_plus_millis(ms)
}

/// The time elapsed from the Unix epoch to a moment; `None` for a moment
/// before the epoch.
pub uninterp spec fn time_since_epoch(t: SystemTime) -> Option<Duration>;

/// Calls `SystemTime::duration_since(UNIX_EPOCH)`, documented to fail
/// exactly for a moment before the epoch; the result depends on the moment
/// alone and is named `time_since_epoch`.
#[verifier::external_body]
pub(crate) fn since_epoch(t: &SystemTime) -> (r: Option<Duration>)
    ensures
        r == time_since_epoch(*t),
{
    t.duration_since(std::time::UNIX_EPOCH).ok()
}

/// Reads the system clock with `SystemTime::now`. Nothing is stated of
/// the moment read.
#[verifier::external_body]
pub(crate) fn clock_now() -> SystemTime {
    SystemTime::now()
}

/// The whole seconds a duration holds, as `Duration::as_secs` reads them.
pub uninterp spec fn duration_whole_secs(d: Duration) -> u64;

/// The nanoseconds a duration holds beyond its whole seconds, as
/// `Duration::subsec_nanos` reads them.
pub uninterp spec fn duration_subsec(d: Duration) -> u32;

/// Whole seconds of a duration.
///
/// Calls `Duration::as_secs`. A `Duration` is a plain value (seconds and
/// nanoseconds), so the result depends on it alone and is named
/// `duration_whole_secs`.
#[verifier::external_body]
fn duration_secs(d: &Duration) -> (r: u64)
    ensures
        r == duration_whole_secs(*d),
{
    d.as_secs()
}

/// Nanoseconds beyond the whole seconds of a duration.
///
/// Calls `Duration::subsec_nanos`, documented to be below one second; the
/// result depends on the duration alone and is named `duration_subsec`.
#[verifier::external_body]
fn duration_subsec_nanos(d: &Duration) -> (r: u32)
    ensures
        r == duration_subsec(*d),
        r < 1_000_000_000,
{
    d.subsec_nanos()
}

/// Milliseconds in `secs` seconds and `nanos` nanoseconds, the nanoseconds
/// rounded down, computed modulo 2^64 as the unchecked arithmetic of a
/// release build does.
pub open spec fn msec_of(secs: u64, nanos: u32) -> int {
    (secs * 1000 + nanos / 1_000_000) % 0x1_0000_0000_0000_0000
}

/// Milliseconds in `secs` seconds and `nanos` nanoseconds (see `msec_of`).
pub fn msec_from_parts(secs: u64, nanos: u32) -> (r: u64)
    requires
        nanos < 1_000_000_000,
    ensures
        r == msec_of(secs, nanos),
        secs * 1000 + nanos / 1_000_000 <= u64::MAX ==> r == secs * 1000 + nanos / 1_000_000,
{
    let whole = secs.wrapping_mul(1000);
    let part = (nanos / 1_000_000) as u64;
    assert(whole == (secs * 1000) % 0x1_0000_0000_0000_0000);
    let r = whole.wrapping_add(part);
    assert(r == (whole + part) % 0x1_0000_0000_0000_0000);
    assert(r == msec_of(secs, nanos)) by (nonlinear_arith)
        requires
            whole == (secs * 1000) % 0x1_0000_0000_0000_0000,
            r == (whole + part) % 0x1_0000_0000_0000_0000,
            part == nanos / 1_000_000,
    ;
    r
}

/// Values that can be read as a number of milliseconds.
pub trait ToMsec {
    fn to_msec(&self) -> u64;
}

impl ToMsec for Duration {
    /// Whole milliseconds of the duration (see `msec_of`).
    fn to_msec(&self) -> (r: u64)
        ensures
            r == msec_of(duration_whole_secs(*self), duration_subsec(*self)),
    {
        msec_from_parts(duration_secs(self), duration_subsec_nanos(self))
    }
}

/// Milliseconds from the Unix epoch to a moment (see `msec_of`); `None`
/// for a moment before the epoch.
pub fn system_time_to_msec(t: &SystemTime) -> (r: Option<u64>)
    ensures
        r == match time_since_epoch(*t) {
            Some(d) => Some(msec_of(duration_whole_secs(d), duration_subsec(d)) as u64),
            None => None::<u64>,
        },
{
    match since_epoch(t) {
        Some(d) => Some(d.to_msec()),
        None => None,
    }
}

} // verus!
