//! The system clock, read through std without a panic for a clock set
//! before 1970.

use std::time::{SystemTime, SystemTimeError};
use vstd::prelude::*;

verus! {

#[verifier::external_type_specification]
#[verifier::external_body]
pub struct ExSystemTime(SystemTime);

#[verifier::external_type_specification]
#[verifier::external_body]
pub struct ExSystemTimeError(SystemTimeError);

/// `SystemTime::now`: the current system time. Nothing is claimed of it.
#[verifier::external_body]
fn system_now() -> SystemTime {
    SystemTime::now()
}

/// `SystemTime::duration_since(UNIX_EPOCH)`: the span from the epoch to `t`,
/// or an error carrying the span back to `t` when `t` is before the epoch.
/// Nothing is claimed of the spans.
#[verifier::external_body]
fn since_epoch(t: &SystemTime) -> Result<std::time::Duration, SystemTimeError> {
    t.duration_since(std::time::UNIX_EPOCH)
}

/// `SystemTimeError::duration`: how far before the epoch the time was.
#[verifier::external_body]
fn before_epoch(e: &SystemTimeError) -> std::time::Duration {
    e.duration()
}

/// `Duration::as_millis`: the whole milliseconds of a span.
#[verifier::external_body]
fn span_millis(d: &std::time::Duration) -> u128 {
    d.as_millis()
}

/// The millisecond count `ms` capped at `i64::MAX`.
pub open spec fn capped(ms: u128) -> int {
    if ms <= i64::MAX {
        ms as int
    } else {
        i64::MAX as int
    }
}

/// Epoch milliseconds from a span read off the clock: the span, capped at
/// `i64::MAX`, counted back from the epoch when the clock reads before it.
pub fn signed_millis(before_epoch: bool, ms: u128) -> (res: i64)
    ensures
        res == if before_epoch {
            -capped(ms)
        } else {
            capped(ms)
        },
        res != i64::MIN,
{
    let m: i64 = if ms <= 9_223_372_036_854_775_807u128 {
        ms as i64
    } else {
        i64::MAX
    };
    if before_epoch {
        0 - m
    } else {
        m
    }
}

/// The current time in epoch milliseconds (see [`signed_millis`]): the span
/// since the epoch, or minus the span back to it for a clock set before
/// 1970. Which time the clock reads is not stated; whatever it reads, the
/// result is never `i64::MIN`.
pub fn now_millis() -> (res: i64)
    ensures
        res != i64::MIN,
{
    let t = system_now();
    match since_epoch(&t) {
        Ok(d) => signed_millis(false, span_millis(&d)),
        Err(e) => {
            let back = before_epoch(&e);
            signed_millis(true, span_millis(&back))
        },
    }
}

} // verus!
