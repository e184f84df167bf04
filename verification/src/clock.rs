//! The wall clock, read without panicking: a reading before the Unix epoch,
//! or past the calendar range, is reported as `None`.
use vstd::prelude::*;

use crate::codec::max_utc_millis;
use std::time::{SystemTime, UNIX_EPOCH};

verus! {

#[verifier::external_type_specification]
#[verifier::external_body]
pub struct ExSystemTime(SystemTime);

/// `SystemTime::now()` (std): the wall clock. Nothing is promised of it.
#[verifier::external_body]
pub(crate) fn system_now() -> SystemTime {
    SystemTime::now()
}

/// `time.duration_since(UNIX_EPOCH)` (std), as whole seconds and the
/// nanoseconds past them (`as_secs`, `subsec_nanos`); `None` when `time` lies
/// before the epoch. The nanoseconds are below one billion, as `Duration`
/// documents; nothing more is promised.
#[verifier::external_body]
pub(crate) fn since_epoch(time: SystemTime) -> (r: Option<(u64, u32)>)
    ensures
        r matches Some((_, n)) ==> n < 1_000_000_000,
{
    match time.duration_since(UNIX_EPOCH) {
        Ok(d) => Some((d.as_secs(), d.subsec_nanos())),
        Err(_) => None,
    }
}

/// Whole milliseconds of a time since the epoch (what `Duration::as_millis`
/// gives).
pub open spec fn whole_millis(secs: u64, nanos: u32) -> int {
    secs * 1000 + nanos / 1_000_000
}

/// Whole microseconds of a time since the epoch.
pub open spec fn whole_micros(secs: u64, nanos: u32) -> int {
    secs * 1_000_000 + nanos / 1000
}

/// A microsecond count that the clock can give: at or after the Unix epoch
/// and within the calendar range of `DateTime<Utc>`.
pub open spec fn is_clock_reading(us: int) -> bool {
    0 <= us <= max_utc_millis() * 1000 + 999
}

/// The current UTC time in microseconds since the Unix epoch, when the clock
/// reads at or after the epoch and within the calendar range of `DateTime<Utc>`
/// (the reading `Utc::now().timestamp_micros()` gives); `None` otherwise.
pub fn utc_now_micros() -> (r: Option<i64>)
    ensures
        r matches Some(us) ==> is_clock_reading(us as int),
        r matches Some(us) ==> exists|secs: u64, nanos: u32|
            nanos < 1_000_000_000 && whole_millis(secs, nanos) <= max_utc_millis() && us
                == #[trigger] whole_micros(secs, nanos),
{
    match since_epoch(system_now()) {
        None => None,
        Some((secs, nanos)) => {
            if secs > 8210266876799 {
                None
            } else {
                let us: i64 = secs as i64 * 1_000_000 + (nanos / 1000) as i64;
                assert(whole_millis(secs, nanos) <= max_utc_millis());
                assert(us == whole_micros(secs, nanos));
                Some(us)
            }
        },
    }
}

} // verus!
