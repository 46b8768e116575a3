//! The current time (std's system clock) and whole-day differences (through
//! chrono and bson's `DateTime`), on milliseconds since the Unix epoch.

use vstd::prelude::*;

verus! {

/// The earliest instant chrono can represent, in milliseconds.
pub const CHRONO_MIN_MILLIS: i64 = -8334601315200000;

/// The latest instant chrono can represent, in whole milliseconds.
pub const CHRONO_MAX_MILLIS: i64 = 8210266876799999;

pub open spec fn in_chrono_range(ms: i64) -> bool {
    CHRONO_MIN_MILLIS <= ms <= CHRONO_MAX_MILLIS
}

/// std's `SystemTime::now().duration_since(UNIX_EPOCH)`: the whole seconds
/// and the milliseconds past them from the Unix epoch to now (`Ok`), or from
/// now back to the epoch when the clock reads earlier (`Err`). It depends on
/// the clock, so only that the milliseconds are below a second is stated.
#[verifier::external_body]
fn time_since_epoch() -> (r: Result<(u64, u32), (u64, u32)>)
    ensures
        match r {
            Ok((_, ms)) => ms < 1000,
            Err((_, ms)) => ms < 1000,
        },
{
    match std::time::SystemTime::now().duration_since(std::time::UNIX_EPOCH) {
        Ok(d) => Ok((d.as_secs(), d.subsec_millis())),
        Err(e) => Err((e.duration().as_secs(), e.duration().subsec_millis())),
    }
}

/// The current time in milliseconds since the Unix epoch (negative before
/// it), clamped into the range chrono represents. It depends on the clock,
/// so only that it is an instant chrono represents is stated.
pub fn now_millis() -> (r: i64)
    ensures
        in_chrono_range(r),
{
    match time_since_epoch() {
        Ok((secs, ms)) => if secs > 8210266876799 {
            CHRONO_MAX_MILLIS
        } else {
            (secs as i64) * 1000 + (ms as i64)
        },
        Err((secs, ms)) => if secs > 8334601315199 {
            CHRONO_MIN_MILLIS
        } else {
            -((secs as i64) * 1000 + (ms as i64))
        },
    }
}

/// Division rounding toward zero, as Rust's integer `/` does.
pub open spec fn div_toward_zero(a: int, b: int) -> int
    recommends
        b > 0,
{
    if a >= 0 {
        a / b
    } else {
        -((-a) / b)
    }
}

pub const MILLIS_PER_DAY: i64 = 86400000;

/// The whole days from `earlier` to `later` (bson's `DateTime::to_chrono`
/// on both instants, then chrono's `signed_duration_since` and `num_days`):
/// the difference in milliseconds divided by a day, rounded toward zero.
#[verifier::external_body]
pub(crate) fn whole_days_between(later: i64, earlier: i64) -> (r: i64)
    requires
        in_chrono_range(later),
        in_chrono_range(earlier),
    ensures
        r == div_toward_zero(later - earlier, MILLIS_PER_DAY as int),
{
    let later = bson::DateTime::from_millis(later).to_chrono();
    let earlier = bson::DateTime::from_millis(earlier).to_chrono();
    later.signed_duration_since(earlier).num_days()
}

} // verus!
