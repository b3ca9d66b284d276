//! Timestamps: integer milliseconds since the epoch, UTC.
use vstd::prelude::*;

verus! {

/// Relies on `time::OffsetDateTime::now_utc` and `unix_timestamp_nanos`:
/// the current time in nanoseconds since the epoch; nothing is known of its
/// value.
#[verifier::external_body]
fn utc_now_nanos() -> i128 {
    time::OffsetDateTime::now_utc().unix_timestamp_nanos()
}

/// Whole milliseconds in a count of nanoseconds, rounded toward zero.
pub open spec fn millis_of_nanos(n: int) -> int {
    if n >= 0 { n / 1_000_000 } else { -((-n) / 1_000_000) }
}

/// `v` held to the range of `i64`.
pub open spec fn clamp_i64(v: int) -> int {
    if v < i64::MIN { i64::MIN as int } else if v > i64::MAX { i64::MAX as int } else { v }
}

/// Milliseconds from nanoseconds, rounded toward zero and held to `i64`.
pub fn millis_from_nanos(nanos: i128) -> (r: i64)
    ensures
        r == clamp_i64(millis_of_nanos(nanos as int)),
{
    let q: i128 = if nanos >= 0 {
        nanos / 1_000_000
    } else if nanos == i128::MIN {
        -((-(nanos + 1_000_000)) / 1_000_000) - 1
    } else {
        -((-nanos) / 1_000_000)
    };
    assert(q == millis_of_nanos(nanos as int)) by {
        if nanos == i128::MIN {
            assert((-(nanos + 1_000_000)) / 1_000_000 + 1 == (-nanos) / 1_000_000) by (nonlinear_arith)
                requires
                    nanos == i128::MIN,
            ;
        }
    }
    if q < i64::MIN as i128 {
        i64::MIN
    } else if q > i64::MAX as i128 {
        i64::MAX
    } else {
        q as i64
    }
}

/// The current time in milliseconds since the epoch, UTC.
pub fn now_millis() -> i64 {
    millis_from_nanos(utc_now_nanos())
}

} // verus!
