//! The system clock.

use vstd::prelude::*;
use crate::text;

verus! {

/// Reads std's `SystemTime::now`, as seconds and milliseconds since 1970. What the clock says is
/// left open, but for the milliseconds staying below a thousand.
#[verifier::external_body]
pub(crate) fn read() -> (r: (u64, u32))
    ensures
        r.1 < 1000,
{
    let since = std::time::SystemTime::now().duration_since(std::time::UNIX_EPOCH).unwrap_or_default();
    (since.as_secs(), since.subsec_millis())
}

/// A point in time in milliseconds, as a signed number of 64 bits.
pub open spec fn millis_of(secs: u64, millis: u32) -> i64 {
    (secs * 1000 + millis) as i64
}

/// Joins seconds and milliseconds into a signed number of 64 bits, wrapping around.
pub fn join_millis(secs: u64, millis: u32) -> (r: i64)
    ensures
        r == millis_of(secs, millis),
{
    (secs as u128 * 1000 + millis as u128) as i64
}

/// The present time in milliseconds since 1970.
pub fn now_ms() -> (r: i64)
    ensures
        exists|secs: u64, millis: u32| millis < 1000 && r == #[trigger] millis_of(secs, millis),
{
    let now = read();
    join_millis(now.0, now.1)
}

/// The present time in seconds since 1970, as a signed number.
pub fn now_secs() -> (r: i64)
    ensures
        exists|secs: u64| r == #[trigger] (secs as i64),
{
    read().0 as i64
}

/// The present time in seconds since 1970.
pub fn chrono_now_secs() -> u64 {
    read().0
}

/// The present time in seconds since 1970, in decimal notation.
pub fn chrono_now_str() -> (r: String)
    ensures
        exists|secs: u64| r@ == #[trigger] text::decimal(secs as nat),
{
    text::decimal_u64(read().0)
}

} // verus!
