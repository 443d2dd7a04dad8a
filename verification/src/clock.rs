//! The wall clock.

use vstd::prelude::*;

use crate::types::UnixMillis;

verus! {

/// `SystemTime::elapsed` on the Unix epoch, in milliseconds, or `None` where
/// the clock stands before the epoch. Nothing is claimed of the time.
#[verifier::external_body]
fn since_epoch() -> (r: Option<u128>) {
    std::time::UNIX_EPOCH.elapsed().ok().map(|d| d.as_millis())
}

/// The time stamp for a clock reading: the milliseconds since the epoch, or 0
/// for a clock that stands before it.
pub open spec fn stamp_of(reading: Option<u128>) -> UnixMillis {
    match reading {
        Some(ms) => ms as i64,
        None => 0,
    }
}

/// The time stamp for a clock reading.
pub fn stamp(reading: Option<u128>) -> (r: UnixMillis)
    ensures
        r == stamp_of(reading),
        reading matches Some(ms) ==> (ms <= i64::MAX ==> r == ms),
{
    match reading {
        Some(ms) => #[verifier::truncate] (ms as i64),
        None => 0,
    }
}

/// The current time.
pub fn unix_millis() -> (r: UnixMillis)
    ensures
        exists|reading: Option<u128>| r == #[trigger] stamp_of(reading),
{
    stamp(since_epoch())
}

/// The time stamp that an X client gives for a clock reading: the low 32 bits of
/// the milliseconds since the epoch, or 0 for a clock that stands before it.
pub open spec fn short_stamp_of(reading: Option<u128>) -> u32 {
    match reading {
        Some(ms) => ms as u32,
        None => 0,
    }
}

/// The time stamp that an X client gives for a clock reading.
pub fn short_stamp(reading: Option<u128>) -> (r: u32)
    ensures
        r == short_stamp_of(reading),
{
    match reading {
        Some(ms) => #[verifier::truncate] (ms as u32),
        None => 0,
    }
}

/// The current time, as an X client gives it: what [`short_stamp`] makes of the
/// clock. Nothing is claimed of the time.
pub fn now_millis() -> (r: u32)
    ensures
        exists|reading: Option<u128>| r == #[trigger] short_stamp_of(reading),
{
    short_stamp(since_epoch())
}

// ---- laws of the clock ----

/// A time stamp is the number of milliseconds since the epoch, as far as it fits, and 0
/// before the epoch; the short one is what is left of it in 32 bits.
pub proof fn stamps_are_milliseconds(ms: u128)
    ensures
        ms <= i64::MAX ==> stamp_of(Some(ms)) == ms,
        stamp_of(None) == 0,
        short_stamp_of(Some(ms)) as int == ms as int % 0x1_0000_0000,
        short_stamp_of(None) == 0,
{
    assert(ms as u32 == ms % 0x1_0000_0000) by (bit_vector);
}

} // verus!
