//! Points in time, as whole seconds since the epoch, and the range of them that
//! the clock library of the embedding program can name.

use vstd::prelude::*;

verus! {

/// The first second of the year -9999.
pub const MIN_TIMESTAMP: i64 = -377_705_116_800;

/// The last second of the year 9999.
pub const MAX_TIMESTAMP: i64 = 253_402_300_799;

/// Whether the clock library can name a second.
pub open spec fn nameable(seconds: int) -> bool {
    MIN_TIMESTAMP <= seconds <= MAX_TIMESTAMP
}

/// Whether `OffsetDateTime::from_unix_timestamp` of the time crate accepts a second:
/// it does from the first second of the year -9999 to the last of the year 9999.
#[verifier::external_body]
pub(crate) fn is_nameable(seconds: i64) -> (r: bool)
    ensures
        r == nameable(seconds as int),
{
    time::OffsetDateTime::from_unix_timestamp(seconds).is_ok()
}

} // verus!
