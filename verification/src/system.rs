use vstd::prelude::*;

verus! {

/// The whole seconds from the Unix epoch to the system clock's present reading, by
/// `SystemTime::now`, `SystemTime::duration_since` and `Duration::as_secs` of std; `None`
/// where the clock reads a time before the epoch. Nothing is claimed of the number.
#[verifier::external_body]
pub(crate) fn unix_seconds() -> (secs: Option<u64>) {
    std::time::SystemTime::now().duration_since(std::time::UNIX_EPOCH).ok().map(|d| d.as_secs())
}

/// `rand::random::<usize>()`: a number drawn anew at each call.
#[verifier::external_body]
pub(crate) fn random_usize() -> (draw: usize) {
    rand::random::<usize>()
}

/// The present time in seconds since the Unix epoch: never negative, 0 where the clock
/// reads a time before the epoch, and `i64::MAX` where the seconds no longer fit.
pub fn now() -> (secs: i64)
    ensures
        secs >= 0,
{
    timestamp_from(unix_seconds())
}

/// The timestamp that a reading of the clock stands for: the seconds that were read, the
/// greatest timestamp where they no longer fit, and 0 where nothing was read because the
/// clock stands before the epoch.
pub open spec fn timestamp_of(reading: Option<u64>) -> i64 {
    match reading {
        Some(s) => if s <= i64::MAX {
            s as i64
        } else {
            i64::MAX
        },
        None => 0,
    }
}

/// Turns a reading of the clock, in whole seconds since the Unix epoch, into a timestamp.
pub fn timestamp_from(reading: Option<u64>) -> (secs: i64)
    ensures
        secs == timestamp_of(reading),
{
    match reading {
        Some(s) => {
            if s <= i64::MAX as u64 {
                s as i64
            } else {
                i64::MAX
            }
        },
        None => 0,
    }
}

} // verus!
