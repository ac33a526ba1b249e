//! The time at which a catalog was read.

use std::time::UNIX_EPOCH;
use vstd::prelude::*;

verus! {

/// `std::time::SystemTime::elapsed` of the Unix epoch: the whole seconds and the
/// nanoseconds that the system clock is past the epoch, or nothing where it
/// stands before it. What the clock shows is not stated.
#[verifier::external_body]
fn elapsed_since_epoch() -> (elapsed: Option<(u64, u32)>)
    ensures
        elapsed matches Some((_seconds, nanoseconds)) ==> nanoseconds < 1_000_000_000,
{
    UNIX_EPOCH.elapsed().ok().map(|elapsed| (elapsed.as_secs(), elapsed.subsec_nanos()))
}

/// The timestamp of a clock that stands `elapsed` seconds and nanoseconds past
/// the Unix epoch: the whole seconds; zero where the clock stands before it.
pub fn timestamp_of(elapsed: Option<(u64, u32)>) -> (timestamp: u64)
    ensures
        timestamp == match elapsed {
            Some((seconds, _nanoseconds)) => seconds,
            None => 0,
        },
{
    match elapsed {
        Some((seconds, _nanoseconds)) => seconds,
        None => 0,
    }
}

/// The system clock may give `elapsed` as its reading.
pub closed spec fn is_reading(elapsed: Option<(u64, u32)>) -> bool {
    call_ensures(elapsed_since_epoch, (), elapsed)
}

/// The number of whole seconds that the system clock is past the Unix epoch;
/// zero where it stands before it. Which time the clock shows is not stated.
pub fn current_unix_timestamp() -> (timestamp: u64)
    ensures
        exists|elapsed: Option<(u64, u32)>| #[trigger]
            is_reading(elapsed) && timestamp == (match elapsed {
                Some((seconds, _nanoseconds)) => seconds,
                None => 0,
            }),
{
    let elapsed = elapsed_since_epoch();
    assert(is_reading(elapsed));
    timestamp_of(elapsed)
}

} // verus!
