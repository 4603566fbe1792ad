use rand::Rng;
use rand::SeedableRng;
use rand::rngs::StdRng;
use std::time::Duration;
use std::time::SystemTime;
use std::time::SystemTimeError;
use std::time::UNIX_EPOCH;
use vstd::prelude::*;

verus! {

/// `rand::rngs::StdRng`, the generator that every random draw of this crate
/// goes through. Its state is opaque to the verifier.
#[verifier::external_type_specification]
#[verifier::external_body]
pub struct ExStdRng(StdRng);

/// The generator that `SeedableRng::seed_from_u64` makes for `StdRng` from
/// `seed`.
pub uninterp spec fn seeded(seed: u64) -> StdRng;

/// `SeedableRng::seed_from_u64` for `StdRng`: the generator depends on `seed`
/// alone, so that equal seeds give equal streams. The contract only gives it
/// its name.
#[verifier::external_body]
pub(crate) fn seeded_rng(seed: u64) -> (rng: StdRng)
    ensures
        rng == seeded(seed),
{
    StdRng::seed_from_u64(seed)
}

/// `Rng::gen_range` on `i32`: a draw from the half-open interval
/// `[low, high)`. The outside function panics on an empty interval, so the
/// interval must hold at least one value; the result always lies inside it.
#[verifier::external_body]
pub(crate) fn uniform_i32(rng: &mut StdRng, low: i32, high: i32) -> (r: i32)
    requires
        low < high,
    ensures
        low <= r < high,
{
    rng.gen_range(low, high)
}

/// `std::time::SystemTime`, a reading of the system clock. Its value is
/// opaque to the verifier.
#[verifier::external_type_specification]
#[verifier::external_body]
pub struct ExSystemTime(SystemTime);

/// `std::time::SystemTimeError`, what comes back when one reading is asked
/// how far it lies after a later one.
#[verifier::external_type_specification]
#[verifier::external_body]
pub struct ExSystemTimeError(SystemTimeError);

/// `SystemTime::now`: the clock as it stands. Nothing is promised of the
/// reading.
#[verifier::external_body]
pub(crate) fn clock_now() -> SystemTime {
    SystemTime::now()
}

/// `SystemTime::duration_since` from `UNIX_EPOCH`: the time from the epoch to
/// `reading`, or an error when `reading` lies before the epoch. Nothing is
/// promised of either.
#[verifier::external_body]
pub(crate) fn since_epoch(reading: &SystemTime) -> Result<Duration, SystemTimeError> {
    reading.duration_since(UNIX_EPOCH)
}

/// `Duration::as_secs`: the whole seconds of `elapsed`.
#[verifier::external_body]
pub(crate) fn whole_seconds(elapsed: &Duration) -> u64 {
    elapsed.as_secs()
}

/// `Duration::subsec_nanos`: the nanoseconds of `elapsed` beyond its whole
/// seconds.
#[verifier::external_body]
pub(crate) fn nanoseconds_beyond(elapsed: &Duration) -> u32 {
    elapsed.subsec_nanos()
}

/// The clock as whole seconds and the nanoseconds beyond them since the Unix
/// epoch; there is no reading when the clock stands before the epoch.
pub(crate) fn clock_reading() -> Option<(u64, u32)> {
    let now = clock_now();
    match since_epoch(&now) {
        Ok(elapsed) => Some((whole_seconds(&elapsed), nanoseconds_beyond(&elapsed))),
        Err(_) => None,
    }
}

} // verus!
