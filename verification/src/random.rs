//! The thread-local random generator of `rand` and the wall clock, as the
//! record generator uses them.
//!
//! Nothing in this file is proved: each item states what the outside
//! function is documented to do, and the verified code builds on that.

use rand::distr::Alphabetic;
use rand::rngs::ThreadRng;
use rand::Rng;
use std::time::Duration;
use std::time::SystemTime;
use std::time::SystemTimeError;
use vstd::prelude::*;

verus! {

/// `rand::rngs::ThreadRng`, a handle to the random generator of the current thread.
#[verifier::external_type_specification]
#[verifier::external_body]
pub struct ExThreadRng(ThreadRng);

/// `std::time::SystemTime`, a reading of the wall clock.
#[verifier::external_type_specification]
#[verifier::external_body]
pub struct ExSystemTime(SystemTime);

/// `std::time::SystemTimeError`, returned when one reading lies before another.
#[verifier::external_type_specification]
#[verifier::external_body]
pub struct ExSystemTimeError(SystemTimeError);

/// True for the bytes of the ASCII letters `A`..`Z` and `a`..`z`.
pub open spec fn is_letter_byte(b: u8) -> bool {
    (65 <= b <= 90) || (97 <= b <= 122)
}

/// `rand::rng()`: the generator of the current thread. Nothing is claimed of
/// it. It is seeded from the operating system when a thread first asks for
/// it, and `rand` aborts that thread if the system has no entropy to give.
#[verifier::external_body]
pub(crate) fn thread_rng() -> (rng: ThreadRng) {
    rand::rng()
}

/// `Rng::sample` with `rand::distr::Alphabetic`: one byte drawn uniformly
/// from the 52 ASCII letters. The contract claims only that the byte is such
/// a letter.
#[verifier::external_body]
pub(crate) fn sample_letter(rng: &mut ThreadRng) -> (b: u8)
    ensures
        is_letter_byte(b),
{
    rng.sample(Alphabetic)
}

/// `Rng::random` at `i64`: any value may come back.
#[verifier::external_body]
pub(crate) fn random_i64(rng: &mut ThreadRng) -> (v: i64) {
    rng.random()
}

/// `Rng::random` at `u64`: any value may come back.
#[verifier::external_body]
pub(crate) fn random_u64(rng: &mut ThreadRng) -> (v: u64) {
    rng.random()
}

/// `Rng::random` at `bool`: either value may come back.
#[verifier::external_body]
pub(crate) fn random_bool(rng: &mut ThreadRng) -> (v: bool) {
    rng.random()
}

/// `SystemTime::now()`: the current reading of the wall clock.
#[verifier::external_body]
pub(crate) fn clock_now() -> (now: SystemTime) {
    SystemTime::now()
}

/// `SystemTime::duration_since` against `UNIX_EPOCH`: the time elapsed since
/// the epoch, or an error when the clock reads a moment before it.
#[verifier::external_body]
pub(crate) fn since_unix_epoch(now: &SystemTime) -> (elapsed: Result<Duration, SystemTimeError>) {
    now.duration_since(std::time::UNIX_EPOCH)
}

/// `Duration::as_nanos`: the whole duration in nanoseconds.
#[verifier::external_body]
pub(crate) fn duration_nanos(elapsed: &Duration) -> (nanos: u128) {
    elapsed.as_nanos()
}

} // verus!
