//! Wall-clock instants and durations, seen as whole nanoseconds.
use std::time::{Duration, Instant};
use vstd::prelude::*;

verus! {

#[verifier::external_type_specification]
#[verifier::external_body]
pub struct ExInstant(Instant);

/// The length of `d` in nanoseconds, as `Duration::as_nanos` reports it.
pub uninterp spec fn nanos_of(d: Duration) -> nat;

/// The longest `Duration`: `u64::MAX` seconds and 999 999 999 nanoseconds.
pub open spec fn duration_max_nanos() -> nat {
    18_446_744_073_709_551_615nat * 1_000_000_000nat + 999_999_999nat
}

/// `Duration::as_nanos`: the total number of whole nanoseconds in `d`, which
/// std documents as at most `u64::MAX` seconds plus 999 999 999 nanoseconds.
#[verifier::external_body]
pub fn duration_as_nanos(d: &Duration) -> (n: u128)
    ensures
        n == nanos_of(*d),
        n <= duration_max_nanos(),
{
    d.as_nanos()
}

/// `Duration::new`: `secs` seconds plus `nanos` nanoseconds. std panics only
/// when `nanos` carries into an overflowing second count, which `nanos` below
/// one second rules out.
#[verifier::external_body]
pub fn duration_new(secs: u64, nanos: u32) -> (d: Duration)
    requires
        nanos < 1_000_000_000,
    ensures
        nanos_of(d) == secs * 1_000_000_000 + nanos,
{
    Duration::new(secs, nanos)
}

/// `Instant::now`. Nothing is claimed of the reading: it comes from the clock.
#[verifier::external_body]
pub fn instant_now() -> (i: Instant) {
    Instant::now()
}

/// `Instant::duration_since`: time from `earlier` to `later`, zero when
/// `earlier` is the later one. Nothing is claimed: both come from the clock.
#[verifier::external_body]
pub fn instant_since(later: &Instant, earlier: &Instant) -> (d: Duration) {
    later.duration_since(*earlier)
}

/// `Instant::elapsed`: time since `i`, read from the clock. Nothing is claimed.
#[verifier::external_body]
pub fn instant_elapsed(i: &Instant) -> (d: Duration) {
    i.elapsed()
}

/// The duration of `n` nanoseconds.
pub fn duration_from_nanos(n: u128) -> (d: Duration)
    requires
        n <= duration_max_nanos(),
    ensures
        nanos_of(d) == n,
{
    let secs = n / 1_000_000_000;
    let sub = n % 1_000_000_000;
    proof {
        assert(secs <= u64::MAX) by (nonlinear_arith)
            requires
                n <= 18_446_744_073_709_551_615nat * 1_000_000_000nat + 999_999_999nat,
                secs == n / 1_000_000_000,
        ;
    }
    duration_new(secs as u64, sub as u32)
}

} // verus!
