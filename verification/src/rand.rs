//! A small deterministic pseudo-random number generator.
use vstd::prelude::*;
use std::ops::Range;
use std::time::Duration;
use std::time::SystemTime;
use std::time::SystemTimeError;
use std::time::UNIX_EPOCH;

verus! {

/// The increment of the generator's state.
pub const STATE_STEP: u64 = 0x60be_e2be_e120_fc15;

/// The state that follows `state`.
pub open spec fn next_state(state: u64) -> u64 {
    state.wrapping_add(STATE_STEP)
}

/// Multiplies `v` by `k` in 128 bits and folds the upper half of the
/// product onto the lower half.
pub open spec fn fold_mul(v: u64, k: u128) -> u64 {
    let t = (v as u128).wrapping_mul(k);
    (((t >> 64) ^ t) & 0xffff_ffff_ffff_ffff) as u64
}

/// The number the generator gives out after it has moved to `state`.
pub open spec fn output(state: u64) -> u64 {
    fold_mul(fold_mul(state, 0xa3b1_9535_4a39_b70d), 0x1b03_7387_12fa_d5c9)
}

/// The state after `n` numbers were drawn from a generator seeded with
/// `seed`.
pub open spec fn nth_state(seed: u64, n: nat) -> u64
    decreases n,
{
    if n == 0 {
        seed
    } else {
        next_state(nth_state(seed, (n - 1) as nat))
    }
}

/// Maps `v` into the half-open range from `min` to `max`.
pub open spec fn ranged(v: u64, min: u64, max: u64) -> int {
    min + v % ((max - min) as u64)
}

pub struct Wyhash64 {
    state: u64,
}

/// `std::time::SystemTime`, a point in time read from the system clock.
#[verifier::external_type_specification]
#[verifier::external_body]
pub struct ExSystemTime(SystemTime);

/// `std::time::SystemTimeError`, the error of a time that lies before the
/// one it is measured from.
#[verifier::external_type_specification]
#[verifier::external_body]
pub struct ExSystemTimeError(SystemTimeError);

/// `SystemTime::now` reads the clock; nothing is claimed of what it
/// shows.
pub assume_specification[ SystemTime::now ]() -> (now: SystemTime);

/// The time from the start of Unix time to `time`.
///
/// Trusted: calls `SystemTime::duration_since` with `UNIX_EPOCH`, which
/// fails where the time lies before it; nothing is claimed of the length.
#[verifier::external_body]
fn since_epoch(time: &SystemTime) -> (since: Result<Duration, SystemTimeError>) {
    time.duration_since(UNIX_EPOCH)
}

/// `SystemTimeError::duration` gives the length by which the time lies
/// before the other; nothing is claimed of the length.
pub assume_specification[ SystemTimeError::duration ](error: &SystemTimeError) -> (length: Duration);

/// `Duration::subsec_nanos` gives the part of a duration below a whole
/// second, in nanoseconds: documented to be less than a second's worth.
pub assume_specification[ Duration::subsec_nanos ](length: &Duration) -> (nanos: u32)
    ensures
        nanos < 1_000_000_000,
;

/// The nanoseconds by which the current time lies off a whole second of
/// Unix time.
fn current_frac_ns() -> (r: u64)
    ensures
        r < 1_000_000_000,
{
    let now = SystemTime::now();
    let nanos = match since_epoch(&now) {
        Ok(since) => since.subsec_nanos(),
        Err(before) => before.duration().subsec_nanos(),
    };
    nanos as u64
}

impl Wyhash64 {
    pub closed spec fn state(&self) -> u64 {
        self.state
    }

    /// A generator seeded from the clock.
    pub fn new() -> (r: Self)
        ensures
            r.state() < 1_000_000_000,
    {
        Self::from_seed(current_frac_ns())
    }

    pub fn from_seed(seed: u64) -> (r: Self)
        ensures
            r.state() == seed,
    {
        Self { state: seed }
    }

    /// The state that the next number is drawn after.
    pub fn peek(&self) -> (r: u64)
        ensures
            r == self.state(),
    {
        self.state
    }

    /// Moves to the next state and gives out its number.
    pub fn gen(&mut self) -> (r: u64)
        ensures
            final(self).state() == next_state(old(self).state()),
            r == output(final(self).state()),
    {
        self.state = self.state.wrapping_add(STATE_STEP);
        let t = (self.state as u128).wrapping_mul(0xa3b1_9535_4a39_b70d);
        let m = (((t >> 64) ^ t) & 0xffff_ffff_ffff_ffff) as u64;
        let y = (m as u128).wrapping_mul(0x1b03_7387_12fa_d5c9);
        (((y >> 64) ^ y) & 0xffff_ffff_ffff_ffff) as u64
    }

    /// Draws a number from a non-empty half-open range.
    pub fn gen_in_range(&mut self, range: Range<u64>) -> (r: u64)
        requires
            range.start < range.end,
        ensures
            final(self).state() == next_state(old(self).state()),
            r == ranged(output(final(self).state()), range.start, range.end),
            range.start <= r < range.end,
    {
        let min = range.start;
        let max = range.end;
        min + self.gen() % (max - min)
    }
}

} // verus!
