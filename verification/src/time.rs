//! Instants, signed spans of time, elapsed wall-clock time, and the two
//! sources of nondeterminism: the clock and the random generator.

use vstd::prelude::*;
use rand::Rng;

verus! {

/// Milliseconds in a second, a minute, an hour and a day.
pub const MILLIS_PER_SECOND: i64 = 1000;
pub const MILLIS_PER_MINUTE: i64 = 60_000;
pub const MILLIS_PER_HOUR: i64 = 3_600_000;
pub const MILLIS_PER_DAY: i64 = 86_400_000;

/// The largest span, in milliseconds, that a `TimeDelta` holds: `i64::MAX / 2`.
/// Keeping spans and instants within half the `i64` range lets any two of
/// them be added or subtracted.
pub const MAX_MILLIS: i64 = 4_611_686_018_427_387_903;

/// A signed span of time with millisecond precision.
#[derive(Clone, Copy, Debug, PartialEq, Eq, Hash, Structural)]
pub struct TimeDelta {
    /// Length of the span in milliseconds.
    pub millis: i64,
}

/// An instant in UTC, in milliseconds since 1970-01-01T00:00:00Z.
#[derive(Clone, Copy, Debug, PartialEq, Eq, Hash, Structural)]
pub struct Timestamp {
    /// Milliseconds since the Unix epoch.
    pub millis: i64,
}

/// Whether a number of milliseconds lies in the range spans and instants keep to.
pub open spec fn in_range(millis: int) -> bool {
    -MAX_MILLIS <= millis <= MAX_MILLIS
}

impl TimeDelta {
    /// A span of `millis` milliseconds.
    pub fn milliseconds(millis: i64) -> (d: Self)
        ensures
            d.millis == millis,
    {
        TimeDelta { millis }
    }

    /// A span of `secs` seconds.
    pub fn seconds(secs: i64) -> (d: Self)
        requires
            in_range(secs * 1000),
        ensures
            d.millis == secs * 1000,
    {
        TimeDelta { millis: secs * MILLIS_PER_SECOND }
    }

    /// A span of `mins` minutes.
    pub fn minutes(mins: i64) -> (d: Self)
        requires
            in_range(mins * 60_000),
        ensures
            d.millis == mins * 60_000,
    {
        TimeDelta { millis: mins * MILLIS_PER_MINUTE }
    }

    /// A span of `hours` hours.
    pub fn hours(hours: i64) -> (d: Self)
        requires
            in_range(hours * 3_600_000),
        ensures
            d.millis == hours * 3_600_000,
    {
        TimeDelta { millis: hours * MILLIS_PER_HOUR }
    }

    /// The empty span.
    pub fn zero() -> (d: Self)
        ensures
            d.millis == 0,
    {
        TimeDelta { millis: 0 }
    }

    /// Length in milliseconds.
    pub fn num_milliseconds(&self) -> (m: i64)
        ensures
            m == self.millis,
    {
        self.millis
    }

    /// Whole seconds in the span, rounded toward zero.
    pub fn num_seconds(&self) -> (s: i64)
        ensures
            s == trunc_div(self.millis as int, 1000),
    {
        trunc_div_exec(self.millis, 1000)
    }

    /// Whole minutes in the span, rounded toward zero.
    pub fn num_minutes(&self) -> (m: i64)
        ensures
            m == trunc_div(self.millis as int, 60_000),
    {
        trunc_div_exec(self.millis, 60_000)
    }

    /// Whole hours in the span, rounded toward zero.
    pub fn num_hours(&self) -> (h: i64)
        ensures
            h == trunc_div(self.millis as int, 3_600_000),
    {
        trunc_div_exec(self.millis, 3_600_000)
    }

    /// The sum of two spans.
    pub fn plus(&self, other: TimeDelta) -> (d: Self)
        requires
            in_range(self.millis + other.millis),
        ensures
            d.millis == self.millis + other.millis,
    {
        TimeDelta { millis: self.millis + other.millis }
    }

    /// The difference of two spans.
    pub fn minus(&self, other: TimeDelta) -> (d: Self)
        requires
            in_range(self.millis - other.millis),
        ensures
            d.millis == self.millis - other.millis,
    {
        TimeDelta { millis: self.millis - other.millis }
    }
}

/// Integer division rounded toward zero, as Rust's `/` on signed integers.
pub open spec fn trunc_div(a: int, b: int) -> int
    recommends
        b > 0,
{
    if a >= 0 {
        a / b
    } else {
        -((-a) / b)
    }
}

/// Integer division rounded toward zero, as Rust's `/` on signed integers.
pub fn trunc_div_exec(a: i64, b: u64) -> (q: i64)
    requires
        b > 0,
    ensures
        q == trunc_div(a as int, b as int),
{
    if a >= 0 {
        let qq = (a as u64) / b;
        proof {
            assert(qq <= a) by (nonlinear_arith)
                requires qq == (a as u64) / b, b > 0, a >= 0;
        }
        qq as i64
    } else {
        let pos: u128 = (0i128 - (a as i128)) as u128;
        let qq: u128 = pos / (b as u128);
        proof {
            assert(qq <= pos) by (nonlinear_arith)
                requires qq == pos / (b as u128), b > 0;
        }
        (0i128 - (qq as i128)) as i64
    }
}

/// Floor division by a positive divisor.
pub fn floor_div_exec(a: i64, b: i64) -> (q: i64)
    requires
        b > 0,
    ensures
        q == a as int / b as int,
{
    if a >= 0 {
        ((a as u64) / (b as u64)) as i64
    } else {
        let pos: u128 = (0i128 - (a as i128)) as u128;
        let bb: u128 = b as u128;
        let qq: u128 = pos / bb;
        let rr: u128 = pos % bb;
        proof {
            assert(pos == qq * bb + rr && rr < bb) by (nonlinear_arith)
                requires qq == pos / bb, rr == pos % bb, bb > 0;
            assert(qq <= pos) by (nonlinear_arith)
                requires qq == pos / bb, bb > 0;
        }
        let res: i128 = if rr == 0 { 0i128 - (qq as i128) } else { 0i128 - (qq as i128) - 1 };
        proof {
            let ai = a as int;
            let bi = b as int;
            if rr == 0 {
                assert(ai == (-(qq as int)) * bi + 0) by (nonlinear_arith)
                    requires pos == qq * bb + rr, rr == 0, ai == -(pos as int), bi == bb;
                vstd::arithmetic::div_mod::lemma_fundamental_div_mod_converse(ai, bi, -(qq as int), 0);
            } else {
                assert(ai == (-(qq as int) - 1) * bi + (bi - rr)) by (nonlinear_arith)
                    requires pos == qq * bb + rr, ai == -(pos as int), bi == bb;
                vstd::arithmetic::div_mod::lemma_fundamental_div_mod_converse(
                    ai, bi, -(qq as int) - 1, bi - rr);
            }
            assert(res >= ai) by (nonlinear_arith)
                requires res == ai / bi, bi >= 1, ai < 0;
        }
        res as i64
    }
}

impl Timestamp {
    /// The instant `millis` milliseconds after the Unix epoch.
    pub fn from_millis(millis: i64) -> (t: Self)
        ensures
            t.millis == millis,
    {
        Timestamp { millis }
    }

    /// The current time, read from the system clock.
    pub fn now() -> (t: Self)
        ensures
            in_range(t.millis as int),
    {
        let m = clock_millis();
        if m > MAX_MILLIS {
            Timestamp { millis: MAX_MILLIS }
        } else if m < -MAX_MILLIS {
            Timestamp { millis: -MAX_MILLIS }
        } else {
            Timestamp { millis: m }
        }
    }

    /// The hour of the day, 0 to 23, in UTC.
    pub open spec fn spec_hour(self) -> int {
        (self.millis as int / MILLIS_PER_HOUR as int) % 24
    }

    /// The day of the instant, counted in days since the epoch.
    pub open spec fn spec_day(self) -> int {
        self.millis as int / MILLIS_PER_DAY as int
    }

    /// The hour of the day, 0 to 23, in UTC.
    pub fn hour(&self) -> (h: u32)
        ensures
            h == self.spec_hour(),
            h < 24,
    {
        let hours = floor_div_exec(self.millis, MILLIS_PER_HOUR);
        let days = floor_div_exec(hours, 24);
        proof {
            let hi = hours as int;
            let di = days as int;
            assert(hi == di * 24 + hi % 24 && 0 <= hi % 24 < 24) by (nonlinear_arith)
                requires di == hi / 24;
        }
        let h = hours - days * 24;
        h as u32
    }

    /// The day of the instant, counted in days since the epoch.
    pub fn day(&self) -> (d: i64)
        ensures
            d == self.spec_day(),
    {
        floor_div_exec(self.millis, MILLIS_PER_DAY)
    }

    /// The instant `delta` later.
    pub fn plus(&self, delta: TimeDelta) -> (t: Self)
        requires
            i64::MIN <= self.millis + delta.millis <= i64::MAX,
        ensures
            t.millis == self.millis + delta.millis,
    {
        Timestamp { millis: self.millis + delta.millis }
    }

    /// The span from `earlier` to this instant.
    pub fn since(&self, earlier: Timestamp) -> (d: TimeDelta)
        requires
            i64::MIN <= self.millis - earlier.millis <= i64::MAX,
        ensures
            d.millis == self.millis - earlier.millis,
    {
        TimeDelta { millis: self.millis - earlier.millis }
    }
}

/// Elapsed wall-clock time, as whole seconds and nanoseconds.
#[derive(Clone, Copy, Debug, PartialEq, Eq, Hash, Structural)]
pub struct ElapsedTime {
    /// Whole seconds.
    pub secs: u64,
    /// Nanoseconds past the whole seconds.
    pub nanos: u32,
}

impl ElapsedTime {
    /// Total length in nanoseconds.
    pub open spec fn total_nanos(self) -> nat {
        (self.secs * 1_000_000_000 + self.nanos) as nat
    }

    /// `secs` whole seconds.
    pub fn from_secs(secs: u64) -> (e: Self)
        ensures
            e.secs == secs,
            e.nanos == 0,
    {
        ElapsedTime { secs, nanos: 0 }
    }

    /// `millis` milliseconds.
    pub fn from_millis(millis: u64) -> (e: Self)
        ensures
            e.total_nanos() == millis * 1_000_000,
            e.nanos < 1_000_000_000,
    {
        let secs = millis / 1000;
        let rest = millis % 1000;
        let e = ElapsedTime { secs, nanos: (rest * 1_000_000) as u32 };
        e
    }

    /// Whole seconds.
    pub fn as_secs(&self) -> (s: u64)
        ensures
            s == self.secs,
    {
        self.secs
    }
}

/// Reads `chrono::Utc::now().timestamp_millis()`: the system clock in
/// milliseconds since the Unix epoch. Nothing is promised about the value.
#[verifier::external_body]
fn clock_millis() -> i64 {
    chrono::Utc::now().timestamp_millis()
}

/// The random generator of `rand`, owned by one thread.
#[verifier::external_type_specification]
#[verifier::external_body]
pub struct ExThreadRng(rand::rngs::ThreadRng);

/// Calls `rand::thread_rng()`, which hands out the generator of the
/// current thread, seeded by the system. Nothing is claimed of it.
#[verifier::external_body]
pub(crate) fn new_thread_rng() -> rand::rngs::ThreadRng {
    rand::thread_rng()
}

/// Calls `rng.gen_range(low..=high)`, which returns a value uniformly drawn
/// from the inclusive range and panics when the range is empty. The contract
/// claims only that the value lies in the range.
#[verifier::external_body]
pub(crate) fn gen_range_inclusive(rng: &mut rand::rngs::ThreadRng, low: i64, high: i64) -> (r: i64)
    requires
        low <= high,
    ensures
        low <= r <= high,
{
    rng.gen_range(low..=high)
}

/// Calls `SliceRandom::shuffle` on the identifiers, which permutes them in
/// place (a Fisher-Yates shuffle of swaps). The contract claims only that
/// the result holds the same identifiers as many times each.
#[verifier::external_body]
pub(crate) fn shuffle_room_ids(rng: &mut rand::rngs::ThreadRng, ids: &mut Vec<crate::types::RoomId>)
    ensures
        final(ids)@.to_multiset() == old(ids)@.to_multiset(),
{
    rand::seq::SliceRandom::shuffle(ids.as_mut_slice(), rng);
}

/// Calls `rng.gen_range(0..len)`, which returns an index uniformly drawn
/// below `len` and panics when `len` is zero. The contract claims only that
/// the index lies below `len`.
#[verifier::external_body]
pub(crate) fn gen_index(rng: &mut rand::rngs::ThreadRng, len: usize) -> (r: usize)
    requires
        len > 0,
    ensures
        r < len,
{
    rng.gen_range(0..len)
}

} // verus!
