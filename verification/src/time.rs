//! Conversions between beats, seconds and discrete sample positions.
//!
//! Sample positions are whole numbers. Beats, seconds and the tempo are counted
//! in millionths, so every conversion is exact rational arithmetic followed by
//! one rounding towards zero; nothing drifts over long playback.

use vstd::prelude::*;
use vstd::arithmetic::div_mod::lemma_fundamental_div_mod;
use vstd::arithmetic::mul::lemma_mul_is_commutative;

verus! {

/// One million: the denominator of every fractional quantity in this crate.
pub const MICRO: u64 = 1_000_000;

/// Seconds per minute.
pub const SECONDS_PER_MIN: u64 = 60;

/// An absolute position or a length in sample frames.
pub type SampleTime = u64;

/// The value of `n` as a sample count: counts beyond the largest one are the
/// largest one.
pub open spec fn saturated(n: int) -> u64 {
    if n <= 0 {
        0
    } else if n >= u64::MAX as int {
        u64::MAX
    } else {
        n as u64
    }
}

/// `a * b / d`, rounded towards zero, without losing the high bits of the
/// product.
pub open spec fn spec_mul_div(a: u64, b: u64, d: u64) -> int {
    (a as int * b as int) / (d as int)
}

/// [`spec_mul_div`], saturated to 64 bits.
pub fn mul_div(a: u64, b: u64, d: u64) -> (r: u64)
    requires
        d > 0,
    ensures
        r == saturated(spec_mul_div(a, b, d)),
{
    assert(a as int * b as int <= u64::MAX as int * u64::MAX as int) by (nonlinear_arith)
        requires
            0 <= a as int <= u64::MAX as int,
            0 <= b as int <= u64::MAX as int,
    ;
    assert(0 <= a as int * b as int) by (nonlinear_arith)
        requires
            0 <= a as int,
            0 <= b as int,
    ;
    let product: u128 = a as u128 * b as u128;
    let quotient: u128 = product / d as u128;
    if quotient >= u64::MAX as u128 {
        u64::MAX
    } else {
        quotient as u64
    }
}

/// `a * b / d`, rounded up.
pub open spec fn spec_mul_div_ceil(a: u64, b: u64, d: u64) -> int {
    (a as int * b as int + d as int - 1) / (d as int)
}

/// [`spec_mul_div_ceil`], saturated to 64 bits.
pub fn mul_div_ceil(a: u64, b: u64, d: u64) -> (r: u64)
    requires
        d > 0,
    ensures
        r == saturated(spec_mul_div_ceil(a, b, d)),
{
    assert(a as int * b as int <= u64::MAX as int * u64::MAX as int) by (nonlinear_arith)
        requires
            0 <= a as int <= u64::MAX as int,
            0 <= b as int <= u64::MAX as int,
    ;
    assert(0 <= a as int * b as int) by (nonlinear_arith)
        requires
            0 <= a as int,
            0 <= b as int,
    ;
    let product: u128 = a as u128 * b as u128;
    let quotient: u128 = (product + (d as u128 - 1)) / d as u128;
    if quotient >= u64::MAX as u128 {
        u64::MAX
    } else {
        quotient as u64
    }
}

/// Rounding up gives the quotient itself where the division leaves no
/// remainder, and the next whole number where it leaves one.
pub proof fn lemma_mul_div_ceil(a: u64, b: u64, d: u64)
    requires
        d > 0,
    ensures
        (a as int * b as int) % (d as int) == 0 ==> spec_mul_div_ceil(a, b, d) == spec_mul_div(
            a,
            b,
            d,
        ),
        (a as int * b as int) % (d as int) != 0 ==> spec_mul_div_ceil(a, b, d) == spec_mul_div(
            a,
            b,
            d,
        ) + 1,
{
    let n = a as int * b as int;
    let k = d as int;
    assert(0 <= n) by (nonlinear_arith)
        requires
            0 <= a as int,
            0 <= b as int,
            n == a as int * b as int,
    ;
    lemma_fundamental_div_mod(n, k);
    let q = n / k;
    let r = n % k;
    assert(0 <= r < k);
    assert(n == k * q + r);
    if r == 0 {
        assert((k * q + (k - 1)) / k == q) by (nonlinear_arith)
            requires
                k > 0,
        ;
    } else {
        assert((k * q + r + k - 1) / k == q + 1) by (nonlinear_arith)
            requires
                k > 0,
                0 < r < k,
        ;
    }
}

/// Tempo, meter and sample rate: what it takes to convert between beats,
/// seconds and sample positions.
#[derive(Copy, Clone, Debug, PartialEq, Eq, Structural)]
pub struct BeatTimeBase {
    /// Tempo in millionths of a beat per minute.
    pub beats_per_min: u64,
    /// Beats in a bar.
    pub beats_per_bar: u32,
    /// Sample frames per second.
    pub samples_per_sec: u32,
}

impl BeatTimeBase {
    /// A time base is valid when all three of its rates are positive.
    #[verifier::when_used_as_spec(spec_is_valid)]
    pub fn is_valid(&self) -> (r: bool)
        ensures
            r == self.spec_is_valid(),
    {
        self.beats_per_min > 0 && self.beats_per_bar > 0 && self.samples_per_sec > 0
    }

    pub open spec fn spec_is_valid(&self) -> bool {
        self.beats_per_min > 0 && self.beats_per_bar > 0 && self.samples_per_sec > 0
    }

    /// A time base from a tempo in whole beats per minute.
    pub fn new(beats_per_min: u32, beats_per_bar: u32, samples_per_sec: u32) -> (r: Option<
        BeatTimeBase,
    >)
        ensures
            r is Some <==> beats_per_min > 0 && beats_per_bar > 0 && samples_per_sec > 0,
            r matches Some(t) ==> t.is_valid() && t.beats_per_min == beats_per_min * MICRO
                && t.beats_per_bar == beats_per_bar && t.samples_per_sec == samples_per_sec,
    {
        if beats_per_min > 0 && beats_per_bar > 0 && samples_per_sec > 0 {
            Some(
                BeatTimeBase {
                    beats_per_min: beats_per_min as u64 * MICRO,
                    beats_per_bar,
                    samples_per_sec,
                },
            )
        } else {
            None
        }
    }

    /// Sample frames per minute.
    pub open spec fn spec_samples_per_min(&self) -> u64 {
        (self.samples_per_sec as u64 * SECONDS_PER_MIN) as u64
    }

    /// Sample frames per minute.
    pub fn samples_per_min(&self) -> (r: u64)
        ensures
            r == self.spec_samples_per_min(),
            r == self.samples_per_sec * 60,
    {
        self.samples_per_sec as u64 * SECONDS_PER_MIN
    }

    /// The sample position `micro_beats` millionths of a beat after zero,
    /// rounded towards zero and not saturated.
    pub open spec fn spec_beats_to_samples(&self, micro_beats: u64) -> int {
        spec_mul_div(micro_beats, self.spec_samples_per_min(), self.beats_per_min)
    }

    /// The millionths of a beat that `samples` sample frames take, rounded
    /// towards zero and not saturated.
    pub open spec fn spec_samples_to_beats(&self, samples: u64) -> int {
        spec_mul_div(samples, self.beats_per_min, self.spec_samples_per_min())
    }

    /// The sample position `micro_seconds` microseconds after zero, rounded
    /// towards zero and not saturated.
    pub open spec fn spec_seconds_to_samples(&self, micro_seconds: u64) -> int {
        spec_mul_div(micro_seconds, self.samples_per_sec as u64, MICRO)
    }

    /// The microseconds that `samples` sample frames take, rounded towards
    /// zero and not saturated.
    pub open spec fn spec_samples_to_seconds(&self, samples: u64) -> int {
        spec_mul_div(samples, MICRO, self.samples_per_sec as u64)
    }

    /// Converts millionths of a beat to a sample position.
    pub fn beats_to_samples(&self, micro_beats: u64) -> (r: SampleTime)
        requires
            self.is_valid(),
        ensures
            r == saturated(self.spec_beats_to_samples(micro_beats)),
    {
        mul_div(micro_beats, self.samples_per_min(), self.beats_per_min)
    }

    /// Converts a sample count to millionths of a beat.
    pub fn samples_to_beats(&self, samples: SampleTime) -> (r: u64)
        requires
            self.is_valid(),
        ensures
            r == saturated(self.spec_samples_to_beats(samples)),
    {
        mul_div(samples, self.beats_per_min, self.samples_per_min())
    }

    /// Converts microseconds to a sample position.
    pub fn seconds_to_samples(&self, micro_seconds: u64) -> (r: SampleTime)
        requires
            self.is_valid(),
        ensures
            r == saturated(self.spec_seconds_to_samples(micro_seconds)),
    {
        mul_div(micro_seconds, self.samples_per_sec as u64, MICRO)
    }

    /// Converts a sample count to microseconds.
    pub fn samples_to_seconds(&self, samples: SampleTime) -> (r: u64)
        requires
            self.is_valid(),
        ensures
            r == saturated(self.spec_samples_to_seconds(samples)),
    {
        mul_div(samples, MICRO, self.samples_per_sec as u64)
    }

    /// Bar and beat in which a sample position lies, both counted from one.
    pub open spec fn spec_bar_and_beat(&self, sample_time: SampleTime) -> (u64, u64) {
        let beats = saturated(self.spec_samples_to_beats(sample_time)) / MICRO;
        (
            (beats / (self.beats_per_bar as u64) + 1) as u64,
            (beats % (self.beats_per_bar as u64) + 1) as u64,
        )
    }

    /// Bar and beat in which a sample position lies, both counted from one.
    pub fn bar_and_beat(&self, sample_time: SampleTime) -> (r: (u64, u64))
        requires
            self.is_valid(),
        ensures
            r == self.spec_bar_and_beat(sample_time),
            1 <= r.0,
            1 <= r.1 <= self.beats_per_bar,
    {
        let beats: u64 = self.samples_to_beats(sample_time) / MICRO;
        let bar: u64 = beats / self.beats_per_bar as u64;
        let beat: u64 = beats % self.beats_per_bar as u64;
        (bar + 1, beat + 1)
    }
}

/// Converting beats to a sample position and back is off by one sample frame
/// at most: the result is never later than the input, and earlier by no more
/// than the length of one frame, in the millionths of a beat that times are
/// counted in. A time that falls on a frame comes back as it is. This holds
/// of every time whose sample position can be counted; a later one is
/// converted to the last position that can.
pub proof fn lemma_beats_round_trip(time_base: BeatTimeBase, micro_beats: u64)
    requires
        time_base.is_valid(),
        time_base.spec_beats_to_samples(micro_beats) <= u64::MAX,
    ensures
        ({
            let samples = saturated(time_base.spec_beats_to_samples(micro_beats));
            let back = time_base.spec_samples_to_beats(samples);
            &&& 0 <= back <= micro_beats
            &&& (micro_beats - back) * time_base.spec_samples_per_min()
                < time_base.beats_per_min + time_base.spec_samples_per_min()
            &&& micro_beats - back <= spec_mul_div_ceil(
                1,
                time_base.beats_per_min,
                time_base.spec_samples_per_min(),
            )
            &&& (micro_beats * time_base.spec_samples_per_min()) % (time_base.beats_per_min as int)
                == 0 ==> back == micro_beats
        }),
{
    let a = time_base.spec_samples_per_min() as int;
    let b = time_base.beats_per_min as int;
    let x = micro_beats as int;
    let s = (x * a) / b;
    assert(0 <= x * a) by (nonlinear_arith)
        requires
            0 <= x,
            0 <= a,
    ;
    assert(0 <= s) by (nonlinear_arith)
        requires
            0 <= x * a,
            0 < b,
            s == (x * a) / b,
    ;
    let samples = saturated(time_base.spec_beats_to_samples(micro_beats));
    assert(samples as int == s);
    let back = (s * b) / a;
    assert(back == time_base.spec_samples_to_beats(samples));
    // s * b <= x * a < s * b + b
    lemma_fundamental_div_mod(x * a, b);
    assert(x * a == b * s + (x * a) % b);
    assert(0 <= (x * a) % b < b);
    lemma_mul_is_commutative(b, s);
    // back * a <= s * b < back * a + a
    lemma_fundamental_div_mod(s * b, a);
    assert(s * b == a * back + (s * b) % a);
    assert(0 <= (s * b) % a < a);
    lemma_mul_is_commutative(a, back);
    assert(0 <= s * b) by (nonlinear_arith)
        requires
            0 <= s,
            0 < b,
    ;
    assert(0 <= back) by (nonlinear_arith)
        requires
            0 <= s * b,
            0 < a,
            back == (s * b) / a,
    ;
    assert(back <= x) by (nonlinear_arith)
        requires
            back * a <= s * b,
            s * b <= x * a,
            0 < a,
    ;
    assert((x - back) * a < b + a) by (nonlinear_arith)
        requires
            x * a < s * b + b,
            s * b < back * a + a,
    ;
    assert(x - back <= (b + a - 1) / a) by (nonlinear_arith)
        requires
            (x - back) * a <= b + a - 1,
            0 < a,
    ;
    assert(1 * b == b);
    if (x * a) % b == 0 {
        assert(back == x) by (nonlinear_arith)
            requires
                x * a == s * b,
                back * a <= s * b,
                s * b < back * a + a,
                0 < a,
        ;
    }
}

/// Converting seconds to a sample position and back is off by one sample
/// frame at most: the result is never later than the input, and earlier by
/// no more than the length of one frame, in the microseconds that times are
/// counted in. A time that falls on a frame comes back as it is. This holds
/// of every time whose sample position can be counted; a later one is
/// converted to the last position that can.
pub proof fn lemma_seconds_round_trip(time_base: BeatTimeBase, micro_seconds: u64)
    requires
        time_base.is_valid(),
        time_base.spec_seconds_to_samples(micro_seconds) <= u64::MAX,
    ensures
        ({
            let samples = saturated(time_base.spec_seconds_to_samples(micro_seconds));
            let back = time_base.spec_samples_to_seconds(samples);
            &&& 0 <= back <= micro_seconds
            &&& (micro_seconds - back) * time_base.samples_per_sec < MICRO
                + time_base.samples_per_sec
            &&& micro_seconds - back <= spec_mul_div_ceil(1, MICRO, time_base.samples_per_sec as u64)
            &&& (micro_seconds * time_base.samples_per_sec) % (MICRO as int) == 0 ==> back
                == micro_seconds
        }),
{
    let a = time_base.samples_per_sec as int;
    let b = MICRO as int;
    let x = micro_seconds as int;
    let s = (x * a) / b;
    assert(0 <= x * a) by (nonlinear_arith)
        requires
            0 <= x,
            0 <= a,
    ;
    assert(0 <= s) by (nonlinear_arith)
        requires
            0 <= x * a,
            0 < b,
            s == (x * a) / b,
    ;
    let samples = saturated(time_base.spec_seconds_to_samples(micro_seconds));
    assert(samples as int == s);
    let back = (s * b) / a;
    assert(back == time_base.spec_samples_to_seconds(samples));
    lemma_fundamental_div_mod(x * a, b);
    lemma_mul_is_commutative(b, s);
    lemma_fundamental_div_mod(s * b, a);
    lemma_mul_is_commutative(a, back);
    assert(0 <= s * b) by (nonlinear_arith)
        requires
            0 <= s,
            0 < b,
    ;
    assert(0 <= back) by (nonlinear_arith)
        requires
            0 <= s * b,
            0 < a,
            back == (s * b) / a,
    ;
    assert(back <= x) by (nonlinear_arith)
        requires
            back * a <= s * b,
            s * b <= x * a,
            0 < a,
    ;
    assert((x - back) * a < b + a) by (nonlinear_arith)
        requires
            x * a < s * b + b,
            s * b < back * a + a,
    ;
    assert(x - back <= (b + a - 1) / a) by (nonlinear_arith)
        requires
            (x - back) * a <= b + a - 1,
            0 < a,
    ;
    assert(1 * b == b);
    if (x * a) % b == 0 {
        assert(back == x) by (nonlinear_arith)
            requires
                x * a == s * b,
                back * a <= s * b,
                s * b < back * a + a,
                0 < a,
        ;
    }
}

} // verus!
