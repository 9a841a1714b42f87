//! Tone synthesis on integers.
//!
//! Units: a duration is a number of milliseconds, a frequency a number of
//! millihertz, a loudness a number of thousandths of full scale. A value of
//! the periodic waveform is a fixed-point number in which [`UNIT`] stands for
//! one.
pub mod amplitude;
pub mod envelope;
pub mod notable_notes;
pub mod note;
pub mod oscillator;

pub use amplitude::Amplitude;
pub use note::Note;
pub use oscillator::Oscillator;

use vstd::arithmetic::div_mod::lemma_fundamental_div_mod_converse;
use vstd::prelude::*;

verus! {

/// Samples per second, where nothing else is chosen.
pub const SAMPLE_RATE: u32 = 44100;

/// The largest sample.
pub const MAX_AMPLITUDE: i16 = 32767;

/// The waveform value that stands for one.
pub const UNIT: i32 = 1073741824;

/// The loudness that stands for one: loudness is counted in thousandths.
pub const FULL_SCALE: u32 = 1000;

/// Milliseconds in a second, and millihertz in a hertz.
pub const MILLI: u32 = 1000;

/// How many samples `duration_ms` milliseconds take at `sample_rate`: the
/// product of duration and rate, rounded down.
pub open spec fn spec_sample_count(duration_ms: u32, sample_rate: u32) -> nat {
    (duration_ms as nat * sample_rate as nat) / (MILLI as nat)
}

/// How many steps a period is divided into at `sample_rate`. A phase is a
/// number of such steps.
pub open spec fn spec_period(sample_rate: u32) -> nat {
    sample_rate as nat * MILLI as nat
}

/// Where in its period a tone of `frequency` millihertz stands at sample
/// `time`: the turns made so far are `frequency * time / spec_period`, and
/// the phase is what is left beyond the whole turns. At a rate of 0 there is
/// no period, and the phase is 0.
pub open spec fn spec_phase(frequency: u32, time: nat, sample_rate: u32) -> nat {
    if sample_rate == 0 {
        0
    } else {
        (frequency as nat * time) % spec_period(sample_rate)
    }
}

/// The sample that `tones` tones make together at one time step: the mean of
/// their waveform values, whose sum is `sum`, scaled to the loudness
/// `scaling` of the largest sample and rounded down.
pub open spec fn spec_scale(sum: int, tones: nat, scaling: nat) -> int {
    (MAX_AMPLITUDE as int * scaling as int * sum) / (FULL_SCALE as int * UNIT as int
        * tones as int)
}

/// How many samples `duration_ms` milliseconds take at `sample_rate`.
pub fn sample_count(duration_ms: u32, sample_rate: u32) -> (count: u64)
    ensures
        count == spec_sample_count(duration_ms, sample_rate),
{
    assert(duration_ms as nat * sample_rate as nat <= 0xffff_ffff * 0xffff_ffff)
        by (nonlinear_arith)
        requires
            duration_ms <= 0xffff_ffff,
            sample_rate <= 0xffff_ffff,
    ;
    (duration_ms as u64 * sample_rate as u64) / (MILLI as u64)
}

/// How many steps a period is divided into at `sample_rate`.
pub fn period(sample_rate: u32) -> (steps: u64)
    ensures
        steps == spec_period(sample_rate),
{
    sample_rate as u64 * 1000
}

/// The phase of a tone of `frequency` millihertz at sample `time`.
pub fn get_w(frequency: u32, time: u64, sample_rate: u32) -> (w: u64)
    ensures
        w == spec_phase(frequency, time as nat, sample_rate),
        sample_rate > 0 ==> w < spec_period(sample_rate),
{
    if sample_rate == 0 {
        return 0;
    }
    assert(frequency as nat * time as nat <= 0xffff_ffff * 0xffff_ffff_ffff_ffff)
        by (nonlinear_arith)
        requires
            frequency <= 0xffff_ffff,
            time <= 0xffff_ffff_ffff_ffff,
    ;
    let turns: u128 = frequency as u128 * time as u128;
    let period: u128 = period(sample_rate) as u128;
    (turns % period) as u64
}

/// Rounding down a negative quotient, by way of the positive one.
pub proof fn lemma_floor_div_negative(m: int, d: int)
    requires
        m > 0,
        d > 0,
    ensures
        (-m) / d == -((m + d - 1) / d),
{
    let q = (m + d - 1) / d;
    let r = (m + d - 1) % d;
    assert(m + d - 1 == d * q + r && 0 <= r < d) by (nonlinear_arith)
        requires
            q == (m + d - 1) / d,
            r == (m + d - 1) % d,
            d > 0,
    ;
    let back = d - 1 - r;
    assert(-m == (-q) * d + back) by (nonlinear_arith)
        requires
            m + d - 1 == d * q + r,
            back == d - 1 - r,
    ;
    lemma_fundamental_div_mod_converse(-m, d, -q, back);
}

/// A quotient lies between the bounds of its numerator, once the common
/// factor `t` is taken out of both.
proof fn lemma_magnitude_bounds(num: int, peak: int, t: int)
    requires
        0 <= num <= peak * t,
        t > 0,
    ensures
        0 <= num / (1000 * t) <= peak / 1000,
        (-peak) / 1000 <= (-num) / (1000 * t) <= 0,
{
    let d = 1000 * t;
    let k = peak / 1000;
    let l = (-peak) / 1000;
    assert(peak < 1000 * (k + 1) && 1000 * l <= -peak) by (nonlinear_arith)
        requires
            k == peak / 1000,
            l == (-peak) / 1000,
    ;
    assert(num < (k + 1) * d) by (nonlinear_arith)
        requires
            num <= peak * t,
            peak < 1000 * (k + 1),
            t > 0,
            d == 1000 * t,
    ;
    assert(0 <= num / d < k + 1) by (nonlinear_arith)
        requires
            0 <= num < (k + 1) * d,
            d > 0,
    ;
    assert(l * d <= -num) by (nonlinear_arith)
        requires
            num <= peak * t,
            1000 * l <= -peak,
            t > 0,
            d == 1000 * t,
    ;
    assert(l <= (-num) / d <= 0) by (nonlinear_arith)
        requires
            l * d <= -num <= 0,
            d > 0,
    ;
}

/// No sample lies beyond the peak: with waveform values of at most one, the
/// sample of any number of tones lies between the peak, rounded down, and
/// its negative, rounded down. The peak is `scaling` thousandths of the
/// largest sample, so every sample fits in 16 bits.
pub proof fn lemma_scale_bounds(sum: int, tones: nat, scaling: nat)
    requires
        tones > 0,
        scaling <= FULL_SCALE,
        -(tones * UNIT) <= sum <= tones * UNIT,
    ensures
        (-(MAX_AMPLITUDE * scaling)) / (FULL_SCALE as int) <= spec_scale(sum, tones, scaling) <= (
        MAX_AMPLITUDE * scaling) / (FULL_SCALE as int),
        -MAX_AMPLITUDE <= spec_scale(sum, tones, scaling) <= MAX_AMPLITUDE,
        scaling == 0 ==> spec_scale(sum, tones, scaling) == 0,
{
    let peak: int = MAX_AMPLITUDE as int * scaling as int;
    let span: int = UNIT as int * tones as int;
    let magnitude: int = if sum >= 0 {
        sum
    } else {
        -sum
    };
    let num = peak * magnitude;
    assert(0 <= num <= peak * span) by (nonlinear_arith)
        requires
            num == peak * magnitude,
            0 <= peak,
            0 <= magnitude <= span,
    ;
    lemma_magnitude_bounds(num, peak, span);
    assert(FULL_SCALE as int * UNIT as int * tones as int == 1000 * span) by (nonlinear_arith)
        requires
            span == UNIT as int * tones as int,
            FULL_SCALE == 1000,
    ;
    assert(MAX_AMPLITUDE as int * scaling as int * sum == if sum >= 0 {
        num
    } else {
        -num
    }) by (nonlinear_arith)
        requires
            num == peak * magnitude,
            peak == MAX_AMPLITUDE as int * scaling as int,
            magnitude == if sum >= 0 {
                sum
            } else {
                -sum
            },
    ;
    assert(peak <= 32767000 && peak >= 0) by (nonlinear_arith)
        requires
            peak == 32767 * scaling,
            0 <= scaling <= 1000,
    ;
    if scaling == 0 {
        assert(peak == 0);
    }
}

/// Scales the sum of the waveform values of `tones` tones to one sample.
pub(crate) fn scale(sum: i128, tones: usize, scaling: u32) -> (sample: i16)
    requires
        tones > 0,
        scaling <= FULL_SCALE,
        -(tones * UNIT) <= sum <= tones * UNIT,
    ensures
        sample == spec_scale(sum as int, tones as nat, scaling as nat),
        (-(MAX_AMPLITUDE * scaling)) / (FULL_SCALE as int) <= sample <= (MAX_AMPLITUDE * scaling)
            / (FULL_SCALE as int),
{
    let peak: u128 = MAX_AMPLITUDE as u128 * scaling as u128;
    let span: u128 = UNIT as u128 * tones as u128;
    let den: u128 = 1000 * span;
    let magnitude: u128 = if sum >= 0 {
        sum as u128
    } else {
        (-sum) as u128
    };
    assert(peak * magnitude <= 32767000 * span && peak * magnitude <= peak * span)
        by (nonlinear_arith)
        requires
            0 <= peak <= 32767000,
            0 <= magnitude <= span,
    ;
    let num: u128 = peak * magnitude;
    proof {
        lemma_scale_bounds(sum as int, tones as nat, scaling as nat);
        assert(FULL_SCALE as int * UNIT as int * tones as int == den as int) by (nonlinear_arith)
            requires
                den == 1000 * span,
                span == 1073741824 * tones,
                FULL_SCALE == 1000,
                UNIT == 1073741824,
        ;
        assert(MAX_AMPLITUDE as int * scaling as int * sum as int == if sum >= 0 {
            num as int
        } else {
            -(num as int)
        }) by (nonlinear_arith)
            requires
                num == peak * magnitude,
                peak == MAX_AMPLITUDE * scaling,
                magnitude == if sum >= 0 {
                    sum as int
                } else {
                    -sum
                },
        ;
    }
    if sum >= 0 || num == 0 {
        let q: u128 = num / den;
        assert(sum < 0 ==> -(num as int) == num as int);
        q as i16
    } else {
        let q: u128 = (num + den - 1) / den;
        proof {
            lemma_floor_div_negative(num as int, den as int);
        }
        -(q as i16)
    }
}

} // verus!
