//! The oscillator: one period of a waveform, stepped through at a sample
//! rate.
use super::amplitude::Amplitude;
use super::{get_w, period, scale, spec_period, spec_phase, spec_scale, UNIT};
use vstd::prelude::*;

verus! {

/// Whether `wave` can serve as one period of a waveform: it is not empty, and
/// no value lies beyond one.
pub open spec fn valid_wave(wave: Seq<i32>) -> bool {
    &&& wave.len() > 0
    &&& forall|i: int| 0 <= i < wave.len() ==> -UNIT <= #[trigger] wave[i] <= UNIT
}

/// A sample rate together with one period of a waveform of unit amplitude.
///
/// The waveform is a table: entry `i` of `n` holds the value at `i / n` of
/// the period, as a fixed-point number in which `UNIT` stands for one.
pub struct Oscillator {
    sample_rate: u32,
    wave: Vec<i32>,
}

impl Oscillator {
    pub closed spec fn rate(&self) -> u32 {
        self.sample_rate
    }

    pub closed spec fn table(&self) -> Seq<i32> {
        self.wave@
    }

    /// What holds of every oscillator: the rate is positive and the table is
    /// a valid wave.
    pub open spec fn wf(&self) -> bool {
        self.rate() > 0 && valid_wave(self.table())
    }

    #[verifier::type_invariant]
    closed spec fn inv(&self) -> bool {
        self.wf()
    }

    /// The table entry that a phase falls on.
    pub open spec fn spec_index(&self, phase: nat) -> int {
        (phase * self.table().len()) as int / (spec_period(self.rate()) as int)
    }

    /// The waveform value of a tone of `frequency` millihertz at sample
    /// `time`, at unit amplitude.
    pub open spec fn spec_unit(&self, frequency: u32, time: nat) -> int {
        self.table()[self.spec_index(spec_phase(frequency, time, self.rate()))] as int
    }

    /// The sample of a tone of `frequency` millihertz at sample `time` and
    /// loudness `scaling`: the waveform value times the peak, which is
    /// `scaling` thousandths of the largest sample, rounded down.
    pub open spec fn spec_sample(&self, frequency: u32, time: nat, scaling: nat) -> int {
        spec_scale(self.spec_unit(frequency, time), 1, scaling)
    }

    /// No waveform value lies beyond one.
    pub proof fn lemma_unit_bounds(&self, frequency: u32, time: nat)
        requires
            self.wf(),
        ensures
            -UNIT <= self.spec_unit(frequency, time) <= UNIT,
    {
        let phase = spec_phase(frequency, time, self.rate());
        let len = self.table().len();
        let period = spec_period(self.rate());
        assert(phase < period);
        assert(0 <= (phase * len) as int / (period as int) < len) by (nonlinear_arith)
            requires
                0 <= phase < period,
                len > 0,
        ;
    }

    /// An oscillator at `sample_rate` over `wave`, if the rate is positive
    /// and the wave is valid.
    pub fn new(sample_rate: u32, wave: Vec<i32>) -> (r: Option<Oscillator>)
        ensures
            r is Some <==> sample_rate > 0 && valid_wave(wave@),
            r is Some ==> r->Some_0.rate() == sample_rate && r->Some_0.table() == wave@
                && r->Some_0.wf(),
    {
        if sample_rate == 0 || wave.len() == 0 {
            return None;
        }
        let mut i: usize = 0;
        while i < wave.len()
            invariant
                i <= wave.len(),
                forall|j: int| 0 <= j < i ==> -UNIT <= #[trigger] wave@[j] <= UNIT,
            decreases wave.len() - i,
        {
            if wave[i] < -UNIT || wave[i] > UNIT {
                return None;
            }
            i += 1;
        }
        Some(Oscillator { sample_rate, wave })
    }

    pub fn sample_rate(&self) -> (rate: u32)
        ensures
            rate == self.rate(),
            rate > 0,
            self.wf(),
    {
        proof {
            use_type_invariant(self);
        }
        self.sample_rate
    }

    /// The waveform value of a tone at sample `time`, at unit amplitude.
    pub fn unit(&self, frequency: u32, time: u64) -> (value: i32)
        ensures
            value == self.spec_unit(frequency, time as nat),
            -UNIT <= value <= UNIT,
    {
        proof {
            use_type_invariant(self);
        }
        let w = get_w(frequency, time, self.sample_rate);
        let period: u128 = period(self.sample_rate) as u128;
        let len: u128 = self.wave.len() as u128;
        assert(w as int * len as int <= period as int * len as int - len as int)
            by (nonlinear_arith)
            requires
                0 <= w < period,
                len >= 0,
        ;
        assert((w as int * len as int) / (period as int) < len) by (nonlinear_arith)
            requires
                0 <= w as int * len as int <= period as int * len as int - len as int,
                period > 0,
                len > 0,
        ;
        assert(w as int * len as int >= 0) by (nonlinear_arith)
            requires
                w >= 0,
                len >= 0,
        ;
        assert(w as int * len as int <= 0xffff_ffff_ffff_ffff * 0xffff_ffff_ffff_ffff)
            by (nonlinear_arith)
            requires
                0 <= w <= 0xffff_ffff_ffff_ffff,
                0 <= len <= 0xffff_ffff_ffff_ffff,
        ;
        let index: usize = (w as u128 * len / period) as usize;
        self.wave[index]
    }

    /// The sample of a tone of `frequency` millihertz at sample `time` and
    /// loudness `volume`.
    pub fn sample(&self, frequency: u32, time: u64, volume: &Amplitude) -> (sample: i16)
        ensures
            sample == self.spec_sample(frequency, time as nat, volume.spec_scaling()),
    {
        let value = self.unit(frequency, time);
        scale(value as i128, 1, volume.scaling())
    }
}

} // verus!
