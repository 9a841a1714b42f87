//! A tone, and the waves that one tone or several make.
use super::amplitude::Amplitude;
use super::oscillator::Oscillator;
use super::{
    lemma_scale_bounds, sample_count, scale, spec_sample_count, spec_scale, FULL_SCALE,
    MAX_AMPLITUDE, UNIT,
};
use vstd::prelude::*;

verus! {

/// A tone: its frequency in millihertz.
#[derive(Debug, Clone, Copy, PartialEq, Eq)]
pub struct Note(pub u32);

/// The sum of the waveform values of `notes` at sample `time`, each at unit
/// amplitude.
pub open spec fn spec_units_sum(oscillator: &Oscillator, notes: Seq<Note>, time: nat) -> int
    decreases notes.len(),
{
    if notes.len() == 0 {
        0
    } else {
        spec_units_sum(oscillator, notes.drop_last(), time) + oscillator.spec_unit(
            notes.last().0,
            time,
        )
    }
}

/// The sample of one tone at sample `time`: nothing when the volume is
/// silent, else the oscillator's sample at the loudness of the volume.
pub open spec fn spec_wave_sample(
    oscillator: &Oscillator,
    note: Note,
    time: nat,
    volume: Amplitude,
) -> int {
    if volume == Amplitude::Silent {
        0
    } else {
        oscillator.spec_sample(note.0, time, volume.spec_scaling())
    }
}

/// The sample of several tones together at sample `time`: nothing when the
/// volume is silent or there is no tone, else the mean of the waveform values
/// at unit amplitude, scaled to the loudness of the volume and rounded down.
pub open spec fn spec_mixed_sample(
    oscillator: &Oscillator,
    notes: Seq<Note>,
    time: nat,
    volume: Amplitude,
) -> int {
    if volume == Amplitude::Silent || notes.len() == 0 {
        0
    } else {
        spec_scale(spec_units_sum(oscillator, notes, time), notes.len(), volume.spec_scaling())
    }
}

/// The wave of one tone over `duration_ms` milliseconds.
pub open spec fn spec_audio_wave(
    oscillator: &Oscillator,
    note: Note,
    duration_ms: u32,
    volume: Amplitude,
) -> Seq<i16> {
    Seq::new(
        spec_sample_count(duration_ms, oscillator.rate()),
        |t: int| spec_wave_sample(oscillator, note, t as nat, volume) as i16,
    )
}

/// The wave of several tones together over `duration_ms` milliseconds.
pub open spec fn spec_combine(
    oscillator: &Oscillator,
    notes: Seq<Note>,
    duration_ms: u32,
    volume: Amplitude,
) -> Seq<i16> {
    Seq::new(
        spec_sample_count(duration_ms, oscillator.rate()),
        |t: int| spec_mixed_sample(oscillator, notes, t as nat, volume) as i16,
    )
}

/// The waveform values of any number of tones sum to at most that number.
pub proof fn lemma_units_sum_bounds(oscillator: &Oscillator, notes: Seq<Note>, time: nat)
    requires
        oscillator.wf(),
    ensures
        -(notes.len() * UNIT) <= spec_units_sum(oscillator, notes, time) <= notes.len() * UNIT,
    decreases notes.len(),
{
    if notes.len() > 0 {
        lemma_units_sum_bounds(oscillator, notes.drop_last(), time);
        oscillator.lemma_unit_bounds(notes.last().0, time);
        assert(notes.len() * UNIT == (notes.len() - 1) * UNIT + UNIT) by (nonlinear_arith);
    } else {
        assert(notes.len() * UNIT == 0) by (nonlinear_arith)
            requires
                notes.len() == 0,
        ;
    }
}

/// No sample of a wave lies beyond the peak of its volume, whether one tone
/// sounds or several: every sample lies between the peak, rounded down, and
/// its negative, rounded down, where the peak is the loudness of the volume
/// in thousandths of the largest sample.
pub proof fn lemma_samples_within_peak(
    oscillator: &Oscillator,
    notes: Seq<Note>,
    time: nat,
    volume: Amplitude,
)
    requires
        oscillator.wf(),
    ensures
        (-(MAX_AMPLITUDE * volume.spec_scaling())) / (FULL_SCALE as int) <= spec_mixed_sample(
            oscillator,
            notes,
            time,
            volume,
        ) <= (MAX_AMPLITUDE * volume.spec_scaling()) / (FULL_SCALE as int),
        forall|note: Note|
            (-(MAX_AMPLITUDE * volume.spec_scaling())) / (FULL_SCALE as int)
                <= #[trigger] spec_wave_sample(oscillator, note, time, volume) <= (MAX_AMPLITUDE
                * volume.spec_scaling()) / (FULL_SCALE as int),
{
    volume.lemma_scaling_range();
    let peak = MAX_AMPLITUDE * volume.spec_scaling();
    assert((-peak) / (FULL_SCALE as int) <= 0 <= peak / (FULL_SCALE as int)) by {
        assert(0 <= peak) by (nonlinear_arith)
            requires
                peak == MAX_AMPLITUDE * volume.spec_scaling(),
        ;
    }
    if volume != Amplitude::Silent && notes.len() > 0 {
        lemma_units_sum_bounds(oscillator, notes, time);
        lemma_scale_bounds(
            spec_units_sum(oscillator, notes, time),
            notes.len(),
            volume.spec_scaling(),
        );
    }
    assert forall|note: Note|
        (-peak) / (FULL_SCALE as int) <= #[trigger] spec_wave_sample(
            oscillator,
            note,
            time,
            volume,
        ) <= peak / (FULL_SCALE as int) by {
        if volume != Amplitude::Silent {
            oscillator.lemma_unit_bounds(note.0, time);
            lemma_scale_bounds(oscillator.spec_unit(note.0, time), 1, volume.spec_scaling());
        }
    }
}

/// Mixing a single tone changes nothing: it gives the wave of that tone.
pub proof fn lemma_mixing_identity(
    oscillator: &Oscillator,
    note: Note,
    duration_ms: u32,
    volume: Amplitude,
)
    ensures
        spec_combine(oscillator, seq![note], duration_ms, volume) == spec_audio_wave(
            oscillator,
            note,
            duration_ms,
            volume,
        ),
{
    let notes = seq![note];
    assert forall|t: nat|
        spec_mixed_sample(oscillator, notes, t, volume) == spec_wave_sample(
            oscillator,
            note,
            t,
            volume,
        ) by {
        assert(notes.drop_last().len() == 0);
        assert(spec_units_sum(oscillator, notes.drop_last(), t) == 0);
        assert(spec_units_sum(oscillator, notes, t) == oscillator.spec_unit(note.0, t));
    }
    assert(spec_combine(oscillator, notes, duration_ms, volume) =~= spec_audio_wave(
        oscillator,
        note,
        duration_ms,
        volume,
    ));
}

/// A silent wave holds nothing but zeros, one for each sample that the
/// duration takes.
pub proof fn lemma_silent_wave(oscillator: &Oscillator, note: Note, duration_ms: u32)
    ensures
        spec_audio_wave(oscillator, note, duration_ms, Amplitude::Silent).len()
            == spec_sample_count(duration_ms, oscillator.rate()),
        forall|t: int|
            0 <= t < spec_sample_count(duration_ms, oscillator.rate()) ==> spec_audio_wave(
                oscillator,
                note,
                duration_ms,
                Amplitude::Silent,
            )[t] == 0,
        spec_audio_wave(oscillator, note, duration_ms, Amplitude::Silent) == Seq::new(
            spec_sample_count(duration_ms, oscillator.rate()),
            |t: int| 0i16,
        ),
{
    assert(spec_audio_wave(oscillator, note, duration_ms, Amplitude::Silent) =~= Seq::new(
        spec_sample_count(duration_ms, oscillator.rate()),
        |t: int| 0i16,
    ));
}

impl Note {
    pub fn get_frequency(&self) -> (frequency: u32)
        ensures
            frequency == self.0,
    {
        self.0
    }

    /// The wave of `notes` sounding together for `secs` milliseconds at
    /// `volume`.
    pub fn combine(notes: &[Self], secs: u32, volume: &Amplitude, oscillator: &Oscillator) -> (wave:
        Vec<i16>)
        ensures
            wave@ == spec_combine(oscillator, notes@, secs, *volume),
    {
        let nsamples = sample_count(secs, oscillator.sample_rate());
        let mut wave: Vec<i16> = Vec::new();
        let mut t: u64 = 0;
        while t < nsamples
            invariant
                t <= nsamples,
                nsamples == spec_sample_count(secs, oscillator.rate()),
                wave@.len() == t,
                forall|j: int|
                    0 <= j < t ==> wave@[j] == spec_mixed_sample(
                        oscillator,
                        notes@,
                        j as nat,
                        *volume,
                    ),
            decreases nsamples - t,
        {
            let sample = match volume {
                Amplitude::Silent => 0i16,
                _ => if notes.len() == 0 {
                    0i16
                } else {
                    let mut sum: i128 = 0;
                    let mut k: usize = 0;
                    while k < notes.len()
                        invariant
                            k <= notes.len(),
                            sum == spec_units_sum(oscillator, notes@.take(k as int), t as nat),
                            -(k * UNIT) <= sum <= k * UNIT,
                        decreases notes.len() - k,
                    {
                        let value = oscillator.unit(notes[k].get_frequency(), t);
                        proof {
                            let next = notes@.take(k + 1);
                            assert(next.drop_last() =~= notes@.take(k as int));
                            assert(next.last() == notes@[k as int]);
                            assert((k + 1) * UNIT == k * UNIT + UNIT) by (nonlinear_arith);
                            assert(k * UNIT <= 0xffff_ffff_ffff_ffff * 1073741824)
                                by (nonlinear_arith)
                                requires
                                    k <= 0xffff_ffff_ffff_ffff,
                                    UNIT == 1073741824,
                            ;
                        }
                        sum = sum + value as i128;
                        k += 1;
                    }
                    assert(notes@.take(notes.len() as int) =~= notes@);
                    scale(sum, notes.len(), volume.scaling())
                },
            };
            wave.push(sample);
            t += 1;
        }
        assert(wave@ =~= spec_combine(oscillator, notes@, secs, *volume));
        wave
    }

    /// The wave of this tone sounding for `secs` milliseconds at `volume`.
    pub fn audio_wave(&self, secs: u32, volume: &Amplitude, oscillator: &Oscillator) -> (wave: Vec<
        i16,
    >)
        ensures
            wave@ == spec_audio_wave(oscillator, *self, secs, *volume),
    {
        let nsamples = sample_count(secs, oscillator.sample_rate());
        let mut wave: Vec<i16> = Vec::new();
        let mut t: u64 = 0;
        while t < nsamples
            invariant
                t <= nsamples,
                nsamples == spec_sample_count(secs, oscillator.rate()),
                wave@.len() == t,
                forall|j: int|
                    0 <= j < t ==> wave@[j] == spec_wave_sample(
                        oscillator,
                        *self,
                        j as nat,
                        *volume,
                    ),
            decreases nsamples - t,
        {
            let sample = match volume {
                Amplitude::Silent => 0i16,
                _ => oscillator.sample(self.get_frequency(), t, volume),
            };
            wave.push(sample);
            t += 1;
        }
        assert(wave@ =~= spec_audio_wave(oscillator, *self, secs, *volume));
        wave
    }
}

} // verus!
