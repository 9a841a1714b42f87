//! The envelope of a voice: which stage shapes the loudness at a time step.
//!
//! The stages follow each other in the order attack, first decay, second
//! decay, sustain; the second decay and the sustain may be left out. The
//! release stage stands apart: once a release time is set, it takes over from
//! that time on. Time is counted in steps of whatever length the caller
//! chooses, the same for durations, release times and queries.
use super::amplitude::Amplitude;
use vstd::prelude::*;

verus! {

/// How many stages have a start time: all but the release.
pub const TIMED_STAGES: usize = 4;

/// The shape of the way from the start loudness of a stage to its end
/// loudness.
#[derive(Debug, Clone, Copy, PartialEq, Eq)]
pub enum Interpolation {
    Linear,
    Exponential,
}

/// The stages of an envelope.
#[derive(Debug, Clone, Copy, PartialEq, Eq)]
pub enum Interval {
    Attack,
    Decay1,
    Decay2,
    Sustain,
    Release,
}

/// Why an envelope has no answer.
#[derive(Debug, Clone, Copy, PartialEq, Eq)]
pub enum EnvelopeError {
    /// No stage has this number.
    IntervalOutOfBound(usize),
    /// No stage was found for this step.
    IntervalNotFound(u32),
}

impl Interval {
    /// The stage with number `value`, counting from the attack as 0.
    pub open spec fn spec_from_index(value: int) -> Option<Interval> {
        if value == 0 {
            Some(Interval::Attack)
        } else if value == 1 {
            Some(Interval::Decay1)
        } else if value == 2 {
            Some(Interval::Decay2)
        } else if value == 3 {
            Some(Interval::Sustain)
        } else if value == 4 {
            Some(Interval::Release)
        } else {
            None
        }
    }

    pub fn try_from(value: usize) -> (r: Result<Interval, EnvelopeError>)
        ensures
            r == match Interval::spec_from_index(value as int) {
                Some(interval) => Ok::<Interval, EnvelopeError>(interval),
                None => Err(EnvelopeError::IntervalOutOfBound(value)),
            },
    {
        match value {
            0 => Ok(Interval::Attack),
            1 => Ok(Interval::Decay1),
            2 => Ok(Interval::Decay2),
            3 => Ok(Interval::Sustain),
            4 => Ok(Interval::Release),
            def => Err(EnvelopeError::IntervalOutOfBound(def)),
        }
    }
}

/// One stage: how long it lasts, and between which loudness levels it leads
/// in which shape.
#[derive(Debug, Clone, Copy, PartialEq, Eq)]
pub struct EnvelopeInverval {
    pub duration: u32,
    pub start: Amplitude,
    pub end: Amplitude,
    pub interpolation: Interpolation,
}

impl EnvelopeInverval {
    pub fn new(duration: u32, start: Amplitude, end: Amplitude, interpolation: Interpolation) -> (r:
        Self)
        ensures
            r == (EnvelopeInverval { duration, start, end, interpolation }),
    {
        EnvelopeInverval { duration, start, end, interpolation }
    }
}

/// A place on the curve of one stage: the stage, and the step counted from
/// the start of that stage. The step is negative where the stage has not
/// begun yet.
#[derive(Debug, Clone, Copy, PartialEq, Eq)]
pub struct EnvelopePoint {
    pub interval: Interval,
    pub step: i64,
}

/// The stages of one voice, with the start time of each timed stage and the
/// release time, if one is set.
pub struct Envelope {
    attack: EnvelopeInverval,
    decay1: EnvelopeInverval,
    decay2: Option<EnvelopeInverval>,
    sustain: Option<EnvelopeInverval>,
    release_time: Option<u32>,
    release: EnvelopeInverval,
    timing_mappings: [Option<u64>; 4],
}

impl Envelope {
    pub closed spec fn attack(&self) -> EnvelopeInverval {
        self.attack
    }

    pub closed spec fn decay1(&self) -> EnvelopeInverval {
        self.decay1
    }

    pub closed spec fn decay2(&self) -> Option<EnvelopeInverval> {
        self.decay2
    }

    pub closed spec fn sustain(&self) -> Option<EnvelopeInverval> {
        self.sustain
    }

    pub closed spec fn release(&self) -> EnvelopeInverval {
        self.release
    }

    pub closed spec fn release_time(&self) -> Option<u32> {
        self.release_time
    }

    /// The stage `interval`, if the envelope has it.
    pub open spec fn spec_interval(&self, interval: Interval) -> Option<EnvelopeInverval> {
        match interval {
            Interval::Attack => Some(self.attack()),
            Interval::Decay1 => Some(self.decay1()),
            Interval::Decay2 => self.decay2(),
            Interval::Sustain => self.sustain(),
            Interval::Release => Some(self.release()),
        }
    }

    /// When the timed stages end: the durations of the attack and of the
    /// decays, added up.
    pub open spec fn spec_nominal_duration(&self) -> nat {
        (self.attack().duration + self.decay1().duration + match self.decay2() {
            Some(decay2) => decay2.duration as int,
            None => 0,
        }) as nat
    }

    /// When timed stage `stage` starts: the durations of the stages before
    /// it, added up. A stage that the envelope lacks has no start.
    pub open spec fn spec_start(&self, stage: int) -> Option<nat> {
        if stage == 0 {
            Some(0)
        } else if stage == 1 {
            Some(self.attack().duration as nat)
        } else if stage == 2 && self.decay2() is Some {
            Some((self.attack().duration + self.decay1().duration) as nat)
        } else if stage == 3 && self.sustain() is Some {
            Some(self.spec_nominal_duration())
        } else {
            None
        }
    }

    /// Whether timed stage `stage` starts after `step`.
    pub open spec fn starts_after(&self, stage: int, step: u32) -> bool {
        self.spec_start(stage) is Some && step < self.spec_start(stage)->Some_0
    }

    /// The last timed stage that starts after `step`, if there is one.
    pub open spec fn spec_selected(&self, step: u32) -> Option<int> {
        if self.starts_after(3, step) {
            Some(3)
        } else if self.starts_after(2, step) {
            Some(2)
        } else if self.starts_after(1, step) {
            Some(1)
        } else if self.starts_after(0, step) {
            Some(0)
        } else {
            None
        }
    }

    /// Whether the release has taken over at `step`.
    pub open spec fn released(&self, step: u32) -> bool {
        self.release_time() is Some && step >= self.release_time()->Some_0
    }

    /// The place on the envelope at `step`. From the release time on it lies
    /// on the release curve, counted from the release time. Before that it
    /// lies on the last timed stage that starts after `step`, counted from the
    /// start of that stage; where no stage starts after `step`, there is none.
    pub open spec fn spec_amplitude_scaling(&self, step: u32) -> Result<
        EnvelopePoint,
        EnvelopeError,
    > {
        if self.released(step) {
            Ok(
                EnvelopePoint {
                    interval: Interval::Release,
                    step: (step - self.release_time()->Some_0) as i64,
                },
            )
        } else {
            match self.spec_selected(step) {
                Some(stage) => Ok(
                    EnvelopePoint {
                        interval: Interval::spec_from_index(stage)->Some_0,
                        step: (step - self.spec_start(stage)->Some_0) as i64,
                    },
                ),
                None => Err(EnvelopeError::IntervalNotFound(step)),
            }
        }
    }

    /// The start of the last timed stage that the envelope has.
    pub open spec fn spec_last_start(&self) -> nat {
        if self.sustain() is Some {
            self.spec_start(3)->Some_0
        } else if self.decay2() is Some {
            self.spec_start(2)->Some_0
        } else {
            self.spec_start(1)->Some_0
        }
    }

    #[verifier::type_invariant]
    closed spec fn inv(&self) -> bool {
        forall|stage: int|
            0 <= stage < 4 ==> match #[trigger] self.timing_mappings@[stage] {
                Some(start) => self.spec_start(stage) == Some(start as nat),
                None => self.spec_start(stage) is None,
            }
    }

    /// An envelope of the given stages, with no release time set.
    pub fn new(
        attack: EnvelopeInverval,
        decay1: EnvelopeInverval,
        decay2: Option<EnvelopeInverval>,
        sustain: Option<EnvelopeInverval>,
        release: EnvelopeInverval,
    ) -> (envelope: Self)
        ensures
            envelope.attack() == attack,
            envelope.decay1() == decay1,
            envelope.decay2() == decay2,
            envelope.sustain() == sustain,
            envelope.release() == release,
            envelope.release_time() is None,
    {
        let mut timings: [Option<u64>; 4] = [None, None, None, None];
        let mut tot_duration: u64 = 0;
        timings[0] = Some(tot_duration);
        tot_duration += attack.duration as u64;
        timings[1] = Some(tot_duration);
        tot_duration += decay1.duration as u64;
        if let Some(dec2) = &decay2 {
            timings[2] = Some(tot_duration);
            tot_duration += dec2.duration as u64;
        }
        if sustain.is_some() {
            timings[3] = Some(tot_duration);
        }
        Envelope {
            attack,
            decay1,
            decay2,
            sustain,
            release_time: None,
            release,
            timing_mappings: timings,
        }
    }

    /// Forgets the release time.
    pub fn clear(&mut self)
        ensures
            final(self).release_time() is None,
            final(self).same_stages(old(self)),
    {
        proof {
            use_type_invariant(&*self);
        }
        self.release_time = None;
    }

    /// Sets the time from which the release takes over.
    pub fn set_release(&mut self, release_time: u32)
        ensures
            final(self).release_time() == Some(release_time),
            final(self).same_stages(old(self)),
    {
        proof {
            use_type_invariant(&*self);
        }
        self.release_time = Some(release_time);
    }

    /// Whether two envelopes have the same stages.
    pub open spec fn same_stages(&self, other: &Envelope) -> bool {
        &&& self.attack() == other.attack()
        &&& self.decay1() == other.decay1()
        &&& self.decay2() == other.decay2()
        &&& self.sustain() == other.sustain()
        &&& self.release() == other.release()
    }

    pub fn get_interval_envelope(&self, interval: Interval) -> (r: Option<&EnvelopeInverval>)
        ensures
            match r {
                Some(stage) => self.spec_interval(interval) == Some(*stage),
                None => self.spec_interval(interval) is None,
            },
    {
        match interval {
            Interval::Attack => Some(&self.attack),
            Interval::Decay1 => Some(&self.decay1),
            Interval::Decay2 => self.decay2.as_ref(),
            Interval::Sustain => self.sustain.as_ref(),
            Interval::Release => Some(&self.release),
        }
    }

    /// The place on the envelope at `step`: the stage whose curve gives the
    /// loudness, and the step on that curve.
    pub fn get_amplitude_scaling(&self, step: u32) -> (r: Result<EnvelopePoint, EnvelopeError>)
        ensures
            r == self.spec_amplitude_scaling(step),
    {
        proof {
            use_type_invariant(self);
        }
        if let Some(release_time) = self.release_time {
            if step >= release_time {
                return Ok(
                    EnvelopePoint { interval: Interval::Release, step: (step - release_time) as i64 },
                );
            }
        }
        let mut found: Option<(usize, u64)> = None;
        let mut indx: usize = 0;
        while indx < TIMED_STAGES
            invariant
                indx <= TIMED_STAGES,
                forall|stage: int|
                    0 <= stage < 4 ==> match #[trigger] self.timing_mappings@[stage] {
                        Some(start) => self.spec_start(stage) == Some(start as nat),
                        None => self.spec_start(stage) is None,
                    },
                match found {
                    Some((stage, start)) => {
                        &&& stage < indx
                        &&& self.starts_after(stage as int, step)
                        &&& self.spec_start(stage as int) == Some(start as nat)
                        &&& forall|later: int|
                            stage < later < indx ==> !self.starts_after(later, step)
                    },
                    None => forall|later: int| 0 <= later < indx ==> !self.starts_after(later, step),
                },
            decreases TIMED_STAGES - indx,
        {
            if let Some(timing) = self.timing_mappings[indx] {
                if (step as u64) < timing {
                    found = Some((indx, timing));
                }
            }
            indx += 1;
        }
        match found {
            Some((stage, start)) => {
                let interval = match stage {
                    0 => Interval::Attack,
                    1 => Interval::Decay1,
                    2 => Interval::Decay2,
                    _ => Interval::Sustain,
                };
                assert(start <= 3 * 0xffff_ffff);
                Ok(EnvelopePoint { interval, step: step as i64 - start as i64 })
            },
            None => Err(EnvelopeError::IntervalNotFound(step)),
        }
    }

    /// Every step before the start of the last timed stage has a place on
    /// the envelope.
    pub proof fn lemma_defined_before_last_start(&self, step: u32)
        requires
            step < self.spec_last_start(),
        ensures
            self.spec_amplitude_scaling(step) is Ok,
    {
    }

    /// From the start of the last timed stage on, a step has a place on the
    /// envelope only if the release has taken over.
    pub proof fn lemma_not_found_from_last_start(&self, step: u32)
        requires
            step >= self.spec_last_start(),
            !self.released(step),
        ensures
            self.spec_amplitude_scaling(step) == Err::<EnvelopePoint, EnvelopeError>(
                EnvelopeError::IntervalNotFound(step),
            ),
    {
    }

    /// With a sustain stage, the last timed stage starts when the attack and
    /// the decays are over, so every step of that time has a place on the
    /// envelope.
    pub proof fn lemma_defined_within_nominal_duration(&self, step: u32)
        requires
            self.sustain() is Some,
            step < self.spec_nominal_duration(),
        ensures
            self.spec_last_start() == self.spec_nominal_duration(),
            self.spec_amplitude_scaling(step) is Ok,
    {
    }

    /// Once a release time is set, every step from that time on lies on the
    /// release curve, as far from its start as the step is from the release
    /// time.
    pub proof fn lemma_release_curve(&self, step: u32)
        requires
            self.release_time() is Some,
            step >= self.release_time()->Some_0,
        ensures
            self.spec_amplitude_scaling(step) == Ok::<EnvelopePoint, EnvelopeError>(
                EnvelopePoint {
                    interval: Interval::Release,
                    step: (step - self.release_time()->Some_0) as i64,
                },
            ),
    {
    }
}

} // verus!
