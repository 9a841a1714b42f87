//! Loudness levels.
use super::FULL_SCALE;
use vstd::prelude::*;

verus! {

/// The least loudness that a custom level can have, in thousandths.
pub const CUSTOM_FLOOR: u32 = 10;

/// A loudness: one of four named levels, or a custom number of thousandths
/// of full scale.
#[derive(Debug, Clone, Copy, PartialEq, Eq)]
pub enum Amplitude {
    Silent,
    Low,
    Medium,
    High,
    Custom(i32),
}

impl Amplitude {
    /// The loudness in thousandths of full scale. A custom level outside
    /// `10..=1000` counts as the nearest bound.
    pub open spec fn spec_scaling(&self) -> nat {
        match self {
            Amplitude::Silent => 0,
            Amplitude::Low => 300,
            Amplitude::Medium => 500,
            Amplitude::High => 800,
            Amplitude::Custom(volume) => if *volume < CUSTOM_FLOOR {
                CUSTOM_FLOOR as nat
            } else if *volume > FULL_SCALE {
                FULL_SCALE as nat
            } else {
                *volume as nat
            },
        }
    }

    pub fn scaling(&self) -> (scale: u32)
        ensures
            scale == self.spec_scaling(),
            scale <= FULL_SCALE,
    {
        match self {
            Amplitude::Silent => 0,
            Amplitude::Low => 300,
            Amplitude::Medium => 500,
            Amplitude::High => 800,
            Amplitude::Custom(volume) => if *volume < CUSTOM_FLOOR as i32 {
                CUSTOM_FLOOR
            } else if *volume > FULL_SCALE as i32 {
                FULL_SCALE
            } else {
                *volume as u32
            },
        }
    }

    /// Silence has no loudness, the named levels lie above nothing and at
    /// most at full scale, and a custom level lies between a hundredth of
    /// full scale and full scale whatever number it holds.
    pub proof fn lemma_scaling_range(self)
        ensures
            self.spec_scaling() <= FULL_SCALE,
            self == Amplitude::Silent ==> self.spec_scaling() == 0,
            self == Amplitude::Low || self == Amplitude::Medium || self == Amplitude::High ==> 0
                < self.spec_scaling() <= FULL_SCALE,
            self is Custom ==> CUSTOM_FLOOR <= self.spec_scaling() <= FULL_SCALE,
            self is Custom && CUSTOM_FLOOR <= self->Custom_0 <= FULL_SCALE ==> self.spec_scaling()
                == self->Custom_0,
    {
    }
}

} // verus!
