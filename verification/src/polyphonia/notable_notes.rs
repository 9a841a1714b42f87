//! A few named tones.
use super::note::Note;
use vstd::prelude::*;

verus! {

/// 440 Hz.
pub fn a4() -> (note: Note)
    ensures
        note == Note(440_000),
{
    Note(440_000)
}

/// 20.60 Hz.
pub fn e0() -> (note: Note)
    ensures
        note == Note(20_600),
{
    Note(20_600)
}

/// 24.50 Hz.
pub fn g0() -> (note: Note)
    ensures
        note == Note(24_500),
{
    Note(24_500)
}

/// 16.35 Hz.
pub fn c0() -> (note: Note)
    ensures
        note == Note(16_350),
{
    Note(16_350)
}

/// 277.18 Hz.
pub fn c4_sh() -> (note: Note)
    ensures
        note == Note(277_180),
{
    Note(277_180)
}

} // verus!
