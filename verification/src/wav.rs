//! The RIFF/WAVE container.
pub mod wav_writer;

pub use wav_writer::{write_wav, WavError};
