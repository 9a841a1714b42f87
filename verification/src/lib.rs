//! Morse code rendering: text to Morse symbols and back, Morse symbols to
//! audio samples, and audio samples to a RIFF/WAVE byte stream.
//!
//! The whole library works on integers. Times are in milliseconds,
//! frequencies in millihertz, loudness in thousandths of full scale, and the
//! periodic waveform is handed in as a table of fixed-point values.
pub mod chars;
pub mod letter;
pub mod morse_alphabet;
pub mod parser;
pub mod polyphonia;
pub mod translator;
pub mod wav;

pub use letter::Letter;
