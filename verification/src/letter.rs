//! One entry of the alphabet, and the joining of entries into output lines.
use crate::chars::{chars_of, lower_chars, message, str_eq, to_lower_vec};
use crate::morse_alphabet::{letter_at, spec_letter_at, ALPHABET_LEN};
use crate::polyphonia::note::spec_audio_wave;
use crate::polyphonia::{notable_notes, spec_sample_count, Amplitude, Note, Oscillator};
use std::str::FromStr;
use vstd::prelude::*;
use vstd::string::StringSliceAdditionalSpecFns;

verus! {

/// A letter in both of its forms: the text form first, the Morse form second.
#[derive(Debug, Clone, Copy, PartialEq)]
pub struct Letter<'a>(pub &'a str, pub &'a str);

/// The byte that separates two Morse tokens on a line.
pub const TOKEN_GAP: u8 = 0x20;

/// How long a dot sounds, in milliseconds. The gap after every symbol is as
/// long.
pub const DOT_DURATION: u32 = 100;

/// How long a dash sounds: twice a dot.
pub const LINE_DURATION: u32 = DOT_DURATION * 2;

/// How long the gap between words lasts: four times a dot.
pub const SLASH_DURATION: u32 = DOT_DURATION * 4;

/// The tone of dots and dashes.
pub open spec fn signal_note() -> Note {
    Note(440_000)
}

/// The tone that the gap after a symbol is rendered with. The gap is silent,
/// so the tone is never heard.
pub open spec fn gap_note() -> Note {
    Note(24_500)
}

/// How long a Morse symbol lasts, in milliseconds: a dot, a dash, or the
/// slash between words. Any other symbol takes no time.
pub open spec fn spec_symbol_duration(symbol: char) -> u32 {
    if symbol == '.' {
        DOT_DURATION
    } else if symbol == '-' {
        LINE_DURATION
    } else if symbol == '/' {
        SLASH_DURATION
    } else {
        0
    }
}

/// How loud a Morse symbol is: dots and dashes sound, everything else is
/// silent.
pub open spec fn spec_symbol_volume(symbol: char) -> Amplitude {
    if symbol == '.' || symbol == '-' {
        Amplitude::Medium
    } else {
        Amplitude::Silent
    }
}

/// The wave of one Morse symbol: its own segment, then the silent gap.
pub open spec fn spec_symbol_wave(oscillator: &Oscillator, symbol: char) -> Seq<i16> {
    spec_audio_wave(
        oscillator,
        signal_note(),
        spec_symbol_duration(symbol),
        spec_symbol_volume(symbol),
    ) + spec_audio_wave(oscillator, gap_note(), DOT_DURATION, Amplitude::Silent)
}

/// Every symbol takes its own duration and one gap, whatever it is: what is
/// no Morse symbol takes the gap alone, so the symbols after it keep their
/// places.
pub proof fn lemma_symbol_wave_len(oscillator: &Oscillator, symbol: char)
    ensures
        spec_symbol_wave(oscillator, symbol).len() == spec_sample_count(
            spec_symbol_duration(symbol),
            oscillator.rate(),
        ) + spec_sample_count(DOT_DURATION, oscillator.rate()),
        symbol != '.' && symbol != '-' && symbol != '/' ==> spec_symbol_wave(oscillator, symbol)
            == spec_audio_wave(oscillator, gap_note(), DOT_DURATION, Amplitude::Silent),
{
    if symbol != '.' && symbol != '-' && symbol != '/' {
        assert(spec_sample_count(0, oscillator.rate()) == 0);
        assert(spec_symbol_wave(oscillator, symbol) =~= spec_audio_wave(
            oscillator,
            gap_note(),
            DOT_DURATION,
            Amplitude::Silent,
        ));
    }
}

/// The waves of `symbols`, one after the other.
pub open spec fn spec_symbols_wave(oscillator: &Oscillator, symbols: Seq<char>) -> Seq<i16>
    decreases symbols.len(),
{
    if symbols.len() == 0 {
        Seq::empty()
    } else {
        spec_symbols_wave(oscillator, symbols.drop_last()) + spec_symbol_wave(
            oscillator,
            symbols.last(),
        )
    }
}

/// The waves of the Morse forms of `letters`, one after the other.
pub open spec fn spec_letters_wave(oscillator: &Oscillator, letters: Seq<Letter<'_>>) -> Seq<i16>
    decreases letters.len(),
{
    if letters.len() == 0 {
        Seq::empty()
    } else {
        spec_letters_wave(oscillator, letters.drop_last()) + spec_symbols_wave(
            oscillator,
            letters.last().1@,
        )
    }
}

/// The duration and the volume of one Morse symbol.
pub fn symbol_segment(symbol: char) -> (segment: (u32, Amplitude))
    ensures
        segment.0 == spec_symbol_duration(symbol),
        segment.1 == spec_symbol_volume(symbol),
{
    if symbol == '.' {
        (DOT_DURATION, Amplitude::Medium)
    } else if symbol == '-' {
        (LINE_DURATION, Amplitude::Medium)
    } else if symbol == '/' {
        (SLASH_DURATION, Amplitude::Silent)
    } else {
        (0, Amplitude::Silent)
    }
}

/// The Morse forms of `letters`, joined by single spaces.
pub open spec fn morse_line(letters: Seq<Letter<'_>>) -> Seq<u8>
    decreases letters.len(),
{
    if letters.len() == 0 {
        Seq::empty()
    } else if letters.len() == 1 {
        letters[0].morse_bytes()
    } else {
        morse_line(letters.drop_last()) + seq![TOKEN_GAP] + letters.last().morse_bytes()
    }
}

/// The text forms of `letters`, one after the other.
pub open spec fn text_line(letters: Seq<Letter<'_>>) -> Seq<u8>
    decreases letters.len(),
{
    if letters.len() == 0 {
        Seq::empty()
    } else {
        text_line(letters.drop_last()) + letters.last().text_bytes()
    }
}

impl<'a> Letter<'a> {
    /// The UTF-8 bytes of the text form.
    pub open spec fn text_bytes(&self) -> Seq<u8> {
        self.0.spec_bytes()
    }

    /// The UTF-8 bytes of the Morse form.
    pub open spec fn morse_bytes(&self) -> Seq<u8> {
        self.1.spec_bytes()
    }

    /// Whether `key` is this letter, in either form.
    pub open spec fn matches(&self, key: Seq<char>) -> bool {
        self.0@ == key || self.1@ == key
    }

    /// The first entry of the alphabet at or after position `start` that
    /// `key` is, if there is one.
    pub open spec fn find_from(key: Seq<char>, start: int) -> Option<Letter<'static>>
        decreases ALPHABET_LEN - start,
    {
        if start < 0 || start >= ALPHABET_LEN {
            None
        } else if spec_letter_at(start).matches(key) {
            Some(spec_letter_at(start))
        } else {
            Self::find_from(key, start + 1)
        }
    }

    /// The entry of the alphabet that `key` names, in either form and in
    /// either case.
    pub open spec fn find(key: Seq<char>) -> Option<Letter<'static>> {
        Self::find_from(lower_chars(key), 0)
    }

    /// The entry of the alphabet that the single byte `key` names. A byte
    /// that is no ASCII character names none.
    pub open spec fn find_byte(key: u8) -> Option<Letter<'static>> {
        if key < 0x80 {
            Self::find(seq![key as char])
        } else {
            None
        }
    }

    pub fn text(&self) -> (r: &'a str)
        ensures
            r == self.0,
    {
        self.0
    }

    pub fn morse(&self) -> (r: &'a str)
        ensures
            r == self.1,
    {
        self.1
    }

    /// Looks `key` up in the alphabet. ASCII upper case counts as lower case;
    /// `key` may be the text form or the Morse form.
    pub fn lookup(key: &[char]) -> (r: Option<Letter<'static>>)
        ensures
            r == Self::find(key@),
    {
        let lowered = to_lower_vec(key);
        let mut i: usize = 0;
        while i < ALPHABET_LEN
            invariant
                i <= ALPHABET_LEN,
                lowered@ == lower_chars(key@),
                Self::find(key@) == Self::find_from(lowered@, i as int),
            decreases ALPHABET_LEN - i,
        {
            let candidate = letter_at(i);
            if str_eq(candidate.0, lowered.as_slice()) || str_eq(candidate.1, lowered.as_slice()) {
                return Some(candidate);
            }
            i += 1;
        }
        None
    }

    /// Looks up the letter that a single byte names.
    pub fn lookup_byte(key: u8) -> (r: Option<Letter<'static>>)
        ensures
            r == Self::find_byte(key),
    {
        if key < 0x80 {
            let one: [char; 1] = [key as char];
            assert(one@ =~= seq![key as char]);
            Self::lookup(one.as_slice())
        } else {
            None
        }
    }

    /// Joins the Morse forms with single spaces.
    pub fn concat_morse(args: Vec<Letter<'_>>) -> (output: Vec<u8>)
        ensures
            output@ == morse_line(args@),
    {
        let mut output: Vec<u8> = Vec::new();
        let mut i: usize = 0;
        while i < args.len()
            invariant
                i <= args.len(),
                output@ == morse_line(args@.take(i as int)),
            decreases args.len() - i,
        {
            if i > 0 {
                output.push(TOKEN_GAP);
            }
            output.extend_from_slice(args[i].1.as_bytes());
            proof {
                let next = args@.take(i + 1);
                assert(next.drop_last() =~= args@.take(i as int));
                assert(next.last() == args@[i as int]);
                if i > 0 {
                    assert(output@ =~= morse_line(next.drop_last()) + seq![TOKEN_GAP]
                        + next.last().morse_bytes());
                } else {
                    assert(output@ =~= next[0].morse_bytes());
                }
            }
            i += 1;
        }
        assert(args@.take(args.len() as int) =~= args@);
        output
    }

    /// Renders the Morse forms as sound: every symbol as its segment and a
    /// silent gap, in order.
    pub fn concat_audio(args: Vec<Letter<'_>>, oscillator: &Oscillator) -> (output: Vec<i16>)
        ensures
            output@ == spec_letters_wave(oscillator, args@),
    {
        let mut output: Vec<i16> = Vec::new();
        let mut i: usize = 0;
        while i < args.len()
            invariant
                i <= args.len(),
                output@ == spec_letters_wave(oscillator, args@.take(i as int)),
            decreases args.len() - i,
        {
            let morse = chars_of(args[i].1);
            let ghost before = output@;
            let mut k: usize = 0;
            while k < morse.len()
                invariant
                    k <= morse.len(),
                    output@ == before + spec_symbols_wave(oscillator, morse@.take(k as int)),
                decreases morse.len() - k,
            {
                let (duration, volume) = symbol_segment(morse[k]);
                let chunk = notable_notes::a4().audio_wave(duration, &volume, oscillator);
                let gap = notable_notes::g0().audio_wave(
                    DOT_DURATION,
                    &Amplitude::Silent,
                    oscillator,
                );
                output.extend_from_slice(chunk.as_slice());
                output.extend_from_slice(gap.as_slice());
                proof {
                    let next = morse@.take(k + 1);
                    assert(next.drop_last() =~= morse@.take(k as int));
                    assert(next.last() == morse@[k as int]);
                    assert(output@ =~= before + spec_symbols_wave(oscillator, next));
                }
                k += 1;
            }
            proof {
                assert(morse@.take(morse.len() as int) =~= morse@);
                let next = args@.take(i + 1);
                assert(next.drop_last() =~= args@.take(i as int));
                assert(next.last() == args@[i as int]);
            }
            i += 1;
        }
        assert(args@.take(args.len() as int) =~= args@);
        output
    }

    /// Puts the text forms one after the other.
    pub fn concat_text(args: Vec<Letter<'_>>) -> (output: Vec<u8>)
        ensures
            output@ == text_line(args@),
    {
        let mut output: Vec<u8> = Vec::new();
        let mut i: usize = 0;
        while i < args.len()
            invariant
                i <= args.len(),
                output@ == text_line(args@.take(i as int)),
            decreases args.len() - i,
        {
            output.extend_from_slice(args[i].0.as_bytes());
            proof {
                let next = args@.take(i + 1);
                assert(next.drop_last() =~= args@.take(i as int));
                assert(next.last() == args@[i as int]);
            }
            i += 1;
        }
        assert(args@.take(args.len() as int) =~= args@);
        output
    }
}

impl FromStr for Letter<'_> {
    type Err = String;

    /// Reads a letter from either of its forms, as [`Letter::lookup`] does.
    fn from_str(s: &str) -> (r: Result<Self, Self::Err>)
        ensures
            r is Ok <==> Letter::find(s@) is Some,
            r is Ok ==> Some(r->Ok_0) == Letter::find(s@),
    {
        let key = chars_of(s);
        match Letter::lookup(key.as_slice()) {
            Some(letter) => Ok(letter),
            None => Err(message("No representation found for the string", s)),
        }
    }
}

} // verus!
