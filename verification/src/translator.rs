//! From lines of input to the bytes of the output, as text or as sound.
use crate::chars::{spec_tokens, split_whitespace, token_views};
use crate::letter::{morse_line, spec_letters_wave, text_line, Letter};
use crate::parser::{MorseCommand, MorseTraductionType};
use crate::polyphonia::Oscillator;
use crate::wav::wav_writer::{
    fits_container, wav_bytes, write_wav, WavError, MASTER_OVERHEAD,
};
use vstd::prelude::*;
use vstd::utf8::encode_utf8;

verus! {

/// The byte between two lines of text output.
pub const LINE_BREAK: u8 = 0x0a;

/// Why no output was made.
#[derive(Debug, Clone, Copy, PartialEq, Eq)]
pub enum TranslateError {
    /// No input was given.
    InputNotInitialized,
    /// Sound was asked for, and no oscillator was given.
    OscillatorNotInitialized,
    /// The alphabet lacks a symbol of the input. `line` counts the lines
    /// from 0; `position` counts, from 0, the bytes of the line when
    /// encoding and its tokens when decoding.
    UnsupportedSymbol { line: usize, position: usize },
    /// The samples cannot be put into a container.
    Container(WavError),
}

/// The letters that were found, in order; or, where one was not found, the
/// position of the first that was not.
pub open spec fn spec_collect(found: Seq<Option<Letter<'static>>>) -> Result<
    Seq<Letter<'static>>,
    nat,
>
    decreases found.len(),
{
    if found.len() == 0 {
        Ok(Seq::empty())
    } else {
        match spec_collect(found.drop_last()) {
            Err(position) => Err(position),
            Ok(letters) => match found.last() {
                Some(letter) => Ok(letters.push(letter)),
                None => Err((found.len() - 1) as nat),
            },
        }
    }
}

/// The letters that `tokens` name, in order; or, where a token names none,
/// the position of the first such token.
pub open spec fn spec_read_tokens(tokens: Seq<Seq<char>>) -> Result<Seq<Letter<'static>>, nat> {
    spec_collect(Seq::new(tokens.len(), |i: int| Letter::find(tokens[i])))
}

/// The letters that `bytes` name, each byte by itself; or, where a byte
/// names none, the position of the first such byte.
pub open spec fn spec_read_bytes(bytes: Seq<u8>) -> Result<Seq<Letter<'static>>, nat> {
    spec_collect(Seq::new(bytes.len(), |i: int| Letter::find_byte(bytes[i])))
}

/// The letters of a line of text: one for every byte.
pub open spec fn spec_encode(line: Seq<char>) -> Result<Seq<Letter<'static>>, nat> {
    spec_read_bytes(encode_utf8(line))
}

/// The letters of a line of Morse: one for every token.
pub open spec fn spec_decode(line: Seq<char>) -> Result<Seq<Letter<'static>>, nat> {
    spec_read_tokens(spec_tokens(line))
}

/// The letters of a line, read in the direction of `command`.
pub open spec fn spec_read(command: MorseCommand, line: Seq<char>) -> Result<
    Seq<Letter<'static>>,
    nat,
> {
    match command {
        MorseCommand::Encode => spec_encode(line),
        MorseCommand::Decode => spec_decode(line),
    }
}

/// A line of text output: Morse when encoding, text when decoding.
pub open spec fn spec_render(command: MorseCommand, letters: Seq<Letter<'static>>) -> Seq<u8> {
    match command {
        MorseCommand::Encode => morse_line(letters),
        MorseCommand::Decode => text_line(letters),
    }
}

/// The text output for `lines`: every line read and rendered, with a line
/// break between two lines and none at the end. The first line that holds an
/// unsupported symbol makes the whole output fail.
pub open spec fn spec_text(command: MorseCommand, lines: Seq<String>) -> Result<
    Seq<u8>,
    TranslateError,
>
    decreases lines.len(),
{
    if lines.len() == 0 {
        Ok(Seq::empty())
    } else {
        match spec_text(command, lines.drop_last()) {
            Err(error) => Err(error),
            Ok(output) => match spec_read(command, lines.last()@) {
                Err(position) => Err(
                    TranslateError::UnsupportedSymbol {
                        line: (lines.len() - 1) as usize,
                        position: position as usize,
                    },
                ),
                Ok(letters) => Ok(
                    output + (if lines.len() > 1 {
                        seq![LINE_BREAK]
                    } else {
                        Seq::empty()
                    }) + spec_render(command, letters),
                ),
            },
        }
    }
}

/// The letters of all `lines`, one line after the other. The first line that
/// holds an unsupported symbol makes the whole reading fail.
pub open spec fn spec_letters(command: MorseCommand, lines: Seq<String>) -> Result<
    Seq<Letter<'static>>,
    TranslateError,
>
    decreases lines.len(),
{
    if lines.len() == 0 {
        Ok(Seq::empty())
    } else {
        match spec_letters(command, lines.drop_last()) {
            Err(error) => Err(error),
            Ok(letters) => match spec_read(command, lines.last()@) {
                Err(position) => Err(
                    TranslateError::UnsupportedSymbol {
                        line: (lines.len() - 1) as usize,
                        position: position as usize,
                    },
                ),
                Ok(more) => Ok(letters + more),
            },
        }
    }
}

/// The container that holds `wave` at the rate of `oscillator`, or why there
/// is none.
pub open spec fn spec_container(oscillator: &Oscillator, wave: Seq<i16>) -> Result<
    Seq<u8>,
    TranslateError,
> {
    if fits_container(wave.len(), oscillator.rate()) {
        Ok(wav_bytes(wave, oscillator.rate()))
    } else if MASTER_OVERHEAD + 2 * wave.len() > u32::MAX {
        Err(TranslateError::Container(WavError::TooManySamples))
    } else {
        Err(TranslateError::Container(WavError::SampleRateTooHigh))
    }
}

/// The sound output for `lines`: the letters of all lines rendered as one
/// wave, in a container at the rate of `oscillator`.
pub open spec fn spec_audio(oscillator: &Oscillator, command: MorseCommand, lines: Seq<String>)
    -> Result<Seq<u8>, TranslateError> {
    match spec_letters(command, lines) {
        Err(error) => Err(error),
        Ok(letters) => spec_container(oscillator, spec_letters_wave(oscillator, letters)),
    }
}

/// Reads one letter from every token.
pub fn read_tokens(tokens: &Vec<Vec<char>>) -> (r: Result<Vec<Letter<'static>>, usize>)
    ensures
        match r {
            Ok(letters) => spec_read_tokens(token_views(tokens@)) == Ok::<
                Seq<Letter<'static>>,
                nat,
            >(letters@),
            Err(position) => spec_read_tokens(token_views(tokens@)) == Err::<
                Seq<Letter<'static>>,
                nat,
            >(position as nat),
        },
{
    let mut letters: Vec<Letter<'static>> = Vec::new();
    let ghost views = token_views(tokens@);
    let ghost found = Seq::new(views.len(), |i: int| Letter::find(views[i]));
    let mut i: usize = 0;
    while i < tokens.len()
        invariant
            i <= tokens.len(),
            views == token_views(tokens@),
            found == Seq::new(views.len(), |i: int| Letter::find(views[i])),
            spec_collect(found.take(i as int)) == Ok::<Seq<Letter<'static>>, nat>(letters@),
        decreases tokens.len() - i,
    {
        proof {
            let next = found.take(i + 1);
            assert(next.drop_last() =~= found.take(i as int));
            assert(next.last() == Letter::find(tokens@[i as int]@));
        }
        match Letter::lookup(tokens[i].as_slice()) {
            Some(letter) => {
                letters.push(letter);
            },
            None => {
                proof {
                    lemma_collect_fails(found, i + 1);
                }
                return Err(i);
            },
        }
        i += 1;
    }
    assert(found.take(tokens.len() as int) =~= found);
    Ok(letters)
}

/// Once a front part cannot be collected, the whole cannot, and for the same
/// position.
pub proof fn lemma_collect_fails(found: Seq<Option<Letter<'static>>>, front: int)
    requires
        0 <= front <= found.len(),
        spec_collect(found.take(front)) is Err,
    ensures
        spec_collect(found) == spec_collect(found.take(front)),
    decreases found.len() - front,
{
    if front == found.len() {
        assert(found.take(front) =~= found);
    } else {
        let next = found.take(front + 1);
        assert(next.drop_last() =~= found.take(front));
        lemma_collect_fails(found, front + 1);
    }
}

/// Turns lines into output bytes in the direction of a command.
///
/// `T` is a line of input, `W` what reading a line gives, `R` the output.
pub trait MorseTranslator<T, W, R> {
    fn translate(&mut self, command: MorseCommand) -> Result<R, TranslateError>;

    fn translate_to_text(&mut self, command: MorseCommand) -> Result<R, TranslateError>;

    fn translate_to_audio(&mut self, command: MorseCommand) -> Result<R, TranslateError>;

    fn encode(raw_data: T) -> W;

    fn decode(raw_data: T) -> W;
}

/// A translator that holds its whole input as lines.
pub struct StreamedMorseTranslator {
    input_stream: Option<Vec<String>>,
    oscillator: Option<Oscillator>,
    pub traduction_type: MorseTraductionType,
}

impl StreamedMorseTranslator {
    /// The lines of input, once given.
    pub closed spec fn input(&self) -> Option<Vec<String>> {
        self.input_stream
    }

    /// The oscillator that renders sound, once given.
    pub closed spec fn voice(&self) -> Option<Oscillator> {
        self.oscillator
    }

    /// The kind of output that was chosen.
    pub closed spec fn kind(&self) -> MorseTraductionType {
        self.traduction_type
    }

    /// The output that a call of `translate_to_text` owes.
    pub open spec fn spec_translate_to_text(&self, command: MorseCommand) -> Result<
        Seq<u8>,
        TranslateError,
    > {
        match self.input() {
            None => Err(TranslateError::InputNotInitialized),
            Some(lines) => spec_text(command, lines@),
        }
    }

    /// The output that a call of `translate_to_audio` owes.
    pub open spec fn spec_translate_to_audio(&self, command: MorseCommand) -> Result<
        Seq<u8>,
        TranslateError,
    > {
        match self.input() {
            None => Err(TranslateError::InputNotInitialized),
            Some(lines) => match self.voice() {
                None => Err(TranslateError::OscillatorNotInitialized),
                Some(oscillator) => spec_audio(&oscillator, command, lines@),
            },
        }
    }

    /// The output that a call of `translate` owes.
    pub open spec fn spec_translate(&self, command: MorseCommand) -> Result<
        Seq<u8>,
        TranslateError,
    > {
        match self.kind() {
            MorseTraductionType::Text => self.spec_translate_to_text(command),
            MorseTraductionType::Audio => self.spec_translate_to_audio(command),
        }
    }

    /// A translator for text output, with no input yet.
    pub fn new() -> (r: Self)
        ensures
            r.input() is None,
            r.voice() is None,
            r.kind() == MorseTraductionType::Text,
    {
        StreamedMorseTranslator {
            input_stream: None,
            oscillator: None,
            traduction_type: MorseTraductionType::Text,
        }
    }

    /// Gives the lines of input.
    pub fn in_stream(&mut self, input_stream: Vec<String>) -> (r: &mut Self)
        ensures
            r.input() == Some(input_stream),
            r.voice() == old(self).voice(),
            r.kind() == old(self).kind(),
            *final(self) == *final(r),
    {
        self.input_stream = Some(input_stream);
        self
    }

    /// Gives the oscillator that renders sound.
    pub fn oscillator(&mut self, oscillator: Oscillator) -> (r: &mut Self)
        ensures
            r.input() == old(self).input(),
            r.voice() == Some(oscillator),
            r.kind() == old(self).kind(),
            *final(self) == *final(r),
    {
        self.oscillator = Some(oscillator);
        self
    }

    /// Chooses the kind of output.
    pub fn traduction_type(&mut self, traduction_type: MorseTraductionType) -> (r: &mut Self)
        ensures
            r.input() == old(self).input(),
            r.voice() == old(self).voice(),
            r.kind() == traduction_type,
            *final(self) == *final(r),
    {
        self.traduction_type = traduction_type;
        self
    }

    /// Reads the letters of one line in the direction of `command`.
    fn read(command: MorseCommand, line: &str) -> (r: Result<Vec<Letter<'static>>, usize>)
        ensures
            match r {
                Ok(letters) => spec_read(command, line@) == Ok::<Seq<Letter<'static>>, nat>(
                    letters@,
                ),
                Err(position) => spec_read(command, line@) == Err::<Seq<Letter<'static>>, nat>(
                    position as nat,
                ),
            },
    {
        match command {
            MorseCommand::Encode => Self::encode(line),
            MorseCommand::Decode => Self::decode(line),
        }
    }
}

impl Default for StreamedMorseTranslator {
    fn default() -> (r: Self)
        ensures
            r.input() is None,
            r.voice() is None,
            r.kind() == MorseTraductionType::Text,
    {
        Self::new()
    }
}

impl<'a> MorseTranslator<
    &'a str,
    Result<Vec<Letter<'static>>, usize>,
    Vec<u8>,
> for StreamedMorseTranslator {
    /// Makes the output of the kind that was chosen.
    fn translate(&mut self, command: MorseCommand) -> (r: Result<Vec<u8>, TranslateError>)
        ensures
            *final(self) == *old(self),
            match r {
                Ok(output) => old(self).spec_translate(command) == Ok::<Seq<u8>, TranslateError>(
                    output@,
                ),
                Err(error) => old(self).spec_translate(command) == Err::<Seq<u8>, TranslateError>(
                    error,
                ),
            },
    {
        match self.traduction_type {
            MorseTraductionType::Text => self.translate_to_text(command),
            MorseTraductionType::Audio => self.translate_to_audio(command),
        }
    }

    /// Makes sound output: all letters of the input as one wave, in a
    /// container.
    fn translate_to_audio(&mut self, command: MorseCommand) -> (r: Result<Vec<u8>, TranslateError>)
        ensures
            *final(self) == *old(self),
            match r {
                Ok(output) => old(self).spec_translate_to_audio(command) == Ok::<
                    Seq<u8>,
                    TranslateError,
                >(output@),
                Err(error) => old(self).spec_translate_to_audio(command) == Err::<
                    Seq<u8>,
                    TranslateError,
                >(error),
            },
    {
        let lines = match &self.input_stream {
            None => {
                return Err(TranslateError::InputNotInitialized);
            },
            Some(lines) => lines,
        };
        let oscillator = match &self.oscillator {
            None => {
                return Err(TranslateError::OscillatorNotInitialized);
            },
            Some(oscillator) => oscillator,
        };
        let mut letters: Vec<Letter<'static>> = Vec::new();
        let mut i: usize = 0;
        while i < lines.len()
            invariant
                i <= lines.len(),
                *self == *old(self),
                old(self).input() == Some(*lines),
                old(self).voice() == Some(*oscillator),
                spec_letters(command, lines@.take(i as int)) == Ok::<
                    Seq<Letter<'static>>,
                    TranslateError,
                >(letters@),
            decreases lines.len() - i,
        {
            proof {
                let next = lines@.take(i + 1);
                assert(next.drop_last() =~= lines@.take(i as int));
                assert(next.last() == lines@[i as int]);
            }
            match Self::read(command, lines[i].as_str()) {
                Err(position) => {
                    proof {
                        let next = lines@.take(i + 1);
                        assert(spec_letters(command, next) == Err::<
                            Seq<Letter<'static>>,
                            TranslateError,
                        >(TranslateError::UnsupportedSymbol { line: i, position }));
                        lemma_letters_fails(command, lines@, i + 1);
                    }
                    return Err(TranslateError::UnsupportedSymbol { line: i, position });
                },
                Ok(more) => {
                    let ghost before = letters@;
                    letters.extend_from_slice(more.as_slice());
                    assert(letters@ =~= before + more@);
                },
            }
            i += 1;
        }
        assert(lines@.take(lines.len() as int) =~= lines@);
        let wave = Letter::concat_audio(letters, oscillator);
        let mut output: Vec<u8> = Vec::new();
        match write_wav(wave, oscillator.sample_rate(), &mut output) {
            Ok(()) => {
                assert(output@ =~= wav_bytes(wave@, oscillator.rate()));
                Ok(output)
            },
            Err(error) => Err(TranslateError::Container(error)),
        }
    }

    /// Makes text output: every line read and rendered, with a line break
    /// between two lines.
    fn translate_to_text(&mut self, command: MorseCommand) -> (r: Result<Vec<u8>, TranslateError>)
        ensures
            *final(self) == *old(self),
            match r {
                Ok(output) => old(self).spec_translate_to_text(command) == Ok::<
                    Seq<u8>,
                    TranslateError,
                >(output@),
                Err(error) => old(self).spec_translate_to_text(command) == Err::<
                    Seq<u8>,
                    TranslateError,
                >(error),
            },
    {
        let lines = match &self.input_stream {
            None => {
                return Err(TranslateError::InputNotInitialized);
            },
            Some(lines) => lines,
        };
        let mut output: Vec<u8> = Vec::new();
        let mut i: usize = 0;
        while i < lines.len()
            invariant
                i <= lines.len(),
                *self == *old(self),
                old(self).input() == Some(*lines),
                spec_text(command, lines@.take(i as int)) == Ok::<Seq<u8>, TranslateError>(
                    output@,
                ),
            decreases lines.len() - i,
        {
            proof {
                let next = lines@.take(i + 1);
                assert(next.drop_last() =~= lines@.take(i as int));
                assert(next.last() == lines@[i as int]);
            }
            match Self::read(command, lines[i].as_str()) {
                Err(position) => {
                    proof {
                        let next = lines@.take(i + 1);
                        assert(spec_text(command, next) == Err::<Seq<u8>, TranslateError>(
                            TranslateError::UnsupportedSymbol { line: i, position },
                        ));
                        lemma_text_fails(command, lines@, i + 1);
                    }
                    return Err(TranslateError::UnsupportedSymbol { line: i, position });
                },
                Ok(letters) => {
                    let ghost before = output@;
                    if i > 0 {
                        output.push(LINE_BREAK);
                    }
                    let ghost read = letters@;
                    let line = match command {
                        MorseCommand::Encode => Letter::concat_morse(letters),
                        MorseCommand::Decode => Letter::concat_text(letters),
                    };
                    assert(line@ == spec_render(command, read));
                    output.extend_from_slice(line.as_slice());
                    assert(output@ =~= before + (if i > 0 {
                        seq![LINE_BREAK]
                    } else {
                        Seq::empty()
                    }) + spec_render(command, read));
                },
            }
            i += 1;
        }
        assert(lines@.take(lines.len() as int) =~= lines@);
        Ok(output)
    }

    /// Reads a line of text: one letter for every byte, or the position of
    /// the first byte that names none.
    fn encode(line: &'a str) -> (r: Result<Vec<Letter<'static>>, usize>)
        ensures
            match r {
                Ok(letters) => spec_encode(line@) == Ok::<Seq<Letter<'static>>, nat>(letters@),
                Err(position) => spec_encode(line@) == Err::<Seq<Letter<'static>>, nat>(
                    position as nat,
                ),
            },
    {
        let bytes = line.as_bytes();
        let ghost found = Seq::new(bytes@.len(), |i: int| Letter::find_byte(bytes@[i]));
        let mut letters: Vec<Letter<'static>> = Vec::new();
        let mut i: usize = 0;
        while i < bytes.len()
            invariant
                i <= bytes.len(),
                bytes@ == encode_utf8(line@),
                found == Seq::new(bytes@.len(), |i: int| Letter::find_byte(bytes@[i])),
                spec_collect(found.take(i as int)) == Ok::<Seq<Letter<'static>>, nat>(letters@),
            decreases bytes.len() - i,
        {
            proof {
                let next = found.take(i + 1);
                assert(next.drop_last() =~= found.take(i as int));
                assert(next.last() == Letter::find_byte(bytes@[i as int]));
            }
            match Letter::lookup_byte(bytes[i]) {
                Some(letter) => {
                    letters.push(letter);
                },
                None => {
                    proof {
                        lemma_collect_fails(found, i + 1);
                    }
                    return Err(i);
                },
            }
            i += 1;
        }
        assert(found.take(bytes.len() as int) =~= found);
        Ok(letters)
    }

    /// Reads a line of Morse: one letter for every token, or the position of
    /// the first token that names none.
    fn decode(line: &'a str) -> (r: Result<Vec<Letter<'static>>, usize>)
        ensures
            match r {
                Ok(letters) => spec_decode(line@) == Ok::<Seq<Letter<'static>>, nat>(letters@),
                Err(position) => spec_decode(line@) == Err::<Seq<Letter<'static>>, nat>(
                    position as nat,
                ),
            },
    {
        let tokens = split_whitespace(line);
        read_tokens(&tokens)
    }
}

/// Once a front part of the lines cannot be rendered as text, the whole
/// cannot, for the same reason.
pub proof fn lemma_text_fails(command: MorseCommand, lines: Seq<String>, front: int)
    requires
        0 <= front <= lines.len(),
        spec_text(command, lines.take(front)) is Err,
    ensures
        spec_text(command, lines) == spec_text(command, lines.take(front)),
    decreases lines.len() - front,
{
    if front == lines.len() {
        assert(lines.take(front) =~= lines);
    } else {
        let next = lines.take(front + 1);
        assert(next.drop_last() =~= lines.take(front));
        lemma_text_fails(command, lines, front + 1);
    }
}

/// Once a front part of the lines cannot be read, the whole cannot, for the
/// same reason.
pub proof fn lemma_letters_fails(command: MorseCommand, lines: Seq<String>, front: int)
    requires
        0 <= front <= lines.len(),
        spec_letters(command, lines.take(front)) is Err,
    ensures
        spec_letters(command, lines) == spec_letters(command, lines.take(front)),
    decreases lines.len() - front,
{
    if front == lines.len() {
        assert(lines.take(front) =~= lines);
    } else {
        let next = lines.take(front + 1);
        assert(next.drop_last() =~= lines.take(front));
        lemma_letters_fails(command, lines, front + 1);
    }
}

} // verus!
