//! What a run is asked to do: the direction, the kind of output, and where
//! input and output are.
use crate::chars::{chars_of, lower_chars, message, str_eq, to_lower_vec};
use std::str::FromStr;
use vstd::prelude::*;

verus! {

/// The kind of output.
#[derive(Debug, Clone, Copy, PartialEq, Eq)]
pub enum MorseTraductionType {
    Text,
    Audio,
}

/// The direction: from text to Morse, or from Morse to text.
#[derive(Debug, Clone, Copy, PartialEq, Eq)]
pub enum MorseCommand {
    Encode,
    Decode,
}

/// The arguments of a run.
#[derive(Debug, Clone)]
pub struct MorseArgs {
    pub morse_command: MorseCommand,
    pub traduction_type: MorseTraductionType,
    /// The file to read; `-` stands for the standard input.
    pub in_file: String,
    /// The file to write; `-` stands for the standard output.
    pub out_file: String,
}

impl MorseTraductionType {
    /// The kind of output that `name` names, in either case: `text` or
    /// `audio`.
    pub open spec fn spec_parse(name: Seq<char>) -> Option<MorseTraductionType> {
        if lower_chars(name) == "text"@ {
            Some(MorseTraductionType::Text)
        } else if lower_chars(name) == "audio"@ {
            Some(MorseTraductionType::Audio)
        } else {
            None
        }
    }

    pub fn parse(name: &str) -> (r: Option<MorseTraductionType>)
        ensures
            r == Self::spec_parse(name@),
    {
        let lowered = to_lower_vec(chars_of(name).as_slice());
        if str_eq("text", lowered.as_slice()) {
            Some(MorseTraductionType::Text)
        } else if str_eq("audio", lowered.as_slice()) {
            Some(MorseTraductionType::Audio)
        } else {
            None
        }
    }
}

impl MorseCommand {
    /// The direction that `name` names, in either case: `e` or `encode`, `d`
    /// or `decode`.
    pub open spec fn spec_parse(name: Seq<char>) -> Option<MorseCommand> {
        if lower_chars(name) == "e"@ || lower_chars(name) == "encode"@ {
            Some(MorseCommand::Encode)
        } else if lower_chars(name) == "d"@ || lower_chars(name)
            == "decode"@ {
            Some(MorseCommand::Decode)
        } else {
            None
        }
    }

    pub fn parse(name: &str) -> (r: Option<MorseCommand>)
        ensures
            r == Self::spec_parse(name@),
    {
        let lowered = to_lower_vec(chars_of(name).as_slice());
        if str_eq("e", lowered.as_slice()) || str_eq(
            "encode",
            lowered.as_slice(),
        ) {
            Some(MorseCommand::Encode)
        } else if str_eq("d", lowered.as_slice()) || str_eq(
            "decode",
            lowered.as_slice(),
        ) {
            Some(MorseCommand::Decode)
        } else {
            None
        }
    }
}

impl FromStr for MorseTraductionType {
    type Err = String;

    fn from_str(s: &str) -> (r: Result<Self, Self::Err>)
        ensures
            r is Ok <==> MorseTraductionType::spec_parse(s@) is Some,
            r is Ok ==> Some(r->Ok_0) == MorseTraductionType::spec_parse(s@),
    {
        match MorseTraductionType::parse(s) {
            Some(kind) => Ok(kind),
            None => Err(message("Type of output not found", s)),
        }
    }
}

impl FromStr for MorseCommand {
    type Err = String;

    fn from_str(s: &str) -> (r: Result<Self, Self::Err>)
        ensures
            r is Ok <==> MorseCommand::spec_parse(s@) is Some,
            r is Ok ==> Some(r->Ok_0) == MorseCommand::spec_parse(s@),
    {
        match MorseCommand::parse(s) {
            Some(command) => Ok(command),
            None => Err(message("Morse command not found", s)),
        }
    }
}

} // verus!
