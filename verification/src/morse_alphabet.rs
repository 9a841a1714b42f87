//! The closed alphabet: twenty-six letters, ten digits and the word gap.
use crate::letter::Letter;
use vstd::prelude::*;

verus! {

/// How many entries the alphabet has.
pub const ALPHABET_LEN: usize = 37;

/// The entry at position `i`, in the order a-z, 1-9, 0, word gap. The first
/// field is the text form, the second the Morse form.
pub open spec fn spec_letter_at(i: int) -> Letter<'static> {
    if i == 0 {
        Letter("a", ".-")
    } else if i == 1 {
        Letter("b", "-...")
    } else if i == 2 {
        Letter("c", "-.-.")
    } else if i == 3 {
        Letter("d", "-..")
    } else if i == 4 {
        Letter("e", ".")
    } else if i == 5 {
        Letter("f", "..-.")
    } else if i == 6 {
        Letter("g", "--.")
    } else if i == 7 {
        Letter("h", "....")
    } else if i == 8 {
        Letter("i", "..")
    } else if i == 9 {
        Letter("j", ".---")
    } else if i == 10 {
        Letter("k", "-.-")
    } else if i == 11 {
        Letter("l", ".-..")
    } else if i == 12 {
        Letter("m", "--")
    } else if i == 13 {
        Letter("n", "-.")
    } else if i == 14 {
        Letter("o", "---")
    } else if i == 15 {
        Letter("p", ".--.")
    } else if i == 16 {
        Letter("q", "--.-")
    } else if i == 17 {
        Letter("r", ".-.")
    } else if i == 18 {
        Letter("s", "...")
    } else if i == 19 {
        Letter("t", "-")
    } else if i == 20 {
        Letter("u", "..-")
    } else if i == 21 {
        Letter("v", "...-")
    } else if i == 22 {
        Letter("w", ".--")
    } else if i == 23 {
        Letter("x", "-..-")
    } else if i == 24 {
        Letter("y", "-.--")
    } else if i == 25 {
        Letter("z", "--..")
    } else if i == 26 {
        Letter("1", ".----")
    } else if i == 27 {
        Letter("2", "..---")
    } else if i == 28 {
        Letter("3", "...--")
    } else if i == 29 {
        Letter("4", "....-")
    } else if i == 30 {
        Letter("5", ".....")
    } else if i == 31 {
        Letter("6", "-....")
    } else if i == 32 {
        Letter("7", "--...")
    } else if i == 33 {
        Letter("8", "---..")
    } else if i == 34 {
        Letter("9", "----.")
    } else if i == 35 {
        Letter("0", "-----")
    } else {
        Letter(" ", "/")
    }
}

/// The alphabet as a sequence.
pub open spec fn alphabet() -> Seq<Letter<'static>> {
    Seq::new(ALPHABET_LEN as nat, |i: int| spec_letter_at(i))
}

pub fn letter_at(i: usize) -> (r: Letter<'static>)
    requires
        i < ALPHABET_LEN,
    ensures
        r == spec_letter_at(i as int),
        r == alphabet()[i as int],
{
    match i {
        0 => Letter("a", ".-"),
        1 => Letter("b", "-..."),
        2 => Letter("c", "-.-."),
        3 => Letter("d", "-.."),
        4 => Letter("e", "."),
        5 => Letter("f", "..-."),
        6 => Letter("g", "--."),
        7 => Letter("h", "...."),
        8 => Letter("i", ".."),
        9 => Letter("j", ".---"),
        10 => Letter("k", "-.-"),
        11 => Letter("l", ".-.."),
        12 => Letter("m", "--"),
        13 => Letter("n", "-."),
        14 => Letter("o", "---"),
        15 => Letter("p", ".--."),
        16 => Letter("q", "--.-"),
        17 => Letter("r", ".-."),
        18 => Letter("s", "..."),
        19 => Letter("t", "-"),
        20 => Letter("u", "..-"),
        21 => Letter("v", "...-"),
        22 => Letter("w", ".--"),
        23 => Letter("x", "-..-"),
        24 => Letter("y", "-.--"),
        25 => Letter("z", "--.."),
        26 => Letter("1", ".----"),
        27 => Letter("2", "..---"),
        28 => Letter("3", "...--"),
        29 => Letter("4", "....-"),
        30 => Letter("5", "....."),
        31 => Letter("6", "-...."),
        32 => Letter("7", "--..."),
        33 => Letter("8", "---.."),
        34 => Letter("9", "----."),
        35 => Letter("0", "-----"),
        _ => Letter(" ", "/"),
    }
}

} // verus!
