use morse_traducer::chars::{
    chars_of, is_space, split_whitespace, str_eq, to_lower, to_lower_vec,
};
use morse_traducer::morse_alphabet::{letter_at, ALPHABET_LEN};
use morse_traducer::parser::{MorseArgs, MorseCommand, MorseTraductionType};
use morse_traducer::Letter;
use std::str::FromStr;

#[test]
fn alphabet_has_letters_digits_and_the_word_gap() {
    assert_eq!(ALPHABET_LEN, 37);
    assert_eq!(letter_at(0), Letter("a", ".-"));
    assert_eq!(letter_at(25), Letter("z", "--.."));
    assert_eq!(letter_at(26), Letter("1", ".----"));
    assert_eq!(letter_at(35), Letter("0", "-----"));
    assert_eq!(letter_at(36), Letter(" ", "/"));
}

#[test]
fn every_entry_is_found_by_both_forms() {
    for i in 0..ALPHABET_LEN {
        let letter = letter_at(i);
        assert_eq!(Letter::lookup(&chars_of(letter.text())), Some(letter));
        assert_eq!(Letter::lookup(&chars_of(letter.morse())), Some(letter));
        assert_eq!(Letter::lookup_byte(letter.text().as_bytes()[0]), Some(letter));
        assert_eq!(Letter::from_str(&letter.text().to_uppercase()), Ok(letter));
    }
}

#[test]
fn morse_forms_hold_only_morse_symbols() {
    for i in 0..ALPHABET_LEN {
        let letter = letter_at(i);
        assert_eq!(letter.text().len(), 1);
        assert!(!letter.morse().is_empty() && letter.morse().len() <= 5);
        assert!(letter.morse().chars().all(|c| c == '.' || c == '-' || c == '/'));
    }
}

#[test]
fn lookup_of_what_the_alphabet_lacks_finds_nothing() {
    assert_eq!(Letter::lookup(&[]), None);
    assert_eq!(Letter::lookup(&['a', 'b']), None);
    assert_eq!(Letter::lookup(&['.'; 6]), None);
    assert_eq!(Letter::lookup(&['?']), None);
    assert_eq!(Letter::lookup(&['é']), None);
    assert_eq!(Letter::lookup(&['a', ' ']), None);
    assert_eq!(Letter::lookup_byte(b'?'), None);
    assert_eq!(Letter::lookup_byte(0x80), None);
    assert_eq!(Letter::lookup_byte(0xff), None);
    assert_eq!(Letter::lookup_byte(b'Q'), Some(Letter("q", "--.-")));
    assert_eq!(Letter::lookup_byte(b'-'), Some(Letter("t", "-")));
}

#[test]
fn from_str_says_which_string_has_no_letter() {
    assert_eq!(
        Letter::from_str("#"),
        Err("No representation found for the string: #".to_string())
    );
    assert_eq!(Letter::from_str("S"), Ok(Letter("s", "...")));
    assert_eq!("...".parse::<Letter>(), Ok(Letter("s", "...")));
}

#[test]
fn concat_morse_puts_one_space_between_letters() {
    assert_eq!(Letter::concat_morse(Vec::new()), b"".to_vec());
    assert_eq!(Letter::concat_morse(vec![Letter("s", "...")]), b"...".to_vec());
    assert_eq!(
        Letter::concat_morse(vec![Letter("s", "..."), Letter("o", "---"), Letter(" ", "/")]),
        b"... --- /".to_vec()
    );
}

#[test]
fn concat_text_puts_nothing_between_letters() {
    assert_eq!(Letter::concat_text(Vec::new()), b"".to_vec());
    assert_eq!(
        Letter::concat_text(vec![Letter("s", "..."), Letter(" ", "/"), Letter("o", "---")]),
        b"s o".to_vec()
    );
}

#[test]
fn lower_case_moves_only_ascii_capitals() {
    assert_eq!(to_lower('A'), 'a');
    assert_eq!(to_lower('Z'), 'z');
    assert_eq!(to_lower('@'), '@');
    assert_eq!(to_lower('['), '[');
    assert_eq!(to_lower('a'), 'a');
    assert_eq!(to_lower('É'), 'É');
    assert_eq!(
        to_lower_vec(&chars_of("Hello, World 42 É")),
        chars_of("hello, world 42 É")
    );
    for code in 0..=0x10ffffu32 {
        if let Some(c) = char::from_u32(code) {
            assert_eq!(to_lower(c), c.to_ascii_lowercase());
        }
    }
}

#[test]
fn white_space_is_what_unicode_says() {
    for code in 0..=0x10ffffu32 {
        if let Some(c) = char::from_u32(code) {
            assert_eq!(is_space(c), c.is_whitespace());
        }
    }
}

#[test]
fn lines_are_split_at_white_space() {
    let lines = [
        "",
        " ",
        "a",
        " a",
        "a ",
        "  .-   -... \t-.-.\n",
        "one\u{a0}two\u{2003}three\u{3000}\u{85}four",
        "é è\u{1680}ê",
        "no-space",
        "\u{200b}zero width is no space\u{feff}",
    ];
    for line in lines {
        let tokens: Vec<String> =
            split_whitespace(line).iter().map(|token| token.iter().collect()).collect();
        let expected: Vec<String> = line.split_whitespace().map(String::from).collect();
        assert_eq!(tokens, expected);
    }
    assert_eq!(split_whitespace(" .-  - "), vec![vec!['.', '-'], vec!['-']]);
}

#[test]
fn strings_are_compared_by_their_characters() {
    assert!(str_eq("", &[]));
    assert!(str_eq(".-", &['.', '-']));
    assert!(!str_eq(".-", &['.', '-', '.']));
    assert!(!str_eq(".-", &['.', '.']));
    assert!(str_eq("é", &['é']));
    assert_eq!(chars_of("a é"), vec!['a', ' ', 'é']);
}

#[test]
fn commands_are_read_in_either_case() {
    assert_eq!(MorseCommand::from_str("e"), Ok(MorseCommand::Encode));
    assert_eq!(MorseCommand::from_str("Encode"), Ok(MorseCommand::Encode));
    assert_eq!(MorseCommand::from_str("D"), Ok(MorseCommand::Decode));
    assert_eq!(MorseCommand::from_str("DECODE"), Ok(MorseCommand::Decode));
    assert_eq!(
        MorseCommand::from_str("enc"),
        Err("Morse command not found: enc".to_string())
    );
    assert_eq!(MorseCommand::parse("decode"), Some(MorseCommand::Decode));
    assert_eq!(MorseCommand::parse(""), None);
}

#[test]
fn output_kinds_are_read_in_either_case() {
    assert_eq!(MorseTraductionType::from_str("text"), Ok(MorseTraductionType::Text));
    assert_eq!(MorseTraductionType::from_str("AUDIO"), Ok(MorseTraductionType::Audio));
    assert_eq!(
        MorseTraductionType::from_str("video"),
        Err("Type of output not found: video".to_string())
    );
    assert_eq!(MorseTraductionType::parse("Text"), Some(MorseTraductionType::Text));
    assert_eq!(MorseTraductionType::parse("t"), None);
}

#[test]
fn arguments_hold_what_they_are_given() {
    let args = MorseArgs {
        morse_command: MorseCommand::Encode,
        traduction_type: MorseTraductionType::Audio,
        in_file: "in.txt".to_string(),
        out_file: "-".to_string(),
    };
    let copy = args.clone();
    assert_eq!(copy.morse_command, MorseCommand::Encode);
    assert_eq!(copy.traduction_type, MorseTraductionType::Audio);
    assert_eq!(copy.in_file, "in.txt");
    assert_eq!(copy.out_file, "-");
}
