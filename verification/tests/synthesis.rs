use morse_traducer::letter::{
    symbol_segment, DOT_DURATION, LINE_DURATION, SLASH_DURATION,
};
use morse_traducer::polyphonia::amplitude::CUSTOM_FLOOR;
use morse_traducer::polyphonia::{
    get_w, notable_notes, period, sample_count, Amplitude, Note, Oscillator, FULL_SCALE,
    MAX_AMPLITUDE, SAMPLE_RATE, UNIT,
};
use morse_traducer::Letter;

fn sine_table(len: usize) -> Vec<i32> {
    (0..len)
        .map(|i| {
            let turn = i as f64 / len as f64;
            ((2.0 * std::f64::consts::PI * turn).sin() * UNIT as f64).round() as i32
        })
        .collect()
}

fn sine() -> Oscillator {
    Oscillator::new(SAMPLE_RATE, sine_table(1 << 16)).unwrap()
}

/// A wave that is one for the first half of its period and minus one for
/// the second.
fn square(rate: u32) -> Oscillator {
    Oscillator::new(rate, vec![UNIT, -UNIT]).unwrap()
}

#[test]
fn scaling_of_every_level() {
    assert_eq!(Amplitude::Silent.scaling(), 0);
    assert_eq!(Amplitude::Low.scaling(), 300);
    assert_eq!(Amplitude::Medium.scaling(), 500);
    assert_eq!(Amplitude::High.scaling(), 800);
    assert_eq!(Amplitude::Custom(250).scaling(), 250);
    assert_eq!(Amplitude::Custom(10).scaling(), 10);
    assert_eq!(Amplitude::Custom(1000).scaling(), 1000);
}

#[test]
fn custom_scaling_is_held_between_its_bounds() {
    assert_eq!(CUSTOM_FLOOR, 10);
    assert_eq!(FULL_SCALE, 1000);
    assert_eq!(Amplitude::Custom(9).scaling(), 10);
    assert_eq!(Amplitude::Custom(0).scaling(), 10);
    assert_eq!(Amplitude::Custom(-1).scaling(), 10);
    assert_eq!(Amplitude::Custom(i32::MIN).scaling(), 10);
    assert_eq!(Amplitude::Custom(1001).scaling(), 1000);
    assert_eq!(Amplitude::Custom(i32::MAX).scaling(), 1000);
    for x in -50..1100 {
        let scale = Amplitude::Custom(x).scaling();
        assert!((10..=1000).contains(&scale));
    }
}

#[test]
fn sample_count_is_duration_times_rate_rounded_down() {
    assert_eq!(sample_count(0, 44100), 0);
    assert_eq!(sample_count(100, 44100), 4410);
    assert_eq!(sample_count(200, 44100), 8820);
    assert_eq!(sample_count(400, 44100), 17640);
    assert_eq!(sample_count(1, 44100), 44);
    assert_eq!(sample_count(3, 999), 2);
    assert_eq!(sample_count(1000, 0), 0);
    assert_eq!(sample_count(u32::MAX, u32::MAX), 18446744065119617);
}

#[test]
fn phase_is_what_is_left_beyond_whole_turns() {
    assert_eq!(period(44100), 44_100_000);
    assert_eq!(get_w(440_000, 0, 44100), 0);
    assert_eq!(get_w(440_000, 1, 44100), 440_000);
    assert_eq!(get_w(440_000, 101, 44100), 340_000);
    assert_eq!(get_w(u32::MAX, u64::MAX, 1), 425);
    // without a rate there is no period to move in
    assert_eq!(period(0), 0);
    assert_eq!(get_w(440_000, 7, 0), 0);
}

#[test]
fn oscillator_needs_a_rate_and_a_valid_wave() {
    assert!(Oscillator::new(0, vec![0]).is_none());
    assert!(Oscillator::new(1, Vec::new()).is_none());
    assert!(Oscillator::new(1, vec![0, UNIT + 1]).is_none());
    assert!(Oscillator::new(1, vec![-UNIT - 1, 0]).is_none());
    let oscillator = Oscillator::new(8000, vec![UNIT, 0, -UNIT]).unwrap();
    assert_eq!(oscillator.sample_rate(), 8000);
}

#[test]
fn oscillator_steps_through_its_table() {
    // one turn per second at ten samples per second, over a table of five
    let oscillator = Oscillator::new(10, vec![0, 10, 20, 30, 40]).unwrap();
    let values: Vec<i32> = (0..12).map(|t| oscillator.unit(1000, t)).collect();
    assert_eq!(values, vec![0, 0, 10, 10, 20, 20, 30, 30, 40, 40, 0, 0]);
    // two and a half turns per second
    let values: Vec<i32> = (0..5).map(|t| oscillator.unit(2500, t)).collect();
    assert_eq!(values, vec![0, 10, 20, 30, 0]);
}

#[test]
fn samples_are_rounded_down() {
    let oscillator = square(1000);
    // 500 Hz at 1000 samples a second: one sample in each half of the period
    assert_eq!(oscillator.sample(500_000, 0, &Amplitude::Medium), 16383);
    assert_eq!(oscillator.sample(500_000, 1, &Amplitude::Medium), -16384);
    assert_eq!(oscillator.sample(500_000, 0, &Amplitude::Low), 9830);
    assert_eq!(oscillator.sample(500_000, 1, &Amplitude::Low), -9831);
    assert_eq!(oscillator.sample(500_000, 0, &Amplitude::High), 26213);
    assert_eq!(oscillator.sample(500_000, 1, &Amplitude::High), -26214);
    assert_eq!(oscillator.sample(500_000, 0, &Amplitude::Custom(1000)), MAX_AMPLITUDE);
    assert_eq!(oscillator.sample(500_000, 1, &Amplitude::Custom(1000)), -MAX_AMPLITUDE);
    assert_eq!(oscillator.sample(500_000, 1, &Amplitude::Silent), 0);
    let half = Oscillator::new(1000, vec![UNIT / 2, -UNIT / 2]).unwrap();
    assert_eq!(half.sample(500_000, 0, &Amplitude::Medium), 8191);
    assert_eq!(half.sample(500_000, 1, &Amplitude::Medium), -8192);
}

#[test]
fn zero_frequency_stays_at_the_start_of_the_wave() {
    let oscillator = sine();
    let wave = Note(0).audio_wave(10, &Amplitude::High, &oscillator);
    assert_eq!(wave, vec![0; 441]);
}

#[test]
fn silent_wave_is_all_zeros() {
    let oscillator = sine();
    for duration in [0u32, 1, 99, 100, 400, 1234] {
        let wave = notable_notes::a4().audio_wave(duration, &Amplitude::Silent, &oscillator);
        assert_eq!(wave, vec![0i16; (duration as usize * 44100) / 1000]);
    }
    let square = square(1000);
    assert_eq!(Note(250_000).audio_wave(7, &Amplitude::Silent, &square), vec![0; 7]);
}

#[test]
fn a4_for_a_tenth_of_a_second() {
    let oscillator = sine();
    let wave = notable_notes::a4().audio_wave(100, &Amplitude::Medium, &oscillator);
    assert_eq!(wave.len(), 4410);
    assert_eq!(wave[0], 0);
    assert!(wave.iter().all(|sample| *sample <= 16383 && *sample >= -16384));
    assert!(wave.iter().any(|sample| *sample >= 16380));
    assert!(wave.iter().any(|sample| *sample <= -16380));
    // 44 whole periods in 4410 samples: as many turns from below to above
    let rising = wave.windows(2).filter(|pair| pair[0] < 0 && pair[1] >= 0).count();
    assert_eq!(rising, 43);
    // each sample is the sine at that time, as near as the table allows
    for (t, sample) in wave.iter().enumerate() {
        let angle = 2.0 * std::f64::consts::PI * 440.0 * t as f64 / 44100.0;
        let exact = (0.5 * 32767.0 * angle.sin()).floor();
        assert!((exact - *sample as f64).abs() <= 3.0);
    }
}

#[test]
fn mixing_one_tone_changes_nothing() {
    let oscillator = sine();
    let volumes = [
        Amplitude::Silent,
        Amplitude::Low,
        Amplitude::Medium,
        Amplitude::High,
        Amplitude::Custom(77),
    ];
    for note in [notable_notes::a4(), notable_notes::c4_sh(), notable_notes::c0(), Note(1)] {
        for volume in volumes.iter() {
            assert_eq!(
                Note::combine(&[note], 50, volume, &oscillator),
                note.audio_wave(50, volume, &oscillator)
            );
        }
    }
}

#[test]
fn mixing_takes_the_mean() {
    let oscillator = square(1000);
    // 500 Hz and 250 Hz: values 1 -1 1 -1 and 1 1 -1 -1, so the means are
    // 1 0 0 -1
    let wave = Note::combine(&[Note(500_000), Note(250_000)], 4, &Amplitude::Medium, &oscillator);
    assert_eq!(wave, vec![16383, 0, 0, -16384]);
    // three tones: means 1, 1/3, -1/3, -1
    let wave = Note::combine(
        &[Note(500_000), Note(250_000), Note(250_000)],
        4,
        &Amplitude::Medium,
        &oscillator,
    );
    assert_eq!(wave, vec![16383, 5461, -5462, -16384]);
    // the order of the tones does not matter
    assert_eq!(
        Note::combine(&[Note(250_000), Note(500_000)], 4, &Amplitude::Low, &oscillator),
        Note::combine(&[Note(500_000), Note(250_000)], 4, &Amplitude::Low, &oscillator)
    );
}

#[test]
fn mixing_no_tone_or_in_silence_is_all_zeros() {
    let oscillator = sine();
    assert_eq!(Note::combine(&[], 10, &Amplitude::High, &oscillator), vec![0; 441]);
    assert_eq!(
        Note::combine(
            &[notable_notes::a4(), notable_notes::e0()],
            10,
            &Amplitude::Silent,
            &oscillator
        ),
        vec![0; 441]
    );
}

#[test]
fn named_notes() {
    assert_eq!(notable_notes::a4().get_frequency(), 440_000);
    assert_eq!(notable_notes::e0().get_frequency(), 20_600);
    assert_eq!(notable_notes::g0().get_frequency(), 24_500);
    assert_eq!(notable_notes::c0().get_frequency(), 16_350);
    assert_eq!(notable_notes::c4_sh().get_frequency(), 277_180);
}

#[test]
fn symbols_and_their_segments() {
    assert_eq!((DOT_DURATION, LINE_DURATION, SLASH_DURATION), (100, 200, 400));
    assert_eq!(symbol_segment('.'), (100, Amplitude::Medium));
    assert_eq!(symbol_segment('-'), (200, Amplitude::Medium));
    assert_eq!(symbol_segment('/'), (400, Amplitude::Silent));
    assert_eq!(symbol_segment(' '), (0, Amplitude::Silent));
    assert_eq!(symbol_segment('é'), (0, Amplitude::Silent));
}

#[test]
fn a_dot_is_a_tone_and_a_gap() {
    let oscillator = sine();
    let wave = Letter::concat_audio(vec![Letter("e", ".")], &oscillator);
    assert_eq!(wave.len(), 8820);
    assert_eq!(
        &wave[..4410],
        &notable_notes::a4().audio_wave(100, &Amplitude::Medium, &oscillator)[..]
    );
    assert!(wave[..4410].iter().any(|sample| *sample != 0));
    assert!(wave[4410..].iter().all(|sample| *sample == 0));
}

#[test]
fn every_symbol_is_followed_by_a_gap() {
    let oscillator = sine();
    // dash, dot, slash: 200 + 100, 100 + 100, 400 + 100 milliseconds
    let wave = Letter::concat_audio(vec![Letter("n", "-."), Letter(" ", "/")], &oscillator);
    assert_eq!(wave.len(), 44100);
    assert!(wave[8820..13230].iter().all(|sample| *sample == 0));
    assert!(wave[13230..17640].iter().any(|sample| *sample != 0));
    assert!(wave[17640..].iter().all(|sample| *sample == 0));
    // what is no Morse symbol takes no time of its own, only its gap
    let wave = Letter::concat_audio(vec![Letter("?", "x.é")], &oscillator);
    assert_eq!(wave.len(), 4410 + 8820 + 4410);
    assert!(wave[..4410].iter().all(|sample| *sample == 0));
    assert_eq!(Letter::concat_audio(Vec::new(), &oscillator), Vec::<i16>::new());
    assert_eq!(Letter::concat_audio(vec![Letter("", "")], &oscillator), Vec::<i16>::new());
}
