use morse_traducer::polyphonia::{notable_notes, Amplitude, Note, Oscillator, SAMPLE_RATE, UNIT};
use morse_traducer::wav::wav_writer::make_bytes;
use morse_traducer::wav::{write_wav, WavError};

fn sine_table(len: usize) -> Vec<i32> {
    (0..len)
        .map(|i| {
            let turn = i as f64 / len as f64;
            ((2.0 * std::f64::consts::PI * turn).sin() * UNIT as f64).round() as i32
        })
        .collect()
}

#[test]
fn make_bytes_puts_the_lowest_byte_first() {
    assert_eq!(make_bytes(0x1234_5678, 4), vec![0x78, 0x56, 0x34, 0x12]);
    assert_eq!(make_bytes(0x1234_5678, 2), vec![0x78, 0x56]);
    assert_eq!(make_bytes(16, 2), vec![16, 0]);
    assert_eq!(make_bytes(u32::MAX, 4), vec![0xff; 4]);
    assert_eq!(make_bytes(7, 0), Vec::<u8>::new());
    assert_eq!(make_bytes(7, 6), vec![7, 0, 0, 0, 0, 0]);
}

#[test]
fn container_of_three_samples_byte_by_byte() {
    let mut out = Vec::new();
    assert_eq!(write_wav(vec![0, 1, -2], 44100, &mut out), Ok(()));
    let expected: Vec<u8> = vec![
        b'R', b'I', b'F', b'F', 42, 0, 0, 0, b'W', b'A', b'V', b'E', // master header
        b'f', b'm', b't', b' ', 16, 0, 0, 0, 1, 0, 1, 0, // PCM, one channel
        0x44, 0xac, 0, 0, 0x88, 0x58, 0x01, 0, 2, 0, 16, 0, // rates, frame, bits
        b'd', b'a', b't', b'a', 6, 0, 0, 0, // data header
        0, 0, 1, 0, 0xfe, 0xff, // samples
    ];
    assert_eq!(out, expected);
}

#[test]
fn container_declares_its_sizes() {
    for n in [0usize, 1, 2, 1000, 4410] {
        for rate in [1u32, 8000, 44100, 48000] {
            let data: Vec<i16> = (0..n).map(|i| (i as i64 * 37 - 20000) as i16).collect();
            let mut out = Vec::new();
            assert_eq!(write_wav(data.clone(), rate, &mut out), Ok(()));
            assert_eq!(out.len(), 44 + 2 * n);
            assert_eq!(u32::from_le_bytes(out[4..8].try_into().unwrap()) as usize, 36 + 2 * n);
            assert_eq!(u32::from_le_bytes(out[24..28].try_into().unwrap()), rate);
            assert_eq!(u32::from_le_bytes(out[28..32].try_into().unwrap()), 2 * rate);
            assert_eq!(u32::from_le_bytes(out[40..44].try_into().unwrap()) as usize, 2 * n);
            for (i, sample) in data.iter().enumerate() {
                let at = 44 + 2 * i;
                assert_eq!(i16::from_le_bytes(out[at..at + 2].try_into().unwrap()), *sample);
            }
        }
    }
}

#[test]
fn container_keeps_the_extreme_samples() {
    let mut out = Vec::new();
    assert_eq!(write_wav(vec![i16::MIN, -1, i16::MAX], 8000, &mut out), Ok(()));
    assert_eq!(&out[44..], &[0x00, 0x80, 0xff, 0xff, 0xff, 0x7f]);
}

#[test]
fn container_is_appended_to_what_the_writer_holds() {
    let mut out = vec![9, 9, 9];
    assert_eq!(write_wav(vec![5], 10, &mut out), Ok(()));
    assert_eq!(out.len(), 3 + 46);
    assert_eq!(&out[0..7], &[9, 9, 9, b'R', b'I', b'F', b'F']);
}

#[test]
fn container_refuses_a_byte_rate_beyond_32_bits() {
    let mut out = vec![1, 2];
    assert_eq!(write_wav(vec![5], u32::MAX / 2, &mut out), Ok(()));
    let mut out = vec![1, 2];
    assert_eq!(
        write_wav(vec![5], u32::MAX / 2 + 1, &mut out),
        Err(WavError::SampleRateTooHigh)
    );
    assert_eq!(out, vec![1, 2]);
}

#[test]
fn wav_writer_test_file() {
    let oscillator = Oscillator::new(SAMPLE_RATE, sine_table(4096)).unwrap();
    let mut data_content = Vec::new();
    data_content.extend_from_slice(&notable_notes::a4().audio_wave(
        3000,
        &Amplitude::Medium,
        &oscillator,
    ));
    data_content.extend_from_slice(&notable_notes::a4().audio_wave(
        3000,
        &Amplitude::Silent,
        &oscillator,
    ));
    data_content.extend_from_slice(&notable_notes::a4().audio_wave(
        3000,
        &Amplitude::Low,
        &oscillator,
    ));
    data_content.extend_from_slice(&Note::combine(
        &[notable_notes::a4(), notable_notes::c4_sh(), notable_notes::e0()],
        3000,
        &Amplitude::Medium,
        &oscillator,
    ));
    let samples = data_content.len();
    assert_eq!(samples, 4 * 3 * 44100);
    let mut file = Vec::new();
    write_wav(data_content, SAMPLE_RATE, &mut file).unwrap();
    assert_eq!(file.len(), 44 + 2 * samples);
}

#[test]
fn wav_test_file() {
    let oscillator = Oscillator::new(SAMPLE_RATE, sine_table(4096)).unwrap();
    let a4 = notable_notes::a4();
    let mut data_content = Vec::new();
    data_content.extend_from_slice(&a4.audio_wave(3000, &Amplitude::Medium, &oscillator));
    data_content.extend_from_slice(&a4.audio_wave(3000, &Amplitude::Silent, &oscillator));
    data_content.extend_from_slice(&a4.audio_wave(3000, &Amplitude::Low, &oscillator));
    data_content.extend_from_slice(&Note::combine(
        &[notable_notes::a4(), notable_notes::c4_sh(), notable_notes::e0()],
        3000,
        &Amplitude::Medium,
        &oscillator,
    ));
    // the silent part lies between the two that sound
    assert!(data_content[132300..264600].iter().all(|sample| *sample == 0));
    assert!(data_content[..132300].iter().all(|sample| (-16384..=16383).contains(sample)));
    assert!(data_content[264600..396900].iter().all(|sample| (-9831..=9830).contains(sample)));
    let mut file = Vec::new();
    write_wav(data_content.clone(), SAMPLE_RATE, &mut file).unwrap();
    assert_eq!(&file[0..4], b"RIFF");
    assert_eq!(&file[8..16], b"WAVEfmt ");
    assert_eq!(&file[36..40], b"data");
    let read_back: Vec<i16> = file[44..]
        .chunks(2)
        .map(|pair| i16::from_le_bytes([pair[0], pair[1]]))
        .collect();
    assert_eq!(read_back, data_content);
}
