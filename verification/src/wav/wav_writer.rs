//! Writes 16-bit mono PCM samples as a canonical RIFF/WAVE byte stream.
//!
//! Layout, all numbers little-endian:
//!
//! | offset | bytes | content                               |
//! |--------|-------|---------------------------------------|
//! | 0      | 4     | `RIFF`                                |
//! | 4      | 4     | `36 + data size`                      |
//! | 8      | 4     | `WAVE`                                |
//! | 12     | 4     | `fmt `                                |
//! | 16     | 4     | `16`, the size of the format block    |
//! | 20     | 2     | `1`, PCM                              |
//! | 22     | 2     | `1`, one channel                      |
//! | 24     | 4     | sample rate                           |
//! | 28     | 4     | byte rate: sample rate times 2        |
//! | 32     | 2     | `2`, bytes per sample frame           |
//! | 34     | 2     | `16`, bits per sample                 |
//! | 36     | 4     | `data`                                |
//! | 40     | 4     | data size: two bytes per sample       |
//! | 44     | ..    | the samples                           |
use vstd::arithmetic::power::{lemma_pow0, lemma_pow_positive, pow};
use vstd::prelude::*;

verus! {

/// Bytes in the header, up to the first sample.
pub const HEADER_LEN: usize = 44;

/// What the master size counts besides the samples: `WAVE`, the format block
/// with its own header, and the header of the data block.
pub const MASTER_OVERHEAD: u32 = 36;

/// Bytes per sample frame: one channel of 16 bits.
pub const BLOCK_SIZE: u16 = 2;

pub const BITS_PER_SAMPLE: u16 = 16;

pub const FORMAT_PCM: u16 = 1;

pub const CHANNELS: u16 = 1;

pub const FORMAT_BLOCK_LEN: u32 = 16;

/// Why a sample buffer cannot be put into a container.
#[derive(Debug, Clone, Copy, PartialEq, Eq)]
pub enum WavError {
    /// The master size, `36 + 2 * samples`, does not fit in 32 bits.
    TooManySamples,
    /// The byte rate, `2 * sample rate`, does not fit in 32 bits.
    SampleRateTooHigh,
}

/// The `width` low bytes of `value`, lowest first.
pub open spec fn le_bytes(value: nat, width: nat) -> Seq<u8>
    decreases width,
{
    if width == 0 {
        Seq::empty()
    } else {
        seq![(value % 256) as u8] + le_bytes(value / 256, (width - 1) as nat)
    }
}

/// The number that `bytes` spell, lowest byte first.
pub open spec fn le_value(bytes: Seq<u8>) -> nat
    decreases bytes.len(),
{
    if bytes.len() == 0 {
        0
    } else {
        bytes[0] as nat + 256 * le_value(bytes.skip(1))
    }
}

/// A sample as an unsigned 16-bit word, in two's complement.
pub open spec fn sample_word(sample: i16) -> nat {
    if sample < 0 {
        (sample + 65536) as nat
    } else {
        sample as nat
    }
}

/// The sample that an unsigned 16-bit word stands for, in two's complement.
pub open spec fn word_sample(word: nat) -> int {
    if word >= 32768 {
        word - 65536
    } else {
        word as int
    }
}

/// Every sample as two bytes, in order.
pub open spec fn sample_bytes(data: Seq<i16>) -> Seq<u8>
    decreases data.len(),
{
    if data.len() == 0 {
        Seq::empty()
    } else {
        sample_bytes(data.drop_last()) + le_bytes(sample_word(data.last()), 2)
    }
}

pub open spec fn riff_tag() -> Seq<u8> {
    seq![0x52u8, 0x49u8, 0x46u8, 0x46u8]
}

pub open spec fn wave_tag() -> Seq<u8> {
    seq![0x57u8, 0x41u8, 0x56u8, 0x45u8]
}

pub open spec fn fmt_tag() -> Seq<u8> {
    seq![0x66u8, 0x6du8, 0x74u8, 0x20u8]
}

pub open spec fn data_tag() -> Seq<u8> {
    seq![0x64u8, 0x61u8, 0x74u8, 0x61u8]
}

/// The twelve bytes of the master header for `samples` samples.
pub open spec fn master_header(samples: nat) -> Seq<u8> {
    riff_tag() + le_bytes(MASTER_OVERHEAD as nat + 2 * samples, 4) + wave_tag()
}

/// The twenty-four bytes of the format block.
pub open spec fn format_block(sample_rate: u32) -> Seq<u8> {
    fmt_tag() + le_bytes(FORMAT_BLOCK_LEN as nat, 4) + le_bytes(FORMAT_PCM as nat, 2) + le_bytes(
        CHANNELS as nat,
        2,
    ) + le_bytes(sample_rate as nat, 4) + le_bytes(sample_rate as nat * BLOCK_SIZE as nat, 4)
        + le_bytes(BLOCK_SIZE as nat, 2) + le_bytes(BITS_PER_SAMPLE as nat, 2)
}

/// The eight bytes that open the data block for `samples` samples.
pub open spec fn data_header(samples: nat) -> Seq<u8> {
    data_tag() + le_bytes(2 * samples, 4)
}

/// The whole container for `data` at `sample_rate`.
pub open spec fn wav_bytes(data: Seq<i16>, sample_rate: u32) -> Seq<u8> {
    master_header(data.len()) + format_block(sample_rate) + data_header(data.len()) + sample_bytes(
        data,
    )
}

/// Whether the sizes of a container for `samples` samples at `sample_rate`
/// fit in their 32-bit fields.
pub open spec fn fits_container(samples: nat, sample_rate: u32) -> bool {
    MASTER_OVERHEAD + 2 * samples <= u32::MAX && sample_rate * BLOCK_SIZE <= u32::MAX
}

/// The `width` low bytes of `number`, lowest first.
pub fn make_bytes(number: u32, width: usize) -> (b: Vec<u8>)
    ensures
        b@ == le_bytes(number as nat, width as nat),
{
    let mut b: Vec<u8> = Vec::new();
    let mut rest: u32 = number;
    let mut i: usize = 0;
    while i < width
        invariant
            i <= width,
            b@ + le_bytes(rest as nat, (width - i) as nat) == le_bytes(number as nat, width as nat),
        decreases width - i,
    {
        let ghost before = b@;
        b.push((rest % 256) as u8);
        proof {
            assert(le_bytes(rest as nat, (width - i) as nat) == seq![(rest as nat % 256) as u8]
                + le_bytes(rest as nat / 256, (width - i - 1) as nat));
            assert(b@ + le_bytes(rest as nat / 256, (width - i - 1) as nat) =~= before + le_bytes(
                rest as nat,
                (width - i) as nat,
            ));
        }
        rest = rest / 256;
        i += 1;
    }
    assert(b@ + le_bytes(rest as nat, 0) =~= b@);
    b
}

fn write_tag(writer: &mut Vec<u8>, b0: u8, b1: u8, b2: u8, b3: u8)
    ensures
        final(writer)@ == old(writer)@ + seq![b0, b1, b2, b3],
{
    writer.push(b0);
    writer.push(b1);
    writer.push(b2);
    writer.push(b3);
    assert(writer@ =~= old(writer)@ + seq![b0, b1, b2, b3]);
}

fn write_number(writer: &mut Vec<u8>, number: u32, width: usize)
    ensures
        final(writer)@ == old(writer)@ + le_bytes(number as nat, width as nat),
{
    let b = make_bytes(number, width);
    writer.extend_from_slice(b.as_slice());
}

/// The sample as an unsigned word, as a cast does it.
fn word_of(sample: i16) -> (word: u16)
    ensures
        word as nat == sample_word(sample),
{
    if sample < 0 {
        ((sample as i32) + 65536) as u16
    } else {
        sample as u16
    }
}

/// Appends to `writer` the container that holds `data` at `sample_rate`.
///
/// Fails, and leaves `writer` as it was, when a size does not fit in its
/// 32-bit field.
pub fn write_wav(data: Vec<i16>, sample_rate: u32, writer: &mut Vec<u8>) -> (r: Result<
    (),
    WavError,
>)
    ensures
        r is Ok <==> fits_container(data@.len(), sample_rate),
        r is Ok ==> final(writer)@ == old(writer)@ + wav_bytes(data@, sample_rate),
        r is Err ==> final(writer)@ == old(writer)@,
        r == Err::<(), WavError>(WavError::TooManySamples) <==> MASTER_OVERHEAD + 2 * data@.len()
            > u32::MAX,
{
    if data.len() > ((u32::MAX - MASTER_OVERHEAD) / 2) as usize {
        return Err(WavError::TooManySamples);
    }
    if sample_rate > u32::MAX / 2 {
        return Err(WavError::SampleRateTooHigh);
    }
    let data_size: u32 = (data.len() * 2) as u32;
    let ghost n = data@.len();

    write_tag(writer, 0x52, 0x49, 0x46, 0x46);
    write_number(writer, MASTER_OVERHEAD + data_size, 4);
    write_tag(writer, 0x57, 0x41, 0x56, 0x45);
    assert(writer@ =~= old(writer)@ + master_header(n));

    write_tag(writer, 0x66, 0x6d, 0x74, 0x20);
    write_number(writer, FORMAT_BLOCK_LEN, 4);
    write_number(writer, FORMAT_PCM as u32, 2);
    write_number(writer, CHANNELS as u32, 2);
    write_number(writer, sample_rate, 4);
    write_number(writer, sample_rate * (BLOCK_SIZE as u32), 4);
    write_number(writer, BLOCK_SIZE as u32, 2);
    write_number(writer, BITS_PER_SAMPLE as u32, 2);
    assert(writer@ =~= old(writer)@ + master_header(n) + format_block(sample_rate));

    write_tag(writer, 0x64, 0x61, 0x74, 0x61);
    write_number(writer, data_size, 4);
    assert(writer@ =~= old(writer)@ + master_header(n) + format_block(sample_rate) + data_header(
        n,
    ));

    let ghost head = writer@;
    let mut i: usize = 0;
    while i < data.len()
        invariant
            i <= data.len(),
            writer@ == head + sample_bytes(data@.take(i as int)),
        decreases data.len() - i,
    {
        let ghost before = writer@;
        write_number(writer, word_of(data[i]) as u32, 2);
        proof {
            let next = data@.take(i + 1);
            assert(next.drop_last() =~= data@.take(i as int));
            assert(next.last() == data@[i as int]);
            assert(writer@ =~= head + sample_bytes(next));
        }
        i += 1;
    }
    assert(data@.take(data.len() as int) =~= data@);
    assert(writer@ =~= old(writer)@ + wav_bytes(data@, sample_rate));
    Ok(())
}

/// `le_bytes` gives as many bytes as it is asked for.
pub proof fn lemma_le_bytes_len(value: nat, width: nat)
    ensures
        le_bytes(value, width).len() == width,
    decreases width,
{
    if width > 0 {
        lemma_le_bytes_len(value / 256, (width - 1) as nat);
    }
}

/// Reading back what `le_bytes` wrote gives the number, as long as the
/// number fits in `width` bytes.
pub proof fn lemma_le_round_trip(value: nat, width: nat)
    requires
        value < pow(256, width),
    ensures
        le_value(le_bytes(value, width)) == value,
    decreases width,
{
    if width == 0 {
        lemma_pow0(256);
    } else {
        let rest = le_bytes(value / 256, (width - 1) as nat);
        let all = le_bytes(value, width);
        assert(pow(256, width) == 256 * pow(256, (width - 1) as nat)) by {
            reveal(pow);
        }
        lemma_pow_positive(256, (width - 1) as nat);
        assert(value / 256 < pow(256, (width - 1) as nat)) by (nonlinear_arith)
            requires
                value < 256 * pow(256, (width - 1) as nat),
        ;
        lemma_le_round_trip(value / 256, (width - 1) as nat);
        assert(all.skip(1) =~= rest);
        assert(all[0] == (value % 256) as u8);
    }
}

/// A sample and its 16-bit word stand for each other.
pub proof fn lemma_sample_word(sample: i16)
    ensures
        sample_word(sample) < 65536,
        word_sample(sample_word(sample)) == sample,
{
}

/// Where each sample lies among the bytes of all samples.
pub proof fn lemma_sample_bytes(data: Seq<i16>, i: int)
    requires
        0 <= i < data.len(),
    ensures
        sample_bytes(data).len() == 2 * data.len(),
        sample_bytes(data).subrange(2 * i, 2 * i + 2) == le_bytes(sample_word(data[i]), 2),
    decreases data.len(),
{
    lemma_sample_bytes_len(data);
    lemma_sample_bytes_len(data.drop_last());
    lemma_le_bytes_len(sample_word(data.last()), 2);
    let front = sample_bytes(data.drop_last());
    let back = le_bytes(sample_word(data.last()), 2);
    if i == data.len() - 1 {
        assert((front + back).subrange(2 * i, 2 * i + 2) =~= back);
    } else {
        lemma_sample_bytes(data.drop_last(), i);
        assert((front + back).subrange(2 * i, 2 * i + 2) =~= front.subrange(2 * i, 2 * i + 2));
    }
}

/// Two bytes per sample.
pub proof fn lemma_sample_bytes_len(data: Seq<i16>)
    ensures
        sample_bytes(data).len() == 2 * data.len(),
    decreases data.len(),
{
    if data.len() > 0 {
        lemma_sample_bytes_len(data.drop_last());
        lemma_le_bytes_len(sample_word(data.last()), 2);
    }
}

/// The container round trip. For every sample buffer and rate whose sizes
/// fit, the container is 44 bytes longer than two bytes per sample; it opens
/// with `RIFF`, the master size `36 + 2N` and `WAVE`; the format block
/// declares PCM, one channel, the rate, a byte rate of twice the rate, two
/// bytes per frame and 16 bits; the data block declares `2N` bytes; and the
/// bytes that follow spell each sample, in order, lowest byte first.
pub proof fn lemma_container_round_trip(data: Seq<i16>, sample_rate: u32)
    requires
        fits_container(data.len(), sample_rate),
    ensures
        wav_bytes(data, sample_rate).len() == HEADER_LEN + 2 * data.len(),
        wav_bytes(data, sample_rate).subrange(0, 4) == riff_tag(),
        le_value(wav_bytes(data, sample_rate).subrange(4, 8)) == 36 + 2 * data.len(),
        wav_bytes(data, sample_rate).subrange(8, 12) == wave_tag(),
        wav_bytes(data, sample_rate).subrange(12, 16) == fmt_tag(),
        le_value(wav_bytes(data, sample_rate).subrange(16, 20)) == 16,
        le_value(wav_bytes(data, sample_rate).subrange(20, 22)) == 1,
        le_value(wav_bytes(data, sample_rate).subrange(22, 24)) == 1,
        le_value(wav_bytes(data, sample_rate).subrange(24, 28)) == sample_rate,
        le_value(wav_bytes(data, sample_rate).subrange(28, 32)) == 2 * sample_rate,
        le_value(wav_bytes(data, sample_rate).subrange(32, 34)) == 2,
        le_value(wav_bytes(data, sample_rate).subrange(34, 36)) == 16,
        wav_bytes(data, sample_rate).subrange(36, 40) == data_tag(),
        le_value(wav_bytes(data, sample_rate).subrange(40, 44)) == 2 * data.len(),
        wav_bytes(data, sample_rate).skip(HEADER_LEN as int) == sample_bytes(data),
        forall|i: int|
            0 <= i < data.len() ==> word_sample(
                le_value(
                    #[trigger] wav_bytes(data, sample_rate).subrange(
                        HEADER_LEN + 2 * i,
                        HEADER_LEN + 2 * i + 2,
                    ),
                ),
            ) == data[i],
{
    let n = data.len();
    let w = wav_bytes(data, sample_rate);
    let master = le_bytes(MASTER_OVERHEAD as nat + 2 * n, 4);
    let block_len = le_bytes(FORMAT_BLOCK_LEN as nat, 4);
    let pcm = le_bytes(FORMAT_PCM as nat, 2);
    let channels = le_bytes(CHANNELS as nat, 2);
    let rate = le_bytes(sample_rate as nat, 4);
    let byte_rate = le_bytes(sample_rate as nat * BLOCK_SIZE as nat, 4);
    let block = le_bytes(BLOCK_SIZE as nat, 2);
    let bits = le_bytes(BITS_PER_SAMPLE as nat, 2);
    let size = le_bytes(2 * n, 4);
    lemma_le_bytes_len(MASTER_OVERHEAD as nat + 2 * n, 4);
    lemma_le_bytes_len(FORMAT_BLOCK_LEN as nat, 4);
    lemma_le_bytes_len(FORMAT_PCM as nat, 2);
    lemma_le_bytes_len(CHANNELS as nat, 2);
    lemma_le_bytes_len(sample_rate as nat, 4);
    lemma_le_bytes_len(sample_rate as nat * BLOCK_SIZE as nat, 4);
    lemma_le_bytes_len(BLOCK_SIZE as nat, 2);
    lemma_le_bytes_len(BITS_PER_SAMPLE as nat, 2);
    lemma_le_bytes_len(2 * n, 4);
    lemma_sample_bytes_len(data);
    assert(pow(256, 2) == 65536 && pow(256, 4) == 0x1_0000_0000) by {
        reveal_with_fuel(pow, 5);
    }
    lemma_le_round_trip(MASTER_OVERHEAD as nat + 2 * n, 4);
    lemma_le_round_trip(FORMAT_BLOCK_LEN as nat, 4);
    lemma_le_round_trip(FORMAT_PCM as nat, 2);
    lemma_le_round_trip(CHANNELS as nat, 2);
    lemma_le_round_trip(sample_rate as nat, 4);
    lemma_le_round_trip(sample_rate as nat * BLOCK_SIZE as nat, 4);
    lemma_le_round_trip(BLOCK_SIZE as nat, 2);
    lemma_le_round_trip(BITS_PER_SAMPLE as nat, 2);
    lemma_le_round_trip(2 * n, 4);
    assert(w.len() == HEADER_LEN + 2 * n);
    assert(w.subrange(0, 4) =~= riff_tag());
    assert(w.subrange(4, 8) =~= master);
    assert(w.subrange(8, 12) =~= wave_tag());
    assert(w.subrange(12, 16) =~= fmt_tag());
    assert(w.subrange(16, 20) =~= block_len);
    assert(w.subrange(20, 22) =~= pcm);
    assert(w.subrange(22, 24) =~= channels);
    assert(w.subrange(24, 28) =~= rate);
    assert(w.subrange(28, 32) =~= byte_rate);
    assert(w.subrange(32, 34) =~= block);
    assert(w.subrange(34, 36) =~= bits);
    assert(w.subrange(36, 40) =~= data_tag());
    assert(w.subrange(40, 44) =~= size);
    assert(w.skip(HEADER_LEN as int) =~= sample_bytes(data));
    assert forall|i: int| 0 <= i < data.len() implies word_sample(
        le_value(#[trigger] w.subrange(HEADER_LEN + 2 * i, HEADER_LEN + 2 * i + 2)),
    ) == data[i] by {
        lemma_sample_bytes(data, i);
        lemma_sample_word(data[i]);
        lemma_le_round_trip(sample_word(data[i]), 2);
        assert(w.subrange(HEADER_LEN + 2 * i, HEADER_LEN + 2 * i + 2) =~= sample_bytes(
            data,
        ).subrange(2 * i, 2 * i + 2));
    }
}

} // verus!
