//! Samples as a WAVE file.

use vstd::prelude::*;
use vstd::string::*;

verus! {

broadcast use vstd::string::group_string_axioms;

/// Samples per second of everything that is captured.
pub const SAMPLE_RATE: u32 = 16_000;

/// Captured audio is mono.
pub const CHANNELS: u16 = 1;

#[derive(Clone, PartialEq, Eq, Debug)]
pub enum WavError {
    Hound(String),
}

/// The outside error of the WAVE writer.
#[verifier::external_type_specification]
#[verifier::external_body]
pub struct ExHoundError(hound::Error);

/// A number in two bytes, least significant first.
pub open spec fn little_endian_16(n: int) -> Seq<u8> {
    seq![(n % 0x100) as u8, (n / 0x100 % 0x100) as u8]
}

/// A number in four bytes, least significant first.
pub open spec fn little_endian_32(n: int) -> Seq<u8> {
    seq![
        (n % 0x100) as u8,
        (n / 0x100 % 0x100) as u8,
        (n / 0x1_0000 % 0x100) as u8,
        (n / 0x100_0000 % 0x100) as u8,
    ]
}

/// The number that stands for a sample in two's complement.
pub open spec fn sample_code(sample: i16) -> int {
    if sample < 0 {
        sample + 0x1_0000
    } else {
        sample as int
    }
}

/// Samples as bytes, two for each, least significant first.
pub open spec fn sample_bytes(samples: Seq<i16>) -> Seq<u8>
    decreases samples.len(),
{
    if samples.len() == 0 {
        Seq::empty()
    } else {
        sample_bytes(samples.drop_last()) + little_endian_16(sample_code(samples.last()))
    }
}

/// The four characters `RIFF`.
pub open spec fn riff_tag() -> Seq<u8> {
    seq![0x52u8, 0x49, 0x46, 0x46]
}

/// The eight characters `WAVEfmt` and a space.
pub open spec fn wave_fmt_tag() -> Seq<u8> {
    seq![0x57u8, 0x41, 0x56, 0x45, 0x66, 0x6d, 0x74, 0x20]
}

/// The four characters `data`.
pub open spec fn data_tag() -> Seq<u8> {
    seq![0x64u8, 0x61, 0x74, 0x61]
}

/// The header of a mono file of 16-bit samples: 44 bytes.
pub open spec fn wav_header(samples: nat, sample_rate: u32) -> Seq<u8> {
    riff_tag() + little_endian_32(samples as int * 2 + 36) + wave_fmt_tag() + little_endian_32(16)
        + little_endian_16(1) + little_endian_16(1) + little_endian_32(sample_rate as int)
        + little_endian_32(sample_rate * 2) + little_endian_16(2) + little_endian_16(16)
        + data_tag() + little_endian_32(samples as int * 2)
}

/// A mono file of 16-bit samples.
pub open spec fn wav_file(samples: Seq<i16>, sample_rate: u32) -> Seq<u8> {
    wav_header(samples.len(), sample_rate) + sample_bytes(samples)
}

/// Writes mono 16-bit samples with `hound::WavWriter` (`new`, `write_sample` for each
/// sample, `finalize`) into memory.
///
/// The claim: the writer succeeds, and the bytes are the 44-byte header and the samples. It
/// is made of mono files of 16 bits a sample, for which hound reports no error but that of
/// the buffer it writes to, and of sizes that fit the header's 32-bit fields, beyond which
/// hound's own sums overflow. The buffer is a growing vector in memory, which takes every
/// byte.
#[verifier::external_body]
fn write_wav(
    samples: &[i16],
    channels: u16,
    sample_rate: u32,
    bits_per_sample: u16,
) -> (result: Result<Vec<u8>, hound::Error>)
    requires
        channels == 1,
        bits_per_sample == 16,
        0 < sample_rate,
        sample_rate * 2 <= u32::MAX,
        samples@.len() * 2 + 36 <= u32::MAX,
    ensures
        result is Ok,
        result->Ok_0@ == wav_file(samples@, sample_rate),
{
    let sample_format = hound::SampleFormat::Int;
    let spec = hound::WavSpec { channels, sample_rate, bits_per_sample, sample_format };
    let mut cursor = std::io::Cursor::new(Vec::new());
    let mut writer = hound::WavWriter::new(&mut cursor, spec)?;
    for &sample in samples {
        writer.write_sample(sample)?;
    }
    writer.finalize()?;
    Ok(cursor.into_inner())
}

/// Writes an outside error as text; nothing is claimed of the text.
#[verifier::external_body]
fn hound_error_text(error: &hound::Error) -> (result: String) {
    error.to_string()
}

/// The WAVE file of captured samples.
pub fn encode_wav(samples: &[i16]) -> (result: Result<Vec<u8>, WavError>)
    requires
        samples@.len() * 2 + 36 <= u32::MAX,
    ensures
        result matches Ok(bytes) && bytes@ == wav_file(samples@, SAMPLE_RATE),
{
    match write_wav(samples, CHANNELS, SAMPLE_RATE, 16) {
        Ok(bytes) => Ok(bytes),
        Err(error) => Err(WavError::Hound(hound_error_text(&error))),
    }
}

impl WavError {
    /// What the error says to a reader.
    pub fn message(&self) -> (result: String)
        ensures
            match *self {
                WavError::Hound(reason) => result@ == "WAV encoding failed: "@ + reason@,
            },
    {
        match self {
            WavError::Hound(reason) => {
                let mut text = String::from_str("WAV encoding failed: ");
                text.append(reason.as_str());
                text
            },
        }
    }
}

/// The sample that two bytes stand for.
pub open spec fn sample_of(low: u8, high: u8) -> int {
    let code = high * 0x100 + low;
    if code >= 0x8000 {
        code - 0x1_0000
    } else {
        code as int
    }
}

/// The samples of a mono file with a 44-byte header.
pub open spec fn wav_samples(file: Seq<u8>) -> Seq<int> {
    Seq::new(
        ((file.len() - 44) / 2) as nat,
        |i: int| sample_of(file[44 + 2 * i], file[44 + 2 * i + 1]),
    )
}

proof fn sample_bytes_index(samples: Seq<i16>)
    ensures
        sample_bytes(samples).len() == 2 * samples.len(),
        forall|i: int|
            0 <= i < samples.len() ==> sample_of(
                sample_bytes(samples)[2 * i],
                sample_bytes(samples)[2 * i + 1],
            ) == #[trigger] samples[i],
    decreases samples.len(),
{
    if samples.len() > 0 {
        sample_bytes_index(samples.drop_last());
        let n = samples.len() - 1;
        let code = sample_code(samples.last());
        assert(sample_of((code % 0x100) as u8, (code / 0x100 % 0x100) as u8) == samples.last());
        assert forall|i: int| 0 <= i < samples.len() implies sample_of(
            sample_bytes(samples)[2 * i],
            sample_bytes(samples)[2 * i + 1],
        ) == #[trigger] samples[i] by {
            if i < n {
                assert(samples.drop_last()[i] == samples[i]);
            }
        }
    }
}

/// A file gives back the samples that were written into it.
pub proof fn reading_a_file_undoes_writing_it(samples: Seq<i16>, sample_rate: u32)
    ensures
        wav_file(samples, sample_rate).len() == 44 + 2 * samples.len(),
        wav_samples(wav_file(samples, sample_rate)) == samples.map_values(|s: i16| s as int),
{
    let file = wav_file(samples, sample_rate);
    let header = wav_header(samples.len(), sample_rate);
    assert(header.len() == 44);
    sample_bytes_index(samples);
    let body = sample_bytes(samples);
    assert forall|i: int| 0 <= i < samples.len() implies sample_of(
        file[44 + 2 * i],
        file[44 + 2 * i + 1],
    ) == #[trigger] samples[i] by {
        assert(file[44 + 2 * i] == body[2 * i]);
        assert(file[44 + 2 * i + 1] == body[2 * i + 1]);
    }
    assert(wav_samples(file) =~= samples.map_values(|s: i16| s as int));
}

} // verus!
