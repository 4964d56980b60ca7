use crate::audio_parser::errors::{
    fails_with, Failure, numbered_error, numbered_text, AudioParserError,
};
use crate::audio_parser::utils::{
    compression_code_of, convert_to_number, le_encoding, le_value, le_value_of_encoding,
    parse_compression_code, pow256, CompressionCode,
};
use vstd::prelude::*;

verus! {

/// The contents of a `fmt ` chunk.
#[derive(Debug, Clone, PartialEq, Eq)]
pub struct FmtMetadata {
    /// Format tag of the file, e.g. PCM or ADPCM.
    pub compression_code: CompressionCode,
    /// Number of channels: 1 for mono, 2 for stereo.
    pub number_of_channels: u16,
    /// Number of sample frames per second.
    pub sample_rate_per_second: u32,
    /// Number of bytes per second; how it follows from the rest depends on the format.
    pub avg_bytes_per_second: u32,
    /// Size in bytes of one block of sample frames.
    pub block_align: u16,
    /// Number of bits in one sample.
    pub bits_per_sample: u16,
    /// WAVEFORMATEX only: the number of extra bytes that follow.
    pub extra_bytes_size: Option<u16>,
    /// WAVEFORMATEX only: the extra bytes.
    pub extra_bytes: Option<Vec<u8>>,
    /// Number of samples per ADPCM block.
    pub samples_per_block: Option<u16>,
    /// Number of ADPCM coefficient pairs.
    pub coefficient_count: Option<u16>,
    /// The ADPCM coefficient pairs, four bytes each.
    pub coefficients: Option<Vec<u8>>,
}

/// The metadata of a file whose `fmt ` chunk has not been read.
pub open spec fn default_fmt() -> FmtMetadata {
    FmtMetadata {
        compression_code: CompressionCode::Unknown,
        number_of_channels: 0,
        sample_rate_per_second: 0,
        avg_bytes_per_second: 0,
        block_align: 0,
        bits_per_sample: 0,
        extra_bytes_size: None,
        extra_bytes: None,
        samples_per_block: None,
        coefficient_count: None,
        coefficients: None,
    }
}

impl Default for FmtMetadata {
    fn default() -> (res: FmtMetadata)
        ensures
            res == default_fmt(),
    {
        FmtMetadata {
            compression_code: CompressionCode::Unknown,
            number_of_channels: 0,
            sample_rate_per_second: 0,
            avg_bytes_per_second: 0,
            block_align: 0,
            bits_per_sample: 0,
            extra_bytes_size: None,
            extra_bytes: None,
            samples_per_block: None,
            coefficient_count: None,
            coefficients: None,
        }
    }
}

/// Decoded samples: unsigned bytes for 8-bit data, signed 16-bit values otherwise.
#[derive(Debug, Clone, PartialEq, Eq)]
pub enum AudioData {
    U8(Vec<u8>),
    I16(Vec<i16>),
}

/// What a waveform renderer needs of a parsed file.
#[derive(Debug, Clone)]
pub struct WaveParserContext {
    pub sample_rate: u32,
    pub channels: u16,
    pub compression_code: CompressionCode,
    pub samples: Option<AudioData>,
}

/// The unsigned 16-bit little-endian number at `at` in `d`.
pub open spec fn le16(d: Seq<u8>, at: int) -> u16 {
    le_value(d.subrange(at, at + 2)) as u16
}

/// The unsigned 32-bit little-endian number at `at` in `d`.
pub open spec fn le32(d: Seq<u8>, at: int) -> u32 {
    le_value(d.subrange(at, at + 4)) as u32
}

/// The signed 16-bit number whose little-endian bytes are `b0 b1`.
pub open spec fn i16_from_le(b0: u8, b1: u8) -> i16 {
    let v = b0 + 256 * b1;
    if v < 32768 {
        v as i16
    } else {
        (v - 65536) as i16
    }
}

/// The signed 16-bit little-endian number at `at` in `d`.
pub open spec fn le_i16(d: Seq<u8>, at: int) -> i16 {
    i16_from_le(d[at], d[at + 1])
}

/// Reads the signed 16-bit little-endian number at `at`.
pub fn i16_at(data: &[u8], at: usize) -> (res: i16)
    requires
        at + 2 <= data@.len(),
    ensures
        res == le_i16(data@, at as int),
{
    let v: u16 = data[at] as u16 + 256 * (data[at + 1] as u16);
    if v < 32768 {
        v as i16
    } else {
        (v as i32 - 65536) as i16
    }
}

/// The six fields that every `fmt ` chunk starts with; the optional fields are left empty.
pub open spec fn base_fmt_of(d: Seq<u8>) -> FmtMetadata {
    FmtMetadata {
        compression_code: compression_code_of(le16(d, 0)),
        number_of_channels: le16(d, 2),
        sample_rate_per_second: le32(d, 4),
        avg_bytes_per_second: le32(d, 8),
        block_align: le16(d, 12),
        bits_per_sample: le16(d, 14),
        extra_bytes_size: None,
        extra_bytes: None,
        samples_per_block: None,
        coefficient_count: None,
        coefficients: None,
    }
}

/// The common part of a `fmt ` chunk as it is written: format tag, channels, sample rate,
/// average bytes per second, block align and bits per sample, each little-endian, in 2,
/// 2, 4, 4, 2 and 2 bytes.
pub open spec fn fmt_fields_bytes(
    code: u16,
    channels: u16,
    rate: u32,
    avg: u32,
    block_align: u16,
    bits: u16,
) -> Seq<u8> {
    le_encoding(code as nat, 2) + le_encoding(channels as nat, 2) + le_encoding(rate as nat, 4)
        + le_encoding(avg as nat, 4) + le_encoding(block_align as nat, 2) + le_encoding(
        bits as nat,
        2,
    )
}

/// Reading the common fields of a `fmt ` chunk written in that layout, whatever follows
/// them, gives back each field from its own place, and the format its tag names.
pub proof fn fmt_fields_from_layout(
    code: u16,
    channels: u16,
    rate: u32,
    avg: u32,
    block_align: u16,
    bits: u16,
    rest: Seq<u8>,
)
    ensures
        ({
            let m = base_fmt_of(fmt_fields_bytes(code, channels, rate, avg, block_align, bits) + rest);
            &&& m.compression_code == compression_code_of(code)
            &&& m.number_of_channels == channels
            &&& m.sample_rate_per_second == rate
            &&& m.avg_bytes_per_second == avg
            &&& m.block_align == block_align
            &&& m.bits_per_sample == bits
        }),
{
    reveal_with_fuel(pow256, 5);
    le_value_of_encoding(code as nat, 2);
    le_value_of_encoding(channels as nat, 2);
    le_value_of_encoding(rate as nat, 4);
    le_value_of_encoding(avg as nat, 4);
    le_value_of_encoding(block_align as nat, 2);
    le_value_of_encoding(bits as nat, 2);
    let d = fmt_fields_bytes(code, channels, rate, avg, block_align, bits) + rest;
    assert(d.subrange(0, 2) =~= le_encoding(code as nat, 2));
    assert(d.subrange(2, 4) =~= le_encoding(channels as nat, 2));
    assert(d.subrange(4, 8) =~= le_encoding(rate as nat, 4));
    assert(d.subrange(8, 12) =~= le_encoding(avg as nat, 4));
    assert(d.subrange(12, 14) =~= le_encoding(block_align as nat, 2));
    assert(d.subrange(14, 16) =~= le_encoding(bits as nat, 2));
}

/// The message for a `fmt ` chunk that declares no channel.
pub open spec fn no_channel_text() -> Seq<char> {
    numbered_text("The channels should be more than 1, instead we got: "@, 0, ""@)
}

/// How reading the common part of a `fmt ` chunk fails, if it does.
pub open spec fn base_fmt_failure(d: Seq<u8>) -> Option<Failure> {
    if d.len() < 4 {
        Some(Failure::Range)
    } else if le16(d, 2) == 0 {
        Some(Failure::Header(no_channel_text()))
    } else if d.len() < 16 {
        Some(Failure::Range)
    } else {
        None
    }
}

/// What reading the common part of a `fmt ` chunk gives.
pub open spec fn base_fmt_result(d: Seq<u8>, res: Result<FmtMetadata, AudioParserError>) -> bool {
    match base_fmt_failure(d) {
        Some(f) => fails_with(res, f),
        None => res == Ok::<FmtMetadata, AudioParserError>(base_fmt_of(d)),
    }
}

/// Reads the fields that every `fmt ` chunk starts with.
pub fn parse_base_fmt_metadata(data: &[u8]) -> (res: Result<FmtMetadata, AudioParserError>)
    ensures
        base_fmt_result(data@, res),
{
    let code: u16 = convert_to_number(data, 0, 2)?;
    let compression_code = parse_compression_code(code);
    let number_of_channels: u16 = convert_to_number(data, 2, 4)?;
    if number_of_channels < 1 {
        return Err(
            numbered_error(
                "The channels should be more than 1, instead we got: ",
                number_of_channels as u64,
                "",
            ),
        );
    }
    let sample_rate_per_second: u32 = convert_to_number(data, 4, 8)?;
    let avg_bytes_per_second: u32 = convert_to_number(data, 8, 12)?;
    let block_align: u16 = convert_to_number(data, 12, 14)?;
    let bits_per_sample: u16 = convert_to_number(data, 14, 16)?;
    Ok(
        FmtMetadata {
            compression_code,
            number_of_channels,
            sample_rate_per_second,
            avg_bytes_per_second,
            block_align,
            bits_per_sample,
            extra_bytes_size: None,
            extra_bytes: None,
            samples_per_block: None,
            coefficient_count: None,
            coefficients: None,
        },
    )
}

/// The bytes an optional buffer holds.
pub open spec fn opt_bytes(o: Option<Vec<u8>>) -> Option<Seq<u8>> {
    match o {
        Some(v) => Some(v@),
        None => None,
    }
}

/// `m` holds the six common fields of `b` and the given optional fields.
pub open spec fn fmt_with(
    m: FmtMetadata,
    b: FmtMetadata,
    extra_bytes_size: Option<u16>,
    extra_bytes: Option<Seq<u8>>,
    samples_per_block: Option<u16>,
    coefficient_count: Option<u16>,
    coefficients: Option<Seq<u8>>,
) -> bool {
    &&& m.compression_code == b.compression_code
    &&& m.number_of_channels == b.number_of_channels
    &&& m.sample_rate_per_second == b.sample_rate_per_second
    &&& m.avg_bytes_per_second == b.avg_bytes_per_second
    &&& m.block_align == b.block_align
    &&& m.bits_per_sample == b.bits_per_sample
    &&& m.extra_bytes_size == extra_bytes_size
    &&& opt_bytes(m.extra_bytes) == extra_bytes
    &&& m.samples_per_block == samples_per_block
    &&& m.coefficient_count == coefficient_count
    &&& opt_bytes(m.coefficients) == coefficients
}

/// The data rate of an ADPCM stream, rounded down: one block per `samples_per_block`
/// sample frames.
pub open spec fn adpcm_avg_bytes_per_second_spec(
    rate: u32,
    samples_per_block: u16,
    block_align: u16,
) -> nat {
    (rate as nat * block_align as nat / samples_per_block as nat) as nat
}

/// The data rate of an ADPCM stream is the whole number of bytes per second that blocks
/// of `block_align` bytes, each holding `samples_per_block` sample frames, take at `rate`
/// frames per second, rounded down: it times the samples per block is at most
/// `rate * block_align`, and one more would exceed it.
pub proof fn adpcm_avg_bytes_rounds_down(rate: u32, samples_per_block: u16, block_align: u16)
    requires
        samples_per_block > 0,
    ensures
        adpcm_avg_bytes_per_second_spec(rate, samples_per_block, block_align) * samples_per_block
            <= rate * block_align,
        rate * block_align < (adpcm_avg_bytes_per_second_spec(rate, samples_per_block, block_align)
            + 1) * samples_per_block,
{
    let a = rate as int * block_align as int;
    let n = samples_per_block as int;
    assert((a / n) * n <= a && a < (a / n + 1) * n) by (nonlinear_arith)
        requires
            n > 0,
            a >= 0,
    ;
}

/// A decoder for one WAV format.
pub trait WAVCodec {
    /// The format tag this decoder handles.
    fn compression_code(&self) -> CompressionCode;

    /// Decodes the payload of a `data` chunk.
    fn parse_audio_data(&self, data: &[u8], metadata: &FmtMetadata) -> Result<
        AudioData,
        AudioParserError,
    >;

    /// Reads and checks a `fmt ` chunk.
    fn parse_fmt_metadata(&self, data: &[u8]) -> Result<FmtMetadata, AudioParserError>;
}

} // verus!
