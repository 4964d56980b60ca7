use crate::audio_parser::errors::{
    fails_with, header_error, mismatch_error, mismatch_text, AudioParserError, Failure,
};
use crate::audio_parser::utils::{i16_le_bytes, i16_le_roundtrip, le_value, CompressionCode};
use crate::parser::wav::base::{
    base_fmt_failure, base_fmt_of, i16_at, le_i16, parse_base_fmt_metadata, AudioData,
    FmtMetadata, WAVCodec,
};
use vstd::prelude::*;

verus! {

/// Uncompressed PCM audio.
#[derive(Debug)]
pub struct PCMCodec {}

/// The block align that PCM needs for `channels` samples of `bits` bits.
pub open spec fn pcm_block_align(channels: u16, bits: u16) -> nat {
    (channels * bits / 8) as nat
}

/// The data rate that PCM needs.
pub open spec fn pcm_avg_bytes_per_second(rate: u32, block_align: u16) -> nat {
    (rate * block_align) as nat
}

/// How reading a PCM `fmt ` chunk fails, if it does.
pub open spec fn pcm_fmt_failure(d: Seq<u8>) -> Option<Failure> {
    let b = base_fmt_of(d);
    if base_fmt_failure(d) is Some {
        base_fmt_failure(d)
    } else if pcm_block_align(b.number_of_channels, b.bits_per_sample) != b.block_align {
        Some(
            Failure::Header(
                mismatch_text(
                    "the block align"@,
                    pcm_block_align(b.number_of_channels, b.bits_per_sample),
                    b.block_align as nat,
                ),
            ),
        )
    } else if pcm_avg_bytes_per_second(b.sample_rate_per_second, b.block_align)
        != b.avg_bytes_per_second {
        Some(
            Failure::Header(
                mismatch_text(
                    "average bytes per second"@,
                    pcm_avg_bytes_per_second(b.sample_rate_per_second, b.block_align),
                    b.avg_bytes_per_second as nat,
                ),
            ),
        )
    } else {
        None
    }
}

/// What reading a PCM `fmt ` chunk gives: on success, the common fields alone.
pub open spec fn pcm_fmt_result(d: Seq<u8>, res: Result<FmtMetadata, AudioParserError>) -> bool {
    match pcm_fmt_failure(d) {
        Some(f) => fails_with(res, f),
        None => res == Ok::<FmtMetadata, AudioParserError>(base_fmt_of(d)),
    }
}

/// The PCM layouts that can be decoded: mono or stereo, 8 or 16 bits.
pub open spec fn pcm_layout_supported(channels: u16, bits: u16) -> bool {
    (channels == 1 || channels == 2) && (bits == 8 || bits == 16)
}

/// The 8-bit samples of the `frames` whole blocks of `d`, channels interleaved.
pub open spec fn pcm_u8_samples(d: Seq<u8>, block_align: nat, channels: nat) -> Seq<u8> {
    Seq::new(
        (d.len() / block_align) * channels,
        |j: int| d[(j / channels as int) * block_align + j % channels as int],
    )
}

/// The 16-bit samples of the whole blocks of `d`, channels interleaved.
pub open spec fn pcm_i16_samples(d: Seq<u8>, block_align: nat, channels: nat) -> Seq<i16> {
    Seq::new(
        (d.len() / block_align) * channels,
        |j: int| le_i16(d, (j / channels as int) * block_align + 2 * (j % channels as int)),
    )
}

/// The message for a block align of zero.
pub open spec fn zero_block_align_text() -> Seq<char> {
    "The block align should not be zero"@
}

/// The message for PCM data whose layout cannot be decoded.
pub open spec fn unsupported_pcm_text() -> Seq<char> {
    "Unsupported PCM sample layout"@
}

/// How decoding PCM data `d` with metadata `m` fails, if it does.
pub open spec fn pcm_data_failure(d: Seq<u8>, m: FmtMetadata) -> Option<Failure> {
    let ch = m.number_of_channels;
    let bits = m.bits_per_sample;
    let ba = m.block_align;
    if ba == 0 {
        Some(Failure::Header(zero_block_align_text()))
    } else if d.len() >= ba && (!pcm_layout_supported(ch, bits) || ba < pcm_block_align(
        ch,
        bits,
    )) {
        Some(Failure::Header(unsupported_pcm_text()))
    } else {
        None
    }
}

/// The samples decoded from PCM data `d` with metadata `m`, when decoding succeeds.
pub open spec fn pcm_samples_ok(d: Seq<u8>, m: FmtMetadata, data: AudioData) -> bool {
    let ch = m.number_of_channels;
    let ba = m.block_align;
    if m.bits_per_sample == 8 {
        data matches AudioData::U8(v) && v@ == pcm_u8_samples(d, ba as nat, ch as nat)
    } else {
        data matches AudioData::I16(v) && v@ == pcm_i16_samples(d, ba as nat, ch as nat)
    }
}

/// What decoding PCM data `d` with metadata `m` gives.
pub open spec fn pcm_data_result(
    d: Seq<u8>,
    m: FmtMetadata,
    res: Result<AudioData, AudioParserError>,
) -> bool {
    match pcm_data_failure(d, m) {
        Some(f) => fails_with(res, f),
        None => res matches Ok(data) && pcm_samples_ok(d, m, data),
    }
}

proof fn lemma_u16_product(a: u16, b: u16)
    ensures
        a * b <= 0xffff_ffff,
{
    assert(a * b <= 0xffff_ffff) by (nonlinear_arith)
        requires
            a <= 0xffff,
            b <= 0xffff,
    ;
}

proof fn lemma_u32_u16_product(a: u32, b: u16)
    ensures
        a * b <= 0xffff_ffff_ffff_ffff,
{
    assert(a * b <= 0xffff_ffff_ffff_ffff) by (nonlinear_arith)
        requires
            a <= 0xffff_ffff,
            b <= 0xffff,
    ;
}

proof fn lemma_block_count(len: int, ba: int, k: int)
    requires
        ba > 0,
        0 <= k,
        k * ba <= len < k * ba + ba,
    ensures
        len / ba == k,
{
    assert(len / ba == k) by (nonlinear_arith)
        requires
            ba > 0,
            0 <= k,
            k * ba <= len < k * ba + ba,
    ;
}

fn decode_u8_frames(data: &[u8], block_align: usize, channels: usize) -> (out: Vec<u8>)
    requires
        channels == 1 || channels == 2,
        block_align >= channels,
    ensures
        out@ == pcm_u8_samples(data@, block_align as nat, channels as nat),
{
    let mut out: Vec<u8> = Vec::new();
    let mut offset: usize = 0;
    let ghost mut k: int = 0;
    while offset <= data.len() && block_align <= data.len() - offset
        invariant
            channels == 1 || channels == 2,
            block_align >= channels,
            0 <= k,
            offset == k * block_align,
            offset <= data@.len(),
            out@.len() == k * channels,
            forall|j: int|
                0 <= j < out@.len() ==> #[trigger] out@[j] == data@[(j / channels as int)
                    * block_align + j % channels as int],
        decreases data@.len() - offset,
    {
        proof {
            assert((k + 1) * block_align == k * block_align + block_align) by (nonlinear_arith);
        }
        let ghost before = out@;
        out.push(data[offset]);
        if channels == 2 {
            out.push(data[offset + 1]);
        }
        proof {
            assert forall|j: int| 0 <= j < out@.len() implies #[trigger] out@[j] == data@[(j
                / channels as int) * block_align + j % channels as int] by {
                if j >= before.len() {
                    assert(j / channels as int == k);
                }
            }
            k = k + 1;
        }
        offset = offset + block_align;
    }
    proof {
        lemma_block_count(data@.len() as int, block_align as int, k);
        assert(out@ =~= pcm_u8_samples(data@, block_align as nat, channels as nat));
    }
    out
}

fn decode_i16_frames(data: &[u8], block_align: usize, channels: usize) -> (out: Vec<i16>)
    requires
        channels == 1 || channels == 2,
        block_align >= 2 * channels,
    ensures
        out@ == pcm_i16_samples(data@, block_align as nat, channels as nat),
{
    let mut out: Vec<i16> = Vec::new();
    let mut offset: usize = 0;
    let ghost mut k: int = 0;
    while offset <= data.len() && block_align <= data.len() - offset
        invariant
            channels == 1 || channels == 2,
            block_align >= 2 * channels,
            0 <= k,
            offset == k * block_align,
            offset <= data@.len(),
            out@.len() == k * channels,
            forall|j: int|
                0 <= j < out@.len() ==> #[trigger] out@[j] == le_i16(
                    data@,
                    (j / channels as int) * block_align + 2 * (j % channels as int),
                ),
        decreases data@.len() - offset,
    {
        proof {
            assert((k + 1) * block_align == k * block_align + block_align) by (nonlinear_arith);
        }
        let ghost before = out@;
        out.push(i16_at(data, offset));
        if channels == 2 {
            out.push(i16_at(data, offset + 2));
        }
        proof {
            assert forall|j: int| 0 <= j < out@.len() implies #[trigger] out@[j] == le_i16(
                data@,
                (j / channels as int) * block_align + 2 * (j % channels as int),
            ) by {
                if j >= before.len() {
                    assert(j / channels as int == k);
                }
            }
            k = k + 1;
        }
        offset = offset + block_align;
    }
    proof {
        lemma_block_count(data@.len() as int, block_align as int, k);
        assert(out@ =~= pcm_i16_samples(data@, block_align as nat, channels as nat));
    }
    out
}

impl PCMCodec {
    /// Reads and checks a PCM `fmt ` chunk: the block align must be the size of one
    /// frame and the data rate must be one block per sample.
    pub fn parse_fmt_metadata(&self, data: &[u8]) -> (res: Result<FmtMetadata, AudioParserError>)
        ensures
            pcm_fmt_result(data@, res),
    {
        let metadata = parse_base_fmt_metadata(data)?;
        proof {
            lemma_u16_product(metadata.number_of_channels, metadata.bits_per_sample);
            lemma_u32_u16_product(metadata.sample_rate_per_second, metadata.block_align);
        }
        let calculated_block_align: u32 = metadata.number_of_channels as u32
            * metadata.bits_per_sample as u32 / 8;
        if calculated_block_align != metadata.block_align as u32 {
            return Err(
                mismatch_error(
                    "the block align",
                    calculated_block_align as u64,
                    metadata.block_align as u64,
                ),
            );
        }
        let calculated_avg_bytes_per_second: u64 = metadata.sample_rate_per_second as u64
            * metadata.block_align as u64;
        if calculated_avg_bytes_per_second != metadata.avg_bytes_per_second as u64 {
            return Err(
                mismatch_error(
                    "average bytes per second",
                    calculated_avg_bytes_per_second,
                    metadata.avg_bytes_per_second as u64,
                ),
            );
        }
        Ok(metadata)
    }

    /// Decodes PCM samples, one block per frame; bytes after the last whole block are
    /// ignored.
    pub fn parse_audio_data(&self, data: &[u8], fmt_metadata: &FmtMetadata) -> (res: Result<
        AudioData,
        AudioParserError,
    >)
        ensures
            pcm_data_result(data@, *fmt_metadata, res),
    {
        let number_of_channels = fmt_metadata.number_of_channels;
        let bits_per_sample = fmt_metadata.bits_per_sample;
        let block_align = fmt_metadata.block_align;
        if block_align == 0 {
            return Err(header_error("The block align should not be zero"));
        }
        if data.len() < block_align as usize {
            proof {
                assert(data@.len() / (block_align as nat) == 0) by (nonlinear_arith)
                    requires
                        data@.len() < block_align,
                ;
            }
            if bits_per_sample == 8 {
                let empty: Vec<u8> = Vec::new();
                assert(empty@ =~= pcm_u8_samples(data@, block_align as nat, number_of_channels as nat));
                return Ok(AudioData::U8(empty));
            } else {
                let empty: Vec<i16> = Vec::new();
                assert(empty@ =~= pcm_i16_samples(data@, block_align as nat, number_of_channels as nat));
                return Ok(AudioData::I16(empty));
            }
        }
        proof {
            lemma_u16_product(number_of_channels, bits_per_sample);
        }
        if !((number_of_channels == 1 || number_of_channels == 2) && (bits_per_sample == 8
            || bits_per_sample == 16)) || (block_align as u32) < (number_of_channels as u32)
            * (bits_per_sample as u32) / 8 {
            return Err(header_error("Unsupported PCM sample layout"));
        }
        if bits_per_sample == 8 {
            Ok(AudioData::U8(decode_u8_frames(data, block_align as usize, number_of_channels as usize)))
        } else {
            Ok(AudioData::I16(decode_i16_frames(data, block_align as usize, number_of_channels as usize)))
        }
    }
}

/// A `fmt ` chunk that passes the PCM checks and names a mono or stereo layout of 8 or 16
/// bits lets its data be decoded, whatever the data holds, and the data gives one sample
/// per channel for each whole block.
pub proof fn pcm_checked_fmt_decodes(p: Seq<u8>, d: Seq<u8>)
    requires
        pcm_fmt_failure(p) is None,
        pcm_layout_supported(base_fmt_of(p).number_of_channels, base_fmt_of(p).bits_per_sample),
    ensures
        pcm_data_failure(d, base_fmt_of(p)) is None,
        pcm_u8_samples(d, base_fmt_of(p).block_align as nat, base_fmt_of(p).number_of_channels as nat).len()
            == d.len() / (base_fmt_of(p).block_align as nat) * base_fmt_of(p).number_of_channels,
        pcm_i16_samples(d, base_fmt_of(p).block_align as nat, base_fmt_of(p).number_of_channels as nat).len()
            == d.len() / (base_fmt_of(p).block_align as nat) * base_fmt_of(p).number_of_channels,
{
}

/// The bytes of the 16-bit samples `v`, each written little-endian in turn.
pub open spec fn i16_stream(v: Seq<i16>) -> Seq<u8> {
    Seq::new(2 * v.len(), |i: int| i16_le_bytes(v[i / 2])[i % 2])
}

proof fn lemma_frame_index(j: int, ch: int)
    requires
        ch == 1 || ch == 2,
        0 <= j,
    ensures
        (j / ch) * ch + j % ch == j,
        (j / ch) * (2 * ch) + 2 * (j % ch) == 2 * j,
{
    assert((j / ch) * ch + j % ch == j) by (nonlinear_arith)
        requires
            ch > 0,
    ;
    assert((j / ch) * (2 * ch) == 2 * ((j / ch) * ch)) by (nonlinear_arith);
}

/// 16-bit PCM data written frame by frame, each frame holding its channels' samples in
/// order (left, then right, in stereo), decodes to exactly those samples: block `k`
/// gives the samples at positions `k * channels` onwards, and no channel is taken from
/// another's bytes.
pub proof fn pcm_i16_stream_decodes(v: Seq<i16>, channels: u16)
    requires
        channels == 1 || channels == 2,
        (v.len() as int) % (channels as int) == 0,
    ensures
        pcm_i16_samples(i16_stream(v), 2 * channels as nat, channels as nat) == v,
{
    let ch = channels as int;
    let d = i16_stream(v);
    let n = v.len() as int;
    assert((2 * n) / (2 * ch) * ch == n) by (nonlinear_arith)
        requires
            ch == 1 || ch == 2,
            n % ch == 0,
            n >= 0,
    ;
    let out = pcm_i16_samples(d, 2 * channels as nat, channels as nat);
    assert forall|j: int| 0 <= j < n implies #[trigger] out[j] == v[j] by {
        lemma_frame_index(j, ch);
        i16_le_roundtrip(v[j]);
        let e = i16_le_bytes(v[j]);
        reveal_with_fuel(le_value, 3);
        assert(d[2 * j] == e[0]) by {
            assert((2 * j) / 2 == j);
            assert((2 * j) % 2 == 0);
        }
        assert(d[2 * j + 1] == e[1]) by {
            assert((2 * j + 1) / 2 == j);
            assert((2 * j + 1) % 2 == 1);
        }
        assert(e.drop_first().drop_first().len() == 0);
    }
    assert(out =~= v);
}

/// 8-bit PCM data with one byte per channel in each block decodes to its bytes, in order,
/// up to the last whole block.
pub proof fn pcm_u8_bytes_decode(d: Seq<u8>, channels: u16)
    requires
        channels == 1 || channels == 2,
    ensures
        pcm_u8_samples(d, channels as nat, channels as nat) == d.take(
            (d.len() / (channels as nat) * (channels as nat)) as int,
        ),
{
    let ch = channels as int;
    let n = d.len() as int;
    assert(n / ch * ch <= n) by (nonlinear_arith)
        requires
            ch == 1 || ch == 2,
            n >= 0,
    ;
    let out = pcm_u8_samples(d, channels as nat, channels as nat);
    assert forall|j: int| 0 <= j < n / ch * ch implies #[trigger] out[j] == d[j] by {
        lemma_frame_index(j, ch);
    }
    assert(out =~= d.take(n / ch * ch));
}

impl WAVCodec for PCMCodec {
    fn compression_code(&self) -> (res: CompressionCode)
        ensures
            res == CompressionCode::Pcm,
    {
        CompressionCode::Pcm
    }

    fn parse_audio_data(&self, data: &[u8], metadata: &FmtMetadata) -> (res: Result<
        AudioData,
        AudioParserError,
    >)
        ensures
            pcm_data_result(data@, *metadata, res),
    {
        PCMCodec::parse_audio_data(self, data, metadata)
    }

    fn parse_fmt_metadata(&self, data: &[u8]) -> (res: Result<FmtMetadata, AudioParserError>)
        ensures
            pcm_fmt_result(data@, res),
    {
        PCMCodec::parse_fmt_metadata(self, data)
    }
}

} // verus!
