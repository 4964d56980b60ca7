use crate::audio_parser::errors::{
    fails_with, Failure, header_error, mismatch_error, mismatch_text, numbered_error,
    numbered_text, range_error, AudioParserError,
};
use crate::audio_parser::utils::{convert_to_number, CompressionCode};
use crate::parser::wav::base::{
    adpcm_avg_bytes_per_second_spec, base_fmt_failure, base_fmt_of, fmt_with, i16_at, le16,
    le_i16, parse_base_fmt_metadata, AudioData, FmtMetadata, WAVCodec,
};
use vstd::prelude::*;

verus! {

/// Microsoft ADPCM samples are always 4 bits wide.
pub const ADPCM_BITS_PER_SAMPLE: u16 = 4;

/// The predictor state of one channel while a block is decoded.
#[derive(Debug, Clone, Copy, PartialEq, Eq, Structural)]
pub struct ADPCMChannelMetaData {
    pub predictor: u8,
    pub sample1: i16,
    pub sample2: i16,
    pub coeff1: i16,
    pub coeff2: i16,
    pub delta: i16,
}

/// Microsoft ADPCM audio.
#[derive(Debug)]
pub struct MSAdpcmCodec {}

/// The factor by which the step size adapts after a nibble, over 256.
pub open spec fn adaptation_factor_spec(nibble: u8) -> int {
    if nibble < 4 {
        230
    } else if nibble == 4 {
        307
    } else if nibble == 5 {
        409
    } else if nibble == 6 {
        512
    } else if nibble == 7 {
        614
    } else if nibble == 8 {
        768
    } else if nibble == 9 {
        614
    } else if nibble == 10 {
        512
    } else if nibble == 11 {
        409
    } else if nibble == 12 {
        307
    } else {
        230
    }
}

fn adaptation_factor(nibble: u8) -> (res: i64)
    requires
        nibble < 16,
    ensures
        res == adaptation_factor_spec(nibble),
{
    match nibble {
        4 => 307,
        5 => 409,
        6 => 512,
        7 => 614,
        8 => 768,
        9 => 614,
        10 => 512,
        11 => 409,
        12 => 307,
        _ => 230,
    }
}

/// `x / 256`, rounded toward zero as Rust's integer division does.
pub open spec fn div256(x: int) -> int {
    if x >= 0 {
        x / 256
    } else {
        -((-x) / 256)
    }
}

/// The nibble read as a signed 4-bit number.
pub open spec fn signed_nibble(nibble: u8) -> int {
    if nibble >= 8 {
        nibble - 16
    } else {
        nibble as int
    }
}

/// `x` limited to the range of `i16`.
pub open spec fn clamp_i16(x: int) -> int {
    if x < -32768 {
        -32768
    } else if x > 32767 {
        32767
    } else {
        x
    }
}

/// The sample that the channel predicts from its last two samples.
pub open spec fn predicted_sample(c: ADPCMChannelMetaData) -> int {
    div256(c.sample1 * c.coeff1 + c.sample2 * c.coeff2)
}

/// The channel after it has decoded `nibble`: the new sample becomes `sample1`.
pub open spec fn adpcm_step(c: ADPCMChannelMetaData, nibble: u8) -> ADPCMChannelMetaData {
    let sample = clamp_i16(predicted_sample(c) + c.delta * signed_nibble(nibble));
    let scaled = div256(c.delta * adaptation_factor_spec(nibble));
    let delta = if scaled < 16 {
        16
    } else {
        scaled
    };
    ADPCMChannelMetaData {
        predictor: c.predictor,
        sample1: sample as i16,
        sample2: c.sample1,
        coeff1: c.coeff1,
        coeff2: c.coeff2,
        delta: #[verifier::truncate] (delta as i16),
    }
}

/// Decodes one data byte: the high nibble belongs to the first channel, the low nibble to
/// the second channel in stereo and to the first again in mono.
pub open spec fn adpcm_byte(
    st: (ADPCMChannelMetaData, ADPCMChannelMetaData),
    byte: u8,
    stereo: bool,
) -> ((ADPCMChannelMetaData, ADPCMChannelMetaData), Seq<i16>) {
    let high = byte / 16;
    let low = byte % 16;
    let first = adpcm_step(st.0, high);
    if stereo {
        let second = adpcm_step(st.1, low);
        ((first, second), seq![first.sample1, second.sample1])
    } else {
        let again = adpcm_step(first, low);
        ((again, st.1), seq![first.sample1, again.sample1])
    }
}

/// Decodes the data bytes of a block, in order, from the state `st`.
pub open spec fn adpcm_bytes(
    st: (ADPCMChannelMetaData, ADPCMChannelMetaData),
    bytes: Seq<u8>,
    stereo: bool,
) -> ((ADPCMChannelMetaData, ADPCMChannelMetaData), Seq<i16>)
    decreases bytes.len(),
{
    if bytes.len() == 0 {
        (st, seq![])
    } else {
        let (mid, out) = adpcm_bytes(st, bytes.drop_last(), stereo);
        let (last, more) = adpcm_byte(mid, bytes.last(), stereo);
        (last, out + more)
    }
}

/// The size of a block header: 7 bytes per channel.
pub open spec fn header_size(stereo: bool) -> nat {
    if stereo {
        14
    } else {
        7
    }
}

/// The channel whose header fields start at `s` in `d`; `k` is 0 for the first channel and
/// 1 for the second of a stereo block. Its coefficients come from the pair `coefs` holds at
/// its predictor.
pub open spec fn header_channel(
    d: Seq<u8>,
    s: int,
    k: int,
    stereo: bool,
    coefs: Seq<u8>,
) -> ADPCMChannelMetaData {
    let n: int = if stereo {
        2
    } else {
        1
    };
    let predictor = d[s + k];
    ADPCMChannelMetaData {
        predictor,
        delta: le_i16(d, s + n + 2 * k),
        sample1: le_i16(d, s + 3 * n + 2 * k),
        sample2: le_i16(d, s + 5 * n + 2 * k),
        coeff1: le_i16(coefs, 4 * predictor),
        coeff2: le_i16(coefs, 4 * predictor + 2),
    }
}

/// A channel that holds nothing yet.
pub open spec fn idle_channel() -> ADPCMChannelMetaData {
    ADPCMChannelMetaData { predictor: 0, sample1: 0, sample2: 0, coeff1: 0, coeff2: 0, delta: 0 }
}

/// Whether the block at `s` can be read: its header lies within `d` and the predictor of
/// each channel names a coefficient pair of `coefs`.
pub open spec fn header_readable(d: Seq<u8>, s: int, stereo: bool, coefs: Seq<u8>) -> bool {
    &&& s + header_size(stereo) <= d.len()
    &&& 4 * d[s] + 4 <= coefs.len()
    &&& stereo ==> 4 * d[s + 1] + 4 <= coefs.len()
}

/// The state at the start of the block at `s`.
pub open spec fn header_state(d: Seq<u8>, s: int, stereo: bool, coefs: Seq<u8>) -> (
    ADPCMChannelMetaData,
    ADPCMChannelMetaData,
) {
    (
        header_channel(d, s, 0, stereo, coefs),
        if stereo {
            header_channel(d, s, 1, stereo, coefs)
        } else {
            idle_channel()
        },
    )
}

/// The samples a block header holds: the older sample of each channel, then the newer.
pub open spec fn header_samples(
    st: (ADPCMChannelMetaData, ADPCMChannelMetaData),
    stereo: bool,
) -> Seq<i16> {
    if stereo {
        seq![st.0.sample2, st.1.sample2, st.0.sample1, st.1.sample1]
    } else {
        seq![st.0.sample2, st.0.sample1]
    }
}

/// The samples of the block at `s` with block align `ba`.
pub open spec fn block_samples(
    d: Seq<u8>,
    s: int,
    ba: int,
    stereo: bool,
    coefs: Seq<u8>,
) -> Seq<i16> {
    let st = header_state(d, s, stereo, coefs);
    let body = if ba > header_size(stereo) {
        d.subrange(s + header_size(stereo), s + ba)
    } else {
        seq![]
    };
    header_samples(st, stereo) + adpcm_bytes(st, body, stereo).1
}

/// How far the block at `s` reaches: the block align, or the header if that is longer.
pub open spec fn block_step(ba: int, stereo: bool) -> int {
    if ba > header_size(stereo) {
        ba
    } else {
        header_size(stereo) as int
    }
}

/// The samples of the blocks from `s` on, while a whole block remains; `None` when a block
/// cannot be read.
pub open spec fn adpcm_blocks(
    d: Seq<u8>,
    s: int,
    ba: int,
    stereo: bool,
    coefs: Seq<u8>,
) -> Option<Seq<i16>>
    decreases d.len() - s,
{
    if s < 0 || s + ba > d.len() {
        Some(seq![])
    } else if !header_readable(d, s, stereo, coefs) {
        None
    } else {
        match adpcm_blocks(d, s + block_step(ba, stereo), ba, stereo, coefs) {
            Some(rest) => Some(block_samples(d, s, ba, stereo, coefs) + rest),
            None => None,
        }
    }
}

/// The coefficient bytes of the metadata; none when it holds none.
pub open spec fn coefficient_bytes(m: FmtMetadata) -> Seq<u8> {
    match m.coefficients {
        Some(v) => v@,
        None => seq![],
    }
}

/// What decoding Microsoft ADPCM data `d` with metadata `m` gives: the samples of all whole
/// blocks, or a range error when a block header or a coefficient cannot be read.
pub open spec fn ms_adpcm_data_result(
    d: Seq<u8>,
    m: FmtMetadata,
    res: Result<AudioData, AudioParserError>,
) -> bool {
    match adpcm_blocks(d, 0, m.block_align as int, m.number_of_channels == 2, coefficient_bytes(m)) {
        Some(samples) => res matches Ok(AudioData::I16(v)) && v@ == samples,
        None => fails_with(res, Failure::Range),
    }
}

proof fn lemma_product_bound(a: i16, b: i16)
    ensures
        -1073741824 <= a * b <= 1073741824,
{
    assert(-1073741824 <= a * b <= 1073741824) by (nonlinear_arith)
        requires
            -32768 <= a <= 32767,
            -32768 <= b <= 32767,
    ;
}

proof fn lemma_step_bound(delta: i16, e: int)
    requires
        -16 <= e <= 16,
    ensures
        -524288 <= delta * e <= 524288,
{
    assert(-524288 <= delta * e <= 524288) by (nonlinear_arith)
        requires
            -32768 <= delta <= 32767,
            -16 <= e <= 16,
    ;
}

proof fn lemma_scale_bound(delta: i16, f: int)
    requires
        0 <= f <= 768,
    ensures
        -25165824 <= delta * f <= 25165824,
{
    assert(-25165824 <= delta * f <= 25165824) by (nonlinear_arith)
        requires
            -32768 <= delta <= 32767,
            0 <= f <= 768,
    ;
}

fn div256_exec(x: i64) -> (res: i64)
    requires
        -0x7fff_ffff_ffff <= x <= 0x7fff_ffff_ffff,
    ensures
        res == div256(x as int),
{
    if x >= 0 {
        x / 256
    } else {
        -((-x) / 256)
    }
}

/// Decodes one nibble on one channel.
fn step_channel(c: ADPCMChannelMetaData, nibble: u8) -> (res: ADPCMChannelMetaData)
    requires
        nibble < 16,
    ensures
        res == adpcm_step(c, nibble),
{
    proof {
        lemma_product_bound(c.sample1, c.coeff1);
        lemma_product_bound(c.sample2, c.coeff2);
    }
    let sum: i64 = c.sample1 as i64 * c.coeff1 as i64 + c.sample2 as i64 * c.coeff2 as i64;
    let predicted = div256_exec(sum);
    let error: i64 = if nibble >= 8 {
        nibble as i64 - 16
    } else {
        nibble as i64
    };
    proof {
        lemma_step_bound(c.delta, error as int);
    }
    let raw: i64 = predicted + c.delta as i64 * error;
    let sample: i64 = if raw < -32768 {
        -32768
    } else if raw > 32767 {
        32767
    } else {
        raw
    };
    let factor = adaptation_factor(nibble);
    proof {
        lemma_scale_bound(c.delta, factor as int);
    }
    let scaled = div256_exec(c.delta as i64 * factor);
    let delta: i64 = if scaled < 16 {
        16
    } else {
        scaled
    };
    ADPCMChannelMetaData {
        predictor: c.predictor,
        sample1: sample as i16,
        sample2: c.sample1,
        coeff1: c.coeff1,
        coeff2: c.coeff2,
        delta: #[verifier::truncate] (delta as i16),
    }
}

/// `p` in front of the samples `o` holds, if it holds any.
pub open spec fn prepend_samples(p: Seq<i16>, o: Option<Seq<i16>>) -> Option<Seq<i16>> {
    match o {
        Some(r) => Some(p + r),
        None => None,
    }
}

fn read_header_channel(data: &[u8], s: usize, k: usize, stereo: bool, coefs: &[u8]) -> (res:
    ADPCMChannelMetaData)
    requires
        header_readable(data@, s as int, stereo, coefs@),
        s + header_size(stereo) <= data.len(),
        k == 0 || (k == 1 && stereo),
    ensures
        res == header_channel(data@, s as int, k as int, stereo, coefs@),
{
    let n: usize = if stereo {
        2
    } else {
        1
    };
    let predictor = data[s + k];
    let at = 4 * (predictor as usize);
    ADPCMChannelMetaData {
        predictor,
        delta: i16_at(data, s + n + 2 * k),
        sample1: i16_at(data, s + 3 * n + 2 * k),
        sample2: i16_at(data, s + 5 * n + 2 * k),
        coeff1: i16_at(coefs, at),
        coeff2: i16_at(coefs, at + 2),
    }
}

/// Decodes the block at `s` onto `samples` and returns where the next block starts.
fn decode_block(
    data: &[u8],
    s: usize,
    block_align: usize,
    is_stereo: bool,
    coefficients: &[u8],
    samples: &mut Vec<i16>,
) -> (next: usize)
    requires
        header_readable(data@, s as int, is_stereo, coefficients@),
        s + block_align <= data.len(),
    ensures
        next == s + block_step(block_align as int, is_stereo),
        final(samples)@ == old(samples)@ + block_samples(
            data@,
            s as int,
            block_align as int,
            is_stereo,
            coefficients@,
        ),
{
    let header: usize = if is_stereo {
        14
    } else {
        7
    };
    let ghost d = data@;
    let ghost coefs = coefficients@;
    assert(header == header_size(is_stereo));
    assert(s + header <= data.len());
    let ghost before = samples@;
    let ghost st0 = header_state(d, s as int, is_stereo, coefs);
    let mut c0 = read_header_channel(data, s, 0, is_stereo, coefficients);
    let mut c1 = if is_stereo {
        read_header_channel(data, s, 1, is_stereo, coefficients)
    } else {
        ADPCMChannelMetaData { predictor: 0, sample1: 0, sample2: 0, coeff1: 0, coeff2: 0, delta: 0 }
    };
    samples.push(c0.sample2);
    if is_stereo {
        samples.push(c1.sample2);
    }
    samples.push(c0.sample1);
    if is_stereo {
        samples.push(c1.sample1);
    }
    let body_start = s + header;
    let body_end = if block_align > header {
        s + block_align
    } else {
        body_start
    };
    let mut i = body_start;
    proof {
        assert(d.subrange(body_start as int, i as int) =~= seq![]);
        assert(samples@ =~= before + header_samples(st0, is_stereo) + adpcm_bytes(
            st0,
            d.subrange(body_start as int, i as int),
            is_stereo,
        ).1);
    }
    while i < body_end
        invariant
            d == data@,
            body_start <= i <= body_end <= data@.len(),
            (c0, c1) == adpcm_bytes(st0, d.subrange(body_start as int, i as int), is_stereo).0,
            samples@ == before + header_samples(st0, is_stereo) + adpcm_bytes(
                st0,
                d.subrange(body_start as int, i as int),
                is_stereo,
            ).1,
        decreases body_end - i,
    {
        let byte = data[i];
        let high: u8 = byte >> 4;
        let low: u8 = byte & 0x0f;
        assert(high == byte / 16 && low == byte % 16) by (bit_vector)
            requires
                high == byte >> 4,
                low == byte & 0x0f,
        ;
        let ghost prev = adpcm_bytes(st0, d.subrange(body_start as int, i as int), is_stereo);
        c0 = step_channel(c0, high);
        samples.push(c0.sample1);
        if is_stereo {
            c1 = step_channel(c1, low);
            samples.push(c1.sample1);
        } else {
            c0 = step_channel(c0, low);
            samples.push(c0.sample1);
        }
        proof {
            let next = d.subrange(body_start as int, i + 1);
            assert(next.drop_last() =~= d.subrange(body_start as int, i as int));
            assert(next.last() == byte);
            let step = adpcm_byte(prev.0, byte, is_stereo);
            assert(adpcm_bytes(st0, next, is_stereo) == (step.0, prev.1 + step.1));
            assert(samples@ =~= before + header_samples(st0, is_stereo) + (prev.1 + step.1));
        }
        i = i + 1;
    }
    proof {
        let ba = block_align as int;
        let body = if ba > header_size(is_stereo) {
            d.subrange(s + header_size(is_stereo), s + ba)
        } else {
            seq![]
        };
        assert(d.subrange(body_start as int, i as int) =~= body);
        assert(samples@ =~= before + block_samples(d, s as int, ba, is_stereo, coefs));
    }
    i
}

/// The block align that Microsoft ADPCM uses for a given data rate in samples per second
/// (over all channels).
pub open spec fn adpcm_block_align_spec(rate: u32, channels: u16) -> u16 {
    let r = rate * channels;
    if r < 22000 {
        256
    } else if 22000 < r && r < 44000 {
        512
    } else {
        1024
    }
}

/// The block align for a data rate of `rate` samples per second on each of `channels`
/// channels follows a fixed table of the total rate: 256 bytes below 22000, 512 bytes
/// strictly between 22000 and 44000, and 1024 bytes from 44000 on and at 22000 itself.
pub proof fn adpcm_block_align_table(rate: u32, channels: u16)
    ensures
        rate * channels < 22000 ==> adpcm_block_align_spec(rate, channels) == 256,
        22000 < rate * channels < 44000 ==> adpcm_block_align_spec(rate, channels) == 512,
        rate * channels == 22000 ==> adpcm_block_align_spec(rate, channels) == 1024,
        rate * channels >= 44000 ==> adpcm_block_align_spec(rate, channels) == 1024,
{
}

/// The samples per channel in a Microsoft ADPCM block: two from the header, the rest from
/// the 4-bit deltas.
pub open spec fn adpcm_samples_per_block_spec(block_align: u16, channels: u16, bits: u16) -> int {
    (block_align - 7 * channels) * 8 / (bits * channels) as int + 2
}

/// The message for a block align that cannot hold the headers of all channels.
pub open spec fn short_block_text() -> Seq<char> {
    "The block align is too small for the number of channels"@
}

/// How reading a Microsoft ADPCM `fmt ` chunk fails, if it does.
pub open spec fn ms_fmt_failure(d: Seq<u8>) -> Option<Failure> {
    let b = base_fmt_of(d);
    let ch = b.number_of_channels;
    let ba = b.block_align;
    let extra = le16(d, 16);
    let spb = le16(d, 18);
    let count = le16(d, 20);
    if base_fmt_failure(d) is Some {
        base_fmt_failure(d)
    } else if b.bits_per_sample != ADPCM_BITS_PER_SAMPLE {
        Some(Failure::Header(mismatch_text("the bits per sample"@, b.bits_per_sample as nat, 4)))
    } else if adpcm_block_align_spec(b.sample_rate_per_second, ch) != ba {
        Some(
            Failure::Header(
                mismatch_text(
                    "the block align"@,
                    adpcm_block_align_spec(b.sample_rate_per_second, ch) as nat,
                    ba as nat,
                ),
            ),
        )
    } else if d.len() < 18 {
        Some(Failure::Range)
    } else if extra < 32 {
        Some(
            Failure::Header(
                numbered_text(
                    "Mismatch of the Extra bytes size: Got: "@,
                    extra as nat,
                    ", expected >= 32"@,
                ),
            ),
        )
    } else if d.len() < 20 {
        Some(Failure::Range)
    } else if 7 * ch > ba {
        Some(Failure::Header(short_block_text()))
    } else if adpcm_samples_per_block_spec(ba, ch, 4) != spb {
        Some(
            Failure::Header(
                mismatch_text(
                    "the samples per block align"@,
                    adpcm_samples_per_block_spec(ba, ch, 4) as nat,
                    spb as nat,
                ),
            ),
        )
    } else if adpcm_avg_bytes_per_second_spec(b.sample_rate_per_second, spb, ba)
        != b.avg_bytes_per_second {
        Some(
            Failure::Header(
                mismatch_text(
                    "the average bytes per second"@,
                    adpcm_avg_bytes_per_second_spec(b.sample_rate_per_second, spb, ba),
                    b.avg_bytes_per_second as nat,
                ),
            ),
        )
    } else if d.len() < 22 || (count > 0 && d.len() < 22 + 4 * count) {
        Some(Failure::Range)
    } else {
        None
    }
}

/// The metadata read from a Microsoft ADPCM `fmt ` chunk that passes its checks: the extra
/// bytes size, the samples per block and the coefficient table beside the common fields.
pub open spec fn ms_fmt_ok(d: Seq<u8>, m: FmtMetadata) -> bool {
    let count = le16(d, 20);
    fmt_with(
        m,
        base_fmt_of(d),
        Some(le16(d, 16)),
        None,
        Some(le16(d, 18)),
        Some(count),
        if count > 0 {
            Some(d.subrange(22, 22 + 4 * count))
        } else {
            None
        },
    )
}

/// What reading a Microsoft ADPCM `fmt ` chunk gives.
pub open spec fn ms_fmt_result(d: Seq<u8>, res: Result<FmtMetadata, AudioParserError>) -> bool {
    match ms_fmt_failure(d) {
        Some(f) => fails_with(res, f),
        None => res matches Ok(m) && ms_fmt_ok(d, m),
    }
}

impl MSAdpcmCodec {
    /// The block align for a data rate: 256 bytes below 22000 samples per second over all
    /// channels, 512 strictly between 22000 and 44000, 1024 otherwise.
    pub fn calculate_adpcm_block_align(
        sample_rate_per_second: u32,
        number_of_channels: u16,
    ) -> (res: u16)
        ensures
            res == adpcm_block_align_spec(sample_rate_per_second, number_of_channels),
    {
        proof {
            assert(sample_rate_per_second * number_of_channels <= 0xffff_ffff * 0xffff) by (nonlinear_arith)
                requires
                    sample_rate_per_second <= 0xffff_ffff,
                    number_of_channels <= 0xffff,
            ;
        }
        let calculated_rate: u64 = sample_rate_per_second as u64 * number_of_channels as u64;
        if calculated_rate < 22000 {
            256
        } else if calculated_rate > 22000 && calculated_rate < 44000 {
            512
        } else {
            1024
        }
    }

    /// The samples per channel in a block of `block_align` bytes.
    pub fn calculate_adpcm_samples_per_block(
        block_align: u16,
        number_of_channels: u16,
        bits_per_sample: u16,
    ) -> (res: u16)
        requires
            7 * number_of_channels <= block_align,
            (block_align - 7 * number_of_channels) * 8 <= 0xffff,
            0 < bits_per_sample * number_of_channels <= 0xffff,
            adpcm_samples_per_block_spec(block_align, number_of_channels, bits_per_sample)
                <= 0xffff,
        ensures
            res == adpcm_samples_per_block_spec(block_align, number_of_channels, bits_per_sample),
    {
        (((block_align - (7 * number_of_channels)) * 8) / (bits_per_sample * number_of_channels))
            + 2
    }

    /// The data rate of a stream with the given block layout, rounded down.
    pub fn calculate_adpcm_avg_bytes_per_second(
        sample_rate_per_second: u32,
        samples_per_block: u16,
        block_align: u16,
    ) -> (res: u64)
        requires
            samples_per_block > 0,
        ensures
            res == adpcm_avg_bytes_per_second_spec(
                sample_rate_per_second,
                samples_per_block,
                block_align,
            ),
    {
        proof {
            assert(sample_rate_per_second * block_align <= 0xffff_ffff * 0xffff) by (nonlinear_arith)
                requires
                    sample_rate_per_second <= 0xffff_ffff,
                    block_align <= 0xffff,
            ;
        }
        (sample_rate_per_second as u64 * block_align as u64) / samples_per_block as u64
    }

    /// Reads and checks a Microsoft ADPCM `fmt ` chunk: 4-bit samples, the block align that
    /// the data rate calls for, at least 32 extra bytes, the samples per block that the
    /// block align gives, the data rate that follows from them, and the coefficient table.
    pub fn parse_fmt_metadata(&self, data: &[u8]) -> (res: Result<FmtMetadata, AudioParserError>)
        ensures
            ms_fmt_result(data@, res),
    {
        let mut metadata = parse_base_fmt_metadata(data)?;
        if metadata.bits_per_sample != ADPCM_BITS_PER_SAMPLE {
            return Err(
                mismatch_error(
                    "the bits per sample",
                    metadata.bits_per_sample as u64,
                    ADPCM_BITS_PER_SAMPLE as u64,
                ),
            );
        }
        let calculated_block_align = Self::calculate_adpcm_block_align(
            metadata.sample_rate_per_second,
            metadata.number_of_channels,
        );
        if calculated_block_align != metadata.block_align {
            return Err(
                mismatch_error(
                    "the block align",
                    calculated_block_align as u64,
                    metadata.block_align as u64,
                ),
            );
        }
        let extra_bytes_size: u16 = convert_to_number(data, 16, 18)?;
        if extra_bytes_size < 32 {
            return Err(
                numbered_error(
                    "Mismatch of the Extra bytes size: Got: ",
                    extra_bytes_size as u64,
                    ", expected >= 32",
                ),
            );
        }
        let samples_per_block: u16 = convert_to_number(data, 18, 20)?;
        if 7 * (metadata.number_of_channels as u32) > metadata.block_align as u32 {
            return Err(header_error("The block align is too small for the number of channels"));
        }
        let calculated_samples_per_block = Self::calculate_adpcm_samples_per_block(
            metadata.block_align,
            metadata.number_of_channels,
            metadata.bits_per_sample,
        );
        if samples_per_block != calculated_samples_per_block {
            return Err(
                mismatch_error(
                    "the samples per block align",
                    calculated_samples_per_block as u64,
                    samples_per_block as u64,
                ),
            );
        }
        let calculated_avg_bytes_per_second = Self::calculate_adpcm_avg_bytes_per_second(
            metadata.sample_rate_per_second,
            samples_per_block,
            metadata.block_align,
        );
        if calculated_avg_bytes_per_second != metadata.avg_bytes_per_second as u64 {
            return Err(
                mismatch_error(
                    "the average bytes per second",
                    calculated_avg_bytes_per_second,
                    metadata.avg_bytes_per_second as u64,
                ),
            );
        }
        let coefficient_count: u16 = convert_to_number(data, 20, 22)?;
        if coefficient_count > 0 {
            let limit = 4 * coefficient_count as usize;
            if limit > data.len() - 22 {
                return Err(range_error());
            }
            metadata.coefficients = Some(vstd::slice::slice_to_vec(&data[22..22 + limit]));
        }
        metadata.extra_bytes_size = Some(extra_bytes_size);
        metadata.samples_per_block = Some(samples_per_block);
        metadata.coefficient_count = Some(coefficient_count);
        Ok(metadata)
    }

    /// Decodes Microsoft ADPCM data block by block: each block starts with a header per
    /// channel (predictor, step size and two samples) and continues with 4-bit deltas.
    /// Decoding stops before a block that is not whole; bytes after it are ignored.
    pub fn parse_audio_data(&self, data: &[u8], fmt_metadata: &FmtMetadata) -> (res: Result<
        AudioData,
        AudioParserError,
    >)
        ensures
            ms_adpcm_data_result(data@, *fmt_metadata, res),
    {
        let no_coefficients: Vec<u8> = Vec::new();
        let coefficients: &[u8] = match &fmt_metadata.coefficients {
            Some(c) => c.as_slice(),
            None => no_coefficients.as_slice(),
        };
        let block_align = fmt_metadata.block_align as usize;
        let is_stereo = fmt_metadata.number_of_channels == 2;
        let header: usize = if is_stereo {
            14
        } else {
            7
        };
        let ghost d = data@;
        let ghost coefs = coefficients@;
        let ghost ba = block_align as int;
        assert(coefs == coefficient_bytes(*fmt_metadata));
        let mut samples: Vec<i16> = Vec::new();
        let mut starting_idx: usize = 0;
        assert(samples@ + seq![] =~= seq![]);
        while starting_idx <= data.len() && block_align <= data.len() - starting_idx
            invariant
                d == data@,
                coefs == coefficients@,
                ba == block_align,
                ba == fmt_metadata.block_align as int,
                is_stereo == (fmt_metadata.number_of_channels == 2),
                coefs == coefficient_bytes(*fmt_metadata),
                header == header_size(is_stereo),
                starting_idx <= data@.len(),
                adpcm_blocks(d, 0, ba, is_stereo, coefs) == prepend_samples(
                    samples@,
                    adpcm_blocks(d, starting_idx as int, ba, is_stereo, coefs),
                ),
            decreases data@.len() - starting_idx,
        {
            let s = starting_idx;
            if header > data.len() - s {
                return Err(range_error());
            }
            if 4 * (data[s] as usize) + 4 > coefficients.len() {
                return Err(range_error());
            }
            if is_stereo && 4 * (data[s + 1] as usize) + 4 > coefficients.len() {
                return Err(range_error());
            }
            let ghost before = samples@;
            let next = decode_block(data, s, block_align, is_stereo, coefficients, &mut samples);
            proof {
                match adpcm_blocks(d, next as int, ba, is_stereo, coefs) {
                    Some(rest) => {
                        assert(before + (block_samples(d, s as int, ba, is_stereo, coefs) + rest)
                            =~= samples@ + rest);
                    },
                    None => {},
                }
            }
            starting_idx = next;
        }
        proof {
            assert(samples@ + seq![] =~= samples@);
        }
        Ok(AudioData::I16(samples))
    }
}

proof fn lemma_adpcm_bytes_len(
    st: (ADPCMChannelMetaData, ADPCMChannelMetaData),
    bytes: Seq<u8>,
    stereo: bool,
)
    ensures
        adpcm_bytes(st, bytes, stereo).1.len() == 2 * bytes.len(),
    decreases bytes.len(),
{
    if bytes.len() > 0 {
        lemma_adpcm_bytes_len(st, bytes.drop_last(), stereo);
    }
}

/// A whole block whose block align holds the channel headers decodes to
/// `samples_per_block` samples per channel, the number that
/// `calculate_adpcm_samples_per_block` gives for it.
pub proof fn adpcm_block_sample_count(
    d: Seq<u8>,
    s: int,
    block_align: u16,
    channels: u16,
    coefs: Seq<u8>,
)
    requires
        channels == 1 || channels == 2,
        7 * channels <= block_align,
        0 <= s,
        s + block_align <= d.len(),
    ensures
        block_samples(d, s, block_align as int, channels == 2, coefs).len() == channels
            * adpcm_samples_per_block_spec(block_align, channels, 4),
{
    let stereo = channels == 2;
    let st = header_state(d, s, stereo, coefs);
    let hdr = header_size(stereo) as int;
    let body = if block_align > hdr {
        d.subrange(s + hdr, s + block_align)
    } else {
        seq![]
    };
    lemma_adpcm_bytes_len(st, body, stereo);
    if stereo {
        assert((block_align - 14) * 8 / 8 == block_align - 14);
    } else {
        assert((block_align - 7) * 8 / 4 == 2 * (block_align - 7));
    }
}

/// Decoding Microsoft ADPCM data whose block align holds the channel headers gives
/// `samples_per_block` samples per channel for each whole block of the data.
pub proof fn adpcm_decoded_sample_count(
    d: Seq<u8>,
    s: int,
    block_align: u16,
    channels: u16,
    coefs: Seq<u8>,
)
    requires
        channels == 1 || channels == 2,
        7 * channels <= block_align,
        0 <= s <= d.len(),
        adpcm_blocks(d, s, block_align as int, channels == 2, coefs) is Some,
    ensures
        adpcm_blocks(d, s, block_align as int, channels == 2, coefs)->0.len() == (d.len() - s)
            / (block_align as int) * (channels * adpcm_samples_per_block_spec(
            block_align,
            channels,
            4,
        )),
    decreases d.len() - s,
{
    let ba = block_align as int;
    let stereo = channels == 2;
    let per_block = channels * adpcm_samples_per_block_spec(block_align, channels, 4);
    let n = d.len() - s;
    if s + ba > d.len() {
        assert(n / ba == 0) by (nonlinear_arith)
            requires
                0 <= n < ba,
        ;
    } else {
        assert(block_step(ba, stereo) == ba);
        adpcm_block_sample_count(d, s, block_align, channels, coefs);
        adpcm_decoded_sample_count(d, s + ba, block_align, channels, coefs);
        assert(n / ba == 1 + (n - ba) / ba) by (nonlinear_arith)
            requires
                ba > 0,
                n >= ba,
        ;
        assert((1 + (n - ba) / ba) * per_block == per_block + (n - ba) / ba * per_block)
            by (nonlinear_arith);
    }
}

/// The channel `c` after it has decoded the nibbles `ns`, in order.
pub open spec fn channel_after(c: ADPCMChannelMetaData, ns: Seq<u8>) -> ADPCMChannelMetaData
    decreases ns.len(),
{
    if ns.len() == 0 {
        c
    } else {
        adpcm_step(channel_after(c, ns.drop_last()), ns.last())
    }
}

/// The high nibble of each byte.
pub open spec fn high_nibbles(bytes: Seq<u8>) -> Seq<u8> {
    Seq::new(bytes.len(), |i: int| bytes[i] / 16)
}

/// The low nibble of each byte.
pub open spec fn low_nibbles(bytes: Seq<u8>) -> Seq<u8> {
    Seq::new(bytes.len(), |i: int| bytes[i] % 16)
}

/// The nibbles of the bytes in the order a mono stream holds them: of each byte the high
/// nibble, then the low one.
pub open spec fn mono_nibbles(bytes: Seq<u8>) -> Seq<u8> {
    Seq::new(2 * bytes.len(), |i: int| if i % 2 == 0 { bytes[i / 2] / 16 } else { bytes[i / 2] % 16 })
}

#[verifier::spinoff_prover]
#[verifier::rlimit(40)]
proof fn lemma_stereo_bytes(st: (ADPCMChannelMetaData, ADPCMChannelMetaData), bytes: Seq<u8>)
    ensures
        adpcm_bytes(st, bytes, true).0 == (
            channel_after(st.0, high_nibbles(bytes)),
            channel_after(st.1, low_nibbles(bytes)),
        ),
        adpcm_bytes(st, bytes, true).1.len() == 2 * bytes.len(),
        forall|j: int|
            0 <= j < bytes.len() ==> {
                &&& #[trigger] adpcm_bytes(st, bytes, true).1[2 * j] == channel_after(
                    st.0,
                    high_nibbles(bytes.take(j + 1)),
                ).sample1
                &&& adpcm_bytes(st, bytes, true).1[2 * j + 1] == channel_after(
                    st.1,
                    low_nibbles(bytes.take(j + 1)),
                ).sample1
            },
    decreases bytes.len(),
{
    if bytes.len() > 0 {
        let prev = bytes.drop_last();
        lemma_stereo_bytes(st, prev);
        assert(high_nibbles(bytes).drop_last() =~= high_nibbles(prev));
        assert(low_nibbles(bytes).drop_last() =~= low_nibbles(prev));
        assert(bytes.take(bytes.len() as int) =~= bytes);
        let out = adpcm_bytes(st, bytes, true).1;
        let pout = adpcm_bytes(st, prev, true).1;
        assert forall|j: int| 0 <= j < bytes.len() implies {
            &&& #[trigger] out[2 * j] == channel_after(st.0, high_nibbles(bytes.take(j + 1))).sample1
            &&& out[2 * j + 1] == channel_after(st.1, low_nibbles(bytes.take(j + 1))).sample1
        } by {
            if j < prev.len() {
                assert(prev.take(j + 1) =~= bytes.take(j + 1));
                assert(out[2 * j] == pout[2 * j]);
                assert(out[2 * j + 1] == pout[2 * j + 1]);
            }
        }
    }
}

#[verifier::spinoff_prover]
#[verifier::rlimit(40)]
proof fn lemma_mono_bytes(st: (ADPCMChannelMetaData, ADPCMChannelMetaData), bytes: Seq<u8>)
    ensures
        adpcm_bytes(st, bytes, false).0 == (channel_after(st.0, mono_nibbles(bytes)), st.1),
        adpcm_bytes(st, bytes, false).1.len() == 2 * bytes.len(),
        forall|i: int|
            0 <= i < 2 * bytes.len() ==> #[trigger] adpcm_bytes(st, bytes, false).1[i]
                == channel_after(st.0, mono_nibbles(bytes).take(i + 1)).sample1,
    decreases bytes.len(),
{
    if bytes.len() > 0 {
        let prev = bytes.drop_last();
        lemma_mono_bytes(st, prev);
        let n = mono_nibbles(bytes);
        let pn = mono_nibbles(prev);
        let last = bytes.last();
        let k: int = 2 * (prev.len() as int);
        assert(n.take(k) =~= pn);
        assert(n.take(k + 1).drop_last() =~= pn);
        assert(n.take(k + 1).last() == last / 16);
        assert(n.take(k + 2) =~= n);
        assert(n.drop_last() =~= n.take(k + 1));
        assert(n.last() == last % 16);
        let c0 = channel_after(st.0, pn);
        assert(channel_after(st.0, n.take(k + 1)) == adpcm_step(c0, last / 16));
        assert(channel_after(st.0, n) == adpcm_step(channel_after(st.0, n.take(k + 1)), last % 16));
        let out = adpcm_bytes(st, bytes, false).1;
        let pout = adpcm_bytes(st, prev, false).1;
        let mid = adpcm_bytes(st, prev, false).0;
        assert(adpcm_bytes(st, bytes, false) == (
            adpcm_byte(mid, last, false).0,
            pout + adpcm_byte(mid, last, false).1,
        ));
        assert forall|i: int| 0 <= i < 2 * bytes.len() implies #[trigger] out[i]
            == channel_after(st.0, n.take(i + 1)).sample1 by {
            if i < k {
                assert(n.take(i + 1) =~= pn.take(i + 1));
                assert(out[i] == pout[i]);
            } else if i == k {
                assert(out[i] == adpcm_step(c0, last / 16).sample1);
            } else {
                assert(n.take(i + 1) =~= n);
            }
        }
    }
}

/// In a stereo block the header holds, for the left and then the right channel, the
/// predictor (bytes 0 and 1), the step size (bytes 2..6), the newer sample (bytes 6..10)
/// and the older sample (bytes 10..14); the block starts with the older samples, then the
/// newer ones. Each data byte after the header gives one sample per channel: its high
/// nibble steps the left channel and its low nibble the right channel, so the samples of
/// each channel depend on its own nibbles alone.
#[verifier::spinoff_prover]
pub proof fn stereo_block_channels(d: Seq<u8>, s: int, ba: int, coefs: Seq<u8>)
    requires
        0 <= s,
        14 <= ba,
        s + ba <= d.len(),
    ensures
        ({
            let out = block_samples(d, s, ba, true, coefs);
            let body = d.subrange(s + 14, s + ba);
            &&& out.len() == 4 + 2 * (ba - 14)
            &&& out[0] == le_i16(d, s + 10)
            &&& out[1] == le_i16(d, s + 12)
            &&& out[2] == le_i16(d, s + 6)
            &&& out[3] == le_i16(d, s + 8)
            &&& forall|j: int|
                0 <= j < ba - 14 ==> {
                    &&& #[trigger] out[4 + 2 * j] == channel_after(
                        header_channel(d, s, 0, true, coefs),
                        high_nibbles(body.take(j + 1)),
                    ).sample1
                    &&& out[5 + 2 * j] == channel_after(
                        header_channel(d, s, 1, true, coefs),
                        low_nibbles(body.take(j + 1)),
                    ).sample1
                }
        }),
{
    let st = header_state(d, s, true, coefs);
    let body = d.subrange(s + 14, s + ba);
    if ba > 14 {
        lemma_stereo_bytes(st, body);
    } else {
        assert(body =~= seq![]);
        lemma_stereo_bytes(st, seq![]);
    }
    let out = block_samples(d, s, ba, true, coefs);
    let tail = adpcm_bytes(st, if ba > 14 { body } else { seq![] }, true).1;
    assert(out == header_samples(st, true) + tail);
    assert(tail.len() == 2 * (ba - 14));
    assert(out.len() == 4 + 2 * (ba - 14));
    assert(out[0] == st.0.sample2);
    assert(out[1] == st.1.sample2);
    assert(out[2] == st.0.sample1);
    assert(out[3] == st.1.sample1);
    assert forall|j: int| 0 <= j < ba - 14 implies {
        &&& #[trigger] out[4 + 2 * j] == channel_after(
            header_channel(d, s, 0, true, coefs),
            high_nibbles(body.take(j + 1)),
        ).sample1
        &&& out[5 + 2 * j] == channel_after(
            header_channel(d, s, 1, true, coefs),
            low_nibbles(body.take(j + 1)),
        ).sample1
    } by {
        assert(out[4 + 2 * j] == tail[2 * j]);
        assert(out[4 + (2 * j + 1)] == tail[2 * j + 1]);
    }
}

/// In a mono block the header holds the predictor (byte 0), the step size (bytes 1..3),
/// the newer sample (bytes 3..5) and the older sample (bytes 5..7); the block starts with
/// the older sample, then the newer one. Each data byte after the header gives two
/// samples: the channel stepped first by the byte's high nibble, then by its low nibble.
pub proof fn mono_block_nibbles(d: Seq<u8>, s: int, ba: int, coefs: Seq<u8>)
    requires
        0 <= s,
        7 <= ba,
        s + ba <= d.len(),
    ensures
        ({
            let out = block_samples(d, s, ba, false, coefs);
            let body = d.subrange(s + 7, s + ba);
            &&& out.len() == 2 + 2 * (ba - 7)
            &&& out[0] == le_i16(d, s + 5)
            &&& out[1] == le_i16(d, s + 3)
            &&& forall|i: int|
                0 <= i < 2 * (ba - 7) ==> #[trigger] out[2 + i] == channel_after(
                    header_channel(d, s, 0, false, coefs),
                    mono_nibbles(body).take(i + 1),
                ).sample1
        }),
{
    let st = header_state(d, s, false, coefs);
    let body = d.subrange(s + 7, s + ba);
    if ba > 7 {
        lemma_mono_bytes(st, body);
    } else {
        assert(body =~= seq![]);
        assert(mono_nibbles(body) =~= seq![]);
        lemma_mono_bytes(st, seq![]);
    }
    let out = block_samples(d, s, ba, false, coefs);
    let tail = adpcm_bytes(st, if ba > 7 { body } else { seq![] }, false).1;
    assert(out == header_samples(st, false) + tail);
    assert forall|i: int| 0 <= i < 2 * (ba - 7) implies #[trigger] out[2 + i] == channel_after(
        header_channel(d, s, 0, false, coefs),
        mono_nibbles(body).take(i + 1),
    ).sample1 by {
        assert(out[2 + i] == tail[i]);
    }
}

/// The first sample a channel decodes from a nibble: the prediction from its two samples
/// and its coefficient pair, rounded toward zero, plus the step size times the signed
/// nibble, limited to the range of `i16`.
pub open spec fn first_decoded_sample(
    sample1: i16,
    sample2: i16,
    coeff1: i16,
    coeff2: i16,
    delta: i16,
    nibble: u8,
) -> int {
    clamp_i16(div256(sample1 * coeff1 + sample2 * coeff2) + delta * signed_nibble(nibble))
}

/// The fifth and sixth samples of a stereo block, which the first data byte gives: the
/// left channel predicted from its header fields and stepped by the byte's high nibble,
/// the right channel from its own fields and the low nibble. Each channel's coefficients
/// are the pair its predictor names in `coefs`.
pub proof fn stereo_first_data_byte(d: Seq<u8>, s: int, ba: int, coefs: Seq<u8>)
    requires
        0 <= s,
        15 <= ba,
        s + ba <= d.len(),
    ensures
        block_samples(d, s, ba, true, coefs)[4] == first_decoded_sample(
            le_i16(d, s + 6),
            le_i16(d, s + 10),
            le_i16(coefs, 4 * d[s]),
            le_i16(coefs, 4 * d[s] + 2),
            le_i16(d, s + 2),
            d[s + 14] / 16,
        ),
        block_samples(d, s, ba, true, coefs)[5] == first_decoded_sample(
            le_i16(d, s + 8),
            le_i16(d, s + 12),
            le_i16(coefs, 4 * d[s + 1]),
            le_i16(coefs, 4 * d[s + 1] + 2),
            le_i16(d, s + 4),
            d[s + 14] % 16,
        ),
{
    stereo_block_channels(d, s, ba, coefs);
    let body = d.subrange(s + 14, s + ba);
    let one = body.take(1);
    assert(high_nibbles(one).drop_last() =~= seq![]);
    assert(low_nibbles(one).drop_last() =~= seq![]);
    assert(high_nibbles(one).last() == d[s + 14] / 16);
    assert(low_nibbles(one).last() == d[s + 14] % 16);
    let out = block_samples(d, s, ba, true, coefs);
    assert(out[4 + 2 * 0int] == out[4]);
    let c0 = header_channel(d, s, 0, true, coefs);
    let c1 = header_channel(d, s, 1, true, coefs);
    assert(channel_after(c0, seq![]) == c0);
    assert(channel_after(c1, seq![]) == c1);
    assert(channel_after(c0, high_nibbles(one)) == adpcm_step(c0, d[s + 14] / 16));
    assert(channel_after(c1, low_nibbles(one)) == adpcm_step(c1, d[s + 14] % 16));
}

/// The first two samples a mono block decodes from its first data byte: the channel
/// stepped by the high nibble first, then by the low nibble.
pub proof fn mono_first_data_byte(d: Seq<u8>, s: int, ba: int, coefs: Seq<u8>)
    requires
        0 <= s,
        8 <= ba,
        s + ba <= d.len(),
    ensures
        block_samples(d, s, ba, false, coefs)[2] == first_decoded_sample(
            le_i16(d, s + 3),
            le_i16(d, s + 5),
            le_i16(coefs, 4 * d[s]),
            le_i16(coefs, 4 * d[s] + 2),
            le_i16(d, s + 1),
            d[s + 7] / 16,
        ),
        block_samples(d, s, ba, false, coefs)[3] == adpcm_step(
            adpcm_step(header_channel(d, s, 0, false, coefs), d[s + 7] / 16),
            d[s + 7] % 16,
        ).sample1,
{
    mono_block_nibbles(d, s, ba, coefs);
    let body = d.subrange(s + 7, s + ba);
    let n = mono_nibbles(body);
    assert(n.take(1).drop_last() =~= seq![]);
    assert(n.take(1).last() == d[s + 7] / 16);
    assert(n.take(2).drop_last() =~= n.take(1));
    assert(n.take(2).last() == d[s + 7] % 16);
    let out = block_samples(d, s, ba, false, coefs);
    assert(out[2 + 0int] == out[2]);
    assert(out[2 + 1int] == out[3]);
    let c0 = header_channel(d, s, 0, false, coefs);
    assert(channel_after(c0, seq![]) == c0);
    assert(channel_after(c0, n.take(1)) == adpcm_step(c0, d[s + 7] / 16));
    assert(channel_after(c0, n.take(2)) == adpcm_step(adpcm_step(c0, d[s + 7] / 16), d[s + 7] % 16));
}

/// The Microsoft ADPCM adaptation table: the factor, over 256, by which the step size
/// changes after each of the sixteen nibbles.
pub open spec fn adaptation_table() -> Seq<int> {
    seq![230, 230, 230, 230, 307, 409, 512, 614, 768, 614, 512, 409, 307, 230, 230, 230]
}

/// One decoding step of a channel: the new sample is the prediction from the two last
/// samples and the coefficient pair plus the step size times the signed nibble, limited
/// to `i16`; it becomes the newer sample and the newer one the older; the step size is
/// scaled by the adaptation table entry of the nibble over 256, rounded toward zero, and
/// never drops below 16 (where the scaled step size fits in `i16`); the predictor and
/// coefficients stay.
pub proof fn adpcm_step_law(c: ADPCMChannelMetaData, nibble: u8)
    requires
        nibble < 16,
    ensures
        adpcm_step(c, nibble).sample1 == first_decoded_sample(
            c.sample1,
            c.sample2,
            c.coeff1,
            c.coeff2,
            c.delta,
            nibble,
        ),
        adpcm_step(c, nibble).sample2 == c.sample1,
        adpcm_step(c, nibble).coeff1 == c.coeff1,
        adpcm_step(c, nibble).coeff2 == c.coeff2,
        adpcm_step(c, nibble).predictor == c.predictor,
        div256(c.delta * adaptation_table()[nibble as int]) <= 32767 ==> adpcm_step(
            c,
            nibble,
        ).delta as int == (if div256(c.delta * adaptation_table()[nibble as int]) < 16 {
            16
        } else {
            div256(c.delta * adaptation_table()[nibble as int])
        }),
{
    let f = adaptation_table()[nibble as int];
    assert(f == adaptation_factor_spec(nibble));
    let x = c.delta * adaptation_factor_spec(nibble);
    assert(clamp_i16(predicted_sample(c) + c.delta * signed_nibble(nibble)) == first_decoded_sample(
        c.sample1,
        c.sample2,
        c.coeff1,
        c.coeff2,
        c.delta,
        nibble,
    ));
}

/// The samples of two decodings one after the other; `None` when either fails.
pub open spec fn join_samples(a: Option<Seq<i16>>, b: Option<Seq<i16>>) -> Option<Seq<i16>> {
    match (a, b) {
        (Some(x), Some(y)) => Some(x + y),
        _ => None,
    }
}

proof fn lemma_block_local(
    d: Seq<u8>,
    s: int,
    e: Seq<u8>,
    t: int,
    ba: int,
    stereo: bool,
    coefs: Seq<u8>,
)
    requires
        header_size(stereo) <= ba,
        0 <= s,
        s + ba <= d.len(),
        0 <= t,
        t + ba <= e.len(),
        d.subrange(s, s + ba) == e.subrange(t, t + ba),
    ensures
        header_readable(d, s, stereo, coefs) == header_readable(e, t, stereo, coefs),
        block_samples(d, s, ba, stereo, coefs) == block_samples(e, t, ba, stereo, coefs),
{
    let hdr = header_size(stereo) as int;
    assert forall|k: int| 0 <= k < ba implies #[trigger] d[s + k] == e[t + k] by {
        lemma_same_at(d, s, e, t, ba, k);
    }
    assert(d[s + 0] == e[t + 0]);
    assert(d[s + 1] == e[t + 1]);
    assert(d[s + 2] == e[t + 2]);
    assert(d[s + 3] == e[t + 3]);
    assert(d[s + 4] == e[t + 4]);
    assert(d[s + 5] == e[t + 5]);
    assert(d[s + 6] == e[t + 6]);
    if stereo {
        assert(d[s + 7] == e[t + 7]);
        assert(d[s + 8] == e[t + 8]);
        assert(d[s + 9] == e[t + 9]);
        assert(d[s + 10] == e[t + 10]);
        assert(d[s + 11] == e[t + 11]);
        assert(d[s + 12] == e[t + 12]);
        assert(d[s + 13] == e[t + 13]);
    }
    assert(header_state(d, s, stereo, coefs) == header_state(e, t, stereo, coefs));
    if ba > hdr {
        assert(d.subrange(s + hdr, s + ba) =~= e.subrange(t + hdr, t + ba)) by {
            assert forall|i: int| 0 <= i < ba - hdr implies #[trigger] d.subrange(s + hdr, s + ba)[i]
                == e.subrange(t + hdr, t + ba)[i] by {
                assert(d[s + (hdr + i)] == e[t + (hdr + i)]);
            }
        }
    }
}

proof fn lemma_same_at(d: Seq<u8>, s: int, e: Seq<u8>, t: int, ba: int, k: int)
    requires
        0 <= s,
        s + ba <= d.len(),
        0 <= t,
        t + ba <= e.len(),
        d.subrange(s, s + ba) == e.subrange(t, t + ba),
        0 <= k < ba,
    ensures
        d[s + k] == e[t + k],
{
    assert(d.subrange(s, s + ba)[k] == d[s + k]);
    assert(e.subrange(t, t + ba)[k] == e[t + k]);
}

proof fn lemma_blocks_shift(d1: Seq<u8>, d2: Seq<u8>, t: int, ba: int, stereo: bool, coefs: Seq<u8>)
    requires
        header_size(stereo) <= ba,
        0 <= t,
    ensures
        adpcm_blocks(d1 + d2, d1.len() + t, ba, stereo, coefs) == adpcm_blocks(
            d2,
            t,
            ba,
            stereo,
            coefs,
        ),
    decreases d2.len() - t,
{
    let d = d1 + d2;
    let s = d1.len() + t;
    if t + ba <= d2.len() {
        assert(d.subrange(s, s + ba) =~= d2.subrange(t, t + ba));
        lemma_block_local(d, s, d2, t, ba, stereo, coefs);
        assert(block_step(ba, stereo) == ba);
        lemma_blocks_shift(d1, d2, t + ba, ba, stereo, coefs);
        assert(s + ba == d1.len() + (t + ba));
    }
}

proof fn lemma_blocks_concat_from(
    d1: Seq<u8>,
    d2: Seq<u8>,
    s: int,
    ba: int,
    stereo: bool,
    coefs: Seq<u8>,
)
    requires
        header_size(stereo) <= ba,
        0 <= s <= d1.len(),
        (d1.len() - s) % ba == 0,
    ensures
        adpcm_blocks(d1 + d2, s, ba, stereo, coefs) == join_samples(
            adpcm_blocks(d1, s, ba, stereo, coefs),
            adpcm_blocks(d2, 0, ba, stereo, coefs),
        ),
    decreases d1.len() - s,
{
    let d = d1 + d2;
    if s == d1.len() {
        lemma_blocks_shift(d1, d2, 0, ba, stereo, coefs);
        assert(d1.len() + 0 == s);
        match adpcm_blocks(d2, 0, ba, stereo, coefs) {
            Some(y) => {
                assert(seq![] + y =~= y);
            },
            None => {},
        }
    } else {
        assert(s + ba <= d1.len()) by (nonlinear_arith)
            requires
                0 <= s < d1.len(),
                (d1.len() - s) % ba == 0,
                ba > 0,
        ;
        assert((d1.len() - (s + ba)) % ba == 0) by (nonlinear_arith)
            requires
                (d1.len() - s) % ba == 0,
                ba > 0,
        ;
        assert(d.subrange(s, s + ba) =~= d1.subrange(s, s + ba));
        lemma_block_local(d, s, d1, s, ba, stereo, coefs);
        assert(block_step(ba, stereo) == ba);
        lemma_blocks_concat_from(d1, d2, s + ba, ba, stereo, coefs);
        let b = block_samples(d1, s, ba, stereo, coefs);
        match (adpcm_blocks(d1, s + ba, ba, stereo, coefs), adpcm_blocks(d2, 0, ba, stereo, coefs)) {
            (Some(x), Some(y)) => {
                assert(b + (x + y) =~= (b + x) + y);
            },
            _ => {},
        }
    }
}

/// Each block is decoded from its own header alone: when the first part of the data ends
/// on a block boundary, decoding the whole gives the samples of the first part followed by
/// those of the rest, and fails when either part fails.
pub proof fn adpcm_blocks_concat(d1: Seq<u8>, d2: Seq<u8>, ba: int, stereo: bool, coefs: Seq<u8>)
    requires
        header_size(stereo) <= ba,
        (d1.len() as int) % ba == 0,
    ensures
        adpcm_blocks(d1 + d2, 0, ba, stereo, coefs) == join_samples(
            adpcm_blocks(d1, 0, ba, stereo, coefs),
            adpcm_blocks(d2, 0, ba, stereo, coefs),
        ),
{
    lemma_blocks_concat_from(d1, d2, 0, ba, stereo, coefs);
}

/// A `fmt ` chunk that passes the Microsoft ADPCM checks, for one or two channels, makes
/// every whole block decode to the samples per block it states, for each channel.
pub proof fn ms_checked_fmt_sample_count(p: Seq<u8>, d: Seq<u8>, coefs: Seq<u8>)
    requires
        ms_fmt_failure(p) is None,
        base_fmt_of(p).number_of_channels == 1 || base_fmt_of(p).number_of_channels == 2,
        adpcm_blocks(
            d,
            0,
            base_fmt_of(p).block_align as int,
            base_fmt_of(p).number_of_channels == 2,
            coefs,
        ) is Some,
    ensures
        adpcm_blocks(
            d,
            0,
            base_fmt_of(p).block_align as int,
            base_fmt_of(p).number_of_channels == 2,
            coefs,
        )->0.len() == (d.len() as int) / (base_fmt_of(p).block_align as int) * (
        base_fmt_of(p).number_of_channels * le16(p, 18)),
{
    let b = base_fmt_of(p);
    adpcm_decoded_sample_count(d, 0, b.block_align, b.number_of_channels, coefs);
}

impl WAVCodec for MSAdpcmCodec {
    fn compression_code(&self) -> (res: CompressionCode)
        ensures
            res == CompressionCode::Adpcm,
    {
        CompressionCode::Adpcm
    }

    fn parse_audio_data(&self, data: &[u8], metadata: &FmtMetadata) -> (res: Result<
        AudioData,
        AudioParserError,
    >)
        ensures
            ms_adpcm_data_result(data@, *metadata, res),
    {
        MSAdpcmCodec::parse_audio_data(self, data, metadata)
    }

    fn parse_fmt_metadata(&self, data: &[u8]) -> (res: Result<FmtMetadata, AudioParserError>)
        ensures
            ms_fmt_result(data@, res),
    {
        MSAdpcmCodec::parse_fmt_metadata(self, data)
    }
}

} // verus!
