use crate::audio_parser::errors::{
    fails_with, is_header_error, Failure, header_error, mismatch_error, mismatch_text, numbered_error,
    numbered_text, range_error, AudioParserError,
};
use crate::audio_parser::utils::{convert_to_number, CompressionCode};
use crate::parser::wav::base::{
    adpcm_avg_bytes_per_second_spec, base_fmt_failure, base_fmt_of, fmt_with, le16,
    parse_base_fmt_metadata, AudioData, FmtMetadata, WAVCodec,
};
use vstd::prelude::*;

verus! {

/// Intel IMA/DVI ADPCM audio.
#[derive(Debug)]
pub struct ImaAdpcmCodec {}

/// The samples per channel in an IMA ADPCM block: one from the header, the rest from the
/// deltas.
pub open spec fn ima_samples_per_block_spec(block_align: u16, channels: u16, bits: u16) -> int {
    (block_align - 4 * channels) * 8 / (bits * channels) as int + 1
}

/// Whether the samples per block can be worked out from the block layout: the headers fit
/// in the block, and the numbers involved fit in 16 bits.
pub open spec fn ima_samples_per_block_defined(block_align: u16, channels: u16, bits: u16) -> bool {
    &&& 4 * channels <= block_align
    &&& (block_align - 4 * channels) * 8 <= 0xffff
    &&& 0 < bits * channels <= 0xffff
}

/// The message for a block layout that gives no samples per block.
pub open spec fn no_samples_per_block_text() -> Seq<char> {
    "The samples per block cannot be derived from the block align"@
}

/// The message when the data rate is checked against a zero samples per block: the
/// quotient is infinite, or not a number when the numerator is zero too.
pub open spec fn zero_samples_per_block_text(rate: u32, block_align: u16, avg: u32) -> Seq<char> {
    if rate == 0 || block_align == 0 {
        numbered_text("Mismatch of the average bytes per second: Got: NaN, expected: "@, avg as nat, ""@)
    } else {
        numbered_text("Mismatch of the average bytes per second: Got: inf, expected: "@, avg as nat, ""@)
    }
}

/// The check of the data rate of an ADPCM stream against what it states: `None` when it
/// holds, the message otherwise.
pub open spec fn adpcm_rate_error(
    rate: u32,
    spb: u16,
    block_align: u16,
    avg: u32,
) -> Option<Seq<char>> {
    if spb == 0 {
        Some(zero_samples_per_block_text(rate, block_align, avg))
    } else if adpcm_avg_bytes_per_second_spec(rate, spb, block_align) != avg {
        Some(
            mismatch_text(
                "the average bytes per second"@,
                adpcm_avg_bytes_per_second_spec(rate, spb, block_align),
                avg as nat,
            ),
        )
    } else {
        None
    }
}

/// Checks the data rate of an ADPCM stream against what it states.
pub fn check_adpcm_rate(
    rate: u32,
    spb: u16,
    block_align: u16,
    avg: u32,
) -> (res: Result<(), AudioParserError>)
    ensures
        match adpcm_rate_error(rate, spb, block_align, avg) {
            None => res is Ok,
            Some(text) => res matches Err(e) && is_header_error(e, text),
        },
{
    if spb == 0 {
        if rate == 0 || block_align == 0 {
            return Err(
                numbered_error(
                    "Mismatch of the average bytes per second: Got: NaN, expected: ",
                    avg as u64,
                    "",
                ),
            );
        } else {
            return Err(
                numbered_error(
                    "Mismatch of the average bytes per second: Got: inf, expected: ",
                    avg as u64,
                    "",
                ),
            );
        }
    }
    let calculated = ImaAdpcmCodec::calculate_adpcm_avg_bytes_per_second(rate, spb, block_align);
    if calculated != avg as u64 {
        return Err(mismatch_error("the average bytes per second", calculated, avg as u64));
    }
    Ok(())
}

/// How reading an IMA ADPCM `fmt ` chunk fails, if it does.
pub open spec fn ima_fmt_failure(d: Seq<u8>) -> Option<Failure> {
    let b = base_fmt_of(d);
    let ch = b.number_of_channels;
    let ba = b.block_align;
    let bits = b.bits_per_sample;
    let extra = le16(d, 16);
    let spb = le16(d, 18);
    if base_fmt_failure(d) is Some {
        base_fmt_failure(d)
    } else if d.len() < 20 {
        Some(Failure::Range)
    } else if adpcm_rate_error(b.sample_rate_per_second, spb, ba, b.avg_bytes_per_second) is Some {
        Some(
            Failure::Header(
                adpcm_rate_error(b.sample_rate_per_second, spb, ba, b.avg_bytes_per_second)->0,
            ),
        )
    } else if !ima_samples_per_block_defined(ba, ch, bits) {
        Some(Failure::Header(no_samples_per_block_text()))
    } else if ima_samples_per_block_spec(ba, ch, bits) != spb {
        Some(
            Failure::Header(
                mismatch_text(
                    "the samples per block align"@,
                    ima_samples_per_block_spec(ba, ch, bits) as nat,
                    spb as nat,
                ),
            ),
        )
    } else if 18 + extra > d.len() {
        Some(Failure::Range)
    } else {
        None
    }
}

/// The metadata read from an IMA ADPCM `fmt ` chunk that passes its checks.
pub open spec fn ima_fmt_ok(d: Seq<u8>, m: FmtMetadata) -> bool {
    let extra = le16(d, 16);
    fmt_with(
        m,
        base_fmt_of(d),
        Some(extra),
        if extra > 0 {
            Some(d.subrange(18, 18 + extra))
        } else {
            None
        },
        Some(le16(d, 18)),
        None,
        None,
    )
}

/// What reading an IMA ADPCM `fmt ` chunk gives.
pub open spec fn ima_fmt_result(d: Seq<u8>, res: Result<FmtMetadata, AudioParserError>) -> bool {
    match ima_fmt_failure(d) {
        Some(f) => fails_with(res, f),
        None => res matches Ok(m) && ima_fmt_ok(d, m),
    }
}

impl ImaAdpcmCodec {
    /// The samples per channel in a block of `block_align` bytes.
    pub fn calculate_dvi_ima_adpcm_samples_per_block(
        block_align: u16,
        number_of_channels: u16,
        bits_per_sample: u16,
    ) -> (res: u16)
        requires
            ima_samples_per_block_defined(block_align, number_of_channels, bits_per_sample),
        ensures
            res == ima_samples_per_block_spec(block_align, number_of_channels, bits_per_sample),
    {
        (((block_align - (4 * number_of_channels)) * 8) / (bits_per_sample * number_of_channels))
            + 1
    }

    /// The data rate of a stream with the given block layout, rounded down.
    pub fn calculate_adpcm_avg_bytes_per_second(
        sample_rate_per_second: u32,
        samples_per_block: u16,
        block_align: u16,
    ) -> (res: u64)
        requires
            samples_per_block > 0,
        ensures
            res == adpcm_avg_bytes_per_second_spec(
                sample_rate_per_second,
                samples_per_block,
                block_align,
            ),
    {
        proof {
            assert(sample_rate_per_second * block_align <= 0xffff_ffff * 0xffff) by (nonlinear_arith)
                requires
                    sample_rate_per_second <= 0xffff_ffff,
                    block_align <= 0xffff,
            ;
        }
        (sample_rate_per_second as u64 * block_align as u64) / samples_per_block as u64
    }

    /// Reads and checks an IMA ADPCM `fmt ` chunk: the data rate that the block layout
    /// gives and the samples per block; the extra bytes, as many as the extra size says,
    /// follow the extra size and must lie within the chunk.
    pub fn parse_fmt_metadata(&self, data: &[u8]) -> (res: Result<FmtMetadata, AudioParserError>)
        ensures
            ima_fmt_result(data@, res),
    {
        let mut metadata = parse_base_fmt_metadata(data)?;
        let extra_bytes_size: u16 = convert_to_number(data, 16, 18)?;
        let samples_per_block: u16 = convert_to_number(data, 18, 20)?;
        check_adpcm_rate(
            metadata.sample_rate_per_second,
            samples_per_block,
            metadata.block_align,
            metadata.avg_bytes_per_second,
        )?;
        let ch = metadata.number_of_channels as u32;
        let ba = metadata.block_align as u32;
        let bits = metadata.bits_per_sample as u32;
        proof {
            assert(bits * ch <= 0xffff * 0xffff) by (nonlinear_arith)
                requires
                    bits <= 0xffff,
                    ch <= 0xffff,
            ;
        }
        if !(4 * ch <= ba && (ba - 4 * ch) * 8 <= 0xffff && 0 < bits * ch && bits * ch <= 0xffff) {
            return Err(header_error("The samples per block cannot be derived from the block align"));
        }
        let calculated_samples_per_block = Self::calculate_dvi_ima_adpcm_samples_per_block(
            metadata.block_align,
            metadata.number_of_channels,
            metadata.bits_per_sample,
        );
        if samples_per_block != calculated_samples_per_block {
            return Err(
                mismatch_error(
                    "the samples per block align",
                    calculated_samples_per_block as u64,
                    samples_per_block as u64,
                ),
            );
        }
        if extra_bytes_size as usize > data.len() - 18 {
            return Err(range_error());
        }
        if extra_bytes_size > 0 {
            let end = 18 + extra_bytes_size as usize;
            metadata.extra_bytes = Some(vstd::slice::slice_to_vec(&data[18..end]));
        }
        metadata.extra_bytes_size = Some(extra_bytes_size);
        metadata.samples_per_block = Some(samples_per_block);
        Ok(metadata)
    }
}

impl WAVCodec for ImaAdpcmCodec {
    fn compression_code(&self) -> (res: CompressionCode)
        ensures
            res == CompressionCode::ImaAdpcm,
    {
        CompressionCode::ImaAdpcm
    }

    /// IMA ADPCM data is not decoded: the result holds no samples.
    fn parse_audio_data(&self, _data: &[u8], _metadata: &FmtMetadata) -> (res: Result<
        AudioData,
        AudioParserError,
    >)
        ensures
            res matches Ok(AudioData::U8(v)) && v@.len() == 0,
    {
        Ok(AudioData::U8(Vec::new()))
    }

    fn parse_fmt_metadata(&self, data: &[u8]) -> (res: Result<FmtMetadata, AudioParserError>)
        ensures
            ima_fmt_result(data@, res),
    {
        ImaAdpcmCodec::parse_fmt_metadata(self, data)
    }
}

} // verus!
