use crate::audio_parser::errors::{decimal, decimal_string, RenderingError};
use crate::audio_parser::utils::CompressionCode;
use crate::parser::wav::{AudioData, WaveParserContext};
use vstd::prelude::*;

verus! {

/// What a waveform is drawn from: the sample rate, the channels, the format and the
/// decoded samples of a file.
#[derive(Clone, Debug)]
pub struct WaveformRenderer {
    sample_rate: u32,
    number_of_channels: u16,
    compression_code: CompressionCode,
    data: Option<AudioData>,
}

/// The message for a channel count that cannot be drawn.
pub open spec fn unsupported_channels_text(channels: u16) -> Seq<char> {
    "Unsupported channel count: "@ + decimal(channels as nat)
}

/// The message for a time range that holds no sample.
pub open spec fn empty_range_text() -> Seq<char> {
    "Requested time range contains no samples"@
}

/// `res` is a chart setup error with the message `text`.
pub open spec fn is_setup_error<T>(res: Result<T, RenderingError>, text: Seq<char>) -> bool {
    res matches Err(RenderingError::ChartSetupError(m)) && m@ == text
}

/// The smaller of `a` and `b`.
pub open spec fn min(a: int, b: int) -> int {
    if a <= b {
        a
    } else {
        b
    }
}

fn unsupported_channels(channels: u16) -> (e: RenderingError)
    ensures
        e matches RenderingError::ChartSetupError(m) && m@ == unsupported_channels_text(channels),
{
    let mut m = String::from_str("Unsupported channel count: ");
    let number = decimal_string(channels as u64);
    m.append(number.as_str());
    RenderingError::ChartSetupError(m)
}

/// The samples at even positions and those at odd positions: the left and the right
/// channel of interleaved stereo samples.
pub fn split_channels<T: Copy>(samples: &[T]) -> (res: (Vec<T>, Vec<T>))
    ensures
        res.0@ == Seq::new((samples@.len() + 1) / 2, |i: int| samples@[2 * i]),
        res.1@ == Seq::new(samples@.len() / 2, |i: int| samples@[2 * i + 1]),
{
    let mut left: Vec<T> = Vec::new();
    let mut right: Vec<T> = Vec::new();
    let mut i: usize = 0;
    while i < samples.len()
        invariant
            i <= samples@.len(),
            left@.len() == (i + 1) / 2,
            right@.len() == i / 2,
            forall|j: int| 0 <= j < left@.len() ==> #[trigger] left@[j] == samples@[2 * j],
            forall|j: int| 0 <= j < right@.len() ==> #[trigger] right@[j] == samples@[2 * j + 1],
        decreases samples@.len() - i,
    {
        if i % 2 == 0 {
            left.push(samples[i]);
        } else {
            right.push(samples[i]);
        }
        i = i + 1;
    }
    assert(left@ =~= Seq::new((samples@.len() + 1) / 2, |i: int| samples@[2 * i]));
    assert(right@ =~= Seq::new(samples@.len() / 2, |i: int| samples@[2 * i + 1]));
    (left, right)
}

impl WaveformRenderer {
    /// The sample rate of the file.
    pub closed spec fn sample_rate_view(&self) -> u32 {
        self.sample_rate
    }

    /// The number of channels of the file.
    pub closed spec fn channels_view(&self) -> u16 {
        self.number_of_channels
    }

    /// The format of the file.
    pub closed spec fn compression_code_view(&self) -> CompressionCode {
        self.compression_code
    }

    /// The decoded samples of the file.
    pub closed spec fn data_view(&self) -> Option<AudioData> {
        self.data
    }

    /// A renderer for what a parser read.
    pub fn new(wave_parser_ctx: WaveParserContext) -> (res: WaveformRenderer)
        ensures
            res.sample_rate_view() == wave_parser_ctx.sample_rate,
            res.channels_view() == wave_parser_ctx.channels,
            res.compression_code_view() == wave_parser_ctx.compression_code,
            res.data_view() == wave_parser_ctx.samples,
    {
        Self {
            sample_rate: wave_parser_ctx.sample_rate,
            number_of_channels: wave_parser_ctx.channels,
            compression_code: wave_parser_ctx.compression_code,
            data: wave_parser_ctx.samples,
        }
    }

    /// The sample rate of the file.
    pub fn sample_rate(&self) -> (res: u32)
        ensures
            res == self.sample_rate_view(),
    {
        self.sample_rate
    }

    /// The number of channels of the file.
    pub fn number_of_channels(&self) -> (res: u16)
        ensures
            res == self.channels_view(),
    {
        self.number_of_channels
    }

    /// The format of the file.
    pub fn compression_code(&self) -> (res: CompressionCode)
        ensures
            res == self.compression_code_view(),
    {
        self.compression_code
    }

    /// The range of `len` interleaved 16-bit samples that a plot of `frame_count` frames
    /// from `start_frame` shows: the start is moved back to the end of the samples where it
    /// lies beyond it, and the range ends there too. Only mono and stereo can be drawn.
    pub fn i16_range(&self, len: usize, start_frame: usize, frame_count: usize) -> (res: Result<
        (usize, usize),
        RenderingError,
    >)
        ensures
            ({
                let ch = self.channels_view();
                let start = min(start_frame as int, len as int);
                if ch == 1 {
                    res == Ok::<(usize, usize), RenderingError>(
                        (start as usize, min(start + frame_count, len as int) as usize),
                    )
                } else if ch == 2 {
                    res == Ok::<(usize, usize), RenderingError>(
                        (
                            min(2 * start, len as int) as usize,
                            min(2 * (start + frame_count), len as int) as usize,
                        ),
                    )
                } else {
                    is_setup_error(res, unsupported_channels_text(ch))
                }
            }),
    {
        let start_sample: u128 = if start_frame < len {
            start_frame as u128
        } else {
            len as u128
        };
        let limit = len as u128;
        if self.number_of_channels == 1 {
            let end = start_sample + frame_count as u128;
            let end = if end < limit {
                end
            } else {
                limit
            };
            Ok((start_sample as usize, end as usize))
        } else if self.number_of_channels == 2 {
            let start = 2 * start_sample;
            let start = if start < limit {
                start
            } else {
                limit
            };
            let end = 2 * (start_sample + frame_count as u128);
            let end = if end < limit {
                end
            } else {
                limit
            };
            Ok((start as usize, end as usize))
        } else {
            Err(unsupported_channels(self.number_of_channels))
        }
    }

    /// The range of `len` interleaved 8-bit samples that a plot of `frame_count` frames
    /// from `start_frame` shows; a range that holds no sample is an error. Only mono and
    /// stereo can be drawn.
    pub fn u8_range(&self, len: usize, start_frame: usize, frame_count: usize) -> (res: Result<
        (usize, usize),
        RenderingError,
    >)
        ensures
            ({
                let ch = self.channels_view();
                let start: int = if ch == 1 {
                    start_frame as int
                } else {
                    2 * start_frame
                };
                let end: int = if ch == 1 {
                    min(start_frame + frame_count, len as int)
                } else {
                    min(2 * (start_frame + frame_count), len as int)
                };
                if ch != 1 && ch != 2 {
                    is_setup_error(res, unsupported_channels_text(ch))
                } else if start >= len || start >= end {
                    is_setup_error(res, empty_range_text())
                } else {
                    res == Ok::<(usize, usize), RenderingError>((start as usize, end as usize))
                }
            }),
    {
        if self.number_of_channels != 1 && self.number_of_channels != 2 {
            return Err(unsupported_channels(self.number_of_channels));
        }
        let per_frame: u128 = if self.number_of_channels == 1 {
            1
        } else {
            2
        };
        let limit = len as u128;
        let start = per_frame * start_frame as u128;
        let end = per_frame * (start_frame as u128 + frame_count as u128);
        let end = if end < limit {
            end
        } else {
            limit
        };
        if start >= limit || start >= end {
            return Err(
                RenderingError::ChartSetupError(
                    String::from_str("Requested time range contains no samples"),
                ),
            );
        }
        Ok((start as usize, end as usize))
    }

    /// The decoded samples of the file.
    pub fn data(&self) -> (res: &Option<AudioData>)
        ensures
            *res == self.data_view(),
    {
        &self.data
    }
}

} // verus!
