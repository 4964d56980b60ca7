use bazauti::audio_parser::errors::RenderingError;
use bazauti::audio_parser::utils::CompressionCode;
use bazauti::parser::wav::{AudioData, WaveParserContext};
use bazauti::waveform::plot::{split_channels, WaveformRenderer};

fn renderer(channels: u16) -> WaveformRenderer {
    WaveformRenderer::new(WaveParserContext {
        sample_rate: 8000,
        channels,
        compression_code: CompressionCode::Pcm,
        samples: Some(AudioData::I16(vec![1, 2, 3, 4])),
    })
}

#[test]
fn split_channels_deinterleaves() {
    let (left, right) = split_channels(&[1i16, -1, 2, -2, 3]);
    assert_eq!(left, vec![1, 2, 3]);
    assert_eq!(right, vec![-1, -2]);
    let (left, right) = split_channels::<u8>(&[]);
    assert!(left.is_empty());
    assert!(right.is_empty());
}

#[test]
fn i16_range_mono_and_stereo() {
    assert_eq!(renderer(1).i16_range(10, 2, 3), Ok((2, 5)));
    assert_eq!(renderer(1).i16_range(10, 8, 5), Ok((8, 10)));
    assert_eq!(renderer(1).i16_range(10, 20, 5), Ok((10, 10)));
    assert_eq!(renderer(2).i16_range(10, 2, 2), Ok((4, 8)));
    assert_eq!(renderer(2).i16_range(10, 4, 4), Ok((8, 10)));
    assert_eq!(renderer(2).i16_range(10, 7, 1), Ok((10, 10)));
}

#[test]
fn i16_range_rejects_other_channel_counts() {
    assert_eq!(
        renderer(3).i16_range(10, 0, 1),
        Err(RenderingError::ChartSetupError(String::from("Unsupported channel count: 3")))
    );
}

#[test]
fn u8_range_mono_and_stereo() {
    assert_eq!(renderer(1).u8_range(10, 2, 3), Ok((2, 5)));
    assert_eq!(renderer(1).u8_range(10, 8, 5), Ok((8, 10)));
    assert_eq!(renderer(2).u8_range(10, 1, 2), Ok((2, 6)));
    assert_eq!(renderer(2).u8_range(10, 3, 9), Ok((6, 10)));
}

#[test]
fn u8_range_rejects_empty_ranges() {
    let empty = Err(RenderingError::ChartSetupError(String::from(
        "Requested time range contains no samples",
    )));
    assert_eq!(renderer(1).u8_range(10, 10, 1), empty);
    assert_eq!(renderer(1).u8_range(10, 3, 0), empty);
    assert_eq!(renderer(2).u8_range(10, 5, 1), empty);
    assert_eq!(
        renderer(6).u8_range(10, 0, 1),
        Err(RenderingError::ChartSetupError(String::from("Unsupported channel count: 6")))
    );
}

#[test]
fn renderer_keeps_what_the_parser_read() {
    let r = renderer(2);
    assert_eq!(r.sample_rate(), 8000);
    assert_eq!(r.number_of_channels(), 2);
    assert_eq!(r.compression_code(), CompressionCode::Pcm);
    assert_eq!(r.data(), &Some(AudioData::I16(vec![1, 2, 3, 4])));
}
