use bazauti::audio_parser::errors::AudioParserError;
use bazauti::audio_parser::utils::CompressionCode;
use bazauti::parser::wav::ima_adpcm::ImaAdpcmCodec;
use bazauti::parser::wav::ms_adpcm::MSAdpcmCodec;
use bazauti::parser::wav::pcm::PCMCodec;
use bazauti::parser::wav::{AudioData, FmtMetadata, WAVCodec};

fn header_error(text: &str) -> Result<FmtMetadata, AudioParserError> {
    Err(AudioParserError::InvalidFileHeaderError(String::from(text)))
}

fn range_error<T>() -> Result<T, AudioParserError> {
    Err(AudioParserError::InputAudioFileError(String::from("invalid byte range")))
}

fn fmt_chunk(code: u16, channels: u16, rate: u32, avg: u32, block_align: u16, bits: u16) -> Vec<u8> {
    let mut v = Vec::new();
    v.extend_from_slice(&code.to_le_bytes());
    v.extend_from_slice(&channels.to_le_bytes());
    v.extend_from_slice(&rate.to_le_bytes());
    v.extend_from_slice(&avg.to_le_bytes());
    v.extend_from_slice(&block_align.to_le_bytes());
    v.extend_from_slice(&bits.to_le_bytes());
    v
}

fn pcm_metadata(channels: u16, block_align: u16, bits: u16) -> FmtMetadata {
    FmtMetadata {
        compression_code: CompressionCode::Pcm,
        number_of_channels: channels,
        sample_rate_per_second: 8000,
        avg_bytes_per_second: 8000 * block_align as u32,
        block_align,
        bits_per_sample: bits,
        extra_bytes_size: None,
        extra_bytes: None,
        samples_per_block: None,
        coefficient_count: None,
        coefficients: None,
    }
}

fn adpcm_metadata(channels: u16, block_align: u16, coefficients: Vec<u8>) -> FmtMetadata {
    FmtMetadata {
        compression_code: CompressionCode::Adpcm,
        number_of_channels: channels,
        sample_rate_per_second: 8000,
        avg_bytes_per_second: 4096,
        block_align,
        bits_per_sample: 4,
        extra_bytes_size: Some(32),
        extra_bytes: None,
        samples_per_block: None,
        coefficient_count: Some((coefficients.len() / 4) as u16),
        coefficients: Some(coefficients),
    }
}

#[test]
fn pcm_fmt_accepts_consistent_header() {
    let data = fmt_chunk(1, 2, 44100, 176400, 4, 16);
    let m = PCMCodec {}.parse_fmt_metadata(&data).unwrap();
    assert_eq!(m.compression_code, CompressionCode::Pcm);
    assert_eq!(m.number_of_channels, 2);
    assert_eq!(m.sample_rate_per_second, 44100);
    assert_eq!(m.avg_bytes_per_second, 176400);
    assert_eq!(m.block_align, 4);
    assert_eq!(m.bits_per_sample, 16);
    assert_eq!(m.extra_bytes_size, None);
    assert_eq!(m.coefficients, None);
}

#[test]
fn pcm_fmt_rejects_mismatches() {
    let data = fmt_chunk(1, 2, 44100, 176400, 2, 16);
    assert_eq!(
        PCMCodec {}.parse_fmt_metadata(&data),
        header_error("Mismatch of the block align: Got: 4, expected: 2")
    );
    let data = fmt_chunk(1, 1, 8000, 1234, 1, 8);
    assert_eq!(
        PCMCodec {}.parse_fmt_metadata(&data),
        header_error("Mismatch of average bytes per second: Got: 8000, expected: 1234")
    );
    let data = fmt_chunk(1, 0, 8000, 8000, 1, 8);
    assert_eq!(
        PCMCodec {}.parse_fmt_metadata(&data),
        header_error("The channels should be more than 1, instead we got: 0")
    );
    assert_eq!(PCMCodec {}.parse_fmt_metadata(&data[0..10]), header_error("The channels should be more than 1, instead we got: 0"));
    let data = fmt_chunk(1, 1, 8000, 8000, 1, 8);
    assert_eq!(PCMCodec {}.parse_fmt_metadata(&data[0..15]), range_error());
}

#[test]
fn pcm_decodes_each_layout() {
    let data: [u8; 8] = [1, 2, 3, 4, 5, 6, 7, 8];
    assert_eq!(
        PCMCodec {}.parse_audio_data(&data, &pcm_metadata(1, 1, 8)),
        Ok(AudioData::U8(vec![1, 2, 3, 4, 5, 6, 7, 8]))
    );
    assert_eq!(
        PCMCodec {}.parse_audio_data(&data, &pcm_metadata(2, 2, 8)),
        Ok(AudioData::U8(vec![1, 2, 3, 4, 5, 6, 7, 8]))
    );
    assert_eq!(
        PCMCodec {}.parse_audio_data(&data, &pcm_metadata(1, 2, 16)),
        Ok(AudioData::I16(vec![0x0201, 0x0403, 0x0605, 0x0807]))
    );
    assert_eq!(
        PCMCodec {}.parse_audio_data(&data, &pcm_metadata(2, 4, 16)),
        Ok(AudioData::I16(vec![0x0201, 0x0403, 0x0605, 0x0807]))
    );
    let negative: [u8; 4] = [0xff, 0xff, 0x00, 0x80];
    assert_eq!(
        PCMCodec {}.parse_audio_data(&negative, &pcm_metadata(1, 2, 16)),
        Ok(AudioData::I16(vec![-1, i16::MIN]))
    );
}

#[test]
fn pcm_decoding_counts_whole_blocks() {
    let data: [u8; 7] = [1, 2, 3, 4, 5, 6, 7];
    // Three whole blocks of two bytes, one sample per channel each.
    assert_eq!(
        PCMCodec {}.parse_audio_data(&data, &pcm_metadata(2, 2, 8)),
        Ok(AudioData::U8(vec![1, 2, 3, 4, 5, 6]))
    );
    assert_eq!(
        PCMCodec {}.parse_audio_data(&data[0..1], &pcm_metadata(2, 2, 8)),
        Ok(AudioData::U8(vec![]))
    );
    assert_eq!(
        PCMCodec {}.parse_audio_data(&data[0..1], &pcm_metadata(2, 4, 16)),
        Ok(AudioData::I16(vec![]))
    );
}

#[test]
fn pcm_rejects_layouts_it_cannot_decode() {
    let data: [u8; 6] = [1, 2, 3, 4, 5, 6];
    assert_eq!(
        PCMCodec {}.parse_audio_data(&data, &pcm_metadata(3, 3, 8)),
        Err(AudioParserError::InvalidFileHeaderError(String::from("Unsupported PCM sample layout")))
    );
    assert_eq!(
        PCMCodec {}.parse_audio_data(&data, &pcm_metadata(2, 1, 8)),
        Err(AudioParserError::InvalidFileHeaderError(String::from("Unsupported PCM sample layout")))
    );
    assert_eq!(
        PCMCodec {}.parse_audio_data(&data, &pcm_metadata(1, 0, 8)),
        Err(AudioParserError::InvalidFileHeaderError(String::from(
            "The block align should not be zero"
        )))
    );
}

#[test]
fn adpcm_formulas() {
    assert_eq!(MSAdpcmCodec::calculate_adpcm_block_align(8000, 1), 256);
    assert_eq!(MSAdpcmCodec::calculate_adpcm_block_align(11025, 2), 512);
    assert_eq!(MSAdpcmCodec::calculate_adpcm_block_align(22000, 1), 1024);
    assert_eq!(MSAdpcmCodec::calculate_adpcm_block_align(44100, 1), 1024);
    assert_eq!(MSAdpcmCodec::calculate_adpcm_block_align(u32::MAX, 2), 1024);
    assert_eq!(MSAdpcmCodec::calculate_adpcm_samples_per_block(256, 1, 4), 500);
    assert_eq!(MSAdpcmCodec::calculate_adpcm_samples_per_block(512, 2, 4), 500);
    assert_eq!(MSAdpcmCodec::calculate_adpcm_samples_per_block(1024, 2, 4), 1012);
    assert_eq!(MSAdpcmCodec::calculate_adpcm_avg_bytes_per_second(22050, 1012, 512), 11155);
    assert_eq!(ImaAdpcmCodec::calculate_dvi_ima_adpcm_samples_per_block(256, 1, 4), 505);
    assert_eq!(ImaAdpcmCodec::calculate_dvi_ima_adpcm_samples_per_block(1024, 2, 4), 1017);
    assert_eq!(ImaAdpcmCodec::calculate_adpcm_avg_bytes_per_second(44100, 1017, 1024), 44403);
}

fn ms_fmt_chunk(channels: u16, rate: u32, block_align: u16, spb: u16, avg: u32, coefficients: &[(i16, i16)]) -> Vec<u8> {
    let mut v = fmt_chunk(2, channels, rate, avg, block_align, 4);
    v.extend_from_slice(&32u16.to_le_bytes());
    v.extend_from_slice(&spb.to_le_bytes());
    v.extend_from_slice(&(coefficients.len() as u16).to_le_bytes());
    for (a, b) in coefficients {
        v.extend_from_slice(&a.to_le_bytes());
        v.extend_from_slice(&b.to_le_bytes());
    }
    v
}

const STANDARD_COEFFICIENTS: [(i16, i16); 7] =
    [(256, 0), (512, -256), (0, 0), (192, 64), (240, 0), (460, -208), (392, -232)];

#[test]
fn ms_adpcm_fmt_accepts_standard_header() {
    let data = ms_fmt_chunk(1, 22050, 512, 1012, 11100, &STANDARD_COEFFICIENTS);
    // 22050 * 512 / 1012 = 11155.7...
    assert_eq!(
        MSAdpcmCodec {}.parse_fmt_metadata(&data),
        header_error("Mismatch of the average bytes per second: Got: 11155, expected: 11100")
    );
    let data = ms_fmt_chunk(1, 22050, 512, 1012, 11155, &STANDARD_COEFFICIENTS);
    let m = MSAdpcmCodec {}.parse_fmt_metadata(&data).unwrap();
    assert_eq!(m.extra_bytes_size, Some(32));
    assert_eq!(m.samples_per_block, Some(1012));
    assert_eq!(m.coefficient_count, Some(7));
    assert_eq!(m.coefficients.as_ref().unwrap().len(), 28);
    assert_eq!(&m.coefficients.unwrap()[..], &data[22..50]);
    assert_eq!(m.extra_bytes, None);
}

#[test]
fn ms_adpcm_fmt_rejects_mismatches() {
    let mut data = ms_fmt_chunk(1, 8000, 256, 500, 4096, &STANDARD_COEFFICIENTS);
    data[14] = 8;
    assert_eq!(
        MSAdpcmCodec {}.parse_fmt_metadata(&data),
        header_error("Mismatch of the bits per sample: Got: 8, expected: 4")
    );
    let data = ms_fmt_chunk(1, 8000, 512, 500, 4096, &STANDARD_COEFFICIENTS);
    assert_eq!(
        MSAdpcmCodec {}.parse_fmt_metadata(&data),
        header_error("Mismatch of the block align: Got: 256, expected: 512")
    );
    let mut data = ms_fmt_chunk(1, 8000, 256, 500, 4096, &STANDARD_COEFFICIENTS);
    data[16] = 2;
    assert_eq!(
        MSAdpcmCodec {}.parse_fmt_metadata(&data),
        header_error("Mismatch of the Extra bytes size: Got: 2, expected >= 32")
    );
    let data = ms_fmt_chunk(1, 8000, 256, 499, 4096, &STANDARD_COEFFICIENTS);
    assert_eq!(
        MSAdpcmCodec {}.parse_fmt_metadata(&data),
        header_error("Mismatch of the samples per block align: Got: 500, expected: 499")
    );
    let data = ms_fmt_chunk(1, 8000, 256, 500, 4096, &STANDARD_COEFFICIENTS);
    assert_eq!(MSAdpcmCodec {}.parse_fmt_metadata(&data[0..40]), range_error());
    assert_eq!(MSAdpcmCodec {}.parse_fmt_metadata(&data[0..17]), range_error());
    let data = ms_fmt_chunk(200, 100, 256, 500, 4096, &STANDARD_COEFFICIENTS);
    assert_eq!(
        MSAdpcmCodec {}.parse_fmt_metadata(&data),
        header_error("The block align is too small for the number of channels")
    );
}

fn coefficient_bytes(pairs: &[(i16, i16)]) -> Vec<u8> {
    let mut v = Vec::new();
    for (a, b) in pairs {
        v.extend_from_slice(&a.to_le_bytes());
        v.extend_from_slice(&b.to_le_bytes());
    }
    v
}

#[test]
fn ms_adpcm_decodes_mono_block() {
    // predictor 0 (256, 0), delta 16, sample1 100, sample2 50, then the byte 0x12.
    let data: [u8; 8] = [0, 16, 0, 100, 0, 50, 0, 0x12];
    let m = adpcm_metadata(1, 8, coefficient_bytes(&STANDARD_COEFFICIENTS));
    assert_eq!(
        MSAdpcmCodec {}.parse_audio_data(&data, &m),
        Ok(AudioData::I16(vec![50, 100, 116, 148]))
    );
}

#[test]
fn ms_adpcm_rounds_toward_zero_and_adapts() {
    // coefficient pair (1, 0); sample1 -3 predicts 0, not -1.
    let data: [u8; 8] = [0, 16, 0, 0xfd, 0xff, 0, 0, 0x08];
    let m = adpcm_metadata(1, 8, coefficient_bytes(&[(1, 0)]));
    assert_eq!(
        MSAdpcmCodec {}.parse_audio_data(&data, &m),
        Ok(AudioData::I16(vec![0, -3, 0, -128]))
    );
}

#[test]
fn ms_adpcm_clamps_extreme_predictions() {
    // predictor 1 (512, -256) from sample1 32767 and sample2 -32768 overshoots.
    let data: [u8; 8] = [1, 16, 0, 0xff, 0x7f, 0x00, 0x80, 0x00];
    let m = adpcm_metadata(1, 8, coefficient_bytes(&STANDARD_COEFFICIENTS));
    assert_eq!(
        MSAdpcmCodec {}.parse_audio_data(&data, &m),
        Ok(AudioData::I16(vec![-32768, 32767, 32767, 32767]))
    );
    // both products at their largest
    let data: [u8; 8] = [0, 16, 0, 0x00, 0x80, 0x00, 0x80, 0x00];
    let m = adpcm_metadata(1, 8, coefficient_bytes(&[(-32768, -32768)]));
    assert_eq!(
        MSAdpcmCodec {}.parse_audio_data(&data, &m),
        Ok(AudioData::I16(vec![-32768, -32768, 32767, 128]))
    );
}

#[test]
fn ms_adpcm_decodes_stereo_blocks() {
    // Two stereo blocks of 15 bytes: predictors 0 and 0, deltas 16 and 16,
    // sample1 10 and 20, sample2 1 and 2, then one byte 0x11.
    let block: [u8; 15] = [0, 0, 16, 0, 16, 0, 10, 0, 20, 0, 1, 0, 2, 0, 0x11];
    let mut data = block.to_vec();
    data.extend_from_slice(&block);
    data.push(0xaa); // not a whole block
    let m = adpcm_metadata(2, 15, coefficient_bytes(&STANDARD_COEFFICIENTS));
    let expected_block = vec![1, 2, 10, 20, 26, 36];
    let mut expected = expected_block.clone();
    expected.extend_from_slice(&expected_block);
    assert_eq!(MSAdpcmCodec {}.parse_audio_data(&data, &m), Ok(AudioData::I16(expected)));
}

#[test]
fn ms_adpcm_sample_count_matches_samples_per_block() {
    let coefficients = coefficient_bytes(&STANDARD_COEFFICIENTS);
    let mut data = vec![0u8; 3 * 256 + 10];
    for block in 0..3 {
        data[block * 256 + 1] = 16;
    }
    let m = adpcm_metadata(1, 256, coefficients);
    let spb = MSAdpcmCodec::calculate_adpcm_samples_per_block(256, 1, 4) as usize;
    let decoded = MSAdpcmCodec {}.parse_audio_data(&data, &m);
    match decoded {
        Ok(AudioData::I16(samples)) => assert_eq!(samples.len(), 3 * spb),
        other => panic!("unexpected {:?}", other),
    }
}

#[test]
fn ms_adpcm_rejects_unreadable_blocks() {
    // predictor 7 names no pair of a one-pair table
    let data: [u8; 8] = [7, 16, 0, 0, 0, 0, 0, 0];
    let m = adpcm_metadata(1, 8, coefficient_bytes(&[(256, 0)]));
    assert_eq!(MSAdpcmCodec {}.parse_audio_data(&data, &m), range_error());
    // a block align shorter than the header reads past the data
    let data: [u8; 6] = [0, 16, 0, 0, 0, 0];
    let m = adpcm_metadata(1, 4, coefficient_bytes(&[(256, 0)]));
    assert_eq!(MSAdpcmCodec {}.parse_audio_data(&data, &m), range_error());
    // no coefficient table at all
    let mut m = adpcm_metadata(1, 8, vec![]);
    m.coefficients = None;
    let data: [u8; 8] = [0, 16, 0, 0, 0, 0, 0, 0];
    assert_eq!(MSAdpcmCodec {}.parse_audio_data(&data, &m), range_error());
    assert_eq!(MSAdpcmCodec {}.parse_audio_data(&data[0..4], &m), Ok(AudioData::I16(vec![])));
}

fn ima_fmt_chunk(channels: u16, rate: u32, avg: u32, block_align: u16, bits: u16, extra: u16, spb: u16) -> Vec<u8> {
    let mut v = fmt_chunk(17, channels, rate, avg, block_align, bits);
    v.extend_from_slice(&extra.to_le_bytes());
    v.extend_from_slice(&spb.to_le_bytes());
    v
}

#[test]
fn ima_adpcm_fmt_checks() {
    // A typical IMA header: 4-bit mono, 512-byte blocks, two extra bytes.
    let data = ima_fmt_chunk(1, 22050, 11100, 512, 4, 2, 1017);
    let m = ImaAdpcmCodec {}.parse_fmt_metadata(&data).unwrap();
    assert_eq!(m.block_align, 512);
    assert_eq!(m.bits_per_sample, 4);
    assert_eq!(m.samples_per_block, Some(1017));
    assert_eq!(m.extra_bytes_size, Some(2));
    assert_eq!(m.extra_bytes, Some(vec![0xF9, 0x03]));
    assert_eq!(
        data,
        vec![0x11, 0, 1, 0, 0x22, 0x56, 0, 0, 0x5C, 0x2B, 0, 0, 0, 2, 4, 0, 2, 0, 0xF9, 0x03]
    );
    // The extra bytes must lie within the chunk.
    let data = ima_fmt_chunk(1, 22050, 11100, 512, 4, 3, 1017);
    assert_eq!(ImaAdpcmCodec {}.parse_fmt_metadata(&data), range_error());
    let data = ima_fmt_chunk(1, 22050, 11100, 512, 4, 2, 1000);
    assert_eq!(
        ImaAdpcmCodec {}.parse_fmt_metadata(&data),
        header_error("Mismatch of the average bytes per second: Got: 11289, expected: 11100")
    );
    let data = ima_fmt_chunk(1, 22050, 11100, 512, 4, 2, 0);
    assert_eq!(
        ImaAdpcmCodec {}.parse_fmt_metadata(&data),
        header_error("Mismatch of the average bytes per second: Got: inf, expected: 11100")
    );
    let data = ima_fmt_chunk(1, 0, 11100, 512, 4, 2, 0);
    assert_eq!(
        ImaAdpcmCodec {}.parse_fmt_metadata(&data),
        header_error("Mismatch of the average bytes per second: Got: NaN, expected: 11100")
    );
    let data = ima_fmt_chunk(1, 8000, 16000, 2, 8, 0, 1);
    // (2 - 4) bytes of data: no samples per block can be derived
    assert_eq!(
        ImaAdpcmCodec {}.parse_fmt_metadata(&data),
        header_error("The samples per block cannot be derived from the block align")
    );
    let data = ima_fmt_chunk(1, 100, 800, 8, 64, 0, 1);
    let m = ImaAdpcmCodec {}.parse_fmt_metadata(&data).unwrap();
    assert_eq!(m.samples_per_block, Some(1));
    assert_eq!(m.extra_bytes_size, Some(0));
    assert_eq!(m.extra_bytes, None);
    let mut data = ima_fmt_chunk(1, 100, 800, 8, 64, 4, 1);
    data.extend_from_slice(&[9, 8]);
    let m = ImaAdpcmCodec {}.parse_fmt_metadata(&data).unwrap();
    assert_eq!(m.extra_bytes_size, Some(4));
    assert_eq!(m.extra_bytes, Some(vec![1, 0, 9, 8]));
    let data = ima_fmt_chunk(1, 100, 800, 8, 64, 30, 1);
    assert_eq!(ImaAdpcmCodec {}.parse_fmt_metadata(&data), range_error());
    assert_eq!(ImaAdpcmCodec {}.compression_code(), CompressionCode::ImaAdpcm);
    assert_eq!(ImaAdpcmCodec {}.parse_audio_data(&data, &m), Ok(AudioData::U8(vec![])));
}

#[test]
fn codecs_name_their_formats() {
    assert_eq!(PCMCodec {}.compression_code(), CompressionCode::Pcm);
    assert_eq!(MSAdpcmCodec {}.compression_code(), CompressionCode::Adpcm);
}

#[test]
fn ms_adpcm_blocks_decode_independently() {
    let m = adpcm_metadata(1, 8, coefficient_bytes(&STANDARD_COEFFICIENTS));
    let first: [u8; 8] = [0, 16, 0, 100, 0, 50, 0, 0x12];
    let second: [u8; 10] = [1, 32, 0, 0xfd, 0xff, 7, 0, 0x34, 0x99, 0x01];
    let decode = |d: &[u8]| match (MSAdpcmCodec {}).parse_audio_data(d, &m) {
        Ok(AudioData::I16(v)) => v,
        other => panic!("{:?}", other),
    };
    let mut both = first.to_vec();
    both.extend_from_slice(&second);
    let mut expected = decode(&first);
    expected.extend_from_slice(&decode(&second));
    assert_eq!(decode(&both), expected);
    // a failing second part makes the whole fail
    let bad: [u8; 8] = [9, 16, 0, 0, 0, 0, 0, 0];
    let mut with_bad = first.to_vec();
    with_bad.extend_from_slice(&bad);
    assert_eq!(MSAdpcmCodec {}.parse_audio_data(&with_bad, &m), range_error());
}
