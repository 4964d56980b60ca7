use bazauti::audio_parser::errors::AudioParserError;
use bazauti::audio_parser::utils::{CompressionCode, ListInfoId};
use bazauti::audio_parser::wav_parser::{BextMetadata, WAVMetadata, WAVParser};
use bazauti::parser::wav::ms_adpcm::MSAdpcmCodec;
use bazauti::parser::wav::{AudioData, WAVCodec};
use bazauti::waveform::plot::WaveformRenderer;

fn chunk(id: &[u8; 4], payload: &[u8]) -> Vec<u8> {
    let mut v = id.to_vec();
    v.extend_from_slice(&(payload.len() as u32).to_le_bytes());
    v.extend_from_slice(payload);
    if payload.len() % 2 == 1 {
        v.push(0);
    }
    v
}

fn riff(chunks: &[Vec<u8>]) -> Vec<u8> {
    let body: Vec<u8> = chunks.concat();
    let mut v = b"RIFF".to_vec();
    v.extend_from_slice(&(body.len() as u32 + 4).to_le_bytes());
    v.extend_from_slice(b"WAVE");
    v.extend_from_slice(&body);
    v
}

fn pcm_fmt(channels: u16, rate: u32, bits: u16) -> Vec<u8> {
    let block_align = channels * bits / 8;
    let mut v = Vec::new();
    v.extend_from_slice(&1u16.to_le_bytes());
    v.extend_from_slice(&channels.to_le_bytes());
    v.extend_from_slice(&rate.to_le_bytes());
    v.extend_from_slice(&(rate * block_align as u32).to_le_bytes());
    v.extend_from_slice(&block_align.to_le_bytes());
    v.extend_from_slice(&bits.to_le_bytes());
    v
}

fn header_error(text: &str) -> Result<(), AudioParserError> {
    Err(AudioParserError::InvalidFileHeaderError(String::from(text)))
}

fn range_error() -> Result<(), AudioParserError> {
    Err(AudioParserError::InputAudioFileError(String::from("invalid byte range")))
}

#[test]
fn new_parser_holds_nothing() {
    let parser = WAVParser::new("audio_files/pcm_8bit_mono.wav");
    assert_eq!(parser.input_file(), "audio_files/pcm_8bit_mono.wav");
    let m = parser.clone().metadata();
    assert_eq!(m, WAVMetadata::default());
    assert_eq!(m.fmt_metadata.compression_code, CompressionCode::Unknown);
    assert!(parser.data().is_empty());
}

#[test]
fn parses_pcm_8bit_mono_file() {
    let file = riff(&[chunk(b"fmt ", &pcm_fmt(1, 8000, 8)), chunk(b"data", &[128, 130, 126])]);
    let mut parser = WAVParser::new("x.wav");
    assert_eq!(parser.parse(&file), Ok(()));
    let ctx = parser.clone().context();
    assert_eq!(ctx.sample_rate, 8000);
    assert_eq!(ctx.channels, 1);
    assert_eq!(ctx.compression_code, CompressionCode::Pcm);
    assert_eq!(ctx.samples, Some(AudioData::U8(vec![128, 130, 126, 0])));
    let m = parser.metadata();
    assert_eq!(m.file_size as usize, file.len() - 8);
    assert_eq!(m.data_metadata, vec![128, 130, 126, 0]);
    assert_eq!(m.fmt_metadata.block_align, 1);
    assert_eq!(m.bext_metadata, None);
}

#[test]
fn parses_pcm_16bit_stereo_file_with_other_chunks() {
    let mut info = b"INFO".to_vec();
    info.extend_from_slice(&chunk(b"IART", b"Someone\0"));
    info.extend_from_slice(&chunk(b"INAM", b"Song"));
    let samples: [u8; 8] = [1, 0, 2, 0, 0xff, 0xff, 0, 0x80];
    let file = riff(&[
        chunk(b"fmt ", &pcm_fmt(2, 44100, 16)),
        chunk(b"LIST", &info),
        chunk(b"fact", &2u32.to_le_bytes()),
        chunk(b"cue ", &[0, 0, 0, 0]),
        chunk(b"junk", &[1, 2, 3]),
        chunk(b"data", &samples),
    ]);
    let mut parser = WAVParser::new("y.wav");
    assert_eq!(parser.parse(&file), Ok(()));
    let ctx = parser.context();
    assert_eq!(ctx.channels, 2);
    assert_eq!(ctx.samples, Some(AudioData::I16(vec![1, 2, -1, i16::MIN])));
    let renderer = WaveformRenderer::new(ctx);
    assert_eq!(renderer.sample_rate(), 44100);
    assert_eq!(renderer.number_of_channels(), 2);
    assert_eq!(renderer.compression_code(), CompressionCode::Pcm);
    assert_eq!(renderer.data(), &Some(AudioData::I16(vec![1, 2, -1, i16::MIN])));
}

#[test]
fn refuses_bad_headers() {
    let mut parser = WAVParser::new("z.wav");
    assert_eq!(parser.parse(b"RIF"), range_error());
    assert_eq!(
        parser.parse(b"RIFX\x04\x00\x00\x00WAVE"),
        header_error("WAV File Header parsing failed, expected 'RIFF': found 1")
    );
    assert_eq!(parser.parse(b"RIFF\x04\x00\x00\x00WAV"), range_error());
    assert_eq!(
        parser.parse(b"RIFF\x04\x00\x00\x00AVI "),
        header_error("WAV file Header parsing failed: expected 'WAVE': found 1")
    );
    assert_eq!(
        parser.parse(b"RIFF\x00\x00\x00\x00WAVE"),
        header_error("The RIFF chunk size should not be zero")
    );
    // the RIFF size claims a chunk that is not there
    assert_eq!(parser.parse(b"RIFF\x20\x00\x00\x00WAVE"), range_error());
    // a chunk that claims more bytes than the file holds
    assert_eq!(parser.parse(b"RIFF\x20\x00\x00\x00WAVEdata\x10\x00\x00\x00ab"), range_error());
    // a chunk identifier that is not UTF-8
    assert_eq!(
        parser.parse(b"RIFF\x20\x00\x00\x00WAVE\xff\xfe\xfd\xfc\x00\x00\x00\x00"),
        header_error("The chunk identifier is not valid UTF-8")
    );
    // only the RIFF size read before the wrong form type is left behind
    let mut expected = WAVMetadata::default();
    expected.file_size = 4;
    assert_eq!(parser.metadata(), expected);
}

#[test]
fn refuses_inconsistent_fmt_and_short_fact() {
    let mut fmt = pcm_fmt(1, 8000, 8);
    fmt[12] = 2;
    let file = riff(&[chunk(b"fmt ", &fmt), chunk(b"data", &[1, 2])]);
    let mut parser = WAVParser::new("a.wav");
    assert_eq!(parser.parse(&file), header_error("Mismatch of the block align: Got: 1, expected: 2"));
    let file = riff(&[chunk(b"fact", &[1, 2])]);
    assert_eq!(
        parser.parse(&file),
        Err(AudioParserError::InvalidByteCount { expected: 4, actual: 2 })
    );
    let file = riff(&[chunk(b"LIST", &[]), chunk(b"junk", &[])]);
    assert_eq!(parser.parse(&file), range_error());
    // chunks are read while their offset lies before the RIFF size, which does not count
    // the first eight bytes of the file: a last empty chunk is not reached
    let file = riff(&[chunk(b"LIST", &[])]);
    assert_eq!(parser.parse(&file), Ok(()));
}

#[test]
fn failed_parse_leaves_parser_unchanged() {
    let good = riff(&[chunk(b"fmt ", &pcm_fmt(1, 8000, 8)), chunk(b"data", &[7, 9])]);
    let mut parser = WAVParser::new("b.wav");
    assert_eq!(parser.parse(&good), Ok(()));
    let before = parser.clone();
    let mut bad_fmt = pcm_fmt(1, 8000, 8);
    bad_fmt[8] = 0;
    let bad = riff(&[chunk(b"data", &[1, 2, 3, 4]), chunk(b"fmt ", &bad_fmt)]);
    assert!(parser.parse(&bad).is_err());
    assert_eq!(parser.clone().metadata(), before.clone().metadata());
    assert_eq!(parser.context().samples, before.context().samples);
}

#[test]
fn later_chunks_replace_earlier_ones_and_missing_ones_keep_old_values() {
    let first = riff(&[chunk(b"fmt ", &pcm_fmt(1, 8000, 8)), chunk(b"data", &[1, 2])]);
    let mut parser = WAVParser::new("c.wav");
    assert_eq!(parser.parse(&first), Ok(()));
    // a file with only a data chunk is decoded with the format read before
    let second = riff(&[chunk(b"data", &[5, 6]), chunk(b"data", &[3, 4])]);
    assert_eq!(parser.parse(&second), Ok(()));
    assert_eq!(parser.clone().data(), vec![3, 4]);
    assert_eq!(parser.context().samples, Some(AudioData::U8(vec![3, 4])));
}

#[test]
fn non_pcm_files_are_not_decoded() {
    let mut fmt = Vec::new();
    fmt.extend_from_slice(&3u16.to_le_bytes()); // IEEE float
    fmt.extend_from_slice(&1u16.to_le_bytes());
    fmt.extend_from_slice(&8000u32.to_le_bytes());
    fmt.extend_from_slice(&32000u32.to_le_bytes());
    fmt.extend_from_slice(&4u16.to_le_bytes());
    fmt.extend_from_slice(&32u16.to_le_bytes());
    fmt.extend_from_slice(&0u16.to_le_bytes());
    let file = riff(&[chunk(b"fmt ", &fmt), chunk(b"data", &[0, 0, 0, 0])]);
    let mut parser = WAVParser::new("d.wav");
    assert_eq!(parser.parse(&file), Ok(()));
    let m = parser.clone().metadata();
    assert_eq!(m.fmt_metadata.compression_code, CompressionCode::IeeeFloat);
    assert_eq!(m.fmt_metadata.extra_bytes_size, Some(0));
    assert_eq!(parser.context().samples, None);
}

#[test]
fn reads_bext_chunk() {
    let mut bext = vec![0u8; 602];
    bext[0..5].copy_from_slice(b"Intro");
    bext[256..259].copy_from_slice(b"Me\0");
    bext[320..330].copy_from_slice(b"2024-01-02");
    bext[338..346].copy_from_slice(&123456789u64.to_le_bytes());
    bext[346..348].copy_from_slice(&2u16.to_le_bytes());
    bext[348] = 7;
    bext[412..414].copy_from_slice(&(-23i16).to_le_bytes());
    bext[421] = 0x80;
    bext.extend_from_slice(b"A=PCM\0junk");
    let b: BextMetadata = WAVParser::parse_bext_metadata(&bext).unwrap();
    assert_eq!(b.description, "Intro");
    assert_eq!(b.originator, "Me");
    assert_eq!(b.originator_reference, "");
    assert_eq!(b.originator_date, "2024-01-02");
    assert_eq!(b.time_reference, 123456789);
    assert_eq!(b.version, 2);
    assert_eq!(b.umid[0], 7);
    assert_eq!(b.loudness_value, -23);
    assert_eq!(b.max_short_term_loudness, i16::MIN);
    assert_eq!(b.reserved, [0u8; 180]);
    assert_eq!(b.coding_history, "A=PCM");
    assert_eq!(
        WAVParser::parse_bext_metadata(&bext[0..601]),
        Err(AudioParserError::InputAudioFileError(String::from("invalid byte range")))
    );
    let file = riff(&[chunk(b"bext", &bext)]);
    let mut parser = WAVParser::new("e.wav");
    assert_eq!(parser.parse(&file), Ok(()));
    assert_eq!(parser.metadata().bext_metadata, Some(b));
}

#[test]
fn reads_list_info_entries() {
    let mut body = Vec::new();
    body.extend_from_slice(&chunk(b"IART", b"First"));
    body.extend_from_slice(&chunk(b"ICMT", b"odd"));
    body.extend_from_slice(&chunk(b"IART", b"Second"));
    body.extend_from_slice(&chunk(b"ZZZZ", b"??"));
    let props = WAVParser::parse_list_info_metadata(&body).unwrap();
    assert_eq!(props.len(), 3);
    let get = |id: ListInfoId| props.iter().find(|(k, _)| *k == id).map(|(_, v)| v.clone());
    assert_eq!(get(ListInfoId::Iart), Some(String::from("Second")));
    assert_eq!(get(ListInfoId::Icmt), Some(String::from("odd")));
    assert_eq!(get(ListInfoId::Unknown), Some(String::from("??")));
    let mut list = b"INFO".to_vec();
    list.extend_from_slice(&body);
    assert_eq!(WAVParser::parse_list_metadata(&list).unwrap().len(), 3);
    let mut other = b"adtl".to_vec();
    other.extend_from_slice(&body);
    assert!(WAVParser::parse_list_metadata(&other).unwrap().is_empty());
    assert!(WAVParser::parse_list_metadata(b"xyz").is_err());
    assert!(WAVParser::parse_list_info_metadata(&[]).is_err());
    assert!(WAVParser::parse_list_info_metadata(&body[0..10]).is_err());
    assert!(WAVParser::parse_list_info_metadata(&[1]).unwrap().is_empty());
}

#[test]
fn reads_fact_chunk() {
    assert_eq!(WAVParser::parse_fact_metadata(&[1, 1, 0, 0]), Ok(257));
    assert_eq!(
        WAVParser::parse_fact_metadata(&[1, 1, 0]),
        Err(AudioParserError::InvalidByteCount { expected: 4, actual: 3 })
    );
}

#[test]
fn other_formats_keep_as_many_extra_bytes_as_stated() {
    let mut fmt = Vec::new();
    fmt.extend_from_slice(&3u16.to_le_bytes()); // IEEE float
    fmt.extend_from_slice(&1u16.to_le_bytes());
    fmt.extend_from_slice(&8000u32.to_le_bytes());
    fmt.extend_from_slice(&32000u32.to_le_bytes());
    fmt.extend_from_slice(&4u16.to_le_bytes());
    fmt.extend_from_slice(&32u16.to_le_bytes());
    fmt.extend_from_slice(&2u16.to_le_bytes());
    fmt.extend_from_slice(&[7, 9]);
    let m = WAVParser::parse_fmt_metadata(&fmt).unwrap();
    assert_eq!(m.extra_bytes_size, Some(2));
    assert_eq!(m.extra_bytes, Some(vec![7, 9]));
    // one byte short of what the extra size states
    assert_eq!(
        WAVParser::parse_fmt_metadata(&fmt[0..19]),
        Err(AudioParserError::InputAudioFileError(String::from("invalid byte range")))
    );
}

#[test]
fn reads_padded_list_info_entry() {
    let data = [b'I', b'N', b'A', b'M', 3, 0, 0, 0, b'H', b'i', 0, 0];
    let props = WAVParser::parse_list_info_metadata(&data).unwrap();
    assert_eq!(props, vec![(ListInfoId::Inam, String::from("Hi"))]);
    assert_eq!(ListInfoId::Inam.to_string(), "Name");
}

#[test]
fn wrong_form_type_leaves_riff_size_behind() {
    let good = riff(&[chunk(b"fmt ", &pcm_fmt(1, 8000, 8)), chunk(b"data", &[7, 9])]);
    let mut parser = WAVParser::new("w.wav");
    assert_eq!(parser.parse(&good), Ok(()));
    let before = parser.clone().metadata();
    let mut avi = good.clone();
    avi[4..8].copy_from_slice(&1234u32.to_le_bytes());
    avi[8..12].copy_from_slice(b"AVI ");
    assert_eq!(
        parser.parse(&avi),
        header_error("WAV file Header parsing failed: expected 'WAVE': found 1")
    );
    let after = parser.clone().metadata();
    assert_eq!(after.file_size, 1234);
    assert_eq!(after.fmt_metadata, before.fmt_metadata);
    assert_eq!(after.data_metadata, before.data_metadata);
    assert_eq!(parser.context().samples, Some(AudioData::U8(vec![7, 9])));
}

fn ms_adpcm_fmt() -> Vec<u8> {
    let coefficients: [(i16, i16); 7] =
        [(256, 0), (512, -256), (0, 0), (192, 64), (240, 0), (460, -208), (392, -232)];
    let mut v = Vec::new();
    v.extend_from_slice(&2u16.to_le_bytes());
    v.extend_from_slice(&1u16.to_le_bytes());
    v.extend_from_slice(&8000u32.to_le_bytes());
    v.extend_from_slice(&4096u32.to_le_bytes());
    v.extend_from_slice(&256u16.to_le_bytes());
    v.extend_from_slice(&4u16.to_le_bytes());
    v.extend_from_slice(&32u16.to_le_bytes());
    v.extend_from_slice(&500u16.to_le_bytes());
    v.extend_from_slice(&7u16.to_le_bytes());
    for (a, b) in coefficients {
        v.extend_from_slice(&a.to_le_bytes());
        v.extend_from_slice(&b.to_le_bytes());
    }
    v
}

#[test]
fn ms_adpcm_files_are_decoded() {
    let mut block = vec![0u8; 256];
    block[0..7].copy_from_slice(&[0, 16, 0, 100, 0, 50, 0]);
    block[7] = 0x12;
    let file = riff(&[chunk(b"fmt ", &ms_adpcm_fmt()), chunk(b"data", &block)]);
    let mut parser = WAVParser::new("m.wav");
    assert_eq!(parser.parse(&file), Ok(()));
    let m = parser.clone().metadata().fmt_metadata;
    assert_eq!(m.compression_code, CompressionCode::Adpcm);
    let expected = MSAdpcmCodec {}.parse_audio_data(&block, &m).unwrap();
    let samples = parser.context().samples.unwrap();
    assert_eq!(samples, expected);
    match samples {
        AudioData::I16(v) => {
            assert_eq!(v.len(), 500);
            assert_eq!(&v[0..4], &[50, 100, 116, 148]);
        }
        other => panic!("{:?}", other),
    }
    // a block whose predictor names no coefficient pair cannot be decoded
    block[0] = 9;
    let bad = riff(&[chunk(b"fmt ", &ms_adpcm_fmt()), chunk(b"data", &block)]);
    let mut parser = WAVParser::new("n.wav");
    assert_eq!(parser.parse(&bad), range_error());
}
