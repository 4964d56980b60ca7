use bazauti::audio_parser::errors::{
    decimal_string, mismatch_error, numbered_error, AudioParserError,
};
use bazauti::audio_parser::wav_parser::WAVMetadataSubChunk;
use bazauti::audio_parser::utils::{
    convert_to_number, fixed_string, parse_compression_code, CompressionCode, FromLeBytes,
    ListInfoId,
};

#[test]
fn test_fixed_string_non_null() {
    let test_payload: [u8; 5] = [72, 101, 108, 108, 111];
    let ret_val = fixed_string(&test_payload);
    assert_eq!(ret_val, String::from("Hello"));
}

#[test]
fn test_fixed_string_with_null() {
    let test_payload: [u8; 7] = [72, 101, 108, 108, 0, 0, 111];
    let ret_val = fixed_string(&test_payload);
    assert_eq!(ret_val, String::from("Hell"));
}

#[test]
fn test_convert_to_number_u16() -> Result<(), AudioParserError> {
    let test_payload: [u8; 6] = [2, 1, 5, 6, 7, 8];
    let ret_val = convert_to_number::<u16>(&test_payload, 0, 2)?;
    assert_eq!(ret_val, 258);
    Ok(())
}

#[test]
fn test_convert_to_number_i16() -> Result<(), AudioParserError> {
    let test_payload: [u8; 6] = [0, 255, 5, 6, 7, 8];
    let ret_val = convert_to_number::<i16>(&test_payload, 0, 2)?;
    assert_eq!(ret_val, -256);
    Ok(())
}

#[test]
fn test_convert_to_number_u32() -> Result<(), AudioParserError> {
    let test_payload: [u8; 6] = [2, 1, 1, 0, 0, 8];
    let ret_val = convert_to_number::<u32>(&test_payload, 1, 5)?;
    assert_eq!(ret_val, 257);
    Ok(())
}

#[test]
fn test_convert_to_number_u64() -> Result<(), AudioParserError> {
    let test_payload: [u8; 12] = [2, 1, 5, 6, 1, 8, 0, 0, 0, 0, 0, 0];
    let ret_val = convert_to_number::<u64>(&test_payload, 4, 12)?;
    assert_eq!(ret_val, 2049);
    Ok(())
}

#[test]
fn fixed_string_empty_and_leading_nul() {
    assert_eq!(fixed_string(&[]), String::new());
    assert_eq!(fixed_string(&[0, 65, 66]), String::new());
}

#[test]
fn fixed_string_replaces_invalid_utf8() {
    assert_eq!(fixed_string(&[65, 0xff, 66]), String::from("A\u{FFFD}B"));
}

#[test]
fn convert_to_number_rejects_bad_ranges() {
    let payload: [u8; 4] = [1, 2, 3, 4];
    assert_eq!(
        convert_to_number::<u16>(&payload, 3, 5),
        Err(AudioParserError::InputAudioFileError(String::from("invalid byte range")))
    );
    assert_eq!(
        convert_to_number::<u16>(&payload, 3, 2),
        Err(AudioParserError::InputAudioFileError(String::from("invalid byte range")))
    );
}

#[test]
fn convert_to_number_rejects_wrong_width() {
    let payload: [u8; 4] = [1, 2, 3, 4];
    assert_eq!(
        convert_to_number::<u32>(&payload, 0, 2),
        Err(AudioParserError::InvalidByteCount { expected: 4, actual: 2 })
    );
    assert_eq!(
        <u64 as FromLeBytes>::from_le_bytes(&payload),
        Err(AudioParserError::InvalidByteCount { expected: 8, actual: 4 })
    );
}

#[test]
fn from_le_bytes_extremes() {
    assert_eq!(<i16 as FromLeBytes>::from_le_bytes(&[0x00, 0x80]), Ok(i16::MIN));
    assert_eq!(<i16 as FromLeBytes>::from_le_bytes(&[0xff, 0x7f]), Ok(i16::MAX));
    assert_eq!(<i16 as FromLeBytes>::from_le_bytes(&[0xff, 0xff]), Ok(-1));
    assert_eq!(<u32 as FromLeBytes>::from_le_bytes(&[0xff; 4]), Ok(u32::MAX));
    assert_eq!(<u64 as FromLeBytes>::from_le_bytes(&[0xff; 8]), Ok(u64::MAX));
    assert_eq!(
        <u64 as FromLeBytes>::from_le_bytes(&[1, 2, 3, 4, 5, 6, 7, 8]),
        Ok(0x0807060504030201)
    );
}

#[test]
fn compression_codes_roundtrip() {
    let all = [
        CompressionCode::Unknown,
        CompressionCode::Pcm,
        CompressionCode::Adpcm,
        CompressionCode::IeeeFloat,
        CompressionCode::G711Alaw,
        CompressionCode::G711Ulaw,
        CompressionCode::ImaAdpcm,
        CompressionCode::DolbyAc2,
        CompressionCode::Gsm610,
        CompressionCode::MsMpeg,
        CompressionCode::Mp3,
        CompressionCode::Aac,
        CompressionCode::Flac,
        CompressionCode::Extensible,
    ];
    for c in all {
        assert_eq!(parse_compression_code(c.code()), c);
        assert_eq!(CompressionCode::from(c.code()), c);
    }
    assert_eq!(parse_compression_code(17), CompressionCode::ImaAdpcm);
    assert_eq!(parse_compression_code(4), CompressionCode::Unknown);
    assert_eq!(CompressionCode::default(), CompressionCode::Unknown);
    assert_eq!(CompressionCode::Adpcm.to_string(), "Microsoft ADPCM");
    assert_eq!(CompressionCode::Pcm.to_string(), "Microsoft PCM (Uncompressed)");
}

#[test]
fn list_info_ids_roundtrip() {
    assert_eq!(ListInfoId::from(*b"IART"), ListInfoId::Iart);
    assert_eq!(ListInfoId::from(*b"ITCH"), ListInfoId::Itch);
    assert_eq!(ListInfoId::from(*b"XXXX"), ListInfoId::Unknown);
    assert_eq!(ListInfoId::Icrd.as_bytes(), *b"ICRD");
    assert_eq!(ListInfoId::Unknown.as_bytes(), *b"UNKN");
    assert_eq!(ListInfoId::from(ListInfoId::Isrf.as_bytes()), ListInfoId::Isrf);
    assert_eq!(ListInfoId::Icrd.to_string(), "Creation date");
    assert_eq!(ListInfoId::default(), ListInfoId::Unknown);
}

#[test]
fn decimal_strings_match_std() {
    for n in [0u64, 7, 9, 10, 99, 100, 65535, 4294967296, u64::MAX] {
        assert_eq!(decimal_string(n), n.to_string());
    }
    assert_eq!(
        mismatch_error("the block align", 4, 2),
        AudioParserError::InvalidFileHeaderError(String::from(
            "Mismatch of the block align: Got: 4, expected: 2"
        ))
    );
    assert_eq!(
        numbered_error("Got: ", 12, " bytes"),
        AudioParserError::InvalidFileHeaderError(String::from("Got: 12 bytes"))
    );
}

#[test]
fn sub_chunk_default_is_empty() {
    let c = WAVMetadataSubChunk::default();
    assert_eq!(c.name, "");
    assert_eq!(c.size, 0);
}

#[test]
fn little_endian_bytes_read_back() {
    for x in [0i16, 1, -1, 255, 256, -256, i16::MIN, i16::MAX, 12345, -12345] {
        assert_eq!(<i16 as FromLeBytes>::from_le_bytes(&x.to_le_bytes()), Ok(x));
    }
    for x in [0u16, 1, 258, u16::MAX] {
        assert_eq!(<u16 as FromLeBytes>::from_le_bytes(&x.to_le_bytes()), Ok(x));
    }
    for x in [0u32, 257, 0x1234_5678, u32::MAX] {
        assert_eq!(<u32 as FromLeBytes>::from_le_bytes(&x.to_le_bytes()), Ok(x));
    }
    for x in [0u64, 2049, 0x0123_4567_89ab_cdef, u64::MAX] {
        assert_eq!(<u64 as FromLeBytes>::from_le_bytes(&x.to_le_bytes()), Ok(x));
    }
}

#[test]
fn fixed_string_replaces_invalid_bytes() {
    assert_eq!(fixed_string(&[0xFF, 0x41, 0, 0x42]), String::from("\u{FFFD}A"));
}
