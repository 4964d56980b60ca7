use crate::audio_parser::errors::{is_range_error, range_error, AudioParserError};
use vstd::prelude::*;
use vstd::utf8::{decode_utf8, valid_utf8};

verus! {

/// What `String::from_utf8_lossy` makes of `bytes`: their characters where they are valid
/// UTF-8, with U+FFFD in place of each invalid sequence.
pub uninterp spec fn lossy_utf8(bytes: Seq<u8>) -> Seq<char>;

/// Calls `String::from_utf8_lossy` and takes the owned string.
/// Trusted, from the documentation of `from_utf8_lossy`, which keeps valid sequences as
/// their characters and replaces each invalid sequence with U+FFFD: the result is
/// `lossy_utf8(bytes)`; on valid UTF-8 it is the decoded text; on other bytes it holds a
/// U+FFFD; and it holds a NUL character only where the bytes hold a zero byte (the only
/// valid encoding of U+0000). Where the replacement characters stand is left unsaid.
#[verifier::external_body]
fn utf8_lossy_string(bytes: &[u8]) -> (res: String)
    ensures
        res@ == lossy_utf8(bytes@),
        valid_utf8(bytes@) ==> res@ == decode_utf8(bytes@),
        !valid_utf8(bytes@) ==> res@.contains('\u{FFFD}'),
        !bytes@.contains(0u8) ==> !res@.contains('\0'),
{
    String::from_utf8_lossy(bytes).into_owned()
}

/// Calls `std::str::from_utf8` and reports whether it accepts `bytes`.
/// Trusted: it accepts exactly the byte strings that are valid UTF-8, which vstd's
/// `valid_utf8` defines.
#[verifier::external_body]
pub(crate) fn is_valid_utf8(bytes: &[u8]) -> (res: bool)
    ensures
        res == valid_utf8(bytes@),
{
    std::str::from_utf8(bytes).is_ok()
}

/// The number of bytes before the first NUL byte of `s`, or its length if it holds none.
pub open spec fn text_len(s: Seq<u8>) -> nat
    decreases s.len(),
{
    if s.len() == 0 || s[0] == 0 {
        0
    } else {
        1 + text_len(s.drop_first())
    }
}

proof fn lemma_text_len(s: Seq<u8>, i: int)
    requires
        0 <= i <= s.len(),
        forall|j: int| 0 <= j < i ==> s[j] != 0,
        i == s.len() || s[i] == 0,
    ensures
        text_len(s) == i,
    decreases i,
{
    if i > 0 {
        lemma_text_len(s.drop_first(), i - 1);
    }
}

/// The text of a NUL-padded field: its bytes before the first NUL, decoded as UTF-8 where
/// they are valid UTF-8, and decoded lossily otherwise.
pub open spec fn fixed_text(s: Seq<u8>) -> Seq<char> {
    let prefix = s.take(text_len(s) as int);
    if valid_utf8(prefix) {
        decode_utf8(prefix)
    } else {
        lossy_utf8(prefix)
    }
}

proof fn lemma_text_len_concat(a: Seq<u8>, b: Seq<u8>)
    ensures
        text_len(a + seq![0u8] + b) == text_len(a + seq![0u8]),
        text_len(a + seq![0u8]) <= a.len(),
    decreases a.len(),
{
    if a.len() > 0 {
        lemma_text_len_concat(a.drop_first(), b);
        assert((a + seq![0u8] + b).drop_first() =~= a.drop_first() + seq![0u8] + b);
        assert((a + seq![0u8]).drop_first() =~= a.drop_first() + seq![0u8]);
    }
}

/// A text field ends at its first NUL: the bytes after it do not change the text.
pub proof fn fixed_text_stops_at_nul(a: Seq<u8>, b: Seq<u8>)
    ensures
        fixed_text(a + seq![0u8] + b) == fixed_text(a + seq![0u8]),
{
    lemma_text_len_concat(a, b);
    let n = text_len(a + seq![0u8]) as int;
    assert((a + seq![0u8] + b).take(n) =~= (a + seq![0u8]).take(n));
}

/// Reads a NUL-padded text field: the bytes before the first NUL, decoded as UTF-8 with
/// invalid sequences replaced.
pub fn fixed_string(data: &[u8]) -> (res: String)
    ensures
        res@ == fixed_text(data@),
        !res@.contains('\0'),
        !valid_utf8(data@.take(text_len(data@) as int)) ==> res@.contains('\u{FFFD}'),
{
    let mut end: usize = 0;
    while end < data.len() && data[end] != 0
        invariant
            end <= data.len(),
            forall|j: int| 0 <= j < end ==> data@[j] != 0,
        decreases data.len() - end,
    {
        end = end + 1;
    }
    proof {
        lemma_text_len(data@, end as int);
    }
    let text = &data[0..end];
    assert(text@ == data@.take(end as int));
    assert(!text@.contains(0u8)) by {
        if text@.contains(0u8) {
            let j = choose|j: int| 0 <= j < text@.len() && text@[j] == 0u8;
            assert(data@[j] != 0);
        }
    }
    utf8_lossy_string(text)
}

/// The unsigned number that `bytes` encodes, least significant byte first.
pub open spec fn le_value(bytes: Seq<u8>) -> nat
    decreases bytes.len(),
{
    if bytes.len() == 0 {
        0
    } else {
        bytes[0] as nat + 256 * le_value(bytes.drop_first())
    }
}

/// Numbers that can be read from their little-endian encoding.
pub trait FromLeBytes: Sized {
    /// How many bytes the encoding takes.
    spec fn byte_width() -> nat;

    /// The number that `bytes` encodes; meaningful when it has `byte_width()` bytes.
    spec fn from_le_spec(bytes: Seq<u8>) -> Self;

    /// Decodes `data`, which must hold exactly `byte_width()` bytes.
    fn from_le_bytes(data: &[u8]) -> (res: Result<Self, AudioParserError>)
        ensures
            data@.len() == Self::byte_width() ==> res == Ok::<Self, AudioParserError>(
                Self::from_le_spec(data@),
            ),
            data@.len() != Self::byte_width() ==> res == Err::<Self, AudioParserError>(
                AudioParserError::InvalidByteCount {
                    expected: Self::byte_width() as usize,
                    actual: data@.len() as usize,
                },
            ),
    ;
}

/// What decoding `bytes` as a `T` gives: the number, or the count mismatch.
pub open spec fn decode_le<T: FromLeBytes>(bytes: Seq<u8>) -> Result<T, AudioParserError> {
    if bytes.len() == T::byte_width() {
        Ok(T::from_le_spec(bytes))
    } else {
        Err(
            AudioParserError::InvalidByteCount {
                expected: T::byte_width() as usize,
                actual: bytes.len() as usize,
            },
        )
    }
}

impl FromLeBytes for u16 {
    open spec fn byte_width() -> nat {
        2
    }

    open spec fn from_le_spec(bytes: Seq<u8>) -> u16 {
        le_value(bytes) as u16
    }

    fn from_le_bytes(data: &[u8]) -> (res: Result<u16, AudioParserError>) {
        if data.len() != 2 {
            return Err(AudioParserError::InvalidByteCount { expected: 2, actual: data.len() });
        }
        proof {
            reveal_with_fuel(le_value, 3);
        }
        Ok(data[0] as u16 + 256 * (data[1] as u16))
    }
}

impl FromLeBytes for i16 {
    open spec fn byte_width() -> nat {
        2
    }

    open spec fn from_le_spec(bytes: Seq<u8>) -> i16 {
        let v = le_value(bytes);
        if v < 32768 {
            v as i16
        } else {
            (v - 65536) as i16
        }
    }

    fn from_le_bytes(data: &[u8]) -> (res: Result<i16, AudioParserError>) {
        if data.len() != 2 {
            return Err(AudioParserError::InvalidByteCount { expected: 2, actual: data.len() });
        }
        proof {
            reveal_with_fuel(le_value, 3);
        }
        let v: u16 = data[0] as u16 + 256 * (data[1] as u16);
        if v < 32768 {
            Ok(v as i16)
        } else {
            Ok((v as i32 - 65536) as i16)
        }
    }
}

impl FromLeBytes for u32 {
    open spec fn byte_width() -> nat {
        4
    }

    open spec fn from_le_spec(bytes: Seq<u8>) -> u32 {
        le_value(bytes) as u32
    }

    fn from_le_bytes(data: &[u8]) -> (res: Result<u32, AudioParserError>) {
        if data.len() != 4 {
            return Err(AudioParserError::InvalidByteCount { expected: 4, actual: data.len() });
        }
        proof {
            reveal_with_fuel(le_value, 5);
        }
        Ok(data[0] as u32 + 256 * (data[1] as u32) + 65536 * (data[2] as u32) + 16777216 * (
        data[3] as u32))
    }
}

impl FromLeBytes for u64 {
    open spec fn byte_width() -> nat {
        8
    }

    open spec fn from_le_spec(bytes: Seq<u8>) -> u64 {
        le_value(bytes) as u64
    }

    fn from_le_bytes(data: &[u8]) -> (res: Result<u64, AudioParserError>) {
        if data.len() != 8 {
            return Err(AudioParserError::InvalidByteCount { expected: 8, actual: data.len() });
        }
        proof {
            reveal_with_fuel(le_value, 9);
        }
        let low: u64 = data[0] as u64 + 256 * (data[1] as u64) + 65536 * (data[2] as u64)
            + 16777216 * (data[3] as u64);
        let high: u64 = data[4] as u64 + 256 * (data[5] as u64) + 65536 * (data[6] as u64)
            + 16777216 * (data[7] as u64);
        Ok(low + 4294967296 * high)
    }
}

/// The little-endian encoding of `x` in `n` bytes, least significant byte first, as
/// `to_le_bytes` writes it.
pub open spec fn le_encoding(x: nat, n: nat) -> Seq<u8>
    decreases n,
{
    if n == 0 {
        seq![]
    } else {
        seq![(x % 256) as u8] + le_encoding(x / 256, (n - 1) as nat)
    }
}

/// 256 to the power `n`: the numbers that fit in `n` bytes are those below it.
pub open spec fn pow256(n: nat) -> nat
    decreases n,
{
    if n == 0 {
        1
    } else {
        256 * pow256((n - 1) as nat)
    }
}

/// The bytes of the two's-complement encoding of `x`, as `i16::to_le_bytes` writes them.
pub open spec fn i16_le_bytes(x: i16) -> Seq<u8> {
    le_encoding(
        if x < 0 {
            (x + 65536) as nat
        } else {
            x as nat
        },
        2,
    )
}

/// Decoding the `n`-byte little-endian encoding of a number that fits in `n` bytes gives
/// the number back.
pub proof fn le_value_of_encoding(x: nat, n: nat)
    requires
        x < pow256(n),
    ensures
        le_encoding(x, n).len() == n,
        le_value(le_encoding(x, n)) == x,
    decreases n,
{
    if n > 0 {
        let p = pow256((n - 1) as nat);
        assert(x / 256 < p) by (nonlinear_arith)
            requires
                x < 256 * p,
        ;
        le_value_of_encoding(x / 256, (n - 1) as nat);
        let e = le_encoding(x, n);
        assert(e.drop_first() =~= le_encoding(x / 256, (n - 1) as nat));
        assert(e[0] == (x % 256) as u8);
    }
}

/// Reading back the little-endian bytes of an `i16` gives it again.
pub proof fn i16_le_roundtrip(x: i16)
    ensures
        i16_le_bytes(x).len() == <i16 as FromLeBytes>::byte_width(),
        <i16 as FromLeBytes>::from_le_spec(i16_le_bytes(x)) == x,
{
    reveal_with_fuel(pow256, 3);
    let v: nat = if x < 0 {
        (x + 65536) as nat
    } else {
        x as nat
    };
    le_value_of_encoding(v, 2);
}

/// Reading back the little-endian bytes of a `u16` gives it again.
pub proof fn u16_le_roundtrip(x: u16)
    ensures
        le_encoding(x as nat, 2).len() == <u16 as FromLeBytes>::byte_width(),
        <u16 as FromLeBytes>::from_le_spec(le_encoding(x as nat, 2)) == x,
{
    reveal_with_fuel(pow256, 3);
    le_value_of_encoding(x as nat, 2);
}

/// Reading back the little-endian bytes of a `u32` gives it again.
pub proof fn u32_le_roundtrip(x: u32)
    ensures
        le_encoding(x as nat, 4).len() == <u32 as FromLeBytes>::byte_width(),
        <u32 as FromLeBytes>::from_le_spec(le_encoding(x as nat, 4)) == x,
{
    reveal_with_fuel(pow256, 5);
    le_value_of_encoding(x as nat, 4);
}

/// Reading back the little-endian bytes of a `u64` gives it again.
pub proof fn u64_le_roundtrip(x: u64)
    ensures
        le_encoding(x as nat, 8).len() == <u64 as FromLeBytes>::byte_width(),
        <u64 as FromLeBytes>::from_le_spec(le_encoding(x as nat, 8)) == x,
{
    reveal_with_fuel(pow256, 9);
    le_value_of_encoding(x as nat, 8);
}

/// Decodes the little-endian number held in `data[lower_limit..upper_limit]`.
pub fn convert_to_number<T: FromLeBytes>(
    data: &[u8],
    lower_limit: usize,
    upper_limit: usize,
) -> (res: Result<T, AudioParserError>)
    ensures
        lower_limit <= upper_limit <= data@.len() ==> res == decode_le::<T>(
            data@.subrange(lower_limit as int, upper_limit as int),
        ),
        !(lower_limit <= upper_limit <= data@.len()) ==> (res matches Err(e) && is_range_error(e)),
{
    if lower_limit <= upper_limit && upper_limit <= data.len() {
        T::from_le_bytes(&data[lower_limit..upper_limit])
    } else {
        Err(range_error())
    }
}

/// The audio formats that the format tag of a `fmt ` chunk names.
#[derive(Debug, Clone, Copy, PartialEq, Eq, Structural)]
pub enum CompressionCode {
    Unknown,
    Pcm,
    Adpcm,
    IeeeFloat,
    G711Alaw,
    G711Ulaw,
    ImaAdpcm,
    DolbyAc2,
    Gsm610,
    MsMpeg,
    Mp3,
    Aac,
    Flac,
    Extensible,
}

/// The format tag that stands for `c` in a `fmt ` chunk.
pub open spec fn compression_code_value(c: CompressionCode) -> u16 {
    match c {
        CompressionCode::Unknown => 0,
        CompressionCode::Pcm => 1,
        CompressionCode::Adpcm => 2,
        CompressionCode::IeeeFloat => 3,
        CompressionCode::G711Alaw => 6,
        CompressionCode::G711Ulaw => 7,
        CompressionCode::ImaAdpcm => 17,
        CompressionCode::DolbyAc2 => 48,
        CompressionCode::Gsm610 => 49,
        CompressionCode::MsMpeg => 80,
        CompressionCode::Mp3 => 85,
        CompressionCode::Aac => 255,
        CompressionCode::Flac => 61868,
        CompressionCode::Extensible => 65534,
    }
}

/// The format that a format tag names; tags that name none are `Unknown`.
pub open spec fn compression_code_of(code: u16) -> CompressionCode {
    if code == 1 {
        CompressionCode::Pcm
    } else if code == 2 {
        CompressionCode::Adpcm
    } else if code == 3 {
        CompressionCode::IeeeFloat
    } else if code == 6 {
        CompressionCode::G711Alaw
    } else if code == 7 {
        CompressionCode::G711Ulaw
    } else if code == 17 {
        CompressionCode::ImaAdpcm
    } else if code == 48 {
        CompressionCode::DolbyAc2
    } else if code == 49 {
        CompressionCode::Gsm610
    } else if code == 80 {
        CompressionCode::MsMpeg
    } else if code == 85 {
        CompressionCode::Mp3
    } else if code == 255 {
        CompressionCode::Aac
    } else if code == 61868 {
        CompressionCode::Flac
    } else if code == 65534 {
        CompressionCode::Extensible
    } else {
        CompressionCode::Unknown
    }
}

/// The human-readable name of a format.
pub open spec fn compression_code_name(c: CompressionCode) -> Seq<char> {
    match c {
        CompressionCode::Unknown => "Unknown"@,
        CompressionCode::Pcm => "Microsoft PCM (Uncompressed)"@,
        CompressionCode::Adpcm => "Microsoft ADPCM"@,
        CompressionCode::IeeeFloat => "Microsoft IEEE Float"@,
        CompressionCode::G711Alaw => "ITU G.711 a-law"@,
        CompressionCode::G711Ulaw => "ITU G.711 u-law"@,
        CompressionCode::ImaAdpcm => "Intel IMA/DVI ADPCM"@,
        CompressionCode::Gsm610 => "Microsoft GSM610"@,
        CompressionCode::DolbyAc2 => "Dolby AC2"@,
        CompressionCode::MsMpeg => "Microsoft MPEG"@,
        CompressionCode::Mp3 => "MP3"@,
        CompressionCode::Aac => "AAC"@,
        CompressionCode::Flac => "Free Lossless Audio Codec FLAC"@,
        CompressionCode::Extensible => "Extensible"@,
    }
}

/// Maps a format tag to the format it names.
pub fn parse_compression_code(code: u16) -> (res: CompressionCode)
    ensures
        res == compression_code_of(code),
{
    match code {
        1 => CompressionCode::Pcm,
        2 => CompressionCode::Adpcm,
        3 => CompressionCode::IeeeFloat,
        6 => CompressionCode::G711Alaw,
        7 => CompressionCode::G711Ulaw,
        17 => CompressionCode::ImaAdpcm,
        48 => CompressionCode::DolbyAc2,
        49 => CompressionCode::Gsm610,
        80 => CompressionCode::MsMpeg,
        85 => CompressionCode::Mp3,
        255 => CompressionCode::Aac,
        61868 => CompressionCode::Flac,
        65534 => CompressionCode::Extensible,
        _ => CompressionCode::Unknown,
    }
}

impl CompressionCode {
    /// The format tag of this format.
    pub fn code(self) -> (res: u16)
        ensures
            res == compression_code_value(self),
    {
        match self {
            CompressionCode::Unknown => 0,
            CompressionCode::Pcm => 1,
            CompressionCode::Adpcm => 2,
            CompressionCode::IeeeFloat => 3,
            CompressionCode::G711Alaw => 6,
            CompressionCode::G711Ulaw => 7,
            CompressionCode::ImaAdpcm => 17,
            CompressionCode::DolbyAc2 => 48,
            CompressionCode::Gsm610 => 49,
            CompressionCode::MsMpeg => 80,
            CompressionCode::Mp3 => 85,
            CompressionCode::Aac => 255,
            CompressionCode::Flac => 61868,
            CompressionCode::Extensible => 65534,
        }
    }

    /// The human-readable name of this format.
    pub fn to_string(&self) -> (res: String)
        ensures
            res@ == compression_code_name(*self),
    {
        let name = match self {
            CompressionCode::Unknown => "Unknown",
            CompressionCode::Pcm => "Microsoft PCM (Uncompressed)",
            CompressionCode::Adpcm => "Microsoft ADPCM",
            CompressionCode::IeeeFloat => "Microsoft IEEE Float",
            CompressionCode::G711Alaw => "ITU G.711 a-law",
            CompressionCode::G711Ulaw => "ITU G.711 u-law",
            CompressionCode::ImaAdpcm => "Intel IMA/DVI ADPCM",
            CompressionCode::Gsm610 => "Microsoft GSM610",
            CompressionCode::DolbyAc2 => "Dolby AC2",
            CompressionCode::MsMpeg => "Microsoft MPEG",
            CompressionCode::Mp3 => "MP3",
            CompressionCode::Aac => "AAC",
            CompressionCode::Flac => "Free Lossless Audio Codec FLAC",
            CompressionCode::Extensible => "Extensible",
        };
        String::from_str(name)
    }
}

impl Default for CompressionCode {
    fn default() -> (res: CompressionCode)
        ensures
            res == CompressionCode::Unknown,
    {
        CompressionCode::Unknown
    }
}

impl From<u16> for CompressionCode {
    fn from(code: u16) -> (res: CompressionCode) {
        parse_compression_code(code)
    }
}

impl vstd::std_specs::convert::FromSpecImpl<u16> for CompressionCode {
    open spec fn obeys_from_spec() -> bool {
        true
    }

    open spec fn from_spec(code: u16) -> CompressionCode {
        compression_code_of(code)
    }
}

/// The registered WAVE format tags and the formats they name: 1 is Microsoft PCM, 2
/// Microsoft ADPCM, 3 IEEE float, 6 G.711 A-law, 7 G.711 u-law, 17 Intel IMA/DVI ADPCM, 48
/// Dolby AC2, 49 GSM 6.10, 80 Microsoft MPEG, 85 MP3, 255 AAC, 61868 FLAC and 65534
/// WAVE_FORMAT_EXTENSIBLE; every other tag names no known format.
pub proof fn compression_code_registry()
    ensures
        compression_code_of(1) == CompressionCode::Pcm,
        compression_code_value(CompressionCode::Pcm) == 1,
        compression_code_name(compression_code_of(1)) == "Microsoft PCM (Uncompressed)"@,
        compression_code_of(2) == CompressionCode::Adpcm,
        compression_code_value(CompressionCode::Adpcm) == 2,
        compression_code_name(compression_code_of(2)) == "Microsoft ADPCM"@,
        compression_code_of(3) == CompressionCode::IeeeFloat,
        compression_code_value(CompressionCode::IeeeFloat) == 3,
        compression_code_name(compression_code_of(3)) == "Microsoft IEEE Float"@,
        compression_code_of(6) == CompressionCode::G711Alaw,
        compression_code_value(CompressionCode::G711Alaw) == 6,
        compression_code_name(compression_code_of(6)) == "ITU G.711 a-law"@,
        compression_code_of(7) == CompressionCode::G711Ulaw,
        compression_code_value(CompressionCode::G711Ulaw) == 7,
        compression_code_name(compression_code_of(7)) == "ITU G.711 u-law"@,
        compression_code_of(17) == CompressionCode::ImaAdpcm,
        compression_code_value(CompressionCode::ImaAdpcm) == 17,
        compression_code_name(compression_code_of(17)) == "Intel IMA/DVI ADPCM"@,
        compression_code_of(48) == CompressionCode::DolbyAc2,
        compression_code_value(CompressionCode::DolbyAc2) == 48,
        compression_code_name(compression_code_of(48)) == "Dolby AC2"@,
        compression_code_of(49) == CompressionCode::Gsm610,
        compression_code_value(CompressionCode::Gsm610) == 49,
        compression_code_name(compression_code_of(49)) == "Microsoft GSM610"@,
        compression_code_of(80) == CompressionCode::MsMpeg,
        compression_code_value(CompressionCode::MsMpeg) == 80,
        compression_code_name(compression_code_of(80)) == "Microsoft MPEG"@,
        compression_code_of(85) == CompressionCode::Mp3,
        compression_code_value(CompressionCode::Mp3) == 85,
        compression_code_name(compression_code_of(85)) == "MP3"@,
        compression_code_of(255) == CompressionCode::Aac,
        compression_code_value(CompressionCode::Aac) == 255,
        compression_code_name(compression_code_of(255)) == "AAC"@,
        compression_code_of(61868) == CompressionCode::Flac,
        compression_code_value(CompressionCode::Flac) == 61868,
        compression_code_name(compression_code_of(61868)) == "Free Lossless Audio Codec FLAC"@,
        compression_code_of(65534) == CompressionCode::Extensible,
        compression_code_value(CompressionCode::Extensible) == 65534,
        compression_code_name(compression_code_of(65534)) == "Extensible"@,
        forall|code: u16|
            !(code == 1 || code == 2 || code == 3 || code == 6 || code == 7 || code == 17 || code == 48 || code == 49 || code == 80 || code == 85 || code == 255 || code == 61868 || code == 65534) ==> #[trigger] compression_code_of(code) == CompressionCode::Unknown,
{
}

/// Every format is read back from its own tag.
pub proof fn compression_code_roundtrip(c: CompressionCode)
    ensures
        compression_code_of(compression_code_value(c)) == c,
{
}

/// A tag that names a format is the tag of that format.
pub proof fn compression_code_tag_roundtrip(code: u16)
    requires
        compression_code_of(code) != CompressionCode::Unknown,
    ensures
        compression_code_value(compression_code_of(code)) == code,
{
}

/// The INFO list entries of a RIFF `LIST` chunk.
#[derive(Debug, Clone, Copy, PartialEq, Eq, Structural)]
pub enum ListInfoId {
    Unknown,
    Iarl,
    Iart,
    Icms,
    Icmt,
    Icop,
    Icrd,
    Icrp,
    Idim,
    Idpi,
    Ieng,
    Ignr,
    Ikey,
    Ilgt,
    Imed,
    Inam,
    Iplt,
    Iprd,
    Isbj,
    Isft,
    Ishp,
    Isrc,
    Isrf,
    Itch,
}

/// The four-byte tag of an INFO entry; `Unknown` has the tag `UNKN`.
pub open spec fn list_info_id_bytes(id: ListInfoId) -> Seq<u8> {
    match id {
        ListInfoId::Unknown => seq![85, 78, 75, 78],  // UNKN
        ListInfoId::Iarl => seq![73, 65, 82, 76],  // IARL
        ListInfoId::Iart => seq![73, 65, 82, 84],  // IART
        ListInfoId::Icms => seq![73, 67, 77, 83],  // ICMS
        ListInfoId::Icmt => seq![73, 67, 77, 84],  // ICMT
        ListInfoId::Icop => seq![73, 67, 79, 80],  // ICOP
        ListInfoId::Icrd => seq![73, 67, 82, 68],  // ICRD
        ListInfoId::Icrp => seq![73, 67, 82, 80],  // ICRP
        ListInfoId::Idim => seq![73, 68, 73, 77],  // IDIM
        ListInfoId::Idpi => seq![73, 68, 80, 73],  // IDPI
        ListInfoId::Ieng => seq![73, 69, 78, 71],  // IENG
        ListInfoId::Ignr => seq![73, 71, 78, 82],  // IGNR
        ListInfoId::Ikey => seq![73, 75, 69, 89],  // IKEY
        ListInfoId::Ilgt => seq![73, 76, 71, 84],  // ILGT
        ListInfoId::Imed => seq![73, 77, 69, 68],  // IMED
        ListInfoId::Inam => seq![73, 78, 65, 77],  // INAM
        ListInfoId::Iplt => seq![73, 80, 76, 84],  // IPLT
        ListInfoId::Iprd => seq![73, 80, 82, 68],  // IPRD
        ListInfoId::Isbj => seq![73, 83, 66, 74],  // ISBJ
        ListInfoId::Isft => seq![73, 83, 70, 84],  // ISFT
        ListInfoId::Ishp => seq![73, 83, 72, 80],  // ISHP
        ListInfoId::Isrc => seq![73, 83, 82, 67],  // ISRC
        ListInfoId::Isrf => seq![73, 83, 82, 70],  // ISRF
        ListInfoId::Itch => seq![73, 84, 67, 72],  // ITCH
    }
}

/// The INFO entry whose tag is `b0 b1 b2 b3`; tags of no entry give `Unknown`.
pub open spec fn list_info_id_from(b0: u8, b1: u8, b2: u8, b3: u8) -> ListInfoId {
    if b0 == 73 && b1 == 65 && b2 == 82 && b3 == 76 {  // IARL
        ListInfoId::Iarl
    } else if b0 == 73 && b1 == 65 && b2 == 82 && b3 == 84 {  // IART
        ListInfoId::Iart
    } else if b0 == 73 && b1 == 67 && b2 == 77 && b3 == 83 {  // ICMS
        ListInfoId::Icms
    } else if b0 == 73 && b1 == 67 && b2 == 77 && b3 == 84 {  // ICMT
        ListInfoId::Icmt
    } else if b0 == 73 && b1 == 67 && b2 == 79 && b3 == 80 {  // ICOP
        ListInfoId::Icop
    } else if b0 == 73 && b1 == 67 && b2 == 82 && b3 == 68 {  // ICRD
        ListInfoId::Icrd
    } else if b0 == 73 && b1 == 67 && b2 == 82 && b3 == 80 {  // ICRP
        ListInfoId::Icrp
    } else if b0 == 73 && b1 == 68 && b2 == 73 && b3 == 77 {  // IDIM
        ListInfoId::Idim
    } else if b0 == 73 && b1 == 68 && b2 == 80 && b3 == 73 {  // IDPI
        ListInfoId::Idpi
    } else if b0 == 73 && b1 == 69 && b2 == 78 && b3 == 71 {  // IENG
        ListInfoId::Ieng
    } else if b0 == 73 && b1 == 71 && b2 == 78 && b3 == 82 {  // IGNR
        ListInfoId::Ignr
    } else if b0 == 73 && b1 == 75 && b2 == 69 && b3 == 89 {  // IKEY
        ListInfoId::Ikey
    } else if b0 == 73 && b1 == 76 && b2 == 71 && b3 == 84 {  // ILGT
        ListInfoId::Ilgt
    } else if b0 == 73 && b1 == 77 && b2 == 69 && b3 == 68 {  // IMED
        ListInfoId::Imed
    } else if b0 == 73 && b1 == 78 && b2 == 65 && b3 == 77 {  // INAM
        ListInfoId::Inam
    } else if b0 == 73 && b1 == 80 && b2 == 76 && b3 == 84 {  // IPLT
        ListInfoId::Iplt
    } else if b0 == 73 && b1 == 80 && b2 == 82 && b3 == 68 {  // IPRD
        ListInfoId::Iprd
    } else if b0 == 73 && b1 == 83 && b2 == 66 && b3 == 74 {  // ISBJ
        ListInfoId::Isbj
    } else if b0 == 73 && b1 == 83 && b2 == 70 && b3 == 84 {  // ISFT
        ListInfoId::Isft
    } else if b0 == 73 && b1 == 83 && b2 == 72 && b3 == 80 {  // ISHP
        ListInfoId::Ishp
    } else if b0 == 73 && b1 == 83 && b2 == 82 && b3 == 67 {  // ISRC
        ListInfoId::Isrc
    } else if b0 == 73 && b1 == 83 && b2 == 82 && b3 == 70 {  // ISRF
        ListInfoId::Isrf
    } else if b0 == 73 && b1 == 84 && b2 == 67 && b3 == 72 {  // ITCH
        ListInfoId::Itch
    } else {
        ListInfoId::Unknown
    }
}

/// The INFO entry whose tag is the four bytes `b`.
pub open spec fn list_info_id_of(b: Seq<u8>) -> ListInfoId {
    list_info_id_from(b[0], b[1], b[2], b[3])
}

/// The human-readable name of an INFO entry.
pub open spec fn list_info_id_name(id: ListInfoId) -> Seq<char> {
    match id {
        ListInfoId::Unknown => "Unknown"@,
        ListInfoId::Iarl => "Archival Location"@,
        ListInfoId::Iart => "Artist"@,
        ListInfoId::Icms => "Commissioned"@,
        ListInfoId::Icmt => "Comments"@,
        ListInfoId::Icop => "Copyright"@,
        ListInfoId::Icrd => "Creation date"@,
        ListInfoId::Icrp => "Cropped"@,
        ListInfoId::Idim => "Dimensions"@,
        ListInfoId::Idpi => "Dots Per Inch"@,
        ListInfoId::Ieng => "Engineer"@,
        ListInfoId::Ignr => "Genre"@,
        ListInfoId::Ikey => "Keywords"@,
        ListInfoId::Ilgt => "Lightness"@,
        ListInfoId::Imed => "Medium"@,
        ListInfoId::Inam => "Name"@,
        ListInfoId::Iplt => "Palette Setting"@,
        ListInfoId::Iprd => "Product"@,
        ListInfoId::Isbj => "Subject"@,
        ListInfoId::Isft => "Software"@,
        ListInfoId::Ishp => "Sharpness"@,
        ListInfoId::Isrc => "Source"@,
        ListInfoId::Isrf => "Source Form"@,
        ListInfoId::Itch => "Technician"@,
    }
}

impl ListInfoId {
    /// The INFO entry that the tag `id` names.
    pub fn from_bytes(id: [u8; 4]) -> (res: ListInfoId)
        ensures
            res == list_info_id_of(id@),
    {
        match (id[0], id[1], id[2], id[3]) {
            (73, 65, 82, 76) => ListInfoId::Iarl,  // IARL
            (73, 65, 82, 84) => ListInfoId::Iart,  // IART
            (73, 67, 77, 83) => ListInfoId::Icms,  // ICMS
            (73, 67, 77, 84) => ListInfoId::Icmt,  // ICMT
            (73, 67, 79, 80) => ListInfoId::Icop,  // ICOP
            (73, 67, 82, 68) => ListInfoId::Icrd,  // ICRD
            (73, 67, 82, 80) => ListInfoId::Icrp,  // ICRP
            (73, 68, 73, 77) => ListInfoId::Idim,  // IDIM
            (73, 68, 80, 73) => ListInfoId::Idpi,  // IDPI
            (73, 69, 78, 71) => ListInfoId::Ieng,  // IENG
            (73, 71, 78, 82) => ListInfoId::Ignr,  // IGNR
            (73, 75, 69, 89) => ListInfoId::Ikey,  // IKEY
            (73, 76, 71, 84) => ListInfoId::Ilgt,  // ILGT
            (73, 77, 69, 68) => ListInfoId::Imed,  // IMED
            (73, 78, 65, 77) => ListInfoId::Inam,  // INAM
            (73, 80, 76, 84) => ListInfoId::Iplt,  // IPLT
            (73, 80, 82, 68) => ListInfoId::Iprd,  // IPRD
            (73, 83, 66, 74) => ListInfoId::Isbj,  // ISBJ
            (73, 83, 70, 84) => ListInfoId::Isft,  // ISFT
            (73, 83, 72, 80) => ListInfoId::Ishp,  // ISHP
            (73, 83, 82, 67) => ListInfoId::Isrc,  // ISRC
            (73, 83, 82, 70) => ListInfoId::Isrf,  // ISRF
            (73, 84, 67, 72) => ListInfoId::Itch,  // ITCH
            _ => ListInfoId::Unknown,
        }
    }

    /// The four-byte tag of this entry.
    pub fn as_bytes(self) -> (res: [u8; 4])
        ensures
            res@ == list_info_id_bytes(self),
    {
        let bytes: [u8; 4] = match self {
            ListInfoId::Unknown => [85, 78, 75, 78],  // UNKN
            ListInfoId::Iarl => [73, 65, 82, 76],  // IARL
            ListInfoId::Iart => [73, 65, 82, 84],  // IART
            ListInfoId::Icms => [73, 67, 77, 83],  // ICMS
            ListInfoId::Icmt => [73, 67, 77, 84],  // ICMT
            ListInfoId::Icop => [73, 67, 79, 80],  // ICOP
            ListInfoId::Icrd => [73, 67, 82, 68],  // ICRD
            ListInfoId::Icrp => [73, 67, 82, 80],  // ICRP
            ListInfoId::Idim => [73, 68, 73, 77],  // IDIM
            ListInfoId::Idpi => [73, 68, 80, 73],  // IDPI
            ListInfoId::Ieng => [73, 69, 78, 71],  // IENG
            ListInfoId::Ignr => [73, 71, 78, 82],  // IGNR
            ListInfoId::Ikey => [73, 75, 69, 89],  // IKEY
            ListInfoId::Ilgt => [73, 76, 71, 84],  // ILGT
            ListInfoId::Imed => [73, 77, 69, 68],  // IMED
            ListInfoId::Inam => [73, 78, 65, 77],  // INAM
            ListInfoId::Iplt => [73, 80, 76, 84],  // IPLT
            ListInfoId::Iprd => [73, 80, 82, 68],  // IPRD
            ListInfoId::Isbj => [73, 83, 66, 74],  // ISBJ
            ListInfoId::Isft => [73, 83, 70, 84],  // ISFT
            ListInfoId::Ishp => [73, 83, 72, 80],  // ISHP
            ListInfoId::Isrc => [73, 83, 82, 67],  // ISRC
            ListInfoId::Isrf => [73, 83, 82, 70],  // ISRF
            ListInfoId::Itch => [73, 84, 67, 72],  // ITCH
        };
        bytes
    }

    /// The human-readable name of this entry.
    pub fn to_string(&self) -> (res: String)
        ensures
            res@ == list_info_id_name(*self),
    {
        let name = match self {
            ListInfoId::Unknown => "Unknown",
            ListInfoId::Iarl => "Archival Location",
            ListInfoId::Iart => "Artist",
            ListInfoId::Icms => "Commissioned",
            ListInfoId::Icmt => "Comments",
            ListInfoId::Icop => "Copyright",
            ListInfoId::Icrd => "Creation date",
            ListInfoId::Icrp => "Cropped",
            ListInfoId::Idim => "Dimensions",
            ListInfoId::Idpi => "Dots Per Inch",
            ListInfoId::Ieng => "Engineer",
            ListInfoId::Ignr => "Genre",
            ListInfoId::Ikey => "Keywords",
            ListInfoId::Ilgt => "Lightness",
            ListInfoId::Imed => "Medium",
            ListInfoId::Inam => "Name",
            ListInfoId::Iplt => "Palette Setting",
            ListInfoId::Iprd => "Product",
            ListInfoId::Isbj => "Subject",
            ListInfoId::Isft => "Software",
            ListInfoId::Ishp => "Sharpness",
            ListInfoId::Isrc => "Source",
            ListInfoId::Isrf => "Source Form",
            ListInfoId::Itch => "Technician",
        };
        String::from_str(name)
    }
}

impl Default for ListInfoId {
    fn default() -> (res: ListInfoId)
        ensures
            res == ListInfoId::Unknown,
    {
        ListInfoId::Unknown
    }
}

impl From<[u8; 4]> for ListInfoId {
    fn from(id: [u8; 4]) -> (res: ListInfoId) {
        ListInfoId::from_bytes(id)
    }
}

impl vstd::std_specs::convert::FromSpecImpl<[u8; 4]> for ListInfoId {
    open spec fn obeys_from_spec() -> bool {
        true
    }

    open spec fn from_spec(id: [u8; 4]) -> ListInfoId {
        list_info_id_of(id@)
    }
}

/// Different INFO entries have different names, so a table keyed by the entries is keyed
/// by their names as well.
pub proof fn list_info_names_distinct(a: ListInfoId, b: ListInfoId)
    requires
        a != b,
    ensures
        list_info_id_name(a) != list_info_id_name(b),
{
    reveal_strlit("Unknown");
    reveal_strlit("Archival Location");
    reveal_strlit("Artist");
    reveal_strlit("Commissioned");
    reveal_strlit("Comments");
    reveal_strlit("Copyright");
    reveal_strlit("Creation date");
    reveal_strlit("Cropped");
    reveal_strlit("Dimensions");
    reveal_strlit("Dots Per Inch");
    reveal_strlit("Engineer");
    reveal_strlit("Genre");
    reveal_strlit("Keywords");
    reveal_strlit("Lightness");
    reveal_strlit("Medium");
    reveal_strlit("Name");
    reveal_strlit("Palette Setting");
    reveal_strlit("Product");
    reveal_strlit("Subject");
    reveal_strlit("Software");
    reveal_strlit("Sharpness");
    reveal_strlit("Source");
    reveal_strlit("Source Form");
    reveal_strlit("Technician");
    if list_info_id_name(a) == list_info_id_name(b) {
        assert(list_info_id_name(a).len() == list_info_id_name(b).len());
        assert(list_info_id_name(a)[0] == list_info_id_name(b)[0]);
        assert(list_info_id_name(a)[1] == list_info_id_name(b)[1]);
        assert(list_info_id_name(a)[2] == list_info_id_name(b)[2]);
    }
}

/// The bytes of an ASCII text, one per character.
pub open spec fn ascii_bytes(s: Seq<char>) -> Seq<u8> {
    Seq::new(s.len(), |i: int| s[i] as u8)
}

/// The RIFF INFO tags and the entries they name, as the RIFF specification lists them:
/// IARL archival location, IART artist, ICMS commissioned, ICMT comments, ICOP copyright,
/// ICRD creation date, ICRP cropped, IDIM dimensions, IDPI dots per inch, IENG engineer,
/// IGNR genre, IKEY keywords, ILGT lightness, IMED medium, INAM name, IPLT palette setting,
/// IPRD product, ISBJ subject, ISFT software, ISHP sharpness, ISRC source, ISRF source form
/// and ITCH technician; any other four bytes name no known entry.
pub proof fn list_info_registry()
    ensures
        list_info_id_of(ascii_bytes("IARL"@)) == ListInfoId::Iarl,
        list_info_id_bytes(ListInfoId::Iarl) == ascii_bytes("IARL"@),
        list_info_id_name(list_info_id_of(ascii_bytes("IARL"@))) == "Archival Location"@,
        list_info_id_of(ascii_bytes("IART"@)) == ListInfoId::Iart,
        list_info_id_bytes(ListInfoId::Iart) == ascii_bytes("IART"@),
        list_info_id_name(list_info_id_of(ascii_bytes("IART"@))) == "Artist"@,
        list_info_id_of(ascii_bytes("ICMS"@)) == ListInfoId::Icms,
        list_info_id_bytes(ListInfoId::Icms) == ascii_bytes("ICMS"@),
        list_info_id_name(list_info_id_of(ascii_bytes("ICMS"@))) == "Commissioned"@,
        list_info_id_of(ascii_bytes("ICMT"@)) == ListInfoId::Icmt,
        list_info_id_bytes(ListInfoId::Icmt) == ascii_bytes("ICMT"@),
        list_info_id_name(list_info_id_of(ascii_bytes("ICMT"@))) == "Comments"@,
        list_info_id_of(ascii_bytes("ICOP"@)) == ListInfoId::Icop,
        list_info_id_bytes(ListInfoId::Icop) == ascii_bytes("ICOP"@),
        list_info_id_name(list_info_id_of(ascii_bytes("ICOP"@))) == "Copyright"@,
        list_info_id_of(ascii_bytes("ICRD"@)) == ListInfoId::Icrd,
        list_info_id_bytes(ListInfoId::Icrd) == ascii_bytes("ICRD"@),
        list_info_id_name(list_info_id_of(ascii_bytes("ICRD"@))) == "Creation date"@,
        list_info_id_of(ascii_bytes("ICRP"@)) == ListInfoId::Icrp,
        list_info_id_bytes(ListInfoId::Icrp) == ascii_bytes("ICRP"@),
        list_info_id_name(list_info_id_of(ascii_bytes("ICRP"@))) == "Cropped"@,
        list_info_id_of(ascii_bytes("IDIM"@)) == ListInfoId::Idim,
        list_info_id_bytes(ListInfoId::Idim) == ascii_bytes("IDIM"@),
        list_info_id_name(list_info_id_of(ascii_bytes("IDIM"@))) == "Dimensions"@,
        list_info_id_of(ascii_bytes("IDPI"@)) == ListInfoId::Idpi,
        list_info_id_bytes(ListInfoId::Idpi) == ascii_bytes("IDPI"@),
        list_info_id_name(list_info_id_of(ascii_bytes("IDPI"@))) == "Dots Per Inch"@,
        list_info_id_of(ascii_bytes("IENG"@)) == ListInfoId::Ieng,
        list_info_id_bytes(ListInfoId::Ieng) == ascii_bytes("IENG"@),
        list_info_id_name(list_info_id_of(ascii_bytes("IENG"@))) == "Engineer"@,
        list_info_id_of(ascii_bytes("IGNR"@)) == ListInfoId::Ignr,
        list_info_id_bytes(ListInfoId::Ignr) == ascii_bytes("IGNR"@),
        list_info_id_name(list_info_id_of(ascii_bytes("IGNR"@))) == "Genre"@,
        list_info_id_of(ascii_bytes("IKEY"@)) == ListInfoId::Ikey,
        list_info_id_bytes(ListInfoId::Ikey) == ascii_bytes("IKEY"@),
        list_info_id_name(list_info_id_of(ascii_bytes("IKEY"@))) == "Keywords"@,
        list_info_id_of(ascii_bytes("ILGT"@)) == ListInfoId::Ilgt,
        list_info_id_bytes(ListInfoId::Ilgt) == ascii_bytes("ILGT"@),
        list_info_id_name(list_info_id_of(ascii_bytes("ILGT"@))) == "Lightness"@,
        list_info_id_of(ascii_bytes("IMED"@)) == ListInfoId::Imed,
        list_info_id_bytes(ListInfoId::Imed) == ascii_bytes("IMED"@),
        list_info_id_name(list_info_id_of(ascii_bytes("IMED"@))) == "Medium"@,
        list_info_id_of(ascii_bytes("INAM"@)) == ListInfoId::Inam,
        list_info_id_bytes(ListInfoId::Inam) == ascii_bytes("INAM"@),
        list_info_id_name(list_info_id_of(ascii_bytes("INAM"@))) == "Name"@,
        list_info_id_of(ascii_bytes("IPLT"@)) == ListInfoId::Iplt,
        list_info_id_bytes(ListInfoId::Iplt) == ascii_bytes("IPLT"@),
        list_info_id_name(list_info_id_of(ascii_bytes("IPLT"@))) == "Palette Setting"@,
        list_info_id_of(ascii_bytes("IPRD"@)) == ListInfoId::Iprd,
        list_info_id_bytes(ListInfoId::Iprd) == ascii_bytes("IPRD"@),
        list_info_id_name(list_info_id_of(ascii_bytes("IPRD"@))) == "Product"@,
        list_info_id_of(ascii_bytes("ISBJ"@)) == ListInfoId::Isbj,
        list_info_id_bytes(ListInfoId::Isbj) == ascii_bytes("ISBJ"@),
        list_info_id_name(list_info_id_of(ascii_bytes("ISBJ"@))) == "Subject"@,
        list_info_id_of(ascii_bytes("ISFT"@)) == ListInfoId::Isft,
        list_info_id_bytes(ListInfoId::Isft) == ascii_bytes("ISFT"@),
        list_info_id_name(list_info_id_of(ascii_bytes("ISFT"@))) == "Software"@,
        list_info_id_of(ascii_bytes("ISHP"@)) == ListInfoId::Ishp,
        list_info_id_bytes(ListInfoId::Ishp) == ascii_bytes("ISHP"@),
        list_info_id_name(list_info_id_of(ascii_bytes("ISHP"@))) == "Sharpness"@,
        list_info_id_of(ascii_bytes("ISRC"@)) == ListInfoId::Isrc,
        list_info_id_bytes(ListInfoId::Isrc) == ascii_bytes("ISRC"@),
        list_info_id_name(list_info_id_of(ascii_bytes("ISRC"@))) == "Source"@,
        list_info_id_of(ascii_bytes("ISRF"@)) == ListInfoId::Isrf,
        list_info_id_bytes(ListInfoId::Isrf) == ascii_bytes("ISRF"@),
        list_info_id_name(list_info_id_of(ascii_bytes("ISRF"@))) == "Source Form"@,
        list_info_id_of(ascii_bytes("ITCH"@)) == ListInfoId::Itch,
        list_info_id_bytes(ListInfoId::Itch) == ascii_bytes("ITCH"@),
        list_info_id_name(list_info_id_of(ascii_bytes("ITCH"@))) == "Technician"@,
        forall|b: Seq<u8>|
            b.len() == 4 && !(b == ascii_bytes("IARL"@) || b == ascii_bytes("IART"@) || b == ascii_bytes("ICMS"@) || b == ascii_bytes("ICMT"@) || b == ascii_bytes("ICOP"@) || b == ascii_bytes("ICRD"@) || b == ascii_bytes("ICRP"@) || b == ascii_bytes("IDIM"@) || b == ascii_bytes("IDPI"@) || b == ascii_bytes("IENG"@) || b == ascii_bytes("IGNR"@) || b == ascii_bytes("IKEY"@) || b == ascii_bytes("ILGT"@) || b == ascii_bytes("IMED"@) || b == ascii_bytes("INAM"@) || b == ascii_bytes("IPLT"@) || b == ascii_bytes("IPRD"@) || b == ascii_bytes("ISBJ"@) || b == ascii_bytes("ISFT"@) || b == ascii_bytes("ISHP"@) || b == ascii_bytes("ISRC"@) || b == ascii_bytes("ISRF"@) || b == ascii_bytes("ITCH"@)) ==> #[trigger] list_info_id_of(b) == ListInfoId::Unknown,
{
    reveal_strlit("IARL");
    reveal_strlit("IART");
    reveal_strlit("ICMS");
    reveal_strlit("ICMT");
    reveal_strlit("ICOP");
    reveal_strlit("ICRD");
    reveal_strlit("ICRP");
    reveal_strlit("IDIM");
    reveal_strlit("IDPI");
    reveal_strlit("IENG");
    reveal_strlit("IGNR");
    reveal_strlit("IKEY");
    reveal_strlit("ILGT");
    reveal_strlit("IMED");
    reveal_strlit("INAM");
    reveal_strlit("IPLT");
    reveal_strlit("IPRD");
    reveal_strlit("ISBJ");
    reveal_strlit("ISFT");
    reveal_strlit("ISHP");
    reveal_strlit("ISRC");
    reveal_strlit("ISRF");
    reveal_strlit("ITCH");
    assert(ascii_bytes("IARL"@) =~= seq![73, 65, 82, 76]);
    assert(ascii_bytes("IART"@) =~= seq![73, 65, 82, 84]);
    assert(ascii_bytes("ICMS"@) =~= seq![73, 67, 77, 83]);
    assert(ascii_bytes("ICMT"@) =~= seq![73, 67, 77, 84]);
    assert(ascii_bytes("ICOP"@) =~= seq![73, 67, 79, 80]);
    assert(ascii_bytes("ICRD"@) =~= seq![73, 67, 82, 68]);
    assert(ascii_bytes("ICRP"@) =~= seq![73, 67, 82, 80]);
    assert(ascii_bytes("IDIM"@) =~= seq![73, 68, 73, 77]);
    assert(ascii_bytes("IDPI"@) =~= seq![73, 68, 80, 73]);
    assert(ascii_bytes("IENG"@) =~= seq![73, 69, 78, 71]);
    assert(ascii_bytes("IGNR"@) =~= seq![73, 71, 78, 82]);
    assert(ascii_bytes("IKEY"@) =~= seq![73, 75, 69, 89]);
    assert(ascii_bytes("ILGT"@) =~= seq![73, 76, 71, 84]);
    assert(ascii_bytes("IMED"@) =~= seq![73, 77, 69, 68]);
    assert(ascii_bytes("INAM"@) =~= seq![73, 78, 65, 77]);
    assert(ascii_bytes("IPLT"@) =~= seq![73, 80, 76, 84]);
    assert(ascii_bytes("IPRD"@) =~= seq![73, 80, 82, 68]);
    assert(ascii_bytes("ISBJ"@) =~= seq![73, 83, 66, 74]);
    assert(ascii_bytes("ISFT"@) =~= seq![73, 83, 70, 84]);
    assert(ascii_bytes("ISHP"@) =~= seq![73, 83, 72, 80]);
    assert(ascii_bytes("ISRC"@) =~= seq![73, 83, 82, 67]);
    assert(ascii_bytes("ISRF"@) =~= seq![73, 83, 82, 70]);
    assert(ascii_bytes("ITCH"@) =~= seq![73, 84, 67, 72]);
    assert forall|b: Seq<u8>|
        b.len() == 4 && !(b == ascii_bytes("IARL"@) || b == ascii_bytes("IART"@) || b == ascii_bytes("ICMS"@) || b == ascii_bytes("ICMT"@) || b == ascii_bytes("ICOP"@) || b == ascii_bytes("ICRD"@) || b == ascii_bytes("ICRP"@) || b == ascii_bytes("IDIM"@) || b == ascii_bytes("IDPI"@) || b == ascii_bytes("IENG"@) || b == ascii_bytes("IGNR"@) || b == ascii_bytes("IKEY"@) || b == ascii_bytes("ILGT"@) || b == ascii_bytes("IMED"@) || b == ascii_bytes("INAM"@) || b == ascii_bytes("IPLT"@) || b == ascii_bytes("IPRD"@) || b == ascii_bytes("ISBJ"@) || b == ascii_bytes("ISFT"@) || b == ascii_bytes("ISHP"@) || b == ascii_bytes("ISRC"@) || b == ascii_bytes("ISRF"@) || b == ascii_bytes("ITCH"@)) implies #[trigger] list_info_id_of(b) == ListInfoId::Unknown by {
        assert(b =~= seq![b[0], b[1], b[2], b[3]]);
    }
}

/// Every INFO entry is read back from its own tag.
pub proof fn list_info_id_roundtrip(id: ListInfoId)
    ensures
        list_info_id_of(list_info_id_bytes(id)) == id,
{
}

/// A four-byte tag that names an INFO entry is the tag of that entry.
pub proof fn list_info_tag_roundtrip(b: Seq<u8>)
    requires
        b.len() == 4,
        list_info_id_of(b) != ListInfoId::Unknown,
    ensures
        list_info_id_bytes(list_info_id_of(b)) == b,
{
    assert(list_info_id_bytes(list_info_id_of(b)) =~= b);
}

} // verus!
