use crate::audio_parser::errors::{
    fails_with, header_error, mismatch_error, mismatch_text, numbered_error, range_error,
    AudioParserError, Failure,
};
use crate::audio_parser::utils::{
    convert_to_number, fixed_string, fixed_text, i16_le_bytes, i16_le_roundtrip, is_valid_utf8,
    le_encoding, le_value, le_value_of_encoding, list_info_id_of, pow256, u16_le_roundtrip,
    u64_le_roundtrip, CompressionCode,
    FromLeBytes, ListInfoId,
};
use crate::parser::wav::base::{
    base_fmt_failure, base_fmt_of, default_fmt, fmt_with, le16, parse_base_fmt_metadata, AudioData,
    FmtMetadata, WaveParserContext,
};
use crate::parser::wav::ima_adpcm::{
    adpcm_rate_error, check_adpcm_rate, ima_samples_per_block_defined,
    ima_samples_per_block_spec, no_samples_per_block_text, ImaAdpcmCodec,
};
use crate::parser::wav::ms_adpcm::{
    adpcm_blocks, coefficient_bytes, ms_fmt_failure, ms_fmt_ok, MSAdpcmCodec,
};
use crate::parser::wav::pcm::{
    pcm_data_failure, pcm_data_result, pcm_fmt_failure, pcm_samples_ok, PCMCodec,
};
use vstd::prelude::*;
use vstd::utf8::valid_utf8;

verus! {

/// Decoded PCM samples.
pub type PCMData = AudioData;

/// The name and size of a RIFF sub-chunk.
#[derive(Clone, Debug)]
pub struct WAVMetadataSubChunk {
    pub name: String,
    pub size: u32,
}

impl Default for WAVMetadataSubChunk {
    fn default() -> (res: WAVMetadataSubChunk)
        ensures
            res.name@ == Seq::<char>::empty(),
            res.size == 0,
    {
        WAVMetadataSubChunk { name: String::new(), size: 0 }
    }
}

/// The contents of a `bext` (broadcast extension) chunk.
#[derive(Debug, Clone, PartialEq, Eq)]
pub struct BextMetadata {
    pub description: String,
    pub originator: String,
    pub originator_reference: String,
    pub originator_date: String,
    pub originator_time: String,
    pub time_reference: u64,
    pub version: u16,
    pub umid: [u8; 64],
    pub loudness_value: i16,
    pub loudness_range: i16,
    pub max_true_peak_level: i16,
    pub max_momentary_loudness: i16,
    pub max_short_term_loudness: i16,
    pub reserved: [u8; 180],
    pub coding_history: String,
}

/// The signed 16-bit little-endian number at `at` in `d`, as a number field decodes it.
pub open spec fn field_i16(d: Seq<u8>, at: int) -> i16 {
    <i16 as FromLeBytes>::from_le_spec(d.subrange(at, at + 2))
}

/// `b` is what the `bext` chunk `d` holds: fixed-size text fields, numbers, the UMID, the
/// reserved bytes, and the coding history in the rest of the chunk.
pub open spec fn bext_ok(d: Seq<u8>, b: BextMetadata) -> bool {
    &&& b.description@ == fixed_text(d.subrange(0, 256))
    &&& b.originator@ == fixed_text(d.subrange(256, 288))
    &&& b.originator_reference@ == fixed_text(d.subrange(288, 320))
    &&& b.originator_date@ == fixed_text(d.subrange(320, 330))
    &&& b.originator_time@ == fixed_text(d.subrange(330, 338))
    &&& b.time_reference == le_value(d.subrange(338, 346)) as u64
    &&& b.version == le16(d, 346)
    &&& b.umid@ == d.subrange(348, 412)
    &&& b.loudness_value == field_i16(d, 412)
    &&& b.loudness_range == field_i16(d, 414)
    &&& b.max_true_peak_level == field_i16(d, 416)
    &&& b.max_momentary_loudness == field_i16(d, 418)
    &&& b.max_short_term_loudness == field_i16(d, 420)
    &&& b.reserved@ == d.subrange(422, 602)
    &&& b.coding_history@ == fixed_text(d.subrange(602, d.len() as int))
}

/// The loudness fields of a `bext` chunk, in the order the chunk stores them: loudness
/// value, loudness range, maximum true peak level, maximum momentary loudness and maximum
/// short-term loudness.
pub type BextLoudness = (i16, i16, i16, i16, i16);

/// A `bext` chunk written field by field in the EBU Tech 3285 layout: description (256
/// bytes), originator (32), originator reference (32), origination date (10) and time (8),
/// time reference (8 bytes, little-endian), version (2), UMID (64), the five loudness
/// fields (2 bytes each, little-endian two's complement), 180 reserved bytes, then the
/// coding history.
pub open spec fn bext_chunk(
    description: Seq<u8>,
    originator: Seq<u8>,
    originator_reference: Seq<u8>,
    originator_date: Seq<u8>,
    originator_time: Seq<u8>,
    time_reference: u64,
    version: u16,
    umid: Seq<u8>,
    loudness: BextLoudness,
    reserved: Seq<u8>,
    coding_history: Seq<u8>,
) -> Seq<u8> {
    description + originator + originator_reference + originator_date + originator_time
        + le_encoding(time_reference as nat, 8) + le_encoding(version as nat, 2) + umid
        + i16_le_bytes(loudness.0) + i16_le_bytes(loudness.1) + i16_le_bytes(loudness.2)
        + i16_le_bytes(loudness.3) + i16_le_bytes(loudness.4) + reserved + coding_history
}

/// Reading a `bext` chunk written in the EBU Tech 3285 layout gives back each field from
/// its own place: the numbers exactly, the UMID and reserved bytes as written, and each
/// text field as the text of its own bytes.
pub proof fn bext_fields_from_layout(
    description: Seq<u8>,
    originator: Seq<u8>,
    originator_reference: Seq<u8>,
    originator_date: Seq<u8>,
    originator_time: Seq<u8>,
    time_reference: u64,
    version: u16,
    umid: Seq<u8>,
    loudness: BextLoudness,
    reserved: Seq<u8>,
    coding_history: Seq<u8>,
    b: BextMetadata,
)
    requires
        description.len() == 256,
        originator.len() == 32,
        originator_reference.len() == 32,
        originator_date.len() == 10,
        originator_time.len() == 8,
        umid.len() == 64,
        reserved.len() == 180,
        bext_ok(
            bext_chunk(
                description,
                originator,
                originator_reference,
                originator_date,
                originator_time,
                time_reference,
                version,
                umid,
                loudness,
                reserved,
                coding_history,
            ),
            b,
        ),
    ensures
        bext_failure(
            bext_chunk(
                description,
                originator,
                originator_reference,
                originator_date,
                originator_time,
                time_reference,
                version,
                umid,
                loudness,
                reserved,
                coding_history,
            ),
        ) is None,
        b.description@ == fixed_text(description),
        b.originator@ == fixed_text(originator),
        b.originator_reference@ == fixed_text(originator_reference),
        b.originator_date@ == fixed_text(originator_date),
        b.originator_time@ == fixed_text(originator_time),
        b.time_reference == time_reference,
        b.version == version,
        b.umid@ == umid,
        b.loudness_value == loudness.0,
        b.loudness_range == loudness.1,
        b.max_true_peak_level == loudness.2,
        b.max_momentary_loudness == loudness.3,
        b.max_short_term_loudness == loudness.4,
        b.reserved@ == reserved,
        b.coding_history@ == fixed_text(coding_history),
{
    let d = bext_chunk(
        description,
        originator,
        originator_reference,
        originator_date,
        originator_time,
        time_reference,
        version,
        umid,
        loudness,
        reserved,
        coding_history,
    );
    u64_le_roundtrip(time_reference);
    u16_le_roundtrip(version);
    i16_le_roundtrip(loudness.0);
    i16_le_roundtrip(loudness.1);
    i16_le_roundtrip(loudness.2);
    i16_le_roundtrip(loudness.3);
    i16_le_roundtrip(loudness.4);
    let t = le_encoding(time_reference as nat, 8);
    let v = le_encoding(version as nat, 2);
    assert(d.len() == 602 + coding_history.len());
    assert(d.subrange(0, 256) =~= description);
    assert(d.subrange(256, 288) =~= originator);
    assert(d.subrange(288, 320) =~= originator_reference);
    assert(d.subrange(320, 330) =~= originator_date);
    assert(d.subrange(330, 338) =~= originator_time);
    assert(d.subrange(338, 346) =~= t);
    assert(d.subrange(346, 348) =~= v);
    assert(d.subrange(348, 412) =~= umid);
    assert(d.subrange(412, 414) =~= i16_le_bytes(loudness.0));
    assert(d.subrange(414, 416) =~= i16_le_bytes(loudness.1));
    assert(d.subrange(416, 418) =~= i16_le_bytes(loudness.2));
    assert(d.subrange(418, 420) =~= i16_le_bytes(loudness.3));
    assert(d.subrange(420, 422) =~= i16_le_bytes(loudness.4));
    assert(d.subrange(422, 602) =~= reserved);
    assert(d.subrange(602, d.len() as int) =~= coding_history);
}

/// How reading a `bext` chunk fails, if it does: it is shorter than its fixed part.
pub open spec fn bext_failure(d: Seq<u8>) -> Option<Failure> {
    if d.len() < 602 {
        Some(Failure::Range)
    } else {
        None
    }
}

/// How reading an IMA ADPCM `fmt ` chunk in a WAV file fails, if it does: the data rate and
/// the samples per block are checked.
pub open spec fn wav_ima_fmt_failure(d: Seq<u8>) -> Option<Failure> {
    let b = base_fmt_of(d);
    let spb = le16(d, 18);
    if base_fmt_failure(d) is Some {
        base_fmt_failure(d)
    } else if d.len() < 20 {
        Some(Failure::Range)
    } else if adpcm_rate_error(b.sample_rate_per_second, spb, b.block_align, b.avg_bytes_per_second) is Some {
        Some(
            Failure::Header(
                adpcm_rate_error(
                    b.sample_rate_per_second,
                    spb,
                    b.block_align,
                    b.avg_bytes_per_second,
                )->0,
            ),
        )
    } else if !ima_samples_per_block_defined(b.block_align, b.number_of_channels, b.bits_per_sample) {
        Some(Failure::Header(no_samples_per_block_text()))
    } else if ima_samples_per_block_spec(b.block_align, b.number_of_channels, b.bits_per_sample)
        != spb {
        Some(
            Failure::Header(
                mismatch_text(
                    "the samples per block align"@,
                    ima_samples_per_block_spec(
                        b.block_align,
                        b.number_of_channels,
                        b.bits_per_sample,
                    ) as nat,
                    spb as nat,
                ),
            ),
        )
    } else {
        None
    }
}

/// How reading a `fmt ` chunk of another format fails, if it does: the block align must be
/// one frame, and the extra bytes, as many as the extra size says, must lie within the
/// chunk after it.
pub open spec fn other_fmt_failure(d: Seq<u8>) -> Option<Failure> {
    let b = base_fmt_of(d);
    let block = (b.number_of_channels * b.bits_per_sample / 8) as nat;
    let extra = le16(d, 16);
    if base_fmt_failure(d) is Some {
        base_fmt_failure(d)
    } else if block != b.block_align {
        Some(Failure::Header(mismatch_text("the block align"@, block, b.block_align as nat)))
    } else if d.len() < 18 {
        Some(Failure::Range)
    } else if 18 + extra > d.len() {
        Some(Failure::Range)
    } else {
        None
    }
}

/// How reading a `fmt ` chunk fails, if it does; the checks depend on its format tag.
pub open spec fn wav_fmt_failure(d: Seq<u8>) -> Option<Failure> {
    if base_fmt_failure(d) is Some {
        base_fmt_failure(d)
    } else {
        let code = base_fmt_of(d).compression_code;
        if code == CompressionCode::Pcm {
            pcm_fmt_failure(d)
        } else if code == CompressionCode::Adpcm {
            ms_fmt_failure(d)
        } else if code == CompressionCode::ImaAdpcm {
            wav_ima_fmt_failure(d)
        } else {
            other_fmt_failure(d)
        }
    }
}

/// `m` is what the `fmt ` chunk `d` holds, when reading it succeeds.
pub open spec fn wav_fmt_ok(d: Seq<u8>, m: FmtMetadata) -> bool {
    let code = base_fmt_of(d).compression_code;
    let extra = le16(d, 16);
    if code == CompressionCode::Pcm {
        m == base_fmt_of(d)
    } else if code == CompressionCode::Adpcm {
        ms_fmt_ok(d, m)
    } else if code == CompressionCode::ImaAdpcm {
        fmt_with(m, base_fmt_of(d), Some(extra), None, Some(le16(d, 18)), None, None)
    } else {
        fmt_with(
            m,
            base_fmt_of(d),
            Some(extra),
            if extra > 0 {
                Some(d.subrange(18, 18 + extra))
            } else {
                None
            },
            None,
            None,
            None,
        )
    }
}

/// Copies `data[at..at + 64]`.
fn copy_64(data: &[u8], at: usize) -> (res: [u8; 64])
    requires
        at + 64 <= data.len(),
    ensures
        res@ == data@.subrange(at as int, at + 64),
{
    let mut out = [0u8; 64];
    let mut i: usize = 0;
    while i < 64
        invariant
            i <= 64,
            at + 64 <= data.len(),
            forall|j: int| 0 <= j < i ==> out@[j] == data@[at + j],
        decreases 64 - i,
    {
        out[i] = data[at + i];
        i = i + 1;
    }
    assert(out@ =~= data@.subrange(at as int, at + 64));
    out
}

/// Copies `data[at..at + 180]`.
fn copy_180(data: &[u8], at: usize) -> (res: [u8; 180])
    requires
        at + 180 <= data.len(),
    ensures
        res@ == data@.subrange(at as int, at + 180),
{
    let mut out = [0u8; 180];
    let mut i: usize = 0;
    while i < 180
        invariant
            i <= 180,
            at + 180 <= data.len(),
            forall|j: int| 0 <= j < i ==> out@[j] == data@[at + j],
        decreases 180 - i,
    {
        out[i] = data[at + i];
        i = i + 1;
    }
    assert(out@ =~= data@.subrange(at as int, at + 180));
    out
}

/// Reads an IMA ADPCM `fmt ` chunk of a WAV file.
fn parse_ima_fmt_metadata(data: &[u8]) -> (res: Result<FmtMetadata, AudioParserError>)
    ensures
        match wav_ima_fmt_failure(data@) {
            Some(f) => fails_with(res, f),
            None => res matches Ok(m) && fmt_with(
                m,
                base_fmt_of(data@),
                Some(le16(data@, 16)),
                None,
                Some(le16(data@, 18)),
                None,
                None,
            ),
        },
{
    let mut metadata = parse_base_fmt_metadata(data)?;
    let extra_bytes_size: u16 = convert_to_number(data, 16, 18)?;
    let samples_per_block: u16 = convert_to_number(data, 18, 20)?;
    check_adpcm_rate(
        metadata.sample_rate_per_second,
        samples_per_block,
        metadata.block_align,
        metadata.avg_bytes_per_second,
    )?;
    let ch = metadata.number_of_channels as u32;
    let ba = metadata.block_align as u32;
    let bits = metadata.bits_per_sample as u32;
    proof {
        assert(bits * ch <= 0xffff * 0xffff) by (nonlinear_arith)
            requires
                bits <= 0xffff,
                ch <= 0xffff,
        ;
    }
    if !(4 * ch <= ba && (ba - 4 * ch) * 8 <= 0xffff && 0 < bits * ch && bits * ch <= 0xffff) {
        return Err(header_error("The samples per block cannot be derived from the block align"));
    }
    let calculated_samples_per_block = ImaAdpcmCodec::calculate_dvi_ima_adpcm_samples_per_block(
        metadata.block_align,
        metadata.number_of_channels,
        metadata.bits_per_sample,
    );
    if samples_per_block != calculated_samples_per_block {
        return Err(
            mismatch_error(
                "the samples per block align",
                calculated_samples_per_block as u64,
                samples_per_block as u64,
            ),
        );
    }
    metadata.extra_bytes_size = Some(extra_bytes_size);
    metadata.samples_per_block = Some(samples_per_block);
    Ok(metadata)
}

/// Reads the `fmt ` chunk of a format that has no checks of its own.
fn parse_other_fmt_metadata(data: &[u8]) -> (res: Result<FmtMetadata, AudioParserError>)
    ensures
        match other_fmt_failure(data@) {
            Some(f) => fails_with(res, f),
            None => res matches Ok(m) && fmt_with(
                m,
                base_fmt_of(data@),
                Some(le16(data@, 16)),
                if le16(data@, 16) > 0 {
                    Some(data@.subrange(18, 18 + le16(data@, 16)))
                } else {
                    None
                },
                None,
                None,
                None,
            ),
        },
{
    let mut metadata = parse_base_fmt_metadata(data)?;
    let ch = metadata.number_of_channels as u32;
    let bits = metadata.bits_per_sample as u32;
    proof {
        assert(bits * ch <= 0xffff * 0xffff) by (nonlinear_arith)
            requires
                bits <= 0xffff,
                ch <= 0xffff,
        ;
    }
    let calculated_block_align = ch * bits / 8;
    if calculated_block_align != metadata.block_align as u32 {
        return Err(
            mismatch_error(
                "the block align",
                calculated_block_align as u64,
                metadata.block_align as u64,
            ),
        );
    }
    let extra_bytes_size: u16 = convert_to_number(data, 16, 18)?;
    if extra_bytes_size as usize > data.len() - 18 {
        return Err(range_error());
    }
    if extra_bytes_size > 0 {
        let end = 18 + extra_bytes_size as usize;
        metadata.extra_bytes = Some(vstd::slice::slice_to_vec(&data[18..end]));
    }
    metadata.extra_bytes_size = Some(extra_bytes_size);
    Ok(metadata)
}

/// The INFO entries of a `LIST` chunk body from `idx` on: each entry is a four-byte tag, a
/// 32-bit size and the NUL-padded text, padded to an even size. Reading stops when at most
/// one byte is left.
pub open spec fn info_entries(d: Seq<u8>, idx: int) -> Result<Seq<(ListInfoId, Seq<char>)>, Failure>
    decreases d.len() - idx,
{
    if idx < 0 || idx + 1 >= d.len() {
        Ok(seq![])
    } else if idx + 8 > d.len() {
        Err(Failure::Range)
    } else {
        let n = le_value(d.subrange(idx + 4, idx + 8));
        let padded = n + n % 2;
        if idx + 8 + padded > d.len() {
            Err(Failure::Range)
        } else {
            let entry = (
                list_info_id_of(d.subrange(idx, idx + 4)),
                fixed_text(d.subrange(idx + 8, idx + 8 + padded)),
            );
            match info_entries(d, idx + 8 + padded) {
                Ok(rest) => Ok(seq![entry] + rest),
                Err(f) => Err(f),
            }
        }
    }
}

/// The map that the entries give when each one is stored in turn, later ones replacing
/// earlier ones with the same tag.
pub open spec fn info_map(entries: Seq<(ListInfoId, Seq<char>)>) -> Map<ListInfoId, Seq<char>>
    decreases entries.len(),
{
    if entries.len() == 0 {
        Map::empty()
    } else {
        info_map(entries.drop_last()).insert(entries.last().0, entries.last().1)
    }
}

/// `r` holds each tag of `m` once, with its text.
pub open spec fn represents(r: Seq<(ListInfoId, String)>, m: Map<ListInfoId, Seq<char>>) -> bool {
    &&& forall|i: int, j: int| 0 <= i < j < r.len() ==> #[trigger] r[i].0 != #[trigger] r[j].0
    &&& forall|i: int| 0 <= i < r.len() ==> #[trigger] m.contains_key(r[i].0) && m[r[i].0]
        == r[i].1@
    &&& forall|k: ListInfoId| #[trigger] m.contains_key(k) ==> exists|i: int| 0 <= i < r.len() && #[trigger] r[i].0 == k
}

/// How reading the body of a `LIST INFO` chunk fails, if it does.
pub open spec fn info_failure(d: Seq<u8>) -> Option<Failure> {
    if d.len() == 0 {
        Some(Failure::Range)
    } else {
        match info_entries(d, 0) {
            Ok(_) => None,
            Err(f) => Some(f),
        }
    }
}

/// `prefix` in front of the entries `o` holds, if it holds any.
pub open spec fn prepend_entries(
    prefix: Seq<(ListInfoId, Seq<char>)>,
    o: Result<Seq<(ListInfoId, Seq<char>)>, Failure>,
) -> Result<Seq<(ListInfoId, Seq<char>)>, Failure> {
    match o {
        Ok(rest) => Ok(prefix + rest),
        Err(f) => Err(f),
    }
}

/// Reading an INFO entry written at `idx` as a chunk with tag `tag` and text bytes `t`
/// gives the entry the tag names, with the text of its bytes (pad byte included), in front
/// of the entries written after it.
pub proof fn info_entries_read_written_entry(d: Seq<u8>, idx: int, tag: Seq<u8>, t: Seq<u8>)
    requires
        0 <= idx,
        tag.len() == 4,
        t.len() < 0x1_0000_0000,
        idx + chunk_bytes(tag, t).len() <= d.len(),
        d.subrange(idx, idx + chunk_bytes(tag, t).len()) == chunk_bytes(tag, t),
    ensures
        info_entries(d, idx) == prepend_entries(
            seq![(list_info_id_of(tag), fixed_text(padded_payload(t)))],
            info_entries(d, idx + chunk_bytes(tag, t).len()),
        ),
{
    reveal_with_fuel(pow256, 5);
    le_value_of_encoding(t.len(), 4);
    let c = chunk_bytes(tag, t);
    let n = c.len() as int;
    assert(d.subrange(idx, idx + 4) =~= tag) by {
        assert forall|i: int| 0 <= i < 4 implies d.subrange(idx, idx + 4)[i] == tag[i] by {
            assert(d.subrange(idx, idx + n)[i] == c[i]);
        }
    }
    assert(d.subrange(idx + 4, idx + 8) =~= le_encoding(t.len(), 4)) by {
        assert forall|i: int| 0 <= i < 4 implies d.subrange(idx + 4, idx + 8)[i] == le_encoding(
            t.len(),
            4,
        )[i] by {
            assert(d.subrange(idx, idx + n)[4 + i] == c[4 + i]);
        }
    }
    let pp = padded_payload(t);
    assert(d.subrange(idx + 8, idx + 8 + pp.len()) =~= pp) by {
        assert forall|i: int| 0 <= i < pp.len() implies d.subrange(idx + 8, idx + 8 + pp.len())[i]
            == pp[i] by {
            assert(d.subrange(idx, idx + n)[8 + i] == c[8 + i]);
        }
    }
}

/// Stores `value` under `id`, replacing the text stored under it before.
fn insert_property(
    props: &mut Vec<(ListInfoId, String)>,
    id: ListInfoId,
    value: String,
    Ghost(m): Ghost<Map<ListInfoId, Seq<char>>>,
)
    requires
        represents(old(props)@, m),
    ensures
        represents(final(props)@, m.insert(id, value@)),
{
    let mut i: usize = 0;
    while i < props.len()
        invariant
            i <= props@.len(),
            props@ == old(props)@,
            represents(props@, m),
            forall|j: int| 0 <= j < i ==> #[trigger] props@[j].0 != id,
        decreases props@.len() - i,
    {
        if props[i].0 == id {
            let ghost before = props@;
            props.set(i, (id, value));
            proof {
                let r = props@;
                let m2 = m.insert(id, r[i as int].1@);
                assert forall|k: ListInfoId| #[trigger] m2.contains_key(k) implies exists|j: int|
                    0 <= j < r.len() && #[trigger] r[j].0 == k by {
                    if k == id {
                        assert(r[i as int].0 == k);
                    } else {
                        let j = choose|j: int| 0 <= j < before.len() && #[trigger] before[j].0 == k;
                        assert(r[j].0 == k);
                    }
                }
            }
            return;
        }
        i = i + 1;
    }
    let ghost before = props@;
    props.push((id, value));
    proof {
        let r = props@;
        let m2 = m.insert(id, value@);
        assert forall|k: ListInfoId| #[trigger] m2.contains_key(k) implies exists|j: int|
            0 <= j < r.len() && #[trigger] r[j].0 == k by {
            if k == id {
                assert(r[before.len() as int].0 == k);
            } else {
                let j = choose|j: int| 0 <= j < before.len() && #[trigger] before[j].0 == k;
                assert(r[j].0 == k);
            }
        }
    }
}

proof fn lemma_u32_field(s: Seq<u8>)
    requires
        s.len() == 4,
    ensures
        le_value(s) < 0x1_0000_0000,
{
    reveal_with_fuel(le_value, 5);
    assert(s.drop_first().drop_first().drop_first().drop_first().len() == 0);
}

/// Whether the four bytes at `at` are `tag`.
fn has_tag(data: &[u8], at: usize, tag: [u8; 4]) -> (res: bool)
    requires
        at + 4 <= data@.len(),
    ensures
        res == (data@.subrange(at as int, at + 4) == tag@),
{
    let res = data[at] == tag[0] && data[at + 1] == tag[1] && data[at + 2] == tag[2] && data[at
        + 3] == tag[3];
    proof {
        if res {
            assert(data@.subrange(at as int, at + 4) =~= tag@);
        }
    }
    res
}

/// The list type `INFO`.
pub open spec fn info_tag() -> Seq<u8> {
    seq![73, 78, 70, 79]  // "INFO"
}

/// How reading a `LIST` chunk fails, if it does: only `INFO` lists are read.
pub open spec fn list_failure(d: Seq<u8>) -> Option<Failure> {
    if d.len() < 4 {
        Some(Failure::Range)
    } else if d.subrange(0, 4) == info_tag() {
        info_failure(d.subrange(4, d.len() as int))
    } else {
        None
    }
}

/// The chunk identifier `RIFF`.
pub open spec fn riff_tag() -> Seq<u8> {
    seq![82, 73, 70, 70]  // "RIFF"
}

/// The form type `WAVE`.
pub open spec fn wave_tag() -> Seq<u8> {
    seq![87, 65, 86, 69]  // "WAVE"
}

/// The chunk identifier `bext`.
pub open spec fn bext_tag() -> Seq<u8> {
    seq![98, 101, 120, 116]  // "bext"
}

/// The chunk identifier `fmt `.
pub open spec fn fmt_tag() -> Seq<u8> {
    seq![102, 109, 116, 32]  // "fmt "
}

/// The chunk identifier `data`.
pub open spec fn data_tag() -> Seq<u8> {
    seq![100, 97, 116, 97]  // "data"
}

/// The chunk identifier `LIST`.
pub open spec fn list_tag() -> Seq<u8> {
    seq![76, 73, 83, 84]  // "LIST"
}

/// The chunk identifier `fact`.
pub open spec fn fact_tag() -> Seq<u8> {
    seq![102, 97, 99, 116]  // "fact"
}

/// The message for a file that does not start with `RIFF`.
pub open spec fn riff_text() -> Seq<char> {
    "WAV File Header parsing failed, expected 'RIFF': found 1"@
}

/// The message for a RIFF file whose form type is not `WAVE`.
pub open spec fn wave_text() -> Seq<char> {
    "WAV file Header parsing failed: expected 'WAVE': found 1"@
}

/// The message for a RIFF size of zero.
pub open spec fn zero_size_text() -> Seq<char> {
    "The RIFF chunk size should not be zero"@
}

/// The message for a chunk identifier that is not UTF-8.
pub open spec fn chunk_id_text() -> Seq<char> {
    "The chunk identifier is not valid UTF-8"@
}

/// How reading the chunk `id` with payload `p` fails, if it does.
pub open spec fn chunk_failure(id: Seq<u8>, p: Seq<u8>) -> Option<Failure> {
    if id == bext_tag() {
        bext_failure(p)
    } else if id == fmt_tag() {
        wav_fmt_failure(p)
    } else if id == list_tag() {
        list_failure(p)
    } else if id == fact_tag() && p.len() != 4 {
        Some(Failure::ByteCount(4, p.len()))
    } else {
        None
    }
}

/// The payloads of the last `bext`, `fmt ` and `data` chunks read so far.
pub type ChunkPayloads = (Option<Seq<u8>>, Option<Seq<u8>>, Option<Seq<u8>>);

/// The payloads after the chunk `id` with payload `p` has been read.
pub open spec fn record_chunk(st: ChunkPayloads, id: Seq<u8>, p: Seq<u8>) -> ChunkPayloads {
    if id == bext_tag() {
        (Some(p), st.1, st.2)
    } else if id == fmt_tag() {
        (st.0, Some(p), st.2)
    } else if id == data_tag() {
        (st.0, st.1, Some(p))
    } else {
        st
    }
}

/// Reads the chunks of a RIFF file from `s` on, while `s` lies before `size`: each chunk
/// is a four-byte identifier in UTF-8, a 32-bit size and the payload, padded to an even
/// size.
pub open spec fn riff_walk(
    d: Seq<u8>,
    size: int,
    s: int,
    st: ChunkPayloads,
) -> Result<ChunkPayloads, Failure>
    decreases d.len() - s,
{
    if s < 0 || s >= size {
        Ok(st)
    } else if s + 4 > d.len() {
        Err(Failure::Range)
    } else if !valid_utf8(d.subrange(s, s + 4)) {
        Err(Failure::Header(chunk_id_text()))
    } else if s + 8 > d.len() {
        Err(Failure::Range)
    } else {
        let n = le_value(d.subrange(s + 4, s + 8));
        let padded = n + n % 2;
        if s + 8 + padded > d.len() {
            Err(Failure::Range)
        } else {
            let id = d.subrange(s, s + 4);
            let p = d.subrange(s + 8, s + 8 + padded);
            match chunk_failure(id, p) {
                Some(f) => Err(f),
                None => riff_walk(d, size, s + 8 + padded, record_chunk(st, id, p)),
            }
        }
    }
}

/// How the RIFF header of `d` fails, if it does.
pub open spec fn wav_header_failure(d: Seq<u8>) -> Option<Failure> {
    if d.len() < 4 {
        Some(Failure::Range)
    } else if d.subrange(0, 4) != riff_tag() {
        Some(Failure::Header(riff_text()))
    } else if d.len() < 12 {
        Some(Failure::Range)
    } else if d.subrange(8, 12) != wave_tag() {
        Some(Failure::Header(wave_text()))
    } else if le_value(d.subrange(4, 8)) == 0 {
        Some(Failure::Header(zero_size_text()))
    } else {
        None
    }
}

/// The RIFF size of `d` and the payloads its chunks leave, or how reading them fails.
pub open spec fn wav_walk(d: Seq<u8>) -> Result<(u32, ChunkPayloads), Failure> {
    match wav_header_failure(d) {
        Some(f) => Err(f),
        None => {
            let size = le_value(d.subrange(4, 8));
            match riff_walk(d, size as int, 12, (None, None, None)) {
                Ok(st) => Ok((size as u32, st)),
                Err(f) => Err(f),
            }
        },
    }
}

/// A RIFF chunk as it is written: the four-byte identifier, the payload size as a 32-bit
/// little-endian number, the payload, and a zero pad byte after an odd-sized payload.
pub open spec fn chunk_bytes(id: Seq<u8>, p: Seq<u8>) -> Seq<u8> {
    id + le_encoding(p.len(), 4) + p + (if p.len() % 2 == 1 {
        seq![0u8]
    } else {
        seq![]
    })
}

/// The payload of a written chunk as the walk reads it: with its pad byte, if any.
pub open spec fn padded_payload(p: Seq<u8>) -> Seq<u8> {
    p + (if p.len() % 2 == 1 {
        seq![0u8]
    } else {
        seq![]
    })
}

/// A WAV file as it is written: `RIFF`, the size of what follows it (the form type and the
/// chunks), `WAVE`, then the chunks.
pub open spec fn riff_file(chunks: Seq<u8>) -> Seq<u8> {
    riff_tag() + le_encoding((chunks.len() + 4) as nat, 4) + wave_tag() + chunks
}

/// Every byte of `b` is ASCII.
pub open spec fn is_ascii_bytes(b: Seq<u8>) -> bool {
    forall|i: int| 0 <= i < b.len() ==> #[trigger] b[i] < 128
}

proof fn lemma_ascii_valid_utf8(b: Seq<u8>)
    requires
        is_ascii_bytes(b),
    ensures
        valid_utf8(b),
    decreases b.len(),
{
    if b.len() > 0 {
        let rest = b.subrange(1, b.len() as int);
        assert(is_ascii_bytes(rest)) by {
            assert forall|i: int| 0 <= i < rest.len() implies #[trigger] rest[i] < 128 by {
                assert(rest[i] == b[i + 1]);
            }
        }
        lemma_ascii_valid_utf8(rest);
        assert(b[0] < 128);
    }
}

/// Reading a chunk written at `s` with an ASCII identifier `id` and payload `p`, while `s`
/// lies before the RIFF size: its payload, with its pad byte, is recorded under its
/// identifier when the chunk's own checks pass, and reading goes on right after it.
pub proof fn riff_walk_reads_written_chunk(
    d: Seq<u8>,
    size: int,
    s: int,
    st: ChunkPayloads,
    id: Seq<u8>,
    p: Seq<u8>,
)
    requires
        0 <= s < size,
        id.len() == 4,
        is_ascii_bytes(id),
        p.len() < 0x1_0000_0000,
        s + chunk_bytes(id, p).len() <= d.len(),
        d.subrange(s, s + chunk_bytes(id, p).len()) == chunk_bytes(id, p),
    ensures
        chunk_bytes(id, p).len() == 8 + padded_payload(p).len(),
        riff_walk(d, size, s, st) == match chunk_failure(id, padded_payload(p)) {
            Some(f) => Err::<ChunkPayloads, Failure>(f),
            None => riff_walk(
                d,
                size,
                s + chunk_bytes(id, p).len(),
                record_chunk(st, id, padded_payload(p)),
            ),
        },
{
    reveal_with_fuel(pow256, 5);
    le_value_of_encoding(p.len(), 4);
    let c = chunk_bytes(id, p);
    let n = c.len() as int;
    assert(d.subrange(s, s + 4) =~= id) by {
        assert forall|i: int| 0 <= i < 4 implies d.subrange(s, s + 4)[i] == id[i] by {
            assert(d.subrange(s, s + n)[i] == c[i]);
        }
    }
    lemma_ascii_valid_utf8(id);
    assert(d.subrange(s + 4, s + 8) =~= le_encoding(p.len(), 4)) by {
        assert forall|i: int| 0 <= i < 4 implies d.subrange(s + 4, s + 8)[i] == le_encoding(
            p.len(),
            4,
        )[i] by {
            assert(d.subrange(s, s + n)[4 + i] == c[4 + i]);
        }
    }
    let pp = padded_payload(p);
    assert(d.subrange(s + 8, s + 8 + pp.len()) =~= pp) by {
        assert forall|i: int| 0 <= i < pp.len() implies d.subrange(s + 8, s + 8 + pp.len())[i]
            == pp[i] by {
            assert(d.subrange(s, s + n)[8 + i] == c[8 + i]);
        }
    }
}

/// Reading a WAV file written with a `fmt ` chunk and then a non-empty `data` chunk gives
/// its RIFF size and exactly those two payloads (with their pad bytes), when the `fmt `
/// payload passes its checks.
pub proof fn wav_walk_reads_written_file(f: Seq<u8>, x: Seq<u8>)
    requires
        wav_fmt_failure(padded_payload(f)) is None,
        x.len() > 0,
        chunk_bytes(fmt_tag(), f).len() + chunk_bytes(data_tag(), x).len() + 4 < 0x1_0000_0000,
    ensures
        wav_walk(riff_file(chunk_bytes(fmt_tag(), f) + chunk_bytes(data_tag(), x))) == Ok::<
            (u32, ChunkPayloads),
            Failure,
        >(
            (
                (chunk_bytes(fmt_tag(), f).len() + chunk_bytes(data_tag(), x).len() + 4) as u32,
                (None, Some(padded_payload(f)), Some(padded_payload(x))),
            ),
        ),
{
    reveal_with_fuel(pow256, 5);
    let c1 = chunk_bytes(fmt_tag(), f);
    let c2 = chunk_bytes(data_tag(), x);
    let body = c1 + c2;
    let d = riff_file(body);
    let size = (body.len() + 4) as nat;
    le_value_of_encoding(size, 4);
    assert(d.subrange(0, 4) =~= riff_tag());
    assert(d.subrange(4, 8) =~= le_encoding(size, 4));
    assert(d.subrange(8, 12) =~= wave_tag());
    assert(d.len() == 12 + body.len());
    assert(wav_header_failure(d) is None);
    assert(is_ascii_bytes(fmt_tag()));
    assert(is_ascii_bytes(data_tag()));
    assert(d.subrange(12, 12 + c1.len() as int) =~= c1);
    riff_walk_reads_written_chunk(d, size as int, 12, (None, None, None), fmt_tag(), f);
    let s2: int = 12 + c1.len() as int;
    le_value_of_encoding(x.len(), 4);
    assert(c2.len() == 8 + padded_payload(x).len());
    assert(d.subrange(s2, s2 + c2.len() as int) =~= c2);
    let st1 = record_chunk((None, None, None), fmt_tag(), padded_payload(f));
    assert(st1 == (None::<Seq<u8>>, Some(padded_payload(f)), None::<Seq<u8>>));
    riff_walk_reads_written_chunk(d, size as int, s2, st1, data_tag(), x);
    assert(chunk_failure(data_tag(), padded_payload(x)) is None);
    assert(chunk_failure(fmt_tag(), padded_payload(f)) is None);
    let st2 = record_chunk(st1, data_tag(), padded_payload(x));
    assert(riff_walk(d, size as int, s2 + c2.len() as int, st2) == Ok::<ChunkPayloads, Failure>(st2));
}

/// The chunks read from a WAV file.
pub struct ParsedChunks {
    pub file_size: u32,
    pub bext: Option<BextMetadata>,
    pub fmt: Option<FmtMetadata>,
    pub data: Option<Vec<u8>>,
}

/// `c` holds what the payloads `st` hold.
pub open spec fn chunks_ok(
    bext: Option<BextMetadata>,
    fmt: Option<FmtMetadata>,
    data: Option<Vec<u8>>,
    st: ChunkPayloads,
) -> bool {
    &&& match st.0 {
        Some(p) => bext matches Some(b) && bext_ok(p, b),
        None => bext is None,
    }
    &&& match st.1 {
        Some(p) => fmt matches Some(m) && wav_fmt_ok(p, m),
        None => fmt is None,
    }
    &&& match st.2 {
        Some(p) => data matches Some(v) && v@ == p,
        None => data is None,
    }
}

/// Everything read from a WAV file.
#[derive(Clone, Debug, PartialEq, Eq)]
pub struct WAVMetadata {
    pub file_size: u32,
    pub bext_metadata: Option<BextMetadata>,
    pub fmt_metadata: FmtMetadata,
    pub data_metadata: Vec<u8>,
}

/// The metadata of a file that has not been read.
pub open spec fn default_metadata(m: WAVMetadata) -> bool {
    &&& m.file_size == 0
    &&& m.bext_metadata is None
    &&& m.fmt_metadata == default_fmt()
    &&& m.data_metadata@.len() == 0
}

impl Default for WAVMetadata {
    fn default() -> (res: WAVMetadata)
        ensures
            default_metadata(res),
    {
        WAVMetadata {
            file_size: 0,
            bext_metadata: None,
            fmt_metadata: FmtMetadata::default(),
            data_metadata: Vec::new(),
        }
    }
}

/// A parser for one WAV file: it keeps the file's name, what was read from it, and the
/// decoded PCM samples.
#[derive(Clone, Debug)]
pub struct WAVParser {
    input_file: String,
    raw_metadata: WAVMetadata,
    raw_data: Option<PCMData>,
}

impl WAVParser {
    /// Reads a `bext` chunk.
    pub fn parse_bext_metadata(data: &[u8]) -> (res: Result<BextMetadata, AudioParserError>)
        ensures
            match bext_failure(data@) {
                Some(f) => fails_with(res, f),
                None => res matches Ok(b) && bext_ok(data@, b),
            },
    {
        if data.len() < 602 {
            return Err(range_error());
        }
        let time_reference: u64 = convert_to_number(data, 338, 346)?;
        let version: u16 = convert_to_number(data, 346, 348)?;
        let loudness_value: i16 = convert_to_number(data, 412, 414)?;
        let loudness_range: i16 = convert_to_number(data, 414, 416)?;
        let max_true_peak_level: i16 = convert_to_number(data, 416, 418)?;
        let max_momentary_loudness: i16 = convert_to_number(data, 418, 420)?;
        let max_short_term_loudness: i16 = convert_to_number(data, 420, 422)?;
        Ok(
            BextMetadata {
                description: fixed_string(&data[0..256]),
                originator: fixed_string(&data[256..288]),
                originator_reference: fixed_string(&data[288..320]),
                originator_date: fixed_string(&data[320..330]),
                originator_time: fixed_string(&data[330..338]),
                time_reference,
                version,
                umid: copy_64(data, 348),
                loudness_value,
                loudness_range,
                max_true_peak_level,
                max_momentary_loudness,
                max_short_term_loudness,
                reserved: copy_180(data, 422),
                coding_history: fixed_string(&data[602..data.len()]),
            },
        )
    }

    /// Reads a `fmt ` chunk with the checks of its format.
    pub fn parse_fmt_metadata(data: &[u8]) -> (res: Result<FmtMetadata, AudioParserError>)
        ensures
            match wav_fmt_failure(data@) {
                Some(f) => fails_with(res, f),
                None => res matches Ok(m) && wav_fmt_ok(data@, m),
            },
    {
        let base = parse_base_fmt_metadata(data)?;
        match base.compression_code {
            CompressionCode::Pcm => {
                let codec = PCMCodec {};
                codec.parse_fmt_metadata(data)
            },
            CompressionCode::Adpcm => {
                let codec = MSAdpcmCodec {};
                codec.parse_fmt_metadata(data)
            },
            CompressionCode::ImaAdpcm => parse_ima_fmt_metadata(data),
            _ => parse_other_fmt_metadata(data),
        }
    }

    /// Reads a `fact` chunk: the number of sample frames, in four bytes.
    pub fn parse_fact_metadata(data: &[u8]) -> (res: Result<u32, AudioParserError>)
        ensures
            data@.len() == 4 ==> res == Ok::<u32, AudioParserError>(le_value(data@) as u32),
            data@.len() != 4 ==> fails_with(res, Failure::ByteCount(4, data.len() as nat)),
    {
        <u32 as FromLeBytes>::from_le_bytes(data)
    }

    /// Reads the body of a `LIST INFO` chunk: each entry's text is stored under its tag, later
    /// entries replacing earlier ones with the same tag.
    pub fn parse_list_info_metadata(
        data: &[u8],
    ) -> (res: Result<Vec<(ListInfoId, String)>, AudioParserError>)
        ensures
            match info_failure(data@) {
                Some(f) => fails_with(res, f),
                None => res matches Ok(r) && represents(r@, info_map(info_entries(data@, 0)->Ok_0)),
            },
    {
        if data.len() == 0 {
            return Err(range_error());
        }
        let ghost d = data@;
        let mut props: Vec<(ListInfoId, String)> = Vec::new();
        let mut idx: usize = 0;
        let ghost mut prefix: Seq<(ListInfoId, Seq<char>)> = seq![];
        assert(prefix + info_entries(d, 0)->Ok_0 =~= info_entries(d, 0)->Ok_0);
        while idx < data.len() - 1
            invariant
                d == data@,
                data@.len() > 0,
                idx <= data@.len(),
                info_entries(d, 0) == prepend_entries(prefix, info_entries(d, idx as int)),
                represents(props@, info_map(prefix)),
            decreases data@.len() - idx,
        {
            if data.len() - idx < 8 {
                return Err(range_error());
            }
            let id_bytes: [u8; 4] = [data[idx], data[idx + 1], data[idx + 2], data[idx + 3]];
            let size: u32 = convert_to_number(data, idx + 4, idx + 8)?;
            proof {
                lemma_u32_field(d.subrange(idx + 4, idx + 8));
            }
            let padded: u64 = size as u64 + (size % 2) as u64;
            if padded > (data.len() - idx - 8) as u64 {
                return Err(range_error());
            }
            let end = idx + 8 + padded as usize;
            let value = fixed_string(&data[idx + 8..end]);
            let id = ListInfoId::from_bytes(id_bytes);
            proof {
                assert(id_bytes@ =~= d.subrange(idx as int, idx + 4));
            }
            let ghost entry = (id, value@);
            insert_property(&mut props, id, value, Ghost(info_map(prefix)));
            proof {
                let next = prefix.push(entry);
                assert(next.drop_last() =~= prefix);
                let rest = info_entries(d, end as int);
                if rest is Ok {
                    assert(prefix + (seq![entry] + rest->Ok_0) =~= next + rest->Ok_0);
                }
                prefix = next;
            }
            idx = end;
        }
        proof {
            assert(prefix + seq![] =~= prefix);
        }
        Ok(props)
    }

    /// Reads a `cue ` chunk; its cue points are not read.
    pub fn parse_cue_metadata(_data: &[u8]) {
    }

    /// Reads the body of a `LIST adtl` chunk; its entries are not read.
    pub fn parse_list_adtl_metadata(_data: &[u8]) -> (res: Vec<(ListInfoId, String)>)
        ensures
            res@.len() == 0,
    {
        Vec::new()
    }

    /// Reads the body of a `LIST wavl` chunk; its entries are not read.
    pub fn parse_list_wavl_metadata(_data: &[u8]) -> (res: Vec<(ListInfoId, String)>)
        ensures
            res@.len() == 0,
    {
        Vec::new()
    }

    /// Reads a `LIST` chunk: its four-byte list type, then the entries of an `INFO` list.
    /// Lists of other types give no entries.
    pub fn parse_list_metadata(
        data: &[u8],
    ) -> (res: Result<Vec<(ListInfoId, String)>, AudioParserError>)
        ensures
            match list_failure(data@) {
                Some(f) => fails_with(res, f),
                None => res matches Ok(r) && if data@.subrange(0, 4) == info_tag() {
                    represents(r@, info_map(info_entries(data@.subrange(4, data@.len() as int), 0)->Ok_0))
                } else {
                    r@.len() == 0
                },
            },
    {
        if data.len() < 4 {
            return Err(range_error());
        }
        if has_tag(data, 0, [73, 78, 70, 79]) {  // "INFO"
            Self::parse_list_info_metadata(&data[4..data.len()])
        } else if has_tag(data, 0, [97, 100, 116, 108]) {  // "adtl"
            Ok(Self::parse_list_adtl_metadata(&data[4..data.len()]))
        } else if has_tag(data, 0, [119, 97, 118, 108]) {  // "wavl"
            Ok(Self::parse_list_wavl_metadata(&data[4..data.len()]))
        } else {
            Ok(Vec::new())
        }
    }
}

/// Reads the RIFF header and the chunks of a WAV file.
pub fn read_chunks(file_data: &[u8]) -> (res: Result<ParsedChunks, AudioParserError>)
    ensures
        match wav_walk(file_data@) {
            Err(f) => fails_with(res, f),
            Ok((size, st)) => res matches Ok(c) && c.file_size == size && chunks_ok(
                c.bext,
                c.fmt,
                c.data,
                st,
            ),
        },
{
    let ghost d = file_data@;
    if file_data.len() < 4 {
        return Err(range_error());
    }
    if !has_tag(file_data, 0, [82, 73, 70, 70]) {  // "RIFF"
        return Err(header_error("WAV File Header parsing failed, expected 'RIFF': found 1"));
    }
    if file_data.len() < 12 {
        return Err(range_error());
    }
    let file_size: u32 = convert_to_number(file_data, 4, 8)?;
    proof {
        lemma_u32_field(d.subrange(4, 8));
    }
    if !has_tag(file_data, 8, [87, 65, 86, 69]) {  // "WAVE"
        return Err(header_error("WAV file Header parsing failed: expected 'WAVE': found 1"));
    }
    if file_size == 0 {
        return Err(header_error("The RIFF chunk size should not be zero"));
    }
    let mut bext: Option<BextMetadata> = None;
    let mut fmt: Option<FmtMetadata> = None;
    let mut data: Option<Vec<u8>> = None;
    let mut start: usize = 12;
    let ghost mut st: ChunkPayloads = (None, None, None);
    while (start as u64) < (file_size as u64)
        invariant
            d == file_data@,
            12 <= start <= file_data@.len(),
            wav_header_failure(d) is None,
            file_size as int == le_value(d.subrange(4, 8)),
            riff_walk(d, file_size as int, 12, (None, None, None)) == riff_walk(
                d,
                file_size as int,
                start as int,
                st,
            ),
            chunks_ok(bext, fmt, data, st),
        decreases file_data@.len() - start,
    {
        if file_data.len() - start < 4 {
            return Err(range_error());
        }
        if !is_valid_utf8(&file_data[start..start + 4]) {
            return Err(header_error("The chunk identifier is not valid UTF-8"));
        }
        if file_data.len() - start < 8 {
            return Err(range_error());
        }
        let size: u32 = convert_to_number(file_data, start + 4, start + 8)?;
        proof {
            lemma_u32_field(d.subrange(start + 4, start + 8));
        }
        let padded: u64 = size as u64 + (size % 2) as u64;
        if padded > (file_data.len() - start - 8) as u64 {
            return Err(range_error());
        }
        let end = start + 8 + padded as usize;
        let payload = &file_data[start + 8..end];
        let ghost id = d.subrange(start as int, start + 4);
        if has_tag(file_data, start, [98, 101, 120, 116]) {  // "bext"
            let b = WAVParser::parse_bext_metadata(payload)?;
            bext = Some(b);
        } else if has_tag(file_data, start, [102, 109, 116, 32]) {  // "fmt "
            let m = WAVParser::parse_fmt_metadata(payload)?;
            fmt = Some(m);
        } else if has_tag(file_data, start, [100, 97, 116, 97]) {  // "data"
            data = Some(vstd::slice::slice_to_vec(payload));
        } else if has_tag(file_data, start, [76, 73, 83, 84]) {  // "LIST"
            let _properties = WAVParser::parse_list_metadata(payload)?;
        } else if has_tag(file_data, start, [102, 97, 99, 116]) {  // "fact"
            let _sample_count = WAVParser::parse_fact_metadata(payload)?;
        } else if has_tag(file_data, start, [99, 117, 101, 32]) {  // "cue "
            WAVParser::parse_cue_metadata(payload);
        }
        proof {
            st = record_chunk(st, id, payload@);
        }
        start = end;
    }
    Ok(ParsedChunks { file_size, bext, fmt, data })
}

/// The metadata that decoding uses: that of the last `fmt ` chunk, or what the parser held.
pub open spec fn decode_fmt(old: FmtMetadata, st: ChunkPayloads) -> FmtMetadata {
    match st.1 {
        Some(p) => base_fmt_of(p),
        None => old,
    }
}

/// The audio data that decoding uses: the last `data` chunk, or what the parser held.
pub open spec fn decode_data(old: Seq<u8>, st: ChunkPayloads) -> Seq<u8> {
    match st.2 {
        Some(p) => p,
        None => old,
    }
}

/// The coefficient table a Microsoft ADPCM `fmt ` chunk holds: four bytes per pair, none
/// when it states no pair.
pub open spec fn chunk_coefficients(p: Seq<u8>) -> Seq<u8> {
    let count = le16(p, 20);
    if count > 0 {
        p.subrange(22, 22 + 4 * count)
    } else {
        seq![]
    }
}

/// The coefficient table that decoding uses: that of the last `fmt ` chunk, or the one the
/// parser held.
pub open spec fn decode_coefficients(old: FmtMetadata, st: ChunkPayloads) -> Seq<u8> {
    match st.1 {
        Some(p) => chunk_coefficients(p),
        None => coefficient_bytes(old),
    }
}

/// The Microsoft ADPCM samples of `data` with the block layout of `m` and the coefficient
/// table `coefs`: those of its whole blocks, or `None` when a block cannot be read.
pub open spec fn ms_samples(data: Seq<u8>, m: FmtMetadata, coefs: Seq<u8>) -> Option<Seq<i16>> {
    adpcm_blocks(data, 0, m.block_align as int, m.number_of_channels == 2, coefs)
}

/// Whether audio data of the format of `m` is decoded: PCM and Microsoft ADPCM are.
pub open spec fn decoded_format(m: FmtMetadata) -> bool {
    m.compression_code == CompressionCode::Pcm || m.compression_code == CompressionCode::Adpcm
}

/// `x` holds the samples decoded from `data` with metadata `m` and coefficient table
/// `coefs`, for a decoded format.
pub open spec fn samples_ok(data: Seq<u8>, m: FmtMetadata, coefs: Seq<u8>, x: PCMData) -> bool {
    if m.compression_code == CompressionCode::Pcm {
        pcm_samples_ok(data, m, x)
    } else {
        x matches AudioData::I16(v) && ms_samples(data, m, coefs) == Some(v@)
    }
}

/// How decoding `data` with metadata `m` and coefficient table `coefs` fails, if it does;
/// PCM and Microsoft ADPCM are decoded, other formats are not.
pub open spec fn audio_failure(m: FmtMetadata, coefs: Seq<u8>, data: Seq<u8>) -> Option<Failure> {
    if m.compression_code == CompressionCode::Pcm {
        pcm_data_failure(data, m)
    } else if m.compression_code == CompressionCode::Adpcm && ms_samples(data, m, coefs) is None {
        Some(Failure::Range)
    } else {
        None
    }
}

/// How parsing the file `d` fails, if it does, for a parser that held `old`.
pub open spec fn parse_failure(d: Seq<u8>, old: WAVMetadata) -> Option<Failure> {
    match wav_walk(d) {
        Err(f) => Some(f),
        Ok((_, st)) => audio_failure(
            decode_fmt(old.fmt_metadata, st),
            decode_coefficients(old.fmt_metadata, st),
            decode_data(old.data_metadata@, st),
        ),
    }
}

/// Whether the RIFF size of `d` is read before its header fails: the file starts with
/// `RIFF` and holds a form type, but that form type is not `WAVE`.
pub open spec fn size_read_before_failure(d: Seq<u8>) -> bool {
    &&& d.len() >= 12
    &&& d.subrange(0, 4) == riff_tag()
    &&& d.subrange(8, 12) != wave_tag()
}

/// What a failed parse of the file `d` leaves of the metadata `old`: the RIFF size where
/// it was read before the failure, and nothing else changed.
pub open spec fn failed_metadata(d: Seq<u8>, old: WAVMetadata) -> WAVMetadata {
    if size_read_before_failure(d) {
        WAVMetadata { file_size: le_value(d.subrange(4, 8)) as u32, ..old }
    } else {
        old
    }
}

/// `new` is what parsing the file `d` leaves of the metadata `old`: the RIFF size, and
/// the last `bext`, `fmt ` and `data` chunks where the file has them.
pub open spec fn parsed_metadata(d: Seq<u8>, old: WAVMetadata, new: WAVMetadata) -> bool {
    let size = wav_walk(d)->Ok_0.0;
    let st = wav_walk(d)->Ok_0.1;
    &&& new.file_size == size
    &&& match st.0 {
        Some(p) => new.bext_metadata matches Some(b) && bext_ok(p, b),
        None => new.bext_metadata == old.bext_metadata,
    }
    &&& match st.1 {
        Some(p) => wav_fmt_ok(p, new.fmt_metadata),
        None => new.fmt_metadata == old.fmt_metadata,
    }
    &&& new.data_metadata@ == decode_data(old.data_metadata@, st)
}

/// `new` is what parsing the file `d` leaves of the samples `old_samples`: the decoded
/// data where the format is PCM or Microsoft ADPCM.
pub open spec fn parsed_samples(
    d: Seq<u8>,
    old: WAVMetadata,
    old_samples: Option<PCMData>,
    new_samples: Option<PCMData>,
) -> bool {
    let st = wav_walk(d)->Ok_0.1;
    let m = decode_fmt(old.fmt_metadata, st);
    if decoded_format(m) {
        new_samples matches Some(x) && samples_ok(
            decode_data(old.data_metadata@, st),
            m,
            decode_coefficients(old.fmt_metadata, st),
            x,
        )
    } else {
        new_samples == old_samples
    }
}

impl WAVParser {
    /// The name of the file this parser reads.
    pub closed spec fn file_name(&self) -> Seq<char> {
        self.input_file@
    }

    /// What the parser has read.
    pub closed spec fn metadata_view(&self) -> WAVMetadata {
        self.raw_metadata
    }

    /// The samples the parser has decoded.
    pub closed spec fn samples_view(&self) -> Option<PCMData> {
        self.raw_data
    }

    /// A parser for the file `file_name` that has read nothing yet.
    pub fn new(file_name: &str) -> (res: Self)
        ensures
            res.file_name() == file_name@,
            default_metadata(res.metadata_view()),
            res.samples_view() is None,
    {
        Self {
            input_file: String::from_str(file_name),
            raw_metadata: WAVMetadata::default(),
            raw_data: None,
        }
    }

    /// The name of the file this parser reads.
    pub fn input_file(&self) -> (res: &str)
        ensures
            res@ == self.file_name(),
    {
        self.input_file.as_str()
    }

    /// What the parser has read.
    pub fn metadata(self) -> (res: WAVMetadata)
        ensures
            res == self.metadata_view(),
    {
        self.raw_metadata
    }

    /// The payload of the `data` chunk the parser has read.
    pub fn data(self) -> (res: Vec<u8>)
        ensures
            res == self.metadata_view().data_metadata,
    {
        self.raw_metadata.data_metadata
    }

    /// What a waveform renderer needs: the sample rate, the channels, the format and the
    /// decoded samples.
    pub fn context(self) -> (res: WaveParserContext)
        ensures
            res.sample_rate == self.metadata_view().fmt_metadata.sample_rate_per_second,
            res.channels == self.metadata_view().fmt_metadata.number_of_channels,
            res.compression_code == self.metadata_view().fmt_metadata.compression_code,
            res.samples == self.samples_view(),
    {
        WaveParserContext {
            sample_rate: self.raw_metadata.fmt_metadata.sample_rate_per_second,
            channels: self.raw_metadata.fmt_metadata.number_of_channels,
            compression_code: self.raw_metadata.fmt_metadata.compression_code,
            samples: self.raw_data,
        }
    }

    /// Decodes PCM audio data.
    pub fn parse_audio_pcm_data(fmt_metadata: &FmtMetadata, data: &[u8]) -> (res: Result<
        PCMData,
        AudioParserError,
    >)
        ensures
            pcm_data_result(data@, *fmt_metadata, res),
    {
        let codec = PCMCodec {};
        codec.parse_audio_data(data, fmt_metadata)
    }

    /// Decodes the audio data where the format is PCM or Microsoft ADPCM; other formats
    /// give no samples.
    pub fn parse_audio_data(fmt_metadata: &FmtMetadata, data: &[u8]) -> (res: Result<
        Option<PCMData>,
        AudioParserError,
    >)
        ensures
            match audio_failure(*fmt_metadata, coefficient_bytes(*fmt_metadata), data@) {
                Some(f) => fails_with(res, f),
                None => res matches Ok(o) && if decoded_format(*fmt_metadata) {
                    o matches Some(x) && samples_ok(
                        data@,
                        *fmt_metadata,
                        coefficient_bytes(*fmt_metadata),
                        x,
                    )
                } else {
                    o is None
                },
            },
    {
        if fmt_metadata.compression_code == CompressionCode::Pcm {
            let samples = Self::parse_audio_pcm_data(fmt_metadata, data)?;
            Ok(Some(samples))
        } else if fmt_metadata.compression_code == CompressionCode::Adpcm {
            let codec = MSAdpcmCodec {};
            let samples = codec.parse_audio_data(data, fmt_metadata)?;
            Ok(Some(samples))
        } else {
            Ok(None)
        }
    }

    /// Reads the WAV file `file_data`: its RIFF header, its chunks, and the samples of its
    /// data. The RIFF size is stored as soon as it is read, so a file whose form type is not
    /// `WAVE` leaves it behind; on any other failure the parser is left as it was.
    pub fn parse(&mut self, file_data: &[u8]) -> (res: Result<(), AudioParserError>)
        ensures
            match parse_failure(file_data@, old(self).metadata_view()) {
                Some(f) => {
                    &&& fails_with(res, f)
                    &&& final(self).file_name() == old(self).file_name()
                    &&& final(self).metadata_view() == failed_metadata(
                        file_data@,
                        old(self).metadata_view(),
                    )
                    &&& final(self).samples_view() == old(self).samples_view()
                },
                None => {
                    &&& res is Ok
                    &&& final(self).file_name() == old(self).file_name()
                    &&& parsed_metadata(
                        file_data@,
                        old(self).metadata_view(),
                        final(self).metadata_view(),
                    )
                    &&& parsed_samples(
                        file_data@,
                        old(self).metadata_view(),
                        old(self).samples_view(),
                        final(self).samples_view(),
                    )
                },
            },
    {
        if file_data.len() >= 12 && has_tag(file_data, 0, [82, 73, 70, 70]) && !has_tag(
            file_data,
            8,
            [87, 65, 86, 69],
        ) {  // "RIFF" holding another form type than "WAVE"
            let file_size: u32 = convert_to_number(file_data, 4, 8)?;
            self.raw_metadata.file_size = file_size;
        }
        let chunks = read_chunks(file_data)?;
        let samples = {
            let fmt_metadata: &FmtMetadata = match &chunks.fmt {
                Some(m) => m,
                None => &self.raw_metadata.fmt_metadata,
            };
            let data: &[u8] = match &chunks.data {
                Some(v) => v.as_slice(),
                None => self.raw_metadata.data_metadata.as_slice(),
            };
            Self::parse_audio_data(fmt_metadata, data)?
        };
        self.raw_metadata.file_size = chunks.file_size;
        match chunks.bext {
            Some(b) => {
                self.raw_metadata.bext_metadata = Some(b);
            },
            None => {},
        }
        match chunks.fmt {
            Some(m) => {
                self.raw_metadata.fmt_metadata = m;
            },
            None => {},
        }
        match chunks.data {
            Some(v) => {
                self.raw_metadata.data_metadata = v;
            },
            None => {},
        }
        match samples {
            Some(x) => {
                self.raw_data = Some(x);
            },
            None => {},
        }
        Ok(())
    }
}

} // verus!
