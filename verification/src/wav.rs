//! RIFF/WAVE byte-level inspection and patching, and recognition of audio
//! container formats from their leading bytes.
use vstd::prelude::*;

verus! {

/// Little-endian 32-bit value of `d[i..i+4]`.
pub open spec fn le_u32(d: Seq<u8>, i: int) -> nat {
    (d[i] as nat) + (d[i + 1] as nat) * 256 + (d[i + 2] as nat) * 65536 + (d[i + 3] as nat) * 16777216
}

/// Little-endian 16-bit value of `d[i..i+2]`.
pub open spec fn le_u16(d: Seq<u8>, i: int) -> nat {
    (d[i] as nat) + (d[i + 1] as nat) * 256
}

/// The four bytes at `d[i..i+4]` spell the ASCII tag `t`.
pub open spec fn tag_at(d: Seq<u8>, i: int, t: Seq<u8>) -> bool {
    t.len() == 4 && 0 <= i && i + 4 <= d.len() && d.subrange(i, i + 4) == t
}

pub open spec fn riff_tag() -> Seq<u8> { seq![0x52u8, 0x49, 0x46, 0x46] }
pub open spec fn wave_tag() -> Seq<u8> { seq![0x57u8, 0x41, 0x56, 0x45] }
pub open spec fn fmt_tag() -> Seq<u8> { seq![0x66u8, 0x6d, 0x74, 0x20] }
pub open spec fn data_tag() -> Seq<u8> { seq![0x64u8, 0x61, 0x74, 0x61] }
pub open spec fn smpl_tag() -> Seq<u8> { seq![0x73u8, 0x6d, 0x70, 0x6c] }
pub open spec fn ogg_tag() -> Seq<u8> { seq![0x4fu8, 0x67, 0x67, 0x53] }
pub open spec fn flac_tag() -> Seq<u8> { seq![0x66u8, 0x4c, 0x61, 0x43] }

/// Offset of the chunk that follows the chunk header at `off`: header (8
/// bytes), body, and a pad byte after an odd-sized body.
pub open spec fn next_chunk(d: Seq<u8>, off: int) -> int {
    let size = le_u32(d, off + 4) as int;
    off + 8 + size + (size % 2)
}

pub(crate) fn read_le_u32(d: &[u8], i: usize) -> (v: u32)
    requires
        i + 4 <= d@.len(),
    ensures
        v as nat == le_u32(d@, i as int),
{
    let b0 = d[i] as u32;
    let b1 = d[i + 1] as u32;
    let b2 = d[i + 2] as u32;
    let b3 = d[i + 3] as u32;
    b0 + b1 * 256 + b2 * 65536 + b3 * 16777216
}

fn read_le_u16(d: &[u8], i: usize) -> (v: u16)
    requires
        i + 2 <= d@.len(),
    ensures
        v as nat == le_u16(d@, i as int),
{
    let b0 = d[i] as u16;
    let b1 = d[i + 1] as u16;
    b0 + b1 * 256
}

pub(crate) fn has_tag(d: &[u8], i: usize, a: u8, b: u8, c: u8, e: u8) -> (r: bool)
    requires
        i + 4 <= d@.len(),
    ensures
        r == (d@.subrange(i as int, i + 4) == seq![a, b, c, e]),
{
    let r = d[i] == a && d[i + 1] == b && d[i + 2] == c && d[i + 3] == e;
    proof {
        if r {
            assert(d@.subrange(i as int, i + 4) =~= seq![a, b, c, e]);
        } else {
            if d@.subrange(i as int, i + 4) == seq![a, b, c, e] {
                assert(d@.subrange(i as int, i + 4)[0] == a);
                assert(d@.subrange(i as int, i + 4)[1] == b);
                assert(d@.subrange(i as int, i + 4)[2] == c);
                assert(d@.subrange(i as int, i + 4)[3] == e);
            }
        }
    }
    r
}

/// Extension of an audio container, from its leading bytes: RIFF/WAVE is
/// `wav`, `OggS` is `ogg`, `fLaC` is `flac`, an ID3 tag or an MPEG frame
/// sync (0xFF then three set high bits) is `mp3`, anything else `bin`.
pub open spec fn audio_extension(d: Seq<u8>) -> Seq<char> {
    if d.len() >= 12 && tag_at(d, 0, riff_tag()) && tag_at(d, 8, wave_tag()) {
        "wav"@
    } else if d.len() >= 4 && tag_at(d, 0, ogg_tag()) {
        "ogg"@
    } else if d.len() >= 4 && tag_at(d, 0, flac_tag()) {
        "flac"@
    } else if d.len() >= 3 && d[0] == 0x49u8 && d[1] == 0x44u8 && d[2] == 0x33u8 {
        "mp3"@
    } else if d.len() >= 2 && d[0] == 0xFFu8 && (d[1] & 0xE0u8) == 0xE0u8 {
        "mp3"@
    } else {
        "bin"@
    }
}

/// File extension matching the container format of `data` (see `audio_extension`).
pub fn detect_audio_extension(data: &[u8]) -> (r: &'static str)
    ensures
        r@ == audio_extension(data@),
{
    if data.len() >= 12 && has_tag(data, 0, 0x52u8, 0x49, 0x46, 0x46) && has_tag(data, 8, 0x57u8, 0x41, 0x56, 0x45) {
        return "wav";
    }
    if data.len() >= 4 && has_tag(data, 0, 0x4fu8, 0x67, 0x67, 0x53) {
        return "ogg";
    }
    if data.len() >= 4 && has_tag(data, 0, 0x66u8, 0x4c, 0x61, 0x43) {
        return "flac";
    }
    if data.len() >= 3 && data[0] == 0x49u8 && data[1] == 0x44u8 && data[2] == 0x33u8 {
        return "mp3";
    }
    if data.len() >= 2 && data[0] == 0xFFu8 && (data[1] & 0xE0u8) == 0xE0u8 {
        return "mp3";
    }
    "bin"
}

} // verus!

verus! {

/// The later of two findings: `b` when there is one, else `a`.
pub open spec fn later<T>(a: Option<T>, b: Option<T>) -> Option<T> {
    if b is Some { b } else { a }
}

/// Sample rate of the first `fmt ` chunk met when walking the chunk list from
/// `off`; nothing when the walk runs off the data first, or when that chunk's
/// fields do not all fit in the data.
pub open spec fn fmt_sample_rate_from(d: Seq<u8>, off: int) -> Option<nat>
    decreases d.len() - off,
{
    if off < 0 || off + 8 > d.len() {
        None
    } else if tag_at(d, off, fmt_tag()) {
        if off + 32 <= d.len() { Some(le_u32(d, off + 12)) } else { None }
    } else if next_chunk(d, off) <= d.len() {
        fmt_sample_rate_from(d, next_chunk(d, off))
    } else {
        None
    }
}

/// What reading a WAV file's sample rate gives: the RIFF and WAVE tags must
/// be present in a file of at least 44 bytes, then the first `fmt ` chunk
/// gives the rate.
pub open spec fn sample_rate_outcome(d: Seq<u8>) -> Result<nat, Seq<char>> {
    if d.len() < 44 || !tag_at(d, 0, riff_tag()) {
        Err("Invalid WAV file: missing RIFF header"@)
    } else if !tag_at(d, 8, wave_tag()) {
        Err("Invalid WAV file: not WAVE format"@)
    } else {
        match fmt_sample_rate_from(d, 12) {
            Some(r) => Ok(r),
            None => Err("Could not find fmt chunk in WAV file"@),
        }
    }
}

/// A returned result agrees with a specified outcome, errors compared by text.
pub open spec fn same_outcome(r: Result<u32, String>, s: Result<nat, Seq<char>>) -> bool {
    match (r, s) {
        (Ok(a), Ok(b)) => a as nat == b,
        (Err(e), Err(m)) => e@ == m,
        _ => false,
    }
}

fn err_text(s: &str) -> (r: String)
    ensures
        r@ == s@,
{
    s.to_owned()
}

proof fn lemma_zero_product(a: nat, b: nat)
    ensures
        (a * b == 0) == (a == 0 || b == 0),
{
    if a != 0 && b != 0 {
        assert(a * b > 0) by (nonlinear_arith)
            requires a > 0, b > 0;
    }
}

/// Sample rate of a WAV file held in memory (see `sample_rate_outcome`).
pub fn get_wav_sample_rate(data: &[u8]) -> (r: Result<u32, String>)
    ensures
        same_outcome(r, sample_rate_outcome(data@)),
{
    if data.len() < 44 || !has_tag(data, 0, 0x52u8, 0x49, 0x46, 0x46) {
        return Err(err_text("Invalid WAV file: missing RIFF header"));
    }
    if !has_tag(data, 8, 0x57u8, 0x41, 0x56, 0x45) {
        return Err(err_text("Invalid WAV file: not WAVE format"));
    }
    let len: u128 = data.len() as u128;
    let mut offset: u128 = 12;
    while offset + 8 <= len
        invariant
            len == data@.len(),
            len <= usize::MAX,
            12 <= offset <= len,
            data@.len() >= 44,
            tag_at(data@, 0, riff_tag()),
            tag_at(data@, 8, wave_tag()),
            fmt_sample_rate_from(data@, offset as int) == fmt_sample_rate_from(data@, 12),
        decreases len - offset,
    {
        let o = offset as usize;
        let chunk_size = read_le_u32(data, o + 4);
        if has_tag(data, o, 0x66u8, 0x6d, 0x74, 0x20) {
            assert(tag_at(data@, o as int, fmt_tag()));
            if offset + 8 + 24 <= len {
                let rate = read_le_u32(data, o + 12);
                assert(fmt_sample_rate_from(data@, o as int) == Some(rate as nat));
                assert(fmt_sample_rate_from(data@, 12) == Some(rate as nat));
                return Ok(rate);
            }
            return Err(err_text("Could not find fmt chunk in WAV file"));
        }
        let mut next: u128 = offset + 8 + chunk_size as u128;
        if chunk_size % 2 != 0 {
            next = next + 1;
        }
        assert(next as int == next_chunk(data@, o as int));
        if next > len {
            return Err(err_text("Could not find fmt chunk in WAV file"));
        }
        offset = next;
    }
    Err(err_text("Could not find fmt chunk in WAV file"))
}

/// Channel count and bits per sample of the last `fmt ` chunk whose first 16
/// body bytes fit in the data, walking the chunk list from `off`.
pub open spec fn fmt_info_from(d: Seq<u8>, off: int) -> Option<(nat, nat)>
    decreases d.len() - off,
{
    if off < 0 || off + 8 > d.len() {
        None
    } else {
        let here = if tag_at(d, off, fmt_tag()) && off + 24 <= d.len() {
            Some((le_u16(d, off + 10), le_u16(d, off + 22)))
        } else {
            None
        };
        let rest = if next_chunk(d, off) <= d.len() {
            fmt_info_from(d, next_chunk(d, off))
        } else {
            None
        };
        later(here, rest)
    }
}

/// Body size of the last `data` chunk, walking the chunk list from `off`.
pub open spec fn data_size_from(d: Seq<u8>, off: int) -> Option<nat>
    decreases d.len() - off,
{
    if off < 0 || off + 8 > d.len() {
        None
    } else {
        let here = if tag_at(d, off, data_tag()) && !(tag_at(d, off, fmt_tag()) && off + 24
            <= d.len()) {
            Some(le_u32(d, off + 4))
        } else {
            None
        };
        let rest = if next_chunk(d, off) <= d.len() {
            data_size_from(d, next_chunk(d, off))
        } else {
            None
        };
        later(here, rest)
    }
}

/// Bytes per sample frame that the total-sample computation divides by.
pub open spec fn frame_width(channels: nat, bits: nat) -> nat {
    channels * (bits / 8)
}

/// The computation divides by zero: the chunks are there but the `fmt `
/// chunk gives no channels or fewer than 8 bits per sample.
pub open spec fn total_samples_divides_by_zero(d: Seq<u8>) -> bool {
    &&& d.len() >= 44
    &&& tag_at(d, 0, riff_tag())
    &&& data_size_from(d, 12) is Some
    &&& match fmt_info_from(d, 12) {
        Some((c, b)) => frame_width(c, b) == 0,
        None => false,
    }
}

/// What counting a WAV file's sample frames gives: the data size of the last
/// `data` chunk divided by channels times bytes per sample of the last `fmt `
/// chunk.
pub open spec fn total_samples_outcome(d: Seq<u8>) -> Result<nat, Seq<char>> {
    if d.len() < 44 || !tag_at(d, 0, riff_tag()) {
        Err("Invalid WAV file: missing RIFF header"@)
    } else {
        match (fmt_info_from(d, 12), data_size_from(d, 12)) {
            (Some((c, b)), Some(s)) => Ok(s / frame_width(c, b)),
            _ => Err("Could not find required chunks to calculate total samples"@),
        }
    }
}

/// Whether counting the sample frames of `data` would divide by zero (see
/// `total_samples_divides_by_zero`).
pub fn total_samples_would_divide_by_zero(data: &[u8]) -> (b: bool)
    ensures
        b == total_samples_divides_by_zero(data@),
{
    if data.len() < 44 || !has_tag(data, 0, 0x52u8, 0x49, 0x46, 0x46) {
        return false;
    }
    let (fmt, size) = scan_fmt_and_data(data);
    match (fmt, size) {
        (Some((c, b)), Some(_)) => {
            proof { lemma_zero_product(c as nat, (b / 8) as nat); }
            c == 0 || b / 8 == 0
        },
        _ => false,
    }
}

fn scan_fmt_and_data(data: &[u8]) -> (r: (Option<(u16, u16)>, Option<u32>))
    requires
        data@.len() >= 12,
    ensures
        match (r.0, fmt_info_from(data@, 12)) {
            (Some((c, b)), Some((c2, b2))) => c as nat == c2 && b as nat == b2,
            (None, None) => true,
            _ => false,
        },
        match (r.1, data_size_from(data@, 12)) {
            (Some(s), Some(s2)) => s as nat == s2,
            (None, None) => true,
            _ => false,
        },
{
    let len: u128 = data.len() as u128;
    let mut offset: u128 = 12;
    let mut fmt: Option<(u16, u16)> = None;
    let mut size: Option<u32> = None;
    let ghost fmt_v: Option<(nat, nat)> = None;
    let ghost size_v: Option<nat> = None;
    while offset + 8 <= len
        invariant
            len == data@.len(),
            len <= usize::MAX,
            12 <= offset <= len,
            later(fmt_v, fmt_info_from(data@, offset as int)) == fmt_info_from(data@, 12),
            later(size_v, data_size_from(data@, offset as int)) == data_size_from(data@, 12),
            match (fmt, fmt_v) {
                (Some((c, b)), Some((c2, b2))) => c as nat == c2 && b as nat == b2,
                (None, None) => true,
                _ => false,
            },
            match (size, size_v) {
                (Some(s), Some(s2)) => s as nat == s2,
                (None, None) => true,
                _ => false,
            },
        decreases len - offset,
    {
        let o = offset as usize;
        let chunk_size = read_le_u32(data, o + 4);
        let is_fmt = has_tag(data, o, 0x66u8, 0x6d, 0x74, 0x20);
        if is_fmt && offset + 8 + 16 <= len {
            let channels = read_le_u16(data, o + 8 + 2);
            let bits = read_le_u16(data, o + 8 + 14);
            fmt = Some((channels, bits));
            proof { fmt_v = Some((channels as nat, bits as nat)); }
        } else if has_tag(data, o, 0x64u8, 0x61, 0x74, 0x61) {
            size = Some(chunk_size);
            proof { size_v = Some(chunk_size as nat); }
        }
        let mut next: u128 = offset + 8 + chunk_size as u128;
        if chunk_size % 2 != 0 {
            next = next + 1;
        }
        assert(next as int == next_chunk(data@, o as int));
        if next > len {
            return (fmt, size);
        }
        offset = next;
    }
    (fmt, size)
}

/// Number of sample frames in a WAV file held in memory (see
/// `total_samples_outcome`).
pub fn get_wav_total_samples(data: &[u8]) -> (r: Result<u32, String>)
    requires
        !total_samples_divides_by_zero(data@),
    ensures
        same_outcome(r, total_samples_outcome(data@)),
{
    if data.len() < 44 || !has_tag(data, 0, 0x52u8, 0x49, 0x46, 0x46) {
        return Err(err_text("Invalid WAV file: missing RIFF header"));
    }
    let (fmt, size) = scan_fmt_and_data(data);
    match (fmt, size) {
        (Some((channels, bits)), Some(data_size)) => {
            let bytes_per_sample: u32 = (bits / 8) as u32;
            assert(channels as u32 * bytes_per_sample <= 65535 * 8191) by (nonlinear_arith)
                requires channels <= 65535, bytes_per_sample <= 8191;
            let width: u32 = channels as u32 * bytes_per_sample;
            Ok(data_size / width)
        },
        _ => Err(err_text("Could not find required chunks to calculate total samples")),
    }
}

/// `d` with the little-endian bytes of `v` written at `d[i..i+4]`.
pub open spec fn with_le_u32(d: Seq<u8>, i: int, v: u32) -> Seq<u8> {
    d.update(i, (v & 0xff) as u8).update(i + 1, ((v >> 8) & 0xff) as u8).update(
        i + 2,
        ((v >> 16) & 0xff) as u8,
    ).update(i + 3, ((v >> 24) & 0xff) as u8)
}

/// What patching loop points into a WAV file does: a file of at least 0x60
/// bytes that starts with `RIFF` and has a `smpl` chunk at 0x24 gets the loop
/// start at 0x58 and the loop end at 0x5C; other files are refused and kept.
pub open spec fn smpl_patch_outcome(d: Seq<u8>, start: u32, end: u32) -> Result<Seq<u8>, Seq<char>> {
    if d.len() < 12 || !tag_at(d, 0, riff_tag()) {
        Err("Invalid WAV file: missing RIFF header"@)
    } else if d.len() < 0x28 {
        Err("WAV file too small to contain smpl chunk"@)
    } else if !tag_at(d, 0x24, smpl_tag()) {
        Err("smpl chunk not found at expected position 0x24"@)
    } else if d.len() < 0x60 {
        Err("WAV file too small to contain loop point data"@)
    } else {
        Ok(with_le_u32(with_le_u32(d, 0x58, start), 0x5C, end))
    }
}

proof fn lemma_le_bytes(v: u32)
    ensures
        ((v & 0xff) as u8) as nat + (((v >> 8) & 0xff) as u8) as nat * 256 + (((v >> 16) & 0xff) as u8) as nat * 65536
            + (((v >> 24) & 0xff) as u8) as nat * 16777216 == v as nat,
{
    let b0 = v & 0xff;
    let b1 = (v >> 8) & 0xff;
    let b2 = (v >> 16) & 0xff;
    let b3 = (v >> 24) & 0xff;
    assert(b0 + b1 * 256 + b2 * 65536 + b3 * 16777216 == v) by (bit_vector)
        requires b0 == v & 0xff, b1 == (v >> 8) & 0xff, b2 == (v >> 16) & 0xff, b3 == (v >> 24) & 0xff;
    assert(b0 < 256 && b1 < 256 && b2 < 256 && b3 < 256) by (bit_vector)
        requires b0 == v & 0xff, b1 == (v >> 8) & 0xff, b2 == (v >> 16) & 0xff, b3 == (v >> 24) & 0xff;
}

/// The loop points a patched file carries read back as written.
pub proof fn law_smpl_patch_reads_back(d: Seq<u8>, start: u32, end: u32)
    requires
        smpl_patch_outcome(d, start, end) is Ok,
    ensures
        le_u32(smpl_patch_outcome(d, start, end)->Ok_0, 0x58) == start as nat,
        le_u32(smpl_patch_outcome(d, start, end)->Ok_0, 0x5C) == end as nat,
        smpl_patch_outcome(d, start, end)->Ok_0.len() == d.len(),
        forall|i: int| 0 <= i < d.len() && !(0x58 <= i < 0x60) ==> #[trigger] smpl_patch_outcome(d, start, end)->Ok_0[i] == d[i],
{
    lemma_le_bytes(start);
    lemma_le_bytes(end);
}

fn write_le_u32(d: &mut Vec<u8>, i: usize, v: u32)
    requires
        i + 4 <= old(d).len(),
    ensures
        final(d)@ == with_le_u32(old(d)@, i as int, v),
{
    let b0: u8 = (v & 0xff) as u8;
    let b1: u8 = ((v >> 8) & 0xff) as u8;
    let b2: u8 = ((v >> 16) & 0xff) as u8;
    let b3: u8 = ((v >> 24) & 0xff) as u8;
    d.set(i, b0);
    d.set(i + 1, b1);
    d.set(i + 2, b2);
    d.set(i + 3, b3);
}

/// Writes custom loop points into the `smpl` chunk of a WAV file held in
/// memory (see `smpl_patch_outcome`); on refusal the bytes are left as they were.
pub fn modify_wav_smpl_chunk(data: &mut Vec<u8>, start_sample: u32, end_sample: u32) -> (r: Result<
    (),
    String,
>)
    ensures
        match smpl_patch_outcome(old(data)@, start_sample, end_sample) {
            Ok(patched) => r is Ok && final(data)@ == patched,
            Err(m) => (r matches Err(e) && e@ == m) && final(data)@ == old(data)@,
        },
{
    if data.len() < 12 || !has_tag(data.as_slice(), 0, 0x52u8, 0x49, 0x46, 0x46) {
        return Err(err_text("Invalid WAV file: missing RIFF header"));
    }
    if data.len() < 0x24 + 4 {
        return Err(err_text("WAV file too small to contain smpl chunk"));
    }
    if !has_tag(data.as_slice(), 0x24, 0x73u8, 0x6d, 0x70, 0x6c) {
        return Err(err_text("smpl chunk not found at expected position 0x24"));
    }
    if data.len() < 0x58 + 8 {
        return Err(err_text("WAV file too small to contain loop point data"));
    }
    write_le_u32(data, 0x58, start_sample);
    write_le_u32(data, 0x5C, end_sample);
    Ok(())
}

/// The 32-bit little-endian number in bytes `i..i+4` of `d`, byte by byte.
pub open spec fn u32_le_at(d: Seq<u8>, i: int) -> nat {
    d[i] as nat + 256 * (d[i + 1] as nat) + 65536 * (d[i + 2] as nat) + 16777216 * (d[i + 3] as nat)
}

/// The sample rate of a WAV file whose `fmt ` chunk comes first, right
/// after the RIFF header (the usual 44-byte header layout), is the whole
/// 32-bit little-endian number at bytes 4..8 of that chunk's body (file
/// bytes 24..28): all four bytes count, so 96000 reads as 96000.
pub proof fn law_sample_rate_of_first_chunk(d: Seq<u8>)
    requires
        d.len() >= 44,
        tag_at(d, 0, riff_tag()),
        tag_at(d, 8, wave_tag()),
        tag_at(d, 12, fmt_tag()),
    ensures
        sample_rate_outcome(d) == Ok::<nat, Seq<char>>(u32_le_at(d, 24)),
{
}

/// Whatever chunk list leads to it, a sample rate read from the chunks is
/// the whole 32-bit little-endian number at bytes 4..8 of the body of a
/// `fmt ` chunk that lies at or after the start of the walk and whose rate
/// field lies inside the data.
pub proof fn law_sample_rate_is_fmt_field(d: Seq<u8>, off: int)
    ensures
        fmt_sample_rate_from(d, off) matches Some(r) ==> exists|o: int|
            off <= o && o + 32 <= d.len() && tag_at(d, o, fmt_tag()) && r == #[trigger] u32_le_at(d, o + 12),
    decreases d.len() - off,
{
    if off >= 0 && off + 8 <= d.len() && !tag_at(d, off, fmt_tag()) && next_chunk(d, off) <= d.len() {
        law_sample_rate_is_fmt_field(d, next_chunk(d, off));
    } else if off >= 0 && off + 8 <= d.len() && tag_at(d, off, fmt_tag()) && off + 32 <= d.len() {
        assert(u32_le_at(d, off + 12) == le_u32(d, off + 12));
    }
}

/// The 16-bit little-endian number in bytes `i..i+2` of `d`, byte by byte.
pub open spec fn u16_le_at(d: Seq<u8>, i: int) -> nat {
    d[i] as nat + 256 * (d[i + 1] as nat)
}

/// In a WAV file with the usual 44-byte header (a 16-byte `fmt ` chunk right
/// after the RIFF header, then the `data` chunk, whose body ends the file),
/// the number of sample frames is the data size (bytes 40..44) divided by
/// the bytes per frame: the channel count (bytes 22..24) times the whole
/// bytes of one sample (bits per sample, bytes 34..36, divided by 8).
pub proof fn law_total_samples_of_plain_header(d: Seq<u8>)
    requires
        d.len() >= 44,
        tag_at(d, 0, riff_tag()),
        tag_at(d, 12, fmt_tag()),
        u32_le_at(d, 16) == 16,
        tag_at(d, 36, data_tag()),
        d.len() == 44 + u32_le_at(d, 40),
    ensures
        total_samples_outcome(d) == Ok::<nat, Seq<char>>(
            u32_le_at(d, 40) / (u16_le_at(d, 22) * (u16_le_at(d, 34) / 8)),
        ),
{
    reveal_with_fuel(fmt_info_from, 3);
    reveal_with_fuel(data_size_from, 3);
    assert(next_chunk(d, 12) == 36);
    assert(next_chunk(d, 36) >= d.len());
    assert(!tag_at(d, 36, fmt_tag())) by {
        assert(d.subrange(36, 40)[0] == d[36]);
        assert(d.subrange(36, 40)[0] == data_tag()[0]);
    }
    assert(!tag_at(d, 12, data_tag())) by {
        assert(d.subrange(12, 16)[0] == d[12]);
        assert(d.subrange(12, 16)[0] == fmt_tag()[0]);
    }
    if next_chunk(d, 36) <= d.len() {
        assert(fmt_info_from(d, next_chunk(d, 36)) is None);
        assert(data_size_from(d, next_chunk(d, 36)) is None);
    }
}

} // verus!
