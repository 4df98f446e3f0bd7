//! When the `nus3audio` crate's reader returns on a file's bytes.
//!
//! `nus3audio::Nus3audioFile::try_from_bytes` gives `None` when the `NUS3`
//! header or its length is missing, but once the header is there it reads
//! the rest with unchecked unwraps and slices, and panics on a malformed
//! body. `parser_returns` states, from the crate's parser, on which bytes it
//! returns; `nus3audio_parser_returns` decides it, so that the library calls
//! the reader only there.
use vstd::prelude::*;
use crate::wav::{has_tag, le_u32, read_le_u32, tag_at};

verus! {

/// `NUS3`.
pub open spec fn nus3_tag() -> Seq<u8> { seq![0x4eu8, 0x55, 0x53, 0x33] }
/// `AUDI`, the first half of `AUDIINDX`.
pub open spec fn audi_tag() -> Seq<u8> { seq![0x41u8, 0x55, 0x44, 0x49] }
/// `INDX`, the second half of `AUDIINDX`.
pub open spec fn indx_tag() -> Seq<u8> { seq![0x49u8, 0x4e, 0x44, 0x58] }
/// `NMOF`: the name offsets.
pub open spec fn nmof_tag() -> Seq<u8> { seq![0x4eu8, 0x4d, 0x4f, 0x46] }
/// `ADOF`: the audio data offsets and sizes.
pub open spec fn adof_tag() -> Seq<u8> { seq![0x41u8, 0x44, 0x4f, 0x46] }
/// `TNID`: the track IDs.
pub open spec fn tnid_tag() -> Seq<u8> { seq![0x54u8, 0x4e, 0x49, 0x44] }
/// `TNNM`: the names.
pub open spec fn tnnm_tag() -> Seq<u8> { seq![0x54u8, 0x4e, 0x4e, 0x4d] }
/// `JUNK`: padding.
pub open spec fn junk_tag() -> Seq<u8> { seq![0x4au8, 0x55, 0x4e, 0x4b] }
/// `PACK`: the audio data.
pub open spec fn pack_tag() -> Seq<u8> { seq![0x50u8, 0x41, 0x43, 0x4b] }

/// End of the body the `NUS3` header announces: the header is the tag and a
/// little-endian length, and the body of that length must follow.
pub open spec fn payload_end(d: Seq<u8>) -> Option<int> {
    if d.len() >= 8 && tag_at(d, 0, nus3_tag()) && 8 + le_u32(d, 4) <= d.len() {
        Some(8 + le_u32(d, 4) as int)
    } else {
        None
    }
}

/// Where the sections start, after the `AUDIINDX` block at the start of the
/// body: its tag, a size of at least 4, a track count, and the rest of the
/// block, all inside the body.
pub open spec fn sections_start(d: Seq<u8>, end: int) -> Option<int> {
    if 20 <= end <= d.len() && tag_at(d, 8, audi_tag()) && tag_at(d, 12, indx_tag()) && le_u32(d, 16) >= 4 && 20
        + le_u32(d, 16) <= end {
        Some(20 + le_u32(d, 16) as int)
    } else {
        None
    }
}

/// End of the section at `i`, when one is read there: a known tag and a
/// little-endian size, then for `NMOF` and `TNID` the whole 4-byte entries,
/// for `ADOF` the whole 8-byte entries, and for the others the size in
/// bytes, all before `end`. Reading stops at the first section that is not
/// read.
pub open spec fn section_end(d: Seq<u8>, end: int, i: int) -> Option<int> {
    if i < 0 || end > d.len() || i + 8 > end {
        None
    } else {
        let sz = le_u32(d, i + 4) as int;
        let e = if tag_at(d, i, nmof_tag()) || tag_at(d, i, tnid_tag()) {
            i + 8 + 4 * (sz / 4)
        } else if tag_at(d, i, adof_tag()) {
            i + 8 + 8 * (sz / 8)
        } else if tag_at(d, i, tnnm_tag()) || tag_at(d, i, junk_tag()) || tag_at(d, i, pack_tag()) {
            i + 8 + sz
        } else {
            -1
        };
        if i + 8 <= e && e <= end {
            Some(e)
        } else {
            None
        }
    }
}

/// Start of the first section with tag `t` among those read from `i` on.
pub open spec fn first_section(d: Seq<u8>, end: int, i: int, t: Seq<u8>) -> Option<int>
    decreases end - i,
{
    match section_end(d, end, i) {
        None => None,
        Some(e) => if tag_at(d, i, t) {
            Some(i)
        } else {
            first_section(d, end, e, t)
        },
    }
}

} // verus!

verus! {

/// End of the section at `i` (see `section_end`).
fn section_end_at(d: &[u8], end: usize, i: usize) -> (r: Option<usize>)
    requires
        end <= d@.len(),
    ensures
        match r {
            Some(e) => section_end(d@, end as int, i as int) == Some(e as int),
            None => section_end(d@, end as int, i as int) is None,
        },
{
    if i > end || end - i < 8 {
        return None;
    }
    let sz = read_le_u32(d, i + 4) as u64;
    let avail = (end - i - 8) as u64;
    let need: u64 = if has_tag(d, i, 0x4e, 0x4d, 0x4f, 0x46) || has_tag(d, i, 0x54, 0x4e, 0x49, 0x44) {
        4 * (sz / 4)
    } else if has_tag(d, i, 0x41, 0x44, 0x4f, 0x46) {
        8 * (sz / 8)
    } else if has_tag(d, i, 0x54, 0x4e, 0x4e, 0x4d) || has_tag(d, i, 0x4a, 0x55, 0x4e, 0x4b) || has_tag(
        d,
        i,
        0x50,
        0x41,
        0x43,
        0x4b,
    ) {
        sz
    } else {
        return None;
    };
    if need > avail {
        None
    } else {
        Some(i + 8 + need as usize)
    }
}

/// The first section with tag `a b c e` read from `start` on, with its end.
fn find_section(d: &[u8], end: usize, start: usize, a: u8, b: u8, c: u8, e: u8) -> (r: Option<(usize, usize)>)
    requires
        end <= d@.len(),
    ensures
        match r {
            Some((p, q)) => first_section(d@, end as int, start as int, seq![a, b, c, e]) == Some(p as int)
                && section_end(d@, end as int, p as int) == Some(q as int) && tag_at(d@, p as int, seq![a, b, c, e]),
            None => first_section(d@, end as int, start as int, seq![a, b, c, e]) is None,
        },
{
    let ghost t = seq![a, b, c, e];
    if start > end {
        return None;
    }
    let mut i = start;
    loop
        invariant
            end <= d@.len(),
            i <= end,
            t == seq![a, b, c, e],
            first_section(d@, end as int, start as int, t) == first_section(d@, end as int, i as int, t),
        decreases end - i,
    {
        match section_end_at(d, end, i) {
            None => {
                return None;
            },
            Some(q) => {
                if has_tag(d, i, a, b, c, e) {
                    return Some((i, q));
                }
                i = q;
            },
        }
    }
}

} // verus!

verus! {

/// Position of the first zero byte of `d` at or after `i`.
pub open spec fn zero_from(d: Seq<u8>, i: int) -> Option<int>
    decreases d.len() - i,
{
    if i < 0 || i >= d.len() {
        None
    } else if d[i] == 0 {
        Some(i)
    } else {
        zero_from(d, i + 1)
    }
}

/// A UTF-8 continuation byte.
pub open spec fn cont(b: u8) -> bool {
    0x80 <= b && b <= 0xBF
}

/// Length of the well-formed UTF-8 sequence that starts at `i` and ends
/// before `end` (the Unicode table of well-formed byte sequences: no
/// overlong forms, no surrogates, nothing past U+10FFFF), or 0 where none
/// starts there.
pub open spec fn utf8_char_len(d: Seq<u8>, i: int, end: int) -> int {
    let b0 = d[i];
    if b0 <= 0x7F {
        1
    } else if 0xC2 <= b0 && b0 <= 0xDF {
        if i + 1 < end && cont(d[i + 1]) { 2 } else { 0 }
    } else if b0 == 0xE0 {
        if i + 2 < end && 0xA0 <= d[i + 1] && d[i + 1] <= 0xBF && cont(d[i + 2]) { 3 } else { 0 }
    } else if (0xE1 <= b0 && b0 <= 0xEC) || b0 == 0xEE || b0 == 0xEF {
        if i + 2 < end && cont(d[i + 1]) && cont(d[i + 2]) { 3 } else { 0 }
    } else if b0 == 0xED {
        if i + 2 < end && 0x80 <= d[i + 1] && d[i + 1] <= 0x9F && cont(d[i + 2]) { 3 } else { 0 }
    } else if b0 == 0xF0 {
        if i + 3 < end && 0x90 <= d[i + 1] && d[i + 1] <= 0xBF && cont(d[i + 2]) && cont(d[i + 3]) { 4 } else { 0 }
    } else if 0xF1 <= b0 && b0 <= 0xF3 {
        if i + 3 < end && cont(d[i + 1]) && cont(d[i + 2]) && cont(d[i + 3]) { 4 } else { 0 }
    } else if b0 == 0xF4 {
        if i + 3 < end && 0x80 <= d[i + 1] && d[i + 1] <= 0x8F && cont(d[i + 2]) && cont(d[i + 3]) { 4 } else { 0 }
    } else {
        0
    }
}

/// The bytes `d[i..end]` are valid UTF-8 (what `std::str::from_utf8`
/// accepts).
pub open spec fn utf8_between(d: Seq<u8>, i: int, end: int) -> bool
    decreases end - i,
{
    if i >= end {
        true
    } else if utf8_char_len(d, i, end) == 0 {
        false
    } else {
        utf8_between(d, i + utf8_char_len(d, i, end), end)
    }
}

/// The name at offset `o` is read: the offset is inside the file, a zero
/// byte follows, and the bytes before it are valid UTF-8.
pub open spec fn name_ok(d: Seq<u8>, o: int) -> bool {
    o <= d.len() && match zero_from(d, o) {
        Some(z) => utf8_between(d, o, z),
        None => false,
    }
}

/// The `k`-th name offset of the `NMOF` section at `p`.
pub open spec fn name_offset(d: Seq<u8>, p: int, k: int) -> int {
    le_u32(d, p + 8 + 4 * k) as int
}

/// The `k`-th audio entry of the `ADOF` section at `p` (offset and size)
/// lies inside the file.
pub open spec fn audio_fits(d: Seq<u8>, p: int, k: int) -> bool {
    le_u32(d, p + 8 + 8 * k) + le_u32(d, p + 12 + 8 * k) <= d.len()
}

/// With the `NMOF` section at `pn`, the `ADOF` section at `pa` and the
/// `TNID` section at `pt`: every name offset leads to a name, and the audio
/// of every `ADOF` entry that is cut out lies inside the file (see
/// `parser_returns`).
pub open spec fn tables_ok(d: Seq<u8>, pn: int, pa: int, pt: int) -> bool {
    let names = le_u32(d, pn + 4) as int / 4;
    let audio = le_u32(d, pa + 4) as int / 8;
    let ids = le_u32(d, pt + 4) as int / 4;
    &&& forall|k: int| 0 <= k < names ==> name_ok(d, #[trigger] name_offset(d, pn, k))
    &&& forall|k: int| 0 <= k < audio && k <= names && k <= ids ==> #[trigger] audio_fits(d, pa, k)
}

/// `nus3audio::Nus3audioFile::try_from_bytes` returns on `d` (with `None` or
/// a track list) rather than panicking. It returns `None` without reading
/// further when the `NUS3` header or its body is missing. Otherwise the body
/// must start with the `AUDIINDX` block; the sections read after it must
/// hold an `NMOF`, an `ADOF` and a `TNID` section (the first of each is
/// used); every name offset must lead to a name (see `name_ok`); and the
/// crate cuts out the audio of entry `k` of `ADOF` for every `k` that is
/// not past the number of names nor the number of IDs, which must then lie
/// inside the file.
pub open spec fn parser_returns(d: Seq<u8>) -> bool {
    match payload_end(d) {
        None => true,
        Some(end) => match sections_start(d, end) {
            None => false,
            Some(s0) => match (
                first_section(d, end, s0, nmof_tag()),
                first_section(d, end, s0, adof_tag()),
                first_section(d, end, s0, tnid_tag()),
            ) {
                (Some(pn), Some(pa), Some(pt)) => tables_ok(d, pn, pa, pt),
                _ => false,
            },
        },
    }
}

/// Length of the UTF-8 sequence at `i` (see `utf8_char_len`).
fn utf8_char_len_at(d: &[u8], i: usize, end: usize) -> (k: usize)
    requires
        i < end <= d@.len(),
    ensures
        k as int == utf8_char_len(d@, i as int, end as int),
        k <= 4,
{
    let b0 = d[i];
    if b0 <= 0x7F {
        1
    } else if 0xC2 <= b0 && b0 <= 0xDF {
        if end - i > 1 && 0x80 <= d[i + 1] && d[i + 1] <= 0xBF { 2 } else { 0 }
    } else if b0 == 0xE0 {
        if end - i > 2 && 0xA0 <= d[i + 1] && d[i + 1] <= 0xBF && 0x80 <= d[i + 2] && d[i + 2] <= 0xBF { 3 } else { 0 }
    } else if (0xE1 <= b0 && b0 <= 0xEC) || b0 == 0xEE || b0 == 0xEF {
        if end - i > 2 && 0x80 <= d[i + 1] && d[i + 1] <= 0xBF && 0x80 <= d[i + 2] && d[i + 2] <= 0xBF { 3 } else { 0 }
    } else if b0 == 0xED {
        if end - i > 2 && 0x80 <= d[i + 1] && d[i + 1] <= 0x9F && 0x80 <= d[i + 2] && d[i + 2] <= 0xBF { 3 } else { 0 }
    } else if b0 == 0xF0 {
        if end - i > 3 && 0x90 <= d[i + 1] && d[i + 1] <= 0xBF && 0x80 <= d[i + 2] && d[i + 2] <= 0xBF && 0x80
            <= d[i + 3] && d[i + 3] <= 0xBF {
            4
        } else {
            0
        }
    } else if 0xF1 <= b0 && b0 <= 0xF3 {
        if end - i > 3 && 0x80 <= d[i + 1] && d[i + 1] <= 0xBF && 0x80 <= d[i + 2] && d[i + 2] <= 0xBF && 0x80
            <= d[i + 3] && d[i + 3] <= 0xBF {
            4
        } else {
            0
        }
    } else if b0 == 0xF4 {
        if end - i > 3 && 0x80 <= d[i + 1] && d[i + 1] <= 0x8F && 0x80 <= d[i + 2] && d[i + 2] <= 0xBF && 0x80
            <= d[i + 3] && d[i + 3] <= 0xBF {
            4
        } else {
            0
        }
    } else {
        0
    }
}

/// Whether the name at offset `o` is read (see `name_ok`).
fn name_ok_at(d: &[u8], o: usize) -> (b: bool)
    ensures
        b == name_ok(d@, o as int),
{
    if o > d.len() {
        return false;
    }
    let mut z = o;
    while z < d.len() && d[z] != 0
        invariant
            o <= z <= d@.len(),
            zero_from(d@, o as int) == zero_from(d@, z as int),
        decreases d@.len() - z,
    {
        z += 1;
    }
    if z == d.len() {
        return false;
    }
    let mut i = o;
    while i < z
        invariant
            o <= i <= z < d@.len(),
            zero_from(d@, o as int) == Some(z as int),
            utf8_between(d@, o as int, z as int) == utf8_between(d@, i as int, z as int),
        decreases z - i,
    {
        let k = utf8_char_len_at(d, i, z);
        if k == 0 {
            return false;
        }
        if k > z - i {
            return false;
        }
        i = i + k;
    }
    true
}

/// Whether `nus3audio::Nus3audioFile::try_from_bytes` returns on `data`
/// (see `parser_returns`).
pub fn nus3audio_parser_returns(data: &[u8]) -> (b: bool)
    ensures
        b == parser_returns(data@),
{
    let n = data.len();
    if n < 8 || !has_tag(data, 0, 0x4e, 0x55, 0x53, 0x33) {
        return true;
    }
    let body = read_le_u32(data, 4) as usize;
    if body > n - 8 {
        return true;
    }
    let end = 8 + body;
    if end < 20 || !has_tag(data, 8, 0x41, 0x55, 0x44, 0x49) || !has_tag(data, 12, 0x49, 0x4e, 0x44, 0x58) {
        return false;
    }
    let audi = read_le_u32(data, 16) as usize;
    if audi < 4 || audi > end - 20 {
        return false;
    }
    let s0 = 20 + audi;
    let (pn, qn) = match find_section(data, end, s0, 0x4e, 0x4d, 0x4f, 0x46) {
        Some(x) => x,
        None => return false,
    };
    let (pa, qa) = match find_section(data, end, s0, 0x41, 0x44, 0x4f, 0x46) {
        Some(x) => x,
        None => return false,
    };
    let (pt, qt) = match find_section(data, end, s0, 0x54, 0x4e, 0x49, 0x44) {
        Some(x) => x,
        None => return false,
    };
    assert(payload_end(data@) == Some(end as int));
    assert(sections_start(data@, end as int) == Some(s0 as int));
    let names = (read_le_u32(data, pn + 4) / 4) as usize;
    let audio = (read_le_u32(data, pa + 4) / 8) as usize;
    let ids = (read_le_u32(data, pt + 4) / 4) as usize;
    let mut k: usize = 0;
    while k < names
        invariant
            n == data@.len(),
            payload_end(data@) == Some(end as int),
            sections_start(data@, end as int) == Some(s0 as int),
            first_section(data@, end as int, s0 as int, nmof_tag()) == Some(pn as int),
            first_section(data@, end as int, s0 as int, adof_tag()) == Some(pa as int),
            first_section(data@, end as int, s0 as int, tnid_tag()) == Some(pt as int),
            k <= names,
            names as int == le_u32(data@, pn + 4) as int / 4,
            pn + 8 + 4 * names <= qn <= end <= data@.len(),
            forall|j: int| 0 <= j < k ==> name_ok(data@, #[trigger] name_offset(data@, pn as int, j)),
        decreases names - k,
    {
        let o = read_le_u32(data, pn + 8 + 4 * k) as usize;
        assert(o as int == name_offset(data@, pn as int, k as int));
        if !name_ok_at(data, o) {
            assert(!name_ok(data@, name_offset(data@, pn as int, k as int)));
            assert(!tables_ok(data@, pn as int, pa as int, pt as int));
            assert(!parser_returns(data@));
            return false;
        }
        k += 1;
    }
    let mut k: usize = 0;
    while k < audio && k <= names && k <= ids
        invariant
            n == data@.len(),
            payload_end(data@) == Some(end as int),
            sections_start(data@, end as int) == Some(s0 as int),
            first_section(data@, end as int, s0 as int, nmof_tag()) == Some(pn as int),
            first_section(data@, end as int, s0 as int, adof_tag()) == Some(pa as int),
            first_section(data@, end as int, s0 as int, tnid_tag()) == Some(pt as int),
            forall|j: int| 0 <= j < names ==> name_ok(data@, #[trigger] name_offset(data@, pn as int, j)),
            k <= audio,
            audio as int == le_u32(data@, pa + 4) as int / 8,
            names as int == le_u32(data@, pn + 4) as int / 4,
            ids as int == le_u32(data@, pt + 4) as int / 4,
            pa + 8 + 8 * audio <= qa <= end <= data@.len(),
            forall|j: int| 0 <= j < k ==> #[trigger] audio_fits(data@, pa as int, j),
        decreases audio - k,
    {
        let off = read_le_u32(data, pa + 8 + 8 * k) as u64;
        let size = read_le_u32(data, pa + 12 + 8 * k) as u64;
        if off + size > n as u64 {
            assert(!audio_fits(data@, pa as int, k as int));
            assert(!tables_ok(data@, pn as int, pa as int, pt as int));
            assert(!parser_returns(data@));
            return false;
        }
        assert(audio_fits(data@, pa as int, k as int));
        k += 1;
    }
    true
}

} // verus!
