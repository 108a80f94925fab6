//! The character to glyph mapping table.
use vstd::prelude::*;

use crate::error::{Error, Result};
use crate::types::{fits, get_u16, get_u16_unchecked, get_u32, get_u32_unchecked, u16_at, u32_at, GlyphID};

verus! {

/// One encoding record of a `cmap` table with the bytes of its subtable.
#[derive(Clone, Copy)]
pub struct Subtable<'a> {
    /// Platform of the encoding.
    pub platform_id: u16,
    /// Platform-specific encoding.
    pub encoding_id: u16,
    /// The subtable's bytes, from its start to the end of the `cmap` table.
    pub data: &'a [u8],
}

impl<'a> Subtable<'a> {
    /// The subtable's bytes, from its start to the end of the `cmap` table.
    pub open spec fn data(&self) -> Seq<u8> {
        self.data@
    }

    /// The subtable's format, its leading `u16`; `Invalid` when it does not fit.
    pub fn format(&self) -> (r: Result<u16>)
        ensures
            fits(self.data(), 0, 2) ==> r is Ok && r->Ok_0 as int == u16_at(self.data(), 0),
            !fits(self.data(), 0, 2) ==> r == Err::<u16, Error>(Error::Invalid),
    {
        get_u16(self.data, 0)
    }
}

/// Number of encoding records of the `cmap` table `d`.
pub open spec fn num_records(d: Seq<u8>) -> int {
    u16_at(d, 2)
}

/// Platform of encoding record `i`.
pub open spec fn rec_platform(d: Seq<u8>, i: int) -> int {
    u16_at(d, 4 + 8 * i)
}

/// Encoding of encoding record `i`.
pub open spec fn rec_encoding(d: Seq<u8>, i: int) -> int {
    u16_at(d, 6 + 8 * i)
}

/// Offset of the subtable of encoding record `i`, from the start of the table.
pub open spec fn rec_offset(d: Seq<u8>, i: int) -> int {
    u32_at(d, 8 + 8 * i)
}

/// The `cmap` table `d` has its header and records, and each record's offset
/// lies inside the table.
pub open spec fn cmap_ok(d: Seq<u8>) -> bool {
    &&& d.len() >= 4
    &&& d.len() >= 4 + 8 * num_records(d)
    &&& forall|i: int| 0 <= i < num_records(d) ==> #[trigger] rec_offset(d, i) < d.len()
}

/// Record `i` is a Windows UCS-4 record (platform 3, encoding 10).
pub open spec fn is_ucs4(d: Seq<u8>, i: int) -> bool {
    rec_platform(d, i) == 3 && rec_encoding(d, i) == 10
}

/// Record `i` is a Windows BMP record (platform 3, encoding 1).
pub open spec fn is_bmp(d: Seq<u8>, i: int) -> bool {
    rec_platform(d, i) == 3 && rec_encoding(d, i) == 1
}

/// Which of the first `k` records is active: the first Windows UCS-4 record
/// (3, 10) if there is one, which then stays; else the first Windows BMP
/// record (3, 1), if any.
pub open spec fn active_index(d: Seq<u8>, k: int) -> Option<int>
    decreases k,
{
    if k <= 0 {
        None
    } else {
        let prev = active_index(d, k - 1);
        let i = k - 1;
        if prev matches Some(j) && is_ucs4(d, j) {
            prev
        } else if is_ucs4(d, i) {
            Some(i)
        } else if is_bmp(d, i) && prev is None {
            Some(i)
        } else {
            prev
        }
    }
}

/// The active record, if any, is one of the first `k`.
proof fn lemma_active_index_bound(d: Seq<u8>, k: int)
    ensures
        active_index(d, k) matches Some(j) ==> 0 <= j < k,
    decreases k,
{
    if k > 0 {
        lemma_active_index_bound(d, k - 1);
    }
}

/// The subtable that record `i` of `d` describes.
pub open spec fn record_matches(d: Seq<u8>, i: int, s: Subtable) -> bool {
    &&& s.platform_id as int == rec_platform(d, i)
    &&& s.encoding_id as int == rec_encoding(d, i)
    &&& s.data() == d.subrange(rec_offset(d, i), d.len() as int)
}

/// Glyph id for `cp` in the subtable `d`, as a glyph index or an error.
pub open spec fn lookup(d: Seq<u8>, cp: u32) -> Result<u32> {
    if !fits(d, 0, 2) {
        Err(Error::Invalid)
    } else if u16_at(d, 0) == 4 {
        fmt4_lookup(d, cp)
    } else if u16_at(d, 0) == 12 {
        fmt12_lookup(d, cp)
    } else {
        Ok(0)
    }
}

/// Format 4 lookup: segments of `endCode`, `startCode`, `idDelta` and
/// `idRangeOffset` arrays, `segCountX2` bytes each.
pub open spec fn fmt4_lookup(d: Seq<u8>, cp: u32) -> Result<u32> {
    if !fits(d, 6, 2) {
        Err(Error::Invalid)
    } else if d.len() < 16 + 4 * u16_at(d, 6) {
        Err(Error::Invalid)
    } else {
        fmt4_scan(d, cp as int, u16_at(d, 6), 0)
    }
}

/// `endCode` of the segment at byte `off` of each array.
pub open spec fn seg_end(d: Seq<u8>, off: int) -> int {
    u16_at(d, 14 + off)
}

/// `startCode` of the segment at byte `off` of each array.
pub open spec fn seg_start(d: Seq<u8>, segx2: int, off: int) -> int {
    u16_at(d, 16 + segx2 + off)
}

/// `idDelta` of the segment at byte `off` of each array.
pub open spec fn seg_delta(d: Seq<u8>, segx2: int, off: int) -> int {
    u16_at(d, 16 + 2 * segx2 + off)
}

/// Position of the `idRangeOffset` of the segment at byte `off` of each array.
pub open spec fn seg_range_pos(segx2: int, off: int) -> int {
    16 + 3 * segx2 + off
}

/// Format 4 lookup of `cp` over the segments from byte `off` on.
pub open spec fn fmt4_scan(d: Seq<u8>, cp: int, segx2: int, off: int) -> Result<u32>
    decreases segx2 - off + 1,
{
    if off >= segx2 {
        Ok(0)
    } else if cp > seg_end(d, off) {
        fmt4_scan(d, cp, segx2, off + 2)
    } else if cp < seg_start(d, segx2, off) {
        Ok(0)
    } else {
        fmt4_in_segment(d, cp, segx2, off)
    }
}

/// Format 4 glyph of `cp`, which lies inside the segment at byte `off`.
pub open spec fn fmt4_in_segment(d: Seq<u8>, cp: int, segx2: int, off: int) -> Result<u32> {
    let delta = seg_delta(d, segx2, off);
    let rpos = seg_range_pos(segx2, off);
    if !fits(d, rpos, 2) {
        Err(Error::Invalid)
    } else if u16_at(d, rpos) == 0 {
        Ok(((cp + delta) % 0x10000) as u32)
    } else {
        let gpos = u16_at(d, rpos) + (cp - seg_start(d, segx2, off)) * 2 + rpos;
        if !fits(d, gpos, 2) {
            Err(Error::Invalid)
        } else if u16_at(d, gpos) == 0 {
            Ok(0)
        } else {
            Ok(((u16_at(d, gpos) + delta) % 0x10000) as u32)
        }
    }
}

/// Format 12 lookup: groups of (`startCharCode`, `endCharCode`, `startGlyphId`).
pub open spec fn fmt12_lookup(d: Seq<u8>, cp: u32) -> Result<u32> {
    if !fits(d, 12, 4) {
        Err(Error::Invalid)
    } else if d.len() < 16 + 12 * u32_at(d, 12) {
        Err(Error::Invalid)
    } else {
        fmt12_scan(d, cp as int, u32_at(d, 12), 0)
    }
}

/// `startCharCode` of group `k`.
pub open spec fn group_start(d: Seq<u8>, k: int) -> int {
    u32_at(d, 16 + 12 * k)
}

/// `endCharCode` of group `k`.
pub open spec fn group_end(d: Seq<u8>, k: int) -> int {
    u32_at(d, 20 + 12 * k)
}

/// `startGlyphId` of group `k`.
pub open spec fn group_glyph(d: Seq<u8>, k: int) -> int {
    u32_at(d, 24 + 12 * k)
}

/// Format 12 lookup of `cp` over the groups from `k` on, of `n`.
pub open spec fn fmt12_scan(d: Seq<u8>, cp: int, n: int, k: int) -> Result<u32>
    decreases n - k,
{
    if k >= n {
        Ok(0)
    } else if cp < group_start(d, k) {
        Ok(0)
    } else if cp > group_end(d, k) {
        fmt12_scan(d, cp, n, k + 1)
    } else {
        Ok(((cp - group_start(d, k) + group_glyph(d, k)) % 0x1_0000_0000) as u32)
    }
}

/// Segments `0..k` of a format 4 subtable all end below `cp`, so the scan
/// reaches segment `k` unchanged.
proof fn lemma_fmt4_skip(d: Seq<u8>, cp: int, segx2: int, k: int)
    requires
        0 <= k,
        2 * k <= segx2 + 1,
        forall|j: int| 0 <= j < k ==> cp > #[trigger] seg_end(d, 2 * j),
    ensures
        fmt4_scan(d, cp, segx2, 0) == fmt4_scan(d, cp, segx2, 2 * k),
    decreases k,
{
    if k > 0 {
        lemma_fmt4_skip(d, cp, segx2, k - 1);
        assert(cp > seg_end(d, 2 * (k - 1)));
    }
}

/// A codepoint that lies in the gap before segment `k` of a format 4
/// subtable (above the end of every earlier segment, below the start of
/// segment `k`), or above the end of every segment, maps to glyph 0.
pub proof fn lemma_fmt4_gap_unmapped(d: Seq<u8>, cp: u32, k: int)
    requires
        fits(d, 0, 2),
        u16_at(d, 0) == 4,
        fits(d, 6, 2),
        d.len() >= 16 + 4 * u16_at(d, 6),
        0 <= k,
        2 * k <= u16_at(d, 6) + 1,
        forall|j: int| 0 <= j < k ==> cp > #[trigger] seg_end(d, 2 * j),
        2 * k < u16_at(d, 6) ==> cp <= seg_end(d, 2 * k) && cp < seg_start(d, u16_at(d, 6), 2 * k),
    ensures
        lookup(d, cp) == Ok::<u32, Error>(0),
{
    lemma_fmt4_skip(d, cp as int, u16_at(d, 6), k);
}

/// Groups `0..k` of a format 12 subtable all end below `cp`, so the scan
/// reaches group `k` unchanged.
proof fn lemma_fmt12_skip(d: Seq<u8>, cp: int, n: int, k: int)
    requires
        0 <= k <= n,
        forall|j: int| 0 <= j < k ==> cp >= #[trigger] group_start(d, j) && cp > group_end(d, j),
    ensures
        fmt12_scan(d, cp, n, 0) == fmt12_scan(d, cp, n, k),
    decreases k,
{
    if k > 0 {
        lemma_fmt12_skip(d, cp, n, k - 1);
        assert(cp >= group_start(d, k - 1) && cp > group_end(d, k - 1));
    }
}

/// In a format 12 subtable whose groups up to `k` are in increasing order, a
/// codepoint inside group `k` maps to its offset from the group's first
/// codepoint plus the group's first glyph: exactly that sum when it fits in
/// 32 bits, and that sum modulo 2^32 in any case.
pub proof fn lemma_fmt12_in_group(d: Seq<u8>, cp: u32, k: int)
    requires
        fits(d, 0, 2),
        u16_at(d, 0) == 12,
        fits(d, 12, 4),
        d.len() >= 16 + 12 * u32_at(d, 12),
        0 <= k < u32_at(d, 12),
        forall|j: int| 0 <= j < k ==> #[trigger] group_ordered(d, j),
        group_start(d, k) <= cp <= group_end(d, k),
    ensures
        lookup(d, cp) == Ok::<u32, Error>(((cp - group_start(d, k) + group_glyph(d, k)) % 0x1_0000_0000) as u32),
        cp - group_start(d, k) + group_glyph(d, k) < 0x1_0000_0000 ==> lookup(d, cp) == Ok::<u32, Error>(
            (cp - group_start(d, k) + group_glyph(d, k)) as u32,
        ),
{
    let g = cp - group_start(d, k) + group_glyph(d, k);
    if g < 0x1_0000_0000 {
        vstd::arithmetic::div_mod::lemma_small_mod(g as nat, 0x1_0000_0000);
    }
    assert forall|j: int| 0 <= j < k implies cp >= #[trigger] group_start(d, j) && cp > group_end(d, j) by {
        lemma_groups_below(d, j, k);
    }
    lemma_fmt12_skip(d, cp as int, u32_at(d, 12), k);
}

/// Group `i` is not empty and ends before group `i + 1` starts.
pub open spec fn group_ordered(d: Seq<u8>, i: int) -> bool {
    group_start(d, i) <= group_end(d, i) && group_end(d, i) < group_start(d, i + 1)
}

/// Groups in increasing order: group `j` ends before group `k` starts.
proof fn lemma_groups_below(d: Seq<u8>, j: int, k: int)
    requires
        0 <= j < k,
        forall|i: int| 0 <= i < k ==> #[trigger] group_ordered(d, i),
    ensures
        group_start(d, j) <= group_end(d, j) < group_start(d, k),
    decreases k - j,
{
    assert(group_ordered(d, j));
    if j + 1 < k {
        lemma_groups_below(d, j + 1, k);
    }
}

/// A format 4 scan gives a 16-bit glyph id or an error.
proof fn lemma_fmt4_scan_16bit(d: Seq<u8>, cp: int, segx2: int, off: int)
    ensures
        fmt4_scan(d, cp, segx2, off) matches Ok(g) ==> g < 0x10000,
    decreases segx2 - off + 1,
{
    if off < segx2 && cp > seg_end(d, off) {
        lemma_fmt4_scan_16bit(d, cp, segx2, off + 2);
    }
}

/// Every glyph id that a format 4 subtable gives fits in 16 bits.
pub proof fn lemma_fmt4_ids_16bit(d: Seq<u8>, cp: u32)
    requires
        fits(d, 0, 2),
        u16_at(d, 0) == 4,
    ensures
        lookup(d, cp) matches Ok(g) ==> g < 0x10000,
{
    if fits(d, 6, 2) && d.len() >= 16 + 4 * u16_at(d, 6) {
        lemma_fmt4_scan_16bit(d, cp as int, u16_at(d, 6), 0);
    }
}

/// The glyph lookup result that a character map with active subtable `active` gives.
pub open spec fn cmap_result(active: Option<Subtable>, cp: u32) -> Result<GlyphID> {
    match active {
        None => Err(Error::NoCharmap),
        Some(s) => match lookup(s.data(), cp) {
            Ok(g) => Ok(GlyphID(g)),
            Err(e) => Err(e),
        },
    }
}

/// Handle to a `cmap` table: all its subtables and the one used for lookups.
pub struct Cmap<'a> {
    subtables: Vec<Subtable<'a>>,
    active: Option<Subtable<'a>>,
}

impl<'a> Cmap<'a> {
    /// All subtables, in record order.
    pub closed spec fn spec_subtables(&self) -> Seq<Subtable<'a>> {
        self.subtables@
    }

    /// The subtable used for lookups, if any.
    pub closed spec fn spec_active(&self) -> Option<Subtable<'a>> {
        self.active
    }

    /// What loading the table `d` gives: one subtable per record, in order,
    /// and the active one chosen by `active_index`.
    pub open spec fn loaded_from(&self, d: Seq<u8>) -> bool {
        &&& self.spec_subtables().len() == num_records(d)
        &&& forall|i: int|
            0 <= i < num_records(d) ==> #[trigger] record_matches(d, i, self.spec_subtables()[i])
        &&& match active_index(d, num_records(d)) {
            Some(i) => self.spec_active() == Some(self.spec_subtables()[i]),
            None => self.spec_active() is None,
        }
    }

    /// Reads the encoding records of the `cmap` table `data` and picks the
    /// active subtable. `Invalid` when the header or a record does not fit,
    /// or a record's offset is not inside the table.
    pub fn load(data: &'a [u8]) -> (r: Result<Cmap<'a>>)
        ensures
            r is Ok <==> cmap_ok(data@),
            r is Ok ==> r->Ok_0.loaded_from(data@),
            r is Err ==> r == Err::<Cmap<'a>, Error>(Error::Invalid),
    {
        let len = data.len();
        if len < 4 {
            return Err(Error::Invalid);
        }
        let num_tables = get_u16_unchecked(data, 2) as usize;
        if len < 4 + num_tables * 8 {
            return Err(Error::Invalid);
        }
        let mut subtables: Vec<Subtable<'a>> = Vec::with_capacity(num_tables);
        let mut active: Option<Subtable<'a>> = None;
        let mut locked = false;
        let mut i: usize = 0;
        while i < num_tables
            invariant
                len == data@.len(),
                num_tables == num_records(data@),
                len >= 4 + num_tables * 8,
                i <= num_tables,
                subtables@.len() == i,
                forall|j: int| 0 <= j < i ==> #[trigger] rec_offset(data@, j) < len,
                forall|j: int| 0 <= j < i ==> #[trigger] record_matches(data@, j, subtables@[j]),
                match active_index(data@, i as int) {
                    Some(j) => active == Some(subtables@[j]) && locked == is_ucs4(data@, j),
                    None => active is None && !locked,
                },
            decreases num_tables - i,
        {
            let rec = 4 + i * 8;
            let platform_id = get_u16_unchecked(data, rec);
            let encoding_id = get_u16_unchecked(data, rec + 2);
            let offset = get_u32_unchecked(data, rec + 4) as usize;
            if offset >= len {
                assert(rec_offset(data@, i as int) >= len);
                return Err(Error::Invalid);
            }
            let subtable = Subtable {
                platform_id,
                encoding_id,
                data: vstd::slice::slice_subrange(data, offset, len),
            };
            if platform_id == 3 {
                if encoding_id == 10 && !locked {
                    active = Some(subtable);
                    locked = true;
                } else if active.is_none() && encoding_id == 1 {
                    active = Some(subtable);
                }
            }
            proof {
                lemma_active_index_bound(data@, i as int);
            }
            subtables.push(subtable);
            i = i + 1;
            assert(record_matches(data@, i - 1, subtables@[i - 1]));
        }
        Ok(Cmap { subtables, active })
    }

    /// All subtables, in record order.
    pub fn subtables(&self) -> (r: &[Subtable<'a>])
        ensures
            r@ == self.spec_subtables(),
    {
        self.subtables.as_slice()
    }

    /// Makes `subtable` the one used for lookups.
    pub fn set_active_subtable(&mut self, subtable: &Subtable<'a>)
        ensures
            final(self).spec_active() == Some(*subtable),
            final(self).spec_subtables() == old(self).spec_subtables(),
    {
        self.active = Some(*subtable);
    }

    /// Glyph id of `codepoint` in the active subtable: `GlyphID(0)` where it
    /// maps nothing, `NoCharmap` when no subtable is active, `Invalid` when the
    /// subtable is malformed.
    pub fn get_glyph_id(&self, codepoint: u32) -> (r: Result<GlyphID>)
        ensures
            r == cmap_result(self.spec_active(), codepoint),
    {
        match &self.active {
            None => Err(Error::NoCharmap),
            Some(active) => {
                let d = active.data;
                match active.format() {
                    Err(_) => Err(Error::Invalid),
                    Ok(4) => match fmt4_glyph(d, codepoint) {
                        Ok(g) => Ok(GlyphID(g)),
                        Err(e) => Err(e),
                    },
                    Ok(12) => match fmt12_glyph(d, codepoint) {
                        Ok(g) => Ok(GlyphID(g)),
                        Err(e) => Err(e),
                    },
                    Ok(_) => Ok(GlyphID(0)),
                }
            },
        }
    }
}

/// Format 4 lookup of `codepoint` in the subtable `d`.
fn fmt4_glyph(d: &[u8], codepoint: u32) -> (r: Result<u32>)
    ensures
        r == fmt4_lookup(d@, codepoint),
{
    let segcnt_2 = match get_u16(d, 6) {
        Ok(v) => v as usize,
        Err(e) => return Err(e),
    };
    let len = d.len();
    if len < 16 + segcnt_2 * 4 {
        return Err(Error::Invalid);
    }
    let ghost s = segcnt_2 as int;
    let ghost cp = codepoint as int;
    let mut off: usize = 0;
    while off < segcnt_2
        invariant
            len == d@.len(),
            cp == codepoint,
            s == u16_at(d@, 6),
            segcnt_2 == s,
            len >= 16 + 4 * s,
            off <= s + 1,
            fmt4_scan(d@, cp, s, 0) == fmt4_scan(d@, cp, s, off as int),
        decreases s + 1 - off,
    {
        let end = get_u16_unchecked(d, 14 + off) as u32;
        assert(end as int == seg_end(d@, off as int));
        if codepoint > end {
            assert(fmt4_scan(d@, cp, s, off as int) == fmt4_scan(d@, cp, s, off + 2));
            off = off + 2;
            continue;
        }
        let start = get_u16_unchecked(d, 16 + segcnt_2 + off) as u32;
        assert(start as int == seg_start(d@, s, off as int));
        if codepoint < start {
            return Ok(0);
        }
        let delta = get_u16_unchecked(d, 16 + segcnt_2 * 2 + off) as u32;
        let rpos = 16 + segcnt_2 * 3 + off;
        let range = match get_u16(d, rpos) {
            Ok(v) => v as u32,
            Err(e) => return Err(e),
        };
        if range == 0 {
            return Ok((codepoint + delta) % 0x10000);
        }
        let gpos = (range + (codepoint - start) * 2) as usize + rpos;
        let g = match get_u16(d, gpos) {
            Ok(v) => v as u32,
            Err(e) => return Err(e),
        };
        if g == 0 {
            return Ok(0);
        }
        return Ok((g + delta) % 0x10000);
    }
    Ok(0)
}

/// Format 12 lookup of `codepoint` in the subtable `d`.
fn fmt12_glyph(d: &[u8], codepoint: u32) -> (r: Result<u32>)
    ensures
        r == fmt12_lookup(d@, codepoint),
{
    let num_groups = match get_u32(d, 12) {
        Ok(v) => v as usize,
        Err(e) => return Err(e),
    };
    let len = d.len();
    if (len as u128) < 16 + 12 * (num_groups as u128) {
        return Err(Error::Invalid);
    }
    let ghost n = num_groups as int;
    let ghost cp = codepoint as int;
    let mut k: usize = 0;
    while k < num_groups
        invariant
            len == d@.len(),
            cp == codepoint,
            n == u32_at(d@, 12),
            num_groups == n,
            len >= 16 + 12 * n,
            k <= n,
            fmt12_scan(d@, cp, n, 0) == fmt12_scan(d@, cp, n, k as int),
        decreases n - k,
    {
        let off = 16 + 12 * k;
        let start = get_u32_unchecked(d, off);
        assert(start as int == group_start(d@, k as int));
        if codepoint < start {
            return Ok(0);
        }
        let end = get_u32_unchecked(d, off + 4);
        assert(end as int == group_end(d@, k as int));
        if codepoint > end {
            assert(fmt12_scan(d@, cp, n, k as int) == fmt12_scan(d@, cp, n, k + 1));
            k = k + 1;
            continue;
        }
        let glyph = get_u32_unchecked(d, off + 8);
        return Ok((((codepoint - start) as u64 + glyph as u64) % 0x1_0000_0000) as u32);
    }
    Ok(0)
}

} // verus!
