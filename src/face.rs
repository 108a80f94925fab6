//! A face of a font file: its table directory and the views of its tables.
use vstd::prelude::*;

use crate::cmap::{cmap_ok, cmap_result, Cmap};
use crate::directory::{find_table, insert_table, lemma_map_of_entries, map_of, pairs_of, tags_unique, TableRecord};
use crate::error::{Error, Result};
use crate::glyf::{glyph_at, Glyf, SimpleGlyph, TTGlyph};
use crate::head::{loc_fmt_of, Head, IdxToLocFmt};
use crate::hhea::Hhea;
use crate::hmtx::Hmtx;
use crate::loca::{entry_width, has_entry, loca_entry, Loca};
use crate::maxp::Maxp;
use crate::types::{fits, get_tag, get_u16, get_u32_unchecked, i16_at, u16_at, u32_at, GlyphID, Tag};

verus! {

/// Tag of the font header table.
pub const TAG_HEAD: u32 = 0x68656164;

/// Tag of the horizontal header table.
pub const TAG_HHEA: u32 = 0x68686561;

/// Tag of the maximum profile table.
pub const TAG_MAXP: u32 = 0x6D617870;

/// Tag of the horizontal metrics table.
pub const TAG_HMTX: u32 = 0x686D7478;

/// Tag of the character map table.
pub const TAG_CMAP: u32 = 0x636D6170;

/// Tag of the glyph location table.
pub const TAG_LOCA: u32 = 0x6C6F6361;

/// Tag of the glyph data table.
pub const TAG_GLYF: u32 = 0x676C7966;

/// sfnt version of a face with TrueType outlines.
pub const SFNT_TRUETYPE: u32 = 0x00010000;

/// sfnt version of a face with CFF outlines ("OTTO").
pub const SFNT_CFF: u32 = 0x4F54544F;

/// Position of table record `i` of the face whose offset table is at `off`.
pub open spec fn rec_pos(off: int, i: int) -> int {
    off + 12 + 16 * i
}

/// The (tag, bytes) pair that table record `i` describes.
pub open spec fn dir_pair(d: Seq<u8>, off: int, i: int) -> (u32, Seq<u8>) {
    let p = rec_pos(off, i);
    (u32_at(d, p) as u32, d.subrange(u32_at(d, p + 8), u32_at(d, p + 8) + u32_at(d, p + 12)))
}

/// Table record `i` fits in the file and its table lies inside the file.
pub open spec fn dir_entry_ok(d: Seq<u8>, off: int, i: int) -> bool {
    let p = rec_pos(off, i);
    fits(d, p, 16) && u32_at(d, p + 8) + u32_at(d, p + 12) <= d.len()
}

/// The pairs of the first `k` table records.
pub open spec fn dir_pairs(d: Seq<u8>, off: int, k: int) -> Seq<(u32, Seq<u8>)> {
    Seq::new(k as nat, |i: int| dir_pair(d, off, i))
}

/// Number of tables of the face at `off`.
pub open spec fn table_count(d: Seq<u8>, off: int) -> int {
    u16_at(d, off + 4)
}

/// The offset table header and every table record of the face at `off` are sound.
pub open spec fn dir_ok(d: Seq<u8>, off: int) -> bool {
    &&& fits(d, off, 6)
    &&& forall|i: int| 0 <= i < table_count(d, off) ==> #[trigger] dir_entry_ok(d, off, i)
}

/// The tables of the face at `off`: each record's tag mapped to its bytes,
/// a later record replacing an earlier one of the same tag.
pub open spec fn dir_map(d: Seq<u8>, off: int) -> Map<u32, Seq<u8>> {
    map_of(dir_pairs(d, off, table_count(d, off)))
}

/// The `hmtx` table `h` is long enough for `nhm` long records and `ng` glyphs.
pub open spec fn hmtx_ok(h: Seq<u8>, ng: int, nhm: int) -> bool {
    nhm >= 1 && h.len() >= 2 * nhm + 2 * ng
}

/// Number of glyphs that the `maxp` table of `m` gives.
pub open spec fn map_num_glyphs(m: Map<u32, Seq<u8>>) -> int {
    u16_at(m[TAG_MAXP], 4)
}

/// The `loca` format that the `head` table of `m` gives.
pub open spec fn map_loc_fmt(m: Map<u32, Seq<u8>>) -> Result<IdxToLocFmt> {
    loc_fmt_of(i16_at(m[TAG_HEAD], 50))
}

/// The required tables of `m` are present and sound.
pub open spec fn tables_ok(m: Map<u32, Seq<u8>>) -> bool {
    &&& m.contains_key(TAG_HEAD) && m[TAG_HEAD].len() >= 54
    &&& m.contains_key(TAG_HHEA) && m[TAG_HHEA].len() >= 36
    &&& m.contains_key(TAG_MAXP) && m[TAG_MAXP].len() >= 6
    &&& m.contains_key(TAG_HMTX) && hmtx_ok(
        m[TAG_HMTX],
        map_num_glyphs(m),
        u16_at(m[TAG_HHEA], 34),
    )
    &&& m.contains_key(TAG_CMAP) && cmap_ok(m[TAG_CMAP])
    &&& map_loc_fmt(m) is Ok
}

/// The outline tables that the sfnt version `v` asks for are present and sound.
pub open spec fn outlines_ok(v: int, m: Map<u32, Seq<u8>>) -> bool {
    ||| v == SFNT_CFF
    ||| {
        &&& v == SFNT_TRUETYPE
        &&& m.contains_key(TAG_LOCA)
        &&& m[TAG_LOCA].len() >= entry_width(map_loc_fmt(m)->Ok_0) * map_num_glyphs(m)
        &&& m.contains_key(TAG_GLYF)
    }
}

/// The face whose offset table is at `off` in the file `d` loads.
pub open spec fn face_ok(d: Seq<u8>, off: int) -> bool {
    &&& dir_ok(d, off)
    &&& tables_ok(dir_map(d, off))
    &&& outlines_ok(u32_at(d, off), dir_map(d, off))
}

/// The outline data of a face.
pub enum FaceTyp<'a> {
    /// TrueType outlines, located through `loca` in `glyf`.
    TrueType(Loca<'a>, Glyf<'a>),
    /// CFF outlines, which this library does not decode.
    CFF,
}

/// A face within a font file, with views of its required tables.
pub struct Face<'a> {
    tables: Vec<TableRecord<'a>>,
    head: Head<'a>,
    hhea: Hhea<'a>,
    maxp: Maxp<'a>,
    hmtx: Hmtx<'a>,
    cmap: Cmap<'a>,
    typ: FaceTyp<'a>,
}

impl<'a> Face<'a> {
    /// The face's tables by tag.
    pub closed spec fn spec_tables(&self) -> Map<u32, Seq<u8>> {
        map_of(pairs_of(self.tables@))
    }

    /// The `head` view.
    pub closed spec fn spec_head(&self) -> Head<'a> {
        self.head
    }

    /// The `hhea` view.
    pub closed spec fn spec_hhea(&self) -> Hhea<'a> {
        self.hhea
    }

    /// The `maxp` view.
    pub closed spec fn spec_maxp(&self) -> Maxp<'a> {
        self.maxp
    }

    /// The `hmtx` view.
    pub closed spec fn spec_hmtx(&self) -> &Hmtx<'a> {
        &self.hmtx
    }

    /// The `cmap` view.
    pub closed spec fn spec_cmap(&self) -> &Cmap<'a> {
        &self.cmap
    }

    /// The outline data.
    pub closed spec fn spec_typ(&self) -> &FaceTyp<'a> {
        &self.typ
    }

    /// The directory's tags are unique and every view is sound.
    pub closed spec fn wf(&self) -> bool {
        &&& tags_unique(pairs_of(self.tables@))
        &&& self.head.wf()
        &&& self.hhea.wf()
        &&& self.maxp.wf()
        &&& self.hmtx.wf()
        &&& match self.typ {
            FaceTyp::TrueType(loca, _) => loca.wf(),
            FaceTyp::CFF => true,
        }
    }

    /// The face is the one that the file `d` holds at `off`: its tables are the
    /// directory's and each view reads the table of its tag.
    pub open spec fn loaded_from(&self, d: Seq<u8>, off: int) -> bool {
        let m = dir_map(d, off);
        &&& self.wf()
        &&& self.spec_tables() == m
        &&& self.spec_head().data() == m[TAG_HEAD]
        &&& self.spec_hhea().data() == m[TAG_HHEA]
        &&& self.spec_maxp().data() == m[TAG_MAXP]
        &&& self.spec_hmtx().data() == m[TAG_HMTX]
        &&& self.spec_hmtx().spec_num_glyphs() == map_num_glyphs(m)
        &&& self.spec_hmtx().spec_num_of_h_metrics() == u16_at(m[TAG_HHEA], 34)
        &&& self.spec_cmap().loaded_from(m[TAG_CMAP])
        &&& match self.spec_typ() {
            FaceTyp::TrueType(loca, glyf) => {
                &&& u32_at(d, off) == SFNT_TRUETYPE
                &&& loca.data() == m[TAG_LOCA]
                &&& loca.spec_num_glyphs() == map_num_glyphs(m)
                &&& Ok::<IdxToLocFmt, Error>(loca.fmt()) == map_loc_fmt(m)
                &&& glyf.0@ == m[TAG_GLYF]
            },
            FaceTyp::CFF => u32_at(d, off) == SFNT_CFF,
        }
    }

    /// Loads the face whose offset table is at `offset` in `data`. `Invalid`
    /// when the directory, a required table or the outline tables are unsound.
    pub fn load(data: &'a [u8], offset: usize) -> (r: Result<Face<'a>>)
        ensures
            r is Ok <==> face_ok(data@, offset as int),
            r is Ok ==> r->Ok_0.loaded_from(data@, offset as int),
            r is Err ==> r == Err::<Face<'a>, Error>(Error::Invalid),
    {
        let len = data.len();
        let ghost d = data@;
        let ghost off = offset as int;
        let sfnt_version = match get_tag(data, offset) {
            Ok(t) => t,
            Err(e) => return Err(e),
        };
        let num_tables = match get_u16(data, offset + 4) {
            Ok(n) => n as usize,
            Err(e) => return Err(e),
        };
        let mut tables: Vec<TableRecord<'a>> = Vec::new();
        let mut i: usize = 0;
        while i < num_tables
            invariant
                len == d.len(),
                data@ == d,
                off == offset,
                fits(d, off, 6),
                num_tables == table_count(d, off),
                i <= num_tables,
                tags_unique(pairs_of(tables@)),
                map_of(pairs_of(tables@)) == map_of(dir_pairs(d, off, i as int)),
                forall|j: int| 0 <= j < i ==> #[trigger] dir_entry_ok(d, off, j),
            decreases num_tables - i,
        {
            let rec: u128 = offset as u128 + 12 + 16 * (i as u128);
            if rec + 16 > len as u128 {
                assert(!dir_entry_ok(d, off, i as int));
                return Err(Error::Invalid);
            }
            let rec = rec as usize;
            let tag = Tag(get_u32_unchecked(data, rec));
            let table_off = get_u32_unchecked(data, rec + 8) as usize;
            let table_len = get_u32_unchecked(data, rec + 12) as usize;
            if table_off as u128 + table_len as u128 > len as u128 {
                assert(!dir_entry_ok(d, off, i as int));
                return Err(Error::Invalid);
            }
            let table_data = vstd::slice::slice_subrange(data, table_off, table_off + table_len);
            insert_table(&mut tables, TableRecord { tag, data: table_data });
            i = i + 1;
            proof {
                assert(dir_pairs(d, off, i as int).drop_last() =~= dir_pairs(d, off, i - 1));
                assert(dir_pairs(d, off, i as int).last() == dir_pair(d, off, i - 1));
            }
        }
        let ghost m = dir_map(d, off);
        assert(map_of(pairs_of(tables@)) == m);
        let head = match find_table(&tables, TAG_HEAD) {
            Some(k) => match Head::load(tables[k].data) {
                Ok(h) => h,
                Err(e) => return Err(e),
            },
            None => return Err(Error::Invalid),
        };
        let hhea = match find_table(&tables, TAG_HHEA) {
            Some(k) => match Hhea::load(tables[k].data) {
                Ok(h) => h,
                Err(e) => return Err(e),
            },
            None => return Err(Error::Invalid),
        };
        let maxp = match find_table(&tables, TAG_MAXP) {
            Some(k) => match Maxp::load(tables[k].data) {
                Ok(h) => h,
                Err(e) => return Err(e),
            },
            None => return Err(Error::Invalid),
        };
        let num_glyphs = maxp.num_glyphs() as usize;
        let hmtx = match find_table(&tables, TAG_HMTX) {
            Some(k) => match Hmtx::load(
                tables[k].data,
                num_glyphs,
                hhea.num_of_h_metrics() as usize,
            ) {
                Ok(h) => h,
                Err(e) => return Err(e),
            },
            None => return Err(Error::Invalid),
        };
        let cmap = match find_table(&tables, TAG_CMAP) {
            Some(k) => match Cmap::load(tables[k].data) {
                Ok(h) => h,
                Err(e) => return Err(e),
            },
            None => return Err(Error::Invalid),
        };
        let idx_to_loc_fmt = match head.idx_to_loc_fmt() {
            Ok(f) => f,
            Err(e) => return Err(e),
        };
        let typ = if sfnt_version.0 == SFNT_TRUETYPE {
            let loca = match find_table(&tables, TAG_LOCA) {
                Some(k) => match Loca::load(tables[k].data, num_glyphs, idx_to_loc_fmt) {
                    Ok(l) => l,
                    Err(e) => return Err(e),
                },
                None => return Err(Error::Invalid),
            };
            let glyf = match find_table(&tables, TAG_GLYF) {
                Some(k) => Glyf(tables[k].data),
                None => return Err(Error::Invalid),
            };
            FaceTyp::TrueType(loca, glyf)
        } else if sfnt_version.0 == SFNT_CFF {
            FaceTyp::CFF
        } else {
            return Err(Error::Invalid);
        };
        Ok(Face { tables, head, hhea, maxp, hmtx, cmap, typ })
    }

    /// Glyph id for `codepoint` through the active character map.
    pub fn get_glyph_id(&self, codepoint: u32) -> (r: Result<GlyphID>)
        ensures
            r == cmap_result(self.spec_cmap().spec_active(), codepoint),
    {
        self.cmap.get_glyph_id(codepoint)
    }

    /// The outline of glyph `id`. `Unimplemented("CFF support")` for CFF
    /// outlines, `GlyphIDOutOfBounds` for an id not below the number of
    /// glyphs; an empty simple glyph where `loca` gives the glyph no bytes
    /// (its entry equals the next); `Invalid` when the glyph header does not
    /// fit in `glyf`.
    pub fn get_glyph(&self, id: GlyphID) -> (r: Result<TTGlyph<'a>>)
        requires
            self.wf(),
        ensures
            glyph_result(self.spec_typ(), id, r),
    {
        match &self.typ {
            FaceTyp::TrueType(loca, glyf) => match loca.get_offset(id) {
                Ok(off) => {
                    if let Some(end) = loca.get_end_offset(id) {
                        if end == off {
                            return Ok(
                                TTGlyph::Simple(
                                    SimpleGlyph {
                                        num_contours: 0,
                                        xmin: 0,
                                        ymin: 0,
                                        xmax: 0,
                                        ymax: 0,
                                        data: vstd::slice::slice_subrange(glyf.0, 0, 0),
                                    },
                                ),
                            );
                        }
                    }
                    glyf.glyph(off)
                },
                Err(e) => Err(e),
            },
            FaceTyp::CFF => {
                let m = "CFF support".to_string();
                proof {
                    vstd::string::to_string_from_display_ensures_for_str("CFF support", m);
                }
                Err(Error::Unimplemented(m))
            },
        }
    }

    /// The `head` view.
    pub fn head(&self) -> (r: Head<'a>)
        ensures
            r == self.spec_head(),
            self.wf() ==> r.wf(),
    {
        self.head
    }

    /// The `hhea` view.
    pub fn hhea(&self) -> (r: Hhea<'a>)
        ensures
            r == self.spec_hhea(),
            self.wf() ==> r.wf(),
    {
        self.hhea
    }

    /// The `maxp` view.
    pub fn maxp(&self) -> (r: Maxp<'a>)
        ensures
            r == self.spec_maxp(),
            self.wf() ==> r.wf(),
    {
        self.maxp
    }

    /// The `hmtx` view.
    pub fn hmtx(&self) -> (r: &Hmtx<'a>)
        ensures
            r == self.spec_hmtx(),
            self.wf() ==> r.wf(),
    {
        &self.hmtx
    }

    /// The `cmap` view.
    pub fn cmap(&self) -> (r: &Cmap<'a>)
        ensures
            r == self.spec_cmap(),
    {
        &self.cmap
    }

    /// Whether the face has TrueType outlines (else CFF).
    pub fn is_truetype(&self) -> (r: bool)
        ensures
            r == (self.spec_typ() is TrueType),
    {
        match &self.typ {
            FaceTyp::TrueType(_, _) => true,
            FaceTyp::CFF => false,
        }
    }

    /// The tags of the face's tables, each once.
    pub fn table_tags(&self) -> (r: Vec<Tag>)
        requires
            self.wf(),
        ensures
            forall|t: Tag| r@.contains(t) <==> self.spec_tables().contains_key(t.0),
            forall|i: int, j: int| 0 <= i < j < r@.len() ==> r@[i] != r@[j],
    {
        let mut r: Vec<Tag> = Vec::new();
        let mut i: usize = 0;
        while i < self.tables.len()
            invariant
                i <= self.tables@.len(),
                r@.len() == i,
                forall|j: int| 0 <= j < i ==> #[trigger] r@[j] == self.tables@[j].tag,
            decreases self.tables@.len() - i,
        {
            r.push(self.tables[i].tag);
            i = i + 1;
        }
        proof {
            let s = pairs_of(self.tables@);
            lemma_map_of_entries(s);
            assert forall|t: Tag| r@.contains(t) <==> self.spec_tables().contains_key(t.0) by {
                if r@.contains(t) {
                    let j = choose|j: int| 0 <= j < r@.len() && r@[j] == t;
                    assert(s[j].0 == t.0);
                }
                if self.spec_tables().contains_key(t.0) {
                    let j = choose|j: int| 0 <= j < s.len() && #[trigger] s[j].0 == t.0;
                    assert(r@[j] == t);
                }
            }
            assert forall|i: int, j: int| 0 <= i < j < r@.len() implies r@[i] != r@[j] by {
                assert(s[i].0 != s[j].0);
            }
        }
        r
    }

    /// The bytes of the table tagged `tag`, if the face has one.
    pub fn table(&self, tag: Tag) -> (r: Option<&'a [u8]>)
        requires
            self.wf(),
        ensures
            r is None <==> !self.spec_tables().contains_key(tag.0),
            r matches Some(b) ==> b@ == self.spec_tables()[tag.0],
    {
        match find_table(&self.tables, tag.0) {
            Some(k) => Some(self.tables[k].data),
            None => None,
        }
    }
}

/// Glyph `id` is empty: the `loca` table holds the entry after it, and that
/// entry equals the glyph's own.
pub open spec fn glyph_is_empty(loca: &Loca, id: GlyphID) -> bool {
    &&& has_entry(loca.data(), loca.fmt(), id.0 + 1)
    &&& loca_entry(loca.data(), loca.fmt(), id.0 + 1) == loca_entry(loca.data(), loca.fmt(), id.0 as int)
}

/// `g` is an empty simple glyph: no contours, a zero bounding box, no bytes.
pub open spec fn empty_glyph(g: TTGlyph) -> bool {
    g matches TTGlyph::Simple(s) && s.num_contours == 0 && s.xmin == 0 && s.ymin == 0 && s.xmax == 0 && s.ymax
        == 0 && s.data@.len() == 0
}

/// When a non-empty glyph `id` of a TrueType face decodes, its `loca` offset
/// lies inside the `glyf` table, with room for the glyph header.
pub proof fn lemma_decoded_glyph_inside_glyf<'a>(typ: &FaceTyp<'a>, id: GlyphID, r: Result<TTGlyph<'a>>)
    requires
        glyph_result(typ, id, r),
        r is Ok,
    ensures
        typ matches FaceTyp::TrueType(loca, glyf) ==> id.0 < loca.spec_num_glyphs() && (!glyph_is_empty(
            loca,
            id,
        ) ==> loca_entry(loca.data(), loca.fmt(), id.0 as int) < glyf.0@.len()),
{
}

/// `r` is what `get_glyph` owes for glyph `id` of a face with outline data `typ`.
pub open spec fn glyph_result<'a>(typ: &FaceTyp<'a>, id: GlyphID, r: Result<TTGlyph<'a>>) -> bool {
    match typ {
        FaceTyp::CFF => r matches Err(Error::Unimplemented(m)) && m@ == "CFF support"@,
        FaceTyp::TrueType(loca, glyf) => {
            let off = loca_entry(loca.data(), loca.fmt(), id.0 as int);
            if id.0 >= loca.spec_num_glyphs() {
                r == Err::<TTGlyph<'a>, Error>(Error::GlyphIDOutOfBounds)
            } else if glyph_is_empty(loca, id) {
                r is Ok && empty_glyph(r->Ok_0)
            } else if off + 10 > glyf.0@.len() {
                r == Err::<TTGlyph<'a>, Error>(Error::Invalid)
            } else {
                r is Ok && glyph_at(glyf.0@, off, r->Ok_0)
            }
        },
    }
}

} // verus!
