//! The glyph index to location table.
use vstd::prelude::*;

use crate::error::{Error, Result};
use crate::head::IdxToLocFmt;
use crate::types::{get_u16_unchecked, get_u32_unchecked, u16_at, u32_at, GlyphID};

verus! {

/// View of a `loca` table holding an offset for each of `num_glyphs` glyphs.
pub struct Loca<'a> {
    num_glyphs: usize,
    idx_to_loc_fmt: IdxToLocFmt,
    data: &'a [u8],
}

/// Bytes taken by one entry in format `fmt`.
pub open spec fn entry_width(fmt: IdxToLocFmt) -> int {
    match fmt {
        IdxToLocFmt::Off16 => 2,
        IdxToLocFmt::Off32 => 4,
    }
}

/// The byte offset into `glyf` that entry `id` of `data` gives in format `fmt`.
pub open spec fn loca_entry(data: Seq<u8>, fmt: IdxToLocFmt, id: int) -> int {
    match fmt {
        IdxToLocFmt::Off16 => 2 * u16_at(data, 2 * id),
        IdxToLocFmt::Off32 => u32_at(data, 4 * id),
    }
}

/// The table `data` in format `fmt` holds entry `i`.
pub open spec fn has_entry(data: Seq<u8>, fmt: IdxToLocFmt, i: int) -> bool {
    0 <= i && entry_width(fmt) * (i + 1) <= data.len()
}

/// In a font whose `loca` entry after a non-empty glyph `id` lies within a
/// `glyf` table of `glyf_len` bytes, the glyph's own offset, which
/// `get_offset` returns, lies inside that table.
pub proof fn lemma_nonempty_glyph_offset_inside(loca: &Loca, glyf_len: int, id: GlyphID)
    requires
        has_entry(loca.data(), loca.fmt(), id.0 + 1),
        loca_entry(loca.data(), loca.fmt(), id.0 as int) < loca_entry(loca.data(), loca.fmt(), id.0 + 1),
        loca_entry(loca.data(), loca.fmt(), id.0 + 1) <= glyf_len,
    ensures
        loca_entry(loca.data(), loca.fmt(), id.0 as int) < glyf_len,
{
}

impl<'a> Loca<'a> {
    /// The bytes of the table.
    pub closed spec fn data(&self) -> Seq<u8> {
        self.data@
    }

    /// Number of glyphs of the face.
    pub closed spec fn spec_num_glyphs(&self) -> int {
        self.num_glyphs as int
    }

    /// The offset format.
    pub closed spec fn fmt(&self) -> IdxToLocFmt {
        self.idx_to_loc_fmt
    }

    /// The table holds an entry for every glyph.
    pub open spec fn wf(&self) -> bool {
        self.data().len() >= entry_width(self.fmt()) * self.spec_num_glyphs()
    }

    /// Wraps `data` as the `loca` table of a face with `num_glyphs` glyphs;
    /// `Invalid` when it is too short for one entry per glyph.
    pub fn load(data: &'a [u8], num_glyphs: usize, fmt: IdxToLocFmt) -> (r: Result<Loca<'a>>)
        ensures
            r is Ok <==> data@.len() >= entry_width(fmt) * num_glyphs,
            r is Ok ==> {
                &&& r->Ok_0.data() == data@
                &&& r->Ok_0.spec_num_glyphs() == num_glyphs
                &&& r->Ok_0.fmt() == fmt
                &&& r->Ok_0.wf()
            },
            r is Err ==> r == Err::<Loca<'a>, Error>(Error::Invalid),
    {
        let width: u128 = match fmt {
            IdxToLocFmt::Off16 => 2,
            IdxToLocFmt::Off32 => 4,
        };
        if (data.len() as u128) < width * (num_glyphs as u128) {
            Err(Error::Invalid)
        } else {
            Ok(Loca { num_glyphs, idx_to_loc_fmt: fmt, data })
        }
    }

    /// Byte offset into `glyf` of glyph `id`; `GlyphIDOutOfBounds` when it is
    /// not below the number of glyphs.
    pub fn get_offset(&self, id: GlyphID) -> (r: Result<usize>)
        requires
            self.wf(),
        ensures
            id.0 >= self.spec_num_glyphs() ==> r == Err::<usize, Error>(Error::GlyphIDOutOfBounds),
            id.0 < self.spec_num_glyphs() ==> r is Ok && r->Ok_0 as int == loca_entry(
                self.data(),
                self.fmt(),
                id.0 as int,
            ),
    {
        let i = id.0 as usize;
        if i >= self.num_glyphs {
            return Err(Error::GlyphIDOutOfBounds);
        }
        let _len = self.data.len();
        proof {
            let w = entry_width(self.idx_to_loc_fmt);
            assert(w * (i as int) + w <= w * (self.num_glyphs as int)) by (nonlinear_arith)
                requires
                    w == 2 || w == 4,
                    i < self.num_glyphs,
            ;
        }
        match self.idx_to_loc_fmt {
            IdxToLocFmt::Off16 => Ok((get_u16_unchecked(self.data, i * 2) as usize) * 2),
            IdxToLocFmt::Off32 => Ok(get_u32_unchecked(self.data, i * 4) as usize),
        }
    }

    /// The `glyf` offset of entry `id + 1`, where glyph `id` ends, when the
    /// table holds it. A table of `num_glyphs + 1` entries holds it for every
    /// glyph.
    pub fn get_end_offset(&self, id: GlyphID) -> (r: Option<usize>)
        ensures
            has_entry(self.data(), self.fmt(), id.0 + 1) ==> r is Some && r->Some_0 as int == loca_entry(
                self.data(),
                self.fmt(),
                id.0 + 1,
            ),
            !has_entry(self.data(), self.fmt(), id.0 + 1) ==> r is None,
    {
        let len = self.data.len();
        let idu = id.0 as usize;
        if idu >= len {
            return None;
        }
        let i = idu + 1;
        match self.idx_to_loc_fmt {
            IdxToLocFmt::Off16 => {
                if i >= len / 2 {
                    return None;
                }
                Some((get_u16_unchecked(self.data, i * 2) as usize) * 2)
            },
            IdxToLocFmt::Off32 => {
                if i >= len / 4 {
                    return None;
                }
                Some(get_u32_unchecked(self.data, i * 4) as usize)
            },
        }
    }
}

} // verus!
