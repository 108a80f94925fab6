//! The horizontal metrics table.
use vstd::prelude::*;

use crate::error::{Error, Result};
use crate::types::{get_i16_unchecked, get_u16_unchecked, i16_at, u16_at, GlyphID};

verus! {

/// View of an `hmtx` table: `num_of_h_metrics` long records of four bytes
/// (advance, bearing) followed by the bearings of the remaining glyphs.
pub struct Hmtx<'a> {
    num_glyphs: usize,
    num_of_h_metrics: usize,
    data: &'a [u8],
}

/// The advance width and left side bearing that the table gives glyph `id`.
pub open spec fn metrics_of(data: Seq<u8>, nhm: int, id: int) -> (int, int) {
    if id < nhm {
        (u16_at(data, 4 * id), i16_at(data, 4 * id + 2))
    } else {
        (u16_at(data, 4 * (nhm - 1)), i16_at(data, 4 * nhm + 2 * (id - nhm)))
    }
}

impl<'a> Hmtx<'a> {
    /// The bytes of the table.
    pub closed spec fn data(&self) -> Seq<u8> {
        self.data@
    }

    /// Number of glyphs of the face.
    pub closed spec fn spec_num_glyphs(&self) -> int {
        self.num_glyphs as int
    }

    /// Number of long records.
    pub closed spec fn spec_num_of_h_metrics(&self) -> int {
        self.num_of_h_metrics as int
    }

    /// The table holds every record that a glyph below `num_glyphs` needs.
    pub open spec fn wf(&self) -> bool {
        &&& self.spec_num_of_h_metrics() >= 1
        &&& self.data().len() >= 2 * self.spec_num_of_h_metrics() + 2 * self.spec_num_glyphs()
    }

    /// Wraps `data` as the `hmtx` table of a face with `num_glyphs` glyphs and
    /// `num_of_h_metrics` long records. `Invalid` when there are no long records
    /// or the table is too short for them and the other glyphs' bearings.
    pub fn load(data: &'a [u8], num_glyphs: usize, num_of_h_metrics: usize) -> (r: Result<
        Hmtx<'a>,
    >)
        ensures
            r is Ok <==> (num_of_h_metrics >= 1 && data@.len() >= 2 * num_of_h_metrics + 2
                * num_glyphs),
            r is Ok ==> {
                &&& r->Ok_0.data() == data@
                &&& r->Ok_0.spec_num_glyphs() == num_glyphs
                &&& r->Ok_0.spec_num_of_h_metrics() == num_of_h_metrics
                &&& r->Ok_0.wf()
            },
            r is Err ==> r == Err::<Hmtx<'a>, Error>(Error::Invalid),
    {
        let need: u128 = (num_of_h_metrics as u128) * 2 + (num_glyphs as u128) * 2;
        if (data.len() as u128) < need || num_of_h_metrics == 0 {
            Err(Error::Invalid)
        } else {
            Ok(Hmtx { num_glyphs, num_of_h_metrics, data })
        }
    }

    /// Advance width and left side bearing of `glyph_id`; `GlyphIDOutOfBounds`
    /// when it is not below the number of glyphs.
    pub fn get_metrics(&self, glyph_id: GlyphID) -> (r: Result<(u16, i16)>)
        requires
            self.wf(),
        ensures
            glyph_id.0 >= self.spec_num_glyphs() ==> r == Err::<(u16, i16), Error>(
                Error::GlyphIDOutOfBounds,
            ),
            glyph_id.0 < self.spec_num_glyphs() ==> r is Ok && (r->Ok_0.0 as int, r->Ok_0.1 as int)
                == metrics_of(self.data(), self.spec_num_of_h_metrics(), glyph_id.0 as int),
    {
        let id = glyph_id.0 as usize;
        let _len = self.data.len();
        if id >= self.num_glyphs {
            Err(Error::GlyphIDOutOfBounds)
        } else if id < self.num_of_h_metrics {
            Ok((get_u16_unchecked(self.data, id * 4), get_i16_unchecked(self.data, id * 4 + 2)))
        } else {
            let nhm = self.num_of_h_metrics;
            Ok(
                (
                    get_u16_unchecked(self.data, (nhm - 1) * 4),
                    get_i16_unchecked(self.data, nhm * 4 + (id - nhm) * 2),
                ),
            )
        }
    }
}

} // verus!
