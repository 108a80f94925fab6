//! The horizontal header table.
use vstd::prelude::*;

use crate::error::{Error, Result};
use crate::types::{get_i16_unchecked, get_u16_unchecked, i16_at, u16_at};

verus! {

/// View of an `hhea` table of at least 36 bytes.
#[derive(Clone, Copy)]
pub struct Hhea<'a>(&'a [u8]);

impl<'a> Hhea<'a> {
    /// The bytes of the table.
    pub closed spec fn data(&self) -> Seq<u8> {
        self.0@
    }

    /// The table is long enough for every field read.
    pub open spec fn wf(&self) -> bool {
        self.data().len() >= 36
    }

    /// Wraps `data` as an `hhea` table; `Invalid` when it is shorter than 36 bytes.
    pub fn load(data: &'a [u8]) -> (r: Result<Hhea<'a>>)
        ensures
            data@.len() >= 36 <==> r is Ok,
            r is Ok ==> r->Ok_0.data() == data@ && r->Ok_0.wf(),
            r is Err ==> r == Err::<Hhea<'a>, Error>(Error::Invalid),
    {
        if data.len() < 36 {
            Err(Error::Invalid)
        } else {
            Ok(Hhea(data))
        }
    }

    /// Typographic ascent.
    pub fn ascender(&self) -> (r: i16)
        requires
            self.wf(),
        ensures
            r as int == i16_at(self.data(), 4),
    {
        get_i16_unchecked(self.0, 4)
    }

    /// Typographic descent.
    pub fn descender(&self) -> (r: i16)
        requires
            self.wf(),
        ensures
            r as int == i16_at(self.data(), 6),
    {
        get_i16_unchecked(self.0, 6)
    }

    /// Number of long records in `hmtx`.
    pub fn num_of_h_metrics(&self) -> (r: u16)
        requires
            self.wf(),
        ensures
            r as int == u16_at(self.data(), 34),
    {
        get_u16_unchecked(self.0, 34)
    }
}

} // verus!
