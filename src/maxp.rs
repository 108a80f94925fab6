//! The maximum profile table.
use vstd::prelude::*;

use crate::error::{Error, Result};
use crate::types::{get_u16_unchecked, u16_at};

verus! {

/// View of a `maxp` table of at least 6 bytes.
#[derive(Clone, Copy)]
pub struct Maxp<'a>(&'a [u8]);

impl<'a> Maxp<'a> {
    /// The bytes of the table.
    pub closed spec fn data(&self) -> Seq<u8> {
        self.0@
    }

    /// The table is long enough for every field read.
    pub open spec fn wf(&self) -> bool {
        self.data().len() >= 6
    }

    /// Wraps `data` as a `maxp` table; `Invalid` when it is shorter than 6 bytes.
    pub fn load(data: &'a [u8]) -> (r: Result<Maxp<'a>>)
        ensures
            data@.len() >= 6 <==> r is Ok,
            r is Ok ==> r->Ok_0.data() == data@ && r->Ok_0.wf(),
            r is Err ==> r == Err::<Maxp<'a>, Error>(Error::Invalid),
    {
        if data.len() < 6 {
            Err(Error::Invalid)
        } else {
            Ok(Maxp(data))
        }
    }

    /// Number of glyphs of the face.
    pub fn num_glyphs(&self) -> (r: u16)
        requires
            self.wf(),
        ensures
            r as int == u16_at(self.data(), 4),
    {
        get_u16_unchecked(self.0, 4)
    }
}

} // verus!
