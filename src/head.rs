//! The font header table.
use vstd::prelude::*;

use crate::error::{Error, Result};
use crate::types::{get_i16_unchecked, get_u16_unchecked, i16_at, u16_at};

verus! {

/// How the `loca` table stores glyph offsets.
#[derive(Clone, Copy, Debug, PartialEq, Eq, Structural)]
pub enum IdxToLocFmt {
    /// Half-offsets stored as `u16`.
    Off16,
    /// Byte offsets stored as `u32`.
    Off32,
}

/// View of a `head` table of at least 54 bytes.
#[derive(Clone, Copy)]
pub struct Head<'a>(&'a [u8]);

impl<'a> Head<'a> {
    /// The bytes of the table.
    pub closed spec fn data(&self) -> Seq<u8> {
        self.0@
    }

    /// The table is long enough for every field read.
    pub open spec fn wf(&self) -> bool {
        self.data().len() >= 54
    }

    /// Wraps `data` as a `head` table; `Invalid` when it is shorter than 54 bytes.
    pub fn load(data: &'a [u8]) -> (r: Result<Head<'a>>)
        ensures
            data@.len() >= 54 <==> r is Ok,
            r is Ok ==> r->Ok_0.data() == data@ && r->Ok_0.wf(),
            r is Err ==> r == Err::<Head<'a>, Error>(Error::Invalid),
    {
        if data.len() < 54 {
            Err(Error::Invalid)
        } else {
            Ok(Head(data))
        }
    }

    /// Font units per em.
    pub fn units_per_em(&self) -> (r: u16)
        requires
            self.wf(),
        ensures
            r as int == u16_at(self.data(), 18),
    {
        get_u16_unchecked(self.0, 18)
    }

    /// Smallest x of all glyph bounding boxes.
    pub fn xmin(&self) -> (r: i16)
        requires
            self.wf(),
        ensures
            r as int == i16_at(self.data(), 36),
    {
        get_i16_unchecked(self.0, 36)
    }

    /// Smallest y of all glyph bounding boxes.
    pub fn ymin(&self) -> (r: i16)
        requires
            self.wf(),
        ensures
            r as int == i16_at(self.data(), 38),
    {
        get_i16_unchecked(self.0, 38)
    }

    /// Largest x of all glyph bounding boxes.
    pub fn xmax(&self) -> (r: i16)
        requires
            self.wf(),
        ensures
            r as int == i16_at(self.data(), 40),
    {
        get_i16_unchecked(self.0, 40)
    }

    /// Largest y of all glyph bounding boxes.
    pub fn ymax(&self) -> (r: i16)
        requires
            self.wf(),
        ensures
            r as int == i16_at(self.data(), 42),
    {
        get_i16_unchecked(self.0, 42)
    }

    /// Smallest readable size in pixels per em.
    pub fn lowest_rec_ppem(&self) -> (r: u16)
        requires
            self.wf(),
        ensures
            r as int == u16_at(self.data(), 46),
    {
        get_u16_unchecked(self.0, 46)
    }

    /// The `loca` offset format; `Invalid` for a value other than 0 or 1.
    pub fn idx_to_loc_fmt(&self) -> (r: Result<IdxToLocFmt>)
        requires
            self.wf(),
        ensures
            r == loc_fmt_of(i16_at(self.data(), 50)),
    {
        let v = get_i16_unchecked(self.0, 50);
        if v == 0 {
            Ok(IdxToLocFmt::Off16)
        } else if v == 1 {
            Ok(IdxToLocFmt::Off32)
        } else {
            Err(Error::Invalid)
        }
    }
}

/// The offset format that the `indexToLocFormat` value `v` selects.
pub open spec fn loc_fmt_of(v: int) -> Result<IdxToLocFmt> {
    if v == 0 {
        Ok(IdxToLocFmt::Off16)
    } else if v == 1 {
        Ok(IdxToLocFmt::Off32)
    } else {
        Err(Error::Invalid)
    }
}

} // verus!
