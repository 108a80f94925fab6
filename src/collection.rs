//! A font file: one face, or a collection of faces.
use vstd::prelude::*;

use crate::error::{Error, Result};
use crate::face::{face_ok, Face};
use crate::types::{fits, get_tag, get_u32, get_u32_unchecked, u32_at};

verus! {

/// First four bytes of a font collection file ("ttcf").
pub const TAG_TTCF: u32 = 0x74746366;

/// Version 1.0 of the collection header.
pub const TTC_VERSION_1: u32 = 0x00010000;

/// Version 2.0 of the collection header; its offsets table is laid out as in 1.0.
pub const TTC_VERSION_2: u32 = 0x00020000;

/// Number of faces that the collection header of `d` declares.
pub open spec fn ttc_num_fonts(d: Seq<u8>) -> int {
    u32_at(d, 8)
}

/// Offset of face `i` in the collection header of `d`.
pub open spec fn ttc_offset(d: Seq<u8>, i: int) -> int {
    u32_at(d, 12 + 4 * i)
}

/// The offsets of the faces of the file `d`: those of the collection header
/// for a collection, else the single offset 0. `Invalid` when the header
/// does not fit or an offset leaves no room for a 12-byte offset table.
pub open spec fn face_offsets_of(d: Seq<u8>) -> Result<Seq<int>> {
    if !fits(d, 0, 4) {
        Err(Error::Invalid)
    } else if u32_at(d, 0) != TAG_TTCF {
        if d.len() < 12 {
            Err(Error::Invalid)
        } else {
            Ok(seq![0int])
        }
    } else if !fits(d, 8, 4) || !fits(d, 12, 4 * ttc_num_fonts(d)) {
        Err(Error::Invalid)
    } else if u32_at(d, 4) != TTC_VERSION_1 && u32_at(d, 4) != TTC_VERSION_2 {
        Err(Error::Invalid)
    } else if exists|i: int| 0 <= i < ttc_num_fonts(d) && #[trigger] ttc_offset(d, i) + 12 > d.len() {
        Err(Error::Invalid)
    } else {
        Ok(Seq::new(ttc_num_fonts(d) as nat, |i: int| u32_at(d, 12 + 4 * i)))
    }
}

/// The file `d` has at least one face, and every face that it lists loads.
pub open spec fn file_valid(d: Seq<u8>) -> bool {
    &&& face_offsets_of(d) is Ok
    &&& face_offsets_of(d)->Ok_0.len() >= 1
    &&& forall|i: int| 0 <= i < face_offsets_of(d)->Ok_0.len() ==> face_ok(d, #[trigger] face_offsets_of(d)->Ok_0[i])
}

/// A file that is not a collection lists exactly one face, at offset 0; it
/// is valid when that face loads.
pub proof fn lemma_single_face_file(d: Seq<u8>)
    requires
        fits(d, 0, 12),
        u32_at(d, 0) != TAG_TTCF,
    ensures
        face_offsets_of(d) == Ok::<Seq<int>, Error>(seq![0int]),
        face_ok(d, 0) ==> file_valid(d),
{
}

/// A collection read from a valid file has at least one face, and every face
/// index below the number of faces names a face that loads (so `get_face`
/// succeeds exactly on those indices).
pub proof fn lemma_valid_file_faces(c: &FontCollection, d: Seq<u8>)
    requires
        c.read_from(d),
        file_valid(d),
    ensures
        c.spec_offsets().len() >= 1,
        forall|i: int| 0 <= i < c.spec_offsets().len() ==> face_ok(c.spec_data(), #[trigger] c.spec_offsets()[i]),
{
    assert forall|i: int| 0 <= i < c.spec_offsets().len() implies face_ok(c.spec_data(), #[trigger] c.spec_offsets()[i]) by {
        assert(face_ok(d, face_offsets_of(d)->Ok_0[i]));
    }
}

/// A font file and the offsets of its faces.
pub struct FontCollection {
    data: Vec<u8>,
    face_offsets: Vec<usize>,
}

impl FontCollection {
    /// The file's bytes.
    pub closed spec fn spec_data(&self) -> Seq<u8> {
        self.data@
    }

    /// The offsets of the faces' offset tables.
    pub closed spec fn spec_offsets(&self) -> Seq<int> {
        self.face_offsets@.map_values(|o: usize| o as int)
    }

    /// The collection is the one that the file `d` gives.
    pub open spec fn read_from(&self, d: Seq<u8>) -> bool {
        &&& self.spec_data() == d
        &&& face_offsets_of(d) == Ok::<Seq<int>, Error>(self.spec_offsets())
    }

    /// Reads a font file held in memory; the bytes are copied. `Invalid` when
    /// the header does not fit, a collection header has a version other than
    /// 1.0 or 2.0, or a face offset leaves no room for a
    /// 12-byte offset table inside the file.
    pub fn new_from(data: &[u8]) -> (r: Result<FontCollection>)
        ensures
            r is Ok <==> face_offsets_of(data@) is Ok,
            r is Ok ==> r->Ok_0.read_from(data@),
            r is Err ==> r == Err::<FontCollection, Error>(Error::Invalid),
    {
        FontCollection::from_data(vstd::slice::slice_to_vec(data))
    }

    /// Reads the font file `data`, taking ownership of it.
    pub fn from_data(data: Vec<u8>) -> (r: Result<FontCollection>)
        ensures
            r is Ok <==> face_offsets_of(data@) is Ok,
            r is Ok ==> r->Ok_0.read_from(data@),
            r is Err ==> r == Err::<FontCollection, Error>(Error::Invalid),
    {
        let ghost d = data@;
        let tag = match get_tag(data.as_slice(), 0) {
            Ok(t) => t,
            Err(e) => return Err(e),
        };
        if tag.0 != TAG_TTCF {
            if data.len() < 12 {
                return Err(Error::Invalid);
            }
            let face_offsets: Vec<usize> = vec![0];
            proof {
                assert(face_offsets@.map_values(|o: usize| o as int) =~= seq![0int]);
            }
            return Ok(FontCollection { data, face_offsets });
        }
        let num_fonts = match get_u32(data.as_slice(), 8) {
            Ok(n) => n as usize,
            Err(e) => return Err(e),
        };
        let len = data.len();
        if (len as u128) < 12 + 4 * (num_fonts as u128) {
            return Err(Error::Invalid);
        }
        let version = get_u32_unchecked(data.as_slice(), 4);
        if version != TTC_VERSION_1 && version != TTC_VERSION_2 {
            return Err(Error::Invalid);
        }
        let mut face_offsets: Vec<usize> = Vec::with_capacity(num_fonts);
        let mut i: usize = 0;
        while i < num_fonts
            invariant
                d == data@,
                u32_at(d, 0) == TAG_TTCF,
                len == d.len(),
                num_fonts == ttc_num_fonts(d),
                len >= 12 + 4 * num_fonts,
                i <= num_fonts,
                face_offsets@.len() == i,
                forall|j: int| 0 <= j < i ==> #[trigger] face_offsets@[j] as int == u32_at(d, 12 + 4 * j),
                forall|j: int| 0 <= j < i ==> #[trigger] ttc_offset(d, j) + 12 <= d.len(),
            decreases num_fonts - i,
        {
            let off = get_u32_unchecked(data.as_slice(), 12 + 4 * i) as usize;
            if off > len || len - off < 12 {
                assert(ttc_offset(d, i as int) + 12 > d.len());
                return Err(Error::Invalid);
            }
            face_offsets.push(off);
            i = i + 1;
        }
        proof {
            assert(!exists|j: int| 0 <= j < ttc_num_fonts(d) && #[trigger] ttc_offset(d, j) + 12 > d.len());
            assert(face_offsets@.map_values(|o: usize| o as int) =~= Seq::new(
                ttc_num_fonts(d) as nat,
                |i: int| u32_at(d, 12 + 4 * i),
            ));
        }
        Ok(FontCollection { data, face_offsets })
    }

    /// Every face offset leaves room for an offset table inside the file.
    pub proof fn lemma_offsets_inside(&self, d: Seq<u8>)
        requires
            self.read_from(d),
        ensures
            forall|i: int| 0 <= i < self.spec_offsets().len() ==> #[trigger] self.spec_offsets()[i] + 12 <= d.len(),
    {
        if u32_at(d, 0) == TAG_TTCF {
            assert forall|i: int| 0 <= i < self.spec_offsets().len() implies #[trigger] self.spec_offsets()[i] + 12 <= d.len() by {
                assert(self.spec_offsets()[i] == ttc_offset(d, i));
            }
        }
    }

    /// Number of faces.
    pub fn num_faces(&self) -> (r: usize)
        ensures
            r == self.spec_offsets().len(),
    {
        self.face_offsets.len()
    }

    /// Loads face `idx`. `FaceIndexOutOfBounds` when `idx` is not below the
    /// number of faces; `Invalid` when that face does not load.
    pub fn get_face(&self, idx: usize) -> (r: Result<Face<'_>>)
        ensures
            idx >= self.spec_offsets().len() ==> r == Err::<Face, Error>(Error::FaceIndexOutOfBounds),
            idx < self.spec_offsets().len() ==> {
                let off = self.spec_offsets()[idx as int];
                &&& r is Ok <==> face_ok(self.spec_data(), off)
                &&& r is Ok ==> r->Ok_0.loaded_from(self.spec_data(), off)
                &&& r is Err ==> r == Err::<Face, Error>(Error::Invalid)
            },
    {
        if idx >= self.face_offsets.len() {
            return Err(Error::FaceIndexOutOfBounds);
        }
        Face::load(self.data.as_slice(), self.face_offsets[idx])
    }
}

} // verus!
