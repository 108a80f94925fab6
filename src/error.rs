//! Errors of the library.
use vstd::prelude::*;

verus! {

/// Everything that can go wrong while reading a font.
#[derive(Debug, PartialEq, Eq)]
pub enum Error {
    /// Reading the font file failed; holds the system's message.
    Io(String),
    /// The font data is malformed.
    Invalid,
    /// The face index is not below the number of faces.
    FaceIndexOutOfBounds,
    /// The glyph id is not below the number of glyphs of the face.
    GlyphIDOutOfBounds,
    /// The face has no usable character map.
    NoCharmap,
    /// A feature that this library does not handle.
    Unimplemented(String),
}

/// The result of every fallible operation of the library.
pub type Result<T> = core::result::Result<T, Error>;

} // verus!
