//! Reading OpenType/TrueType font files: the table directory of each face,
//! typed views of its tables, the character map and the TrueType outline
//! decoder that turns a glyph's packed contours into path operations.
pub mod cmap;
pub mod collection;
pub mod directory;
pub mod error;
pub mod face;
pub mod glyf;
pub mod head;
pub mod hhea;
pub mod hmtx;
pub mod loca;
pub mod maxp;
pub mod types;

pub use collection::FontCollection;
pub use error::{Error, Result};
pub use face::Face;
pub use glyf::{OutlinePoint, PathOp, Point, TTGlyph};
pub use types::{GlyphID, Tag};
