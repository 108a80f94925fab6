//! Big-endian readers over byte slices, tags and glyph ids.
use vstd::prelude::*;

use crate::error::{Error, Result};
use vstd::string::StringSliceAdditionalSpecFns;

verus! {

/// The byte at `off`.
pub open spec fn u8_at(s: Seq<u8>, off: int) -> int {
    s[off] as int
}

/// The big-endian 16-bit unsigned value at `off`.
pub open spec fn u16_at(s: Seq<u8>, off: int) -> int {
    s[off] * 256 + s[off + 1]
}

/// The big-endian 16-bit two's-complement value at `off`.
pub open spec fn i16_at(s: Seq<u8>, off: int) -> int {
    let u = u16_at(s, off);
    if u >= 0x8000 {
        u - 0x10000
    } else {
        u
    }
}

/// The big-endian 32-bit unsigned value at `off`.
pub open spec fn u32_at(s: Seq<u8>, off: int) -> int {
    s[off] * 0x1000000 + s[off + 1] * 0x10000 + s[off + 2] * 0x100 + s[off + 3]
}

/// Whether `width` bytes starting at `off` lie inside `s`.
pub open spec fn fits(s: Seq<u8>, off: int, width: int) -> bool {
    0 <= off && off + width <= s.len()
}

/// Reads the byte at `off`, failing with `Invalid` when it is past the end.
pub fn get_u8(data: &[u8], off: usize) -> (r: Result<u8>)
    ensures
        fits(data@, off as int, 1) ==> r == Ok::<u8, Error>(data@[off as int]),
        !fits(data@, off as int, 1) ==> r == Err::<u8, Error>(Error::Invalid),
{
    if off >= data.len() {
        Err(Error::Invalid)
    } else {
        Ok(data[off])
    }
}

/// Reads a big-endian `u16` at `off`, failing with `Invalid` when it does not fit.
pub fn get_u16(data: &[u8], off: usize) -> (r: Result<u16>)
    ensures
        fits(data@, off as int, 2) ==> r is Ok && r->Ok_0 as int == u16_at(data@, off as int),
        !fits(data@, off as int, 2) ==> r == Err::<u16, Error>(Error::Invalid),
{
    if off >= data.len() || data.len() - off < 2 {
        Err(Error::Invalid)
    } else {
        Ok(get_u16_unchecked(data, off))
    }
}

/// Reads a big-endian `i16` at `off`, failing with `Invalid` when it does not fit.
pub fn get_i16(data: &[u8], off: usize) -> (r: Result<i16>)
    ensures
        fits(data@, off as int, 2) ==> r is Ok && r->Ok_0 as int == i16_at(data@, off as int),
        !fits(data@, off as int, 2) ==> r == Err::<i16, Error>(Error::Invalid),
{
    if off >= data.len() || data.len() - off < 2 {
        Err(Error::Invalid)
    } else {
        Ok(get_i16_unchecked(data, off))
    }
}

/// Reads a big-endian `u32` at `off`, failing with `Invalid` when it does not fit.
pub fn get_u32(data: &[u8], off: usize) -> (r: Result<u32>)
    ensures
        fits(data@, off as int, 4) ==> r is Ok && r->Ok_0 as int == u32_at(data@, off as int),
        !fits(data@, off as int, 4) ==> r == Err::<u32, Error>(Error::Invalid),
{
    if off >= data.len() || data.len() - off < 4 {
        Err(Error::Invalid)
    } else {
        Ok(get_u32_unchecked(data, off))
    }
}

/// Reads a big-endian `u16` at `off`, where the caller has shown that it fits.
pub fn get_u16_unchecked(data: &[u8], off: usize) -> (r: u16)
    requires
        fits(data@, off as int, 2),
    ensures
        r as int == u16_at(data@, off as int),
{
    (data[off] as u16) * 256 + (data[off + 1] as u16)
}

/// Reads a big-endian `i16` at `off`, where the caller has shown that it fits.
pub fn get_i16_unchecked(data: &[u8], off: usize) -> (r: i16)
    requires
        fits(data@, off as int, 2),
    ensures
        r as int == i16_at(data@, off as int),
{
    let u = get_u16_unchecked(data, off);
    if u >= 0x8000 {
        (u as i32 - 0x10000) as i16
    } else {
        u as i16
    }
}

/// Reads a big-endian `u32` at `off`, where the caller has shown that it fits.
pub fn get_u32_unchecked(data: &[u8], off: usize) -> (r: u32)
    requires
        fits(data@, off as int, 4),
    ensures
        r as int == u32_at(data@, off as int),
{
    (data[off] as u32) * 0x1000000 + (data[off + 1] as u32) * 0x10000 + (data[off + 2] as u32)
        * 0x100 + (data[off + 3] as u32)
}

/// A four-byte table identifier, packed big-endian into a `u32`.
#[derive(Clone, Copy, Debug, PartialEq, Eq, Hash, Structural)]
pub struct Tag(pub u32);

/// The packed value of the four bytes `b`.
pub open spec fn pack_tag(b: Seq<u8>) -> int {
    u32_at(b, 0)
}

/// The byte of `t` at position `i` (0 is the first, most significant).
pub open spec fn tag_byte(t: u32, i: int) -> u8 {
    ((t as int / pow256(3 - i)) % 256) as u8
}

/// `256` to the power `k`, for `k` in `0..4`.
pub open spec fn pow256(k: int) -> int {
    if k <= 0 {
        1
    } else if k == 1 {
        0x100
    } else if k == 2 {
        0x10000
    } else {
        0x1000000
    }
}

/// The four bytes of `t`, first byte first.
pub open spec fn tag_bytes(t: u32) -> Seq<u8> {
    seq![tag_byte(t, 0), tag_byte(t, 1), tag_byte(t, 2), tag_byte(t, 3)]
}

/// The four characters of `t`, each byte read as one Latin-1 character.
pub open spec fn tag_chars(t: u32) -> Seq<char> {
    tag_bytes(t).map_values(|b: u8| b as char)
}

impl Tag {
    /// The tag spelled by the first four bytes of `s`. A tag made from four
    /// ASCII characters displays as those characters.
    pub fn from_str(s: &str) -> (r: Tag)
        requires
            s.spec_bytes().len() >= 4,
        ensures
            r.0 as int == pack_tag(s.spec_bytes()),
            s@.len() == 4 && vstd::string::is_ascii(s) ==> tag_chars(r.0) == s@,
    {
        proof {
            if s@.len() == 4 && vstd::string::is_ascii(s) {
                lemma_tag_text_round_trip(s);
            }
        }
        let b = s.as_bytes();
        Tag(get_u32_unchecked(b, 0))
    }

    /// The tag spelled by `b`.
    pub fn from_bytes(b: [u8; 4]) -> (r: Tag)
        ensures
            r.0 as int == pack_tag(b@),
    {
        Tag(get_u32_unchecked(b.as_slice(), 0))
    }

    /// The four bytes of the tag, first byte first.
    pub fn to_bytes(&self) -> (r: [u8; 4])
        ensures
            r@ == tag_bytes(self.0),
    {
        let t = self.0;
        let r = [(t / 0x1000000) as u8, (t / 0x10000 % 256) as u8, (t / 0x100 % 256) as u8, (t % 256) as u8];
        assert(r@ =~= tag_bytes(t));
        r
    }

    /// The tag as text, as it is displayed: each byte becomes the character
    /// of the same code.
    pub fn fmt(&self) -> (r: String)
        ensures
            r@ == tag_chars(self.0),
    {
        let b = self.to_bytes();
        let cs = [b[0] as char, b[1] as char, b[2] as char, b[3] as char];
        assert(cs@ =~= tag_chars(self.0));
        string_of_chars(cs)
    }
}

/// Relies on `String::from_iter`: the string holds the given characters in order.
#[verifier::external_body]
fn string_of_chars(cs: [char; 4]) -> (r: String)
    ensures
        r@ == cs@,
{
    String::from_iter(cs)
}

/// Reads a tag at `off`, failing with `Invalid` when it does not fit.
pub fn get_tag(data: &[u8], off: usize) -> (r: Result<Tag>)
    ensures
        fits(data@, off as int, 4) ==> r is Ok && r->Ok_0.0 as int == u32_at(data@, off as int),
        !fits(data@, off as int, 4) ==> r == Err::<Tag, Error>(Error::Invalid),
{
    match get_u32(data, off) {
        Ok(n) => Ok(Tag(n)),
        Err(e) => Err(e),
    }
}

/// Index of a glyph within a face. Glyph 0 is the "missing glyph".
#[derive(Clone, Copy, Debug, PartialEq, Eq, Hash, Structural)]
pub struct GlyphID(pub u32);

/// Packing the bytes of a tag gives the tag back.
pub proof fn lemma_tag_bytes_round_trip(t: u32)
    ensures
        pack_tag(tag_bytes(t)) == t as int,
{
    let b = tag_bytes(t);
    assert(b[0] as int == t as int / 0x1000000 % 256);
    assert(pack_tag(b) == t as int) by (nonlinear_arith)
        requires
            b.len() == 4,
            b[0] as int == t as int / 0x1000000 % 256,
            b[1] as int == t as int / 0x10000 % 256,
            b[2] as int == t as int / 0x100 % 256,
            b[3] as int == t as int % 256,
            pack_tag(b) == b[0] * 0x1000000 + b[1] * 0x10000 + b[2] * 0x100 + b[3],
            0 <= t <= 0xffffffff,
    ;
}

/// Splitting a packed tag into bytes gives back the four bytes it was packed from.
pub proof fn lemma_tag_pack_round_trip(b: Seq<u8>)
    requires
        b.len() == 4,
    ensures
        0 <= pack_tag(b) <= 0xffffffff,
        tag_bytes(pack_tag(b) as u32) =~= b,
{
    let t = pack_tag(b);
    let (b0, b1, b2, b3) = (b[0] as int, b[1] as int, b[2] as int, b[3] as int);
    assert(t == b0 * 0x1000000 + (b1 * 0x10000 + b2 * 0x100 + b3));
    vstd::arithmetic::div_mod::lemma_fundamental_div_mod_converse(t, 0x1000000, b0, b1 * 0x10000 + b2 * 0x100 + b3);
    vstd::arithmetic::div_mod::lemma_fundamental_div_mod_converse(t, 0x10000, b0 * 0x100 + b1, b2 * 0x100 + b3);
    vstd::arithmetic::div_mod::lemma_fundamental_div_mod_converse(t, 0x100, b0 * 0x10000 + b1 * 0x100 + b2, b3);
    vstd::arithmetic::div_mod::lemma_fundamental_div_mod_converse(b0 * 0x100 + b1, 0x100, b0, b1);
    vstd::arithmetic::div_mod::lemma_fundamental_div_mod_converse(b0 * 0x10000 + b1 * 0x100 + b2, 0x100, b0 * 0x100 + b1, b2);
    vstd::arithmetic::div_mod::lemma_fundamental_div_mod_converse(b0, 0x100, 0, b0);
    vstd::arithmetic::div_mod::lemma_fundamental_div_mod_converse(t, 0x100000000, 0, t);
}

/// The tag made from a four-character ASCII string reads back as that string.
pub proof fn lemma_tag_text_round_trip(s: &str)
    requires
        s@.len() == 4,
        vstd::string::is_ascii(s),
    ensures
        tag_chars(pack_tag(s.spec_bytes()) as u32) == s@,
{
    vstd::string::is_ascii_spec_bytes(s);
    let b = s.spec_bytes();
    lemma_tag_pack_round_trip(b);
    assert forall|i: int| 0 <= i < 4 implies (b[i] as char) == s@[i] by {
        assert('\0' <= s@[i] <= '\u{7f}');
    }
    assert(tag_chars(pack_tag(b) as u32) =~= s@);
}

} // verus!
