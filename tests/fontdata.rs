// Synthetic font files built byte by byte, and the tests that read them.

use rype::cmap::Cmap;
use rype::glyf::{get_ttglyph_offsets, Glyf};
use rype::head::{Head, IdxToLocFmt};
use rype::hhea::Hhea;
use rype::hmtx::Hmtx;
use rype::loca::Loca;
use rype::maxp::Maxp;
use rype::types::{get_i16, get_tag, get_u16, get_u32, get_u8};
use rype::{Error, FontCollection, GlyphID, PathOp, Point, TTGlyph, Tag};

fn be16(v: &mut Vec<u8>, x: u16) {
    v.extend_from_slice(&x.to_be_bytes());
}

fn be32(v: &mut Vec<u8>, x: u32) {
    v.extend_from_slice(&x.to_be_bytes());
}

fn put16(v: &mut [u8], off: usize, x: u16) {
    v[off..off + 2].copy_from_slice(&x.to_be_bytes());
}

/// An sfnt file with the given version and tables, in the given order.
fn sfnt(version: u32, tables: &[(&str, Vec<u8>)]) -> Vec<u8> {
    sfnt_at(0, version, tables)
}

/// An sfnt whose table offsets assume it starts at `base` in its file.
fn sfnt_at(base: usize, version: u32, tables: &[(&str, Vec<u8>)]) -> Vec<u8> {
    let n = tables.len();
    let mut out = Vec::new();
    be32(&mut out, version);
    be16(&mut out, n as u16);
    be16(&mut out, 0);
    be16(&mut out, 0);
    be16(&mut out, 0);
    let mut body: Vec<u8> = Vec::new();
    let start = base + 12 + 16 * n;
    for (tag, data) in tables {
        out.extend_from_slice(tag.as_bytes());
        be32(&mut out, 0);
        be32(&mut out, (start + body.len()) as u32);
        be32(&mut out, data.len() as u32);
        body.extend_from_slice(data);
        while body.len() % 4 != 0 {
            body.push(0);
        }
    }
    out.extend_from_slice(&body);
    out
}

fn head_table(upem: u16, bbox: (i16, i16, i16, i16), lowest: u16, loc_fmt: i16) -> Vec<u8> {
    let mut h = vec![0u8; 54];
    put16(&mut h, 18, upem);
    put16(&mut h, 36, bbox.0 as u16);
    put16(&mut h, 38, bbox.1 as u16);
    put16(&mut h, 40, bbox.2 as u16);
    put16(&mut h, 42, bbox.3 as u16);
    put16(&mut h, 46, lowest);
    put16(&mut h, 50, loc_fmt as u16);
    h
}

fn hhea_table(ascender: i16, descender: i16, nhm: u16) -> Vec<u8> {
    let mut h = vec![0u8; 36];
    put16(&mut h, 4, ascender as u16);
    put16(&mut h, 6, descender as u16);
    put16(&mut h, 34, nhm);
    h
}

fn maxp_table(num_glyphs: u16) -> Vec<u8> {
    let mut m = Vec::new();
    be32(&mut m, 0x5000);
    be16(&mut m, num_glyphs);
    m
}

fn hmtx_table(long: &[(u16, i16)], bearings: &[i16]) -> Vec<u8> {
    let mut h = Vec::new();
    for (adv, lsb) in long {
        be16(&mut h, *adv);
        be16(&mut h, *lsb as u16);
    }
    for lsb in bearings {
        be16(&mut h, *lsb as u16);
    }
    h
}

/// A `cmap` table with the given (platform, encoding, subtable) records.
fn cmap_table(subtables: &[(u16, u16, Vec<u8>)]) -> Vec<u8> {
    let mut c = Vec::new();
    be16(&mut c, 0);
    be16(&mut c, subtables.len() as u16);
    let mut off = 4 + 8 * subtables.len();
    for (p, e, data) in subtables {
        be16(&mut c, *p);
        be16(&mut c, *e);
        be32(&mut c, off as u32);
        off += data.len();
    }
    for (_, _, data) in subtables {
        c.extend_from_slice(data);
    }
    c
}

/// A format 4 subtable of (start, end, delta, range offset) segments followed
/// by a glyph id array.
fn fmt4(segs: &[(u16, u16, u16, u16)], glyphs: &[u16]) -> Vec<u8> {
    let s = segs.len() as u16 * 2;
    let mut t = Vec::new();
    be16(&mut t, 4);
    be16(&mut t, 16 + 4 * s + 2 * glyphs.len() as u16);
    be16(&mut t, 0);
    be16(&mut t, s);
    be16(&mut t, 0);
    be16(&mut t, 0);
    be16(&mut t, 0);
    for seg in segs {
        be16(&mut t, seg.1);
    }
    be16(&mut t, 0);
    for seg in segs {
        be16(&mut t, seg.0);
    }
    for seg in segs {
        be16(&mut t, seg.2);
    }
    for seg in segs {
        be16(&mut t, seg.3);
    }
    for g in glyphs {
        be16(&mut t, *g);
    }
    t
}

/// A format 12 subtable of (start, end, first glyph) groups.
fn fmt12(groups: &[(u32, u32, u32)]) -> Vec<u8> {
    let mut t = Vec::new();
    be16(&mut t, 12);
    be16(&mut t, 0);
    be32(&mut t, 16 + 12 * groups.len() as u32);
    be32(&mut t, 0);
    be32(&mut t, groups.len() as u32);
    for g in groups {
        be32(&mut t, g.0);
        be32(&mut t, g.1);
        be32(&mut t, g.2);
    }
    t
}

/// A simple glyph whose points are stored with 16-bit deltas.
fn simple_glyph(ends: &[u16], points: &[(bool, i16, i16)]) -> Vec<u8> {
    let xmin = points.iter().map(|p| p.1).min().unwrap_or(0);
    let xmax = points.iter().map(|p| p.1).max().unwrap_or(0);
    let ymin = points.iter().map(|p| p.2).min().unwrap_or(0);
    let ymax = points.iter().map(|p| p.2).max().unwrap_or(0);
    let mut g = Vec::new();
    be16(&mut g, ends.len() as u16);
    for v in [xmin, ymin, xmax, ymax] {
        be16(&mut g, v as u16);
    }
    for e in ends {
        be16(&mut g, *e);
    }
    be16(&mut g, 0);
    for p in points {
        g.push(if p.0 { 1 } else { 0 });
    }
    let mut last = 0i16;
    for p in points {
        be16(&mut g, (p.1 - last) as u16);
        last = p.1;
    }
    last = 0;
    for p in points {
        be16(&mut g, (p.2 - last) as u16);
        last = p.2;
    }
    g
}

const SQUARE: [(bool, i16, i16); 4] = [(true, 0, 0), (true, 100, 0), (true, 100, 100), (true, 0, 100)];

/// A TrueType font with three glyphs: an empty glyph 0, a square and a
/// curved contour; 'A'..'C' map to glyphs 1, 2, 1.
fn truetype_font() -> Vec<u8> {
    let g1 = simple_glyph(&[3], &SQUARE);
    let g2 = simple_glyph(&[3], &[(true, 0, 0), (false, 100, 0), (false, 100, 100), (true, 0, 100)]);
    let mut glyf = Vec::new();
    let mut loca = Vec::new();
    for g in [Vec::new(), g1, g2] {
        be32(&mut loca, glyf.len() as u32);
        glyf.extend_from_slice(&g);
    }
    be32(&mut loca, glyf.len() as u32);
    let cmap = cmap_table(&[
        (0, 3, fmt4(&[(0xFFFF, 0xFFFF, 1, 0)], &[])),
        (3, 1, fmt4(&[(0x41, 0x43, 0, 4), (0xFFFF, 0xFFFF, 1, 0)], &[1, 2, 1])),
    ]);
    sfnt(
        0x00010000,
        &[
            ("head", head_table(2048, (-954, -605, 1355, 2027), 6, 1)),
            ("hhea", hhea_table(1901, -483, 2)),
            ("maxp", maxp_table(3)),
            ("hmtx", hmtx_table(&[(500, 10), (600, 20)], &[30])),
            ("cmap", cmap),
            ("loca", loca),
            ("glyf", glyf),
            ("post", vec![0; 32]),
        ],
    )
}

/// A CFF font whose character map has a Windows BMP and a Windows UCS-4 subtable.
fn cff_font() -> Vec<u8> {
    let cmap = cmap_table(&[
        (0, 3, fmt4(&[(0xFFFF, 0xFFFF, 1, 0)], &[])),
        (3, 1, fmt4(&[(0x41, 0x41, 1, 0), (0xFFFF, 0xFFFF, 1, 0)], &[])),
        (3, 10, fmt12(&[(0x3D, 0x3E, 1169), (0x41, 0x41, 1), (0x61, 0x61, 134)])),
    ]);
    sfnt(
        0x4F54544F,
        &[
            ("head", head_table(1950, (-3556, -1001, 2385, 2401), 3, 0)),
            ("hhea", hhea_table(1800, -600, 1746)),
            ("maxp", maxp_table(1746)),
            ("hmtx", vec![0; 4 * 1746]),
            ("cmap", cmap),
            ("CFF ", vec![0; 8]),
        ],
    )
}

fn p(x: i64, y: i64) -> Point {
    Point { x, y }
}

#[test]
fn byte_readers_read_big_endian() {
    let d = [0x12u8, 0x34, 0xFF, 0xFE, 0x80, 0x00];
    assert_eq!(get_u8(&d, 2), Ok(0xFF));
    assert_eq!(get_u16(&d, 0), Ok(0x1234));
    assert_eq!(get_i16(&d, 2), Ok(-2));
    assert_eq!(get_i16(&d, 4), Ok(-32768));
    assert_eq!(get_u32(&d, 0), Ok(0x1234FFFE));
    assert_eq!(get_tag(&d, 2).map(|t| t.0), Ok(0xFFFE8000));
}

#[test]
fn byte_readers_refuse_reads_past_the_end() {
    let d = [1u8, 2, 3];
    assert_eq!(get_u8(&d, 3), Err(Error::Invalid));
    assert_eq!(get_u16(&d, 2), Err(Error::Invalid));
    assert_eq!(get_i16(&d, usize::MAX), Err(Error::Invalid));
    assert_eq!(get_u32(&d, 0), Err(Error::Invalid));
    assert_eq!(get_tag(&[], 0).map(|t| t.0), Err(Error::Invalid));
}

#[test]
fn tag_round_trips_through_bytes_and_text() {
    for s in ["head", "OS/2", "cvt ", "ttcf"] {
        let t = Tag::from_str(s);
        assert_eq!(t.fmt(), s);
        assert_eq!(Tag::from_bytes(t.to_bytes()), t);
    }
    assert_eq!(Tag::from_str("glyf").0, 0x676C7966);
    assert_eq!(Tag(0x636D6170).to_bytes(), *b"cmap");
}

#[test]
fn truetype_face_header_values() {
    let fc = FontCollection::new_from(&truetype_font()).unwrap();
    assert_eq!(fc.num_faces(), 1);
    let face = fc.get_face(0).unwrap();
    let head = face.head();
    assert_eq!(head.units_per_em(), 2048);
    assert_eq!((head.xmin(), head.ymin(), head.xmax(), head.ymax()), (-954, -605, 1355, 2027));
    assert_eq!(head.lowest_rec_ppem(), 6);
    assert_eq!(head.idx_to_loc_fmt(), Ok(IdxToLocFmt::Off32));
    let hhea = face.hhea();
    assert_eq!((hhea.ascender(), hhea.descender(), hhea.num_of_h_metrics()), (1901, -483, 2));
    assert_eq!(face.maxp().num_glyphs(), 3);
    assert!(face.is_truetype());
    let active = face.cmap().subtables()[1];
    assert_eq!((active.platform_id, active.encoding_id, active.format()), (3, 1, Ok(4)));
}

#[test]
fn truetype_face_table_tags_sorted() {
    let fc = FontCollection::new_from(&truetype_font()).unwrap();
    let face = fc.get_face(0).unwrap();
    let mut names: Vec<String> = face.table_tags().iter().map(|t| t.fmt()).collect();
    names.sort();
    assert_eq!(names.join(", "), "cmap, glyf, head, hhea, hmtx, loca, maxp, post");
    assert_eq!(face.table(Tag::from_str("post")).map(|t| t.len()), Some(32));
    assert!(face.table(Tag::from_str("kern")).is_none());
}

#[test]
fn truetype_face_cmap_format4() {
    let fc = FontCollection::new_from(&truetype_font()).unwrap();
    let face = fc.get_face(0).unwrap();
    assert_eq!(face.get_glyph_id('A' as u32), Ok(GlyphID(1)));
    assert_eq!(face.get_glyph_id('B' as u32), Ok(GlyphID(2)));
    assert_eq!(face.get_glyph_id('C' as u32), Ok(GlyphID(1)));
    assert_eq!(face.get_glyph_id('D' as u32), Ok(GlyphID(0)));
    assert_eq!(face.get_glyph_id(0x10000), Ok(GlyphID(0)));
}

#[test]
fn cff_face_prefers_ucs4_subtable() {
    let fc = FontCollection::new_from(&cff_font()).unwrap();
    let face = fc.get_face(0).unwrap();
    assert!(!face.is_truetype());
    assert_eq!(face.head().units_per_em(), 1950);
    assert_eq!(face.head().idx_to_loc_fmt(), Ok(IdxToLocFmt::Off16));
    assert_eq!(face.cmap().subtables().len(), 3);
    assert_eq!(face.get_glyph_id('A' as u32), Ok(GlyphID(1)));
    assert_eq!(face.get_glyph_id('a' as u32), Ok(GlyphID(134)));
    assert_eq!(face.get_glyph_id('=' as u32), Ok(GlyphID(1169)));
    assert_eq!(face.get_glyph_id('>' as u32), Ok(GlyphID(1170)));
    assert_eq!(face.get_glyph_id('B' as u32), Ok(GlyphID(0)));
    assert_eq!(face.get_glyph(GlyphID(1)).err(), Some(Error::Unimplemented("CFF support".to_string())));
}

#[test]
fn face_load_refuses_missing_or_bad_tables() {
    let base = |head: Vec<u8>, version: u32, with_cmap: bool| {
        let mut tables = vec![
            ("head", head),
            ("hhea", hhea_table(0, 0, 1)),
            ("maxp", maxp_table(1)),
            ("hmtx", hmtx_table(&[(1, 0)], &[])),
        ];
        if with_cmap {
            tables.push(("cmap", cmap_table(&[])));
        }
        sfnt(version, &tables)
    };
    let ok = base(head_table(1000, (0, 0, 0, 0), 1, 0), 0x4F54544F, true);
    assert!(FontCollection::new_from(&ok).unwrap().get_face(0).is_ok());
    let no_cmap = base(head_table(1000, (0, 0, 0, 0), 1, 0), 0x4F54544F, false);
    assert!(matches!(FontCollection::new_from(&no_cmap).unwrap().get_face(0), Err(Error::Invalid)));
    let bad_fmt = base(head_table(1000, (0, 0, 0, 0), 1, 2), 0x4F54544F, true);
    assert!(matches!(FontCollection::new_from(&bad_fmt).unwrap().get_face(0), Err(Error::Invalid)));
    let short_head = base(vec![0; 53], 0x4F54544F, true);
    assert!(matches!(FontCollection::new_from(&short_head).unwrap().get_face(0), Err(Error::Invalid)));
    let bad_version = base(head_table(1000, (0, 0, 0, 0), 1, 0), 0x12345678, true);
    assert!(matches!(FontCollection::new_from(&bad_version).unwrap().get_face(0), Err(Error::Invalid)));
    let no_loca = base(head_table(1000, (0, 0, 0, 0), 1, 0), 0x00010000, true);
    assert!(matches!(FontCollection::new_from(&no_loca).unwrap().get_face(0), Err(Error::Invalid)));
}

#[test]
fn face_load_refuses_table_past_end_of_file() {
    let mut f = truetype_font();
    f.truncate(f.len() - 8);
    let fc = FontCollection::new_from(&f).unwrap();
    assert!(matches!(fc.get_face(0), Err(Error::Invalid)));
}

#[test]
fn collection_face_index_out_of_bounds() {
    let fc = FontCollection::new_from(&truetype_font()).unwrap();
    assert!(matches!(fc.get_face(1), Err(Error::FaceIndexOutOfBounds)));
    assert!(matches!(fc.get_face(usize::MAX), Err(Error::FaceIndexOutOfBounds)));
}

#[test]
fn collection_reads_ttc_offsets() {
    let first_at = 12 + 4 * 2;
    let a = sfnt_at(first_at, 0x00010000, &[]);
    let second_at = first_at + a.len();
    let b = sfnt_at(second_at, 0x4F54544F, &[]);
    let mut f = Vec::new();
    f.extend_from_slice(b"ttcf");
    be32(&mut f, 0x00010000);
    be32(&mut f, 2);
    be32(&mut f, first_at as u32);
    be32(&mut f, second_at as u32);
    f.extend_from_slice(&a);
    f.extend_from_slice(&b);
    let fc = FontCollection::new_from(&f).unwrap();
    assert_eq!(fc.num_faces(), 2);
    assert!(matches!(fc.get_face(0), Err(Error::Invalid)));
    assert!(matches!(fc.get_face(2), Err(Error::FaceIndexOutOfBounds)));
}

#[test]
fn collection_refuses_short_headers() {
    assert!(matches!(FontCollection::new_from(&[]), Err(Error::Invalid)));
    assert!(matches!(FontCollection::new_from(b"ttc"), Err(Error::Invalid)));
    let mut f = b"ttcf".to_vec();
    be32(&mut f, 0x00010000);
    be32(&mut f, 3);
    be32(&mut f, 0);
    assert!(matches!(FontCollection::new_from(&f), Err(Error::Invalid)));
}

#[test]
fn cmap_format4_range_offsets_and_gaps() {
    // Segment 0 maps 0x20..0x22 through the glyph array (0 stays 0),
    // segment 1 maps 0x30..0x31 by delta, with wrap-around past 0xFFFF.
    let sub = fmt4(&[(0x20, 0x22, 5, 6), (0x30, 0x31, 0xFFF0, 0), (0xFFFF, 0xFFFF, 1, 0)], &[7, 0, 9]);
    let data = cmap_table(&[(3, 1, sub)]);
    let cmap = Cmap::load(&data).unwrap();
    assert_eq!(cmap.get_glyph_id(0x20), Ok(GlyphID(12)));
    assert_eq!(cmap.get_glyph_id(0x21), Ok(GlyphID(0)));
    assert_eq!(cmap.get_glyph_id(0x22), Ok(GlyphID(14)));
    assert_eq!(cmap.get_glyph_id(0x30), Ok(GlyphID(0x20)));
    assert_eq!(cmap.get_glyph_id(0x1F), Ok(GlyphID(0)));
    assert_eq!(cmap.get_glyph_id(0x25), Ok(GlyphID(0)));
    assert_eq!(cmap.get_glyph_id(0x32), Ok(GlyphID(0)));
    assert_eq!(cmap.get_glyph_id(0xFFFF), Ok(GlyphID(0)));
}

#[test]
fn cmap_format12_groups() {
    let data = cmap_table(&[(3, 10, fmt12(&[(0x41, 0x5A, 100), (0x1F600, 0x1F64F, 2000)]))]);
    let cmap = Cmap::load(&data).unwrap();
    assert_eq!(cmap.get_glyph_id(0x41), Ok(GlyphID(100)));
    assert_eq!(cmap.get_glyph_id(0x5A), Ok(GlyphID(125)));
    assert_eq!(cmap.get_glyph_id(0x1F601), Ok(GlyphID(2001)));
    assert_eq!(cmap.get_glyph_id(0x40), Ok(GlyphID(0)));
    assert_eq!(cmap.get_glyph_id(0x5B), Ok(GlyphID(0)));
    assert_eq!(cmap.get_glyph_id(0x10FFFF), Ok(GlyphID(0)));
}

#[test]
fn cmap_without_windows_subtable_has_no_charmap() {
    let data = cmap_table(&[(0, 3, fmt4(&[(0x41, 0x41, 1, 0)], &[]))]);
    let mut cmap = Cmap::load(&data).unwrap();
    assert_eq!(cmap.get_glyph_id(0x41), Err(Error::NoCharmap));
    let sub = cmap.subtables()[0];
    cmap.set_active_subtable(&sub);
    assert_eq!(cmap.get_glyph_id(0x41), Ok(GlyphID(0x42)));
}

#[test]
fn cmap_other_formats_map_nothing() {
    let mut sub = vec![0u8; 262];
    sub[1] = 0;
    sub[6 + 0x41] = 9;
    let data = cmap_table(&[(3, 1, sub)]);
    let cmap = Cmap::load(&data).unwrap();
    assert_eq!(cmap.get_glyph_id(0x41), Ok(GlyphID(0)));
}

#[test]
fn cmap_refuses_malformed_tables() {
    assert!(matches!(Cmap::load(&[0, 0, 0]), Err(Error::Invalid)));
    assert!(matches!(Cmap::load(&[0, 0, 0, 1, 0, 3, 0, 1]), Err(Error::Invalid)));
    let mut data = cmap_table(&[(3, 1, vec![0, 4])]);
    assert!(Cmap::load(&data).is_ok());
    assert_eq!(Cmap::load(&data).unwrap().get_glyph_id(1), Err(Error::Invalid));
    data[11] = 200;
    assert!(matches!(Cmap::load(&data), Err(Error::Invalid)));
    let truncated = cmap_table(&[(3, 10, vec![0, 12, 0, 0, 0, 0, 0, 0, 0, 0, 0, 0, 0, 0, 0, 9])]);
    assert_eq!(Cmap::load(&truncated).unwrap().get_glyph_id(1), Err(Error::Invalid));
}

#[test]
fn hmtx_long_and_short_records() {
    let data = hmtx_table(&[(500, 10), (600, -20)], &[30, -40]);
    let hmtx = Hmtx::load(&data, 4, 2).unwrap();
    assert_eq!(hmtx.get_metrics(GlyphID(0)), Ok((500, 10)));
    assert_eq!(hmtx.get_metrics(GlyphID(1)), Ok((600, -20)));
    assert_eq!(hmtx.get_metrics(GlyphID(2)), Ok((600, 30)));
    assert_eq!(hmtx.get_metrics(GlyphID(3)), Ok((600, -40)));
    assert_eq!(hmtx.get_metrics(GlyphID(4)), Err(Error::GlyphIDOutOfBounds));
    assert!(matches!(Hmtx::load(&data, 5, 2), Err(Error::Invalid)));
    assert!(matches!(Hmtx::load(&data, 1, 0), Err(Error::Invalid)));
}

#[test]
fn loca_short_and_long_offsets() {
    let short = [0u8, 0, 0, 5, 0, 9];
    let loca = Loca::load(&short, 3, IdxToLocFmt::Off16).unwrap();
    assert_eq!(loca.get_offset(GlyphID(1)), Ok(10));
    assert_eq!(loca.get_offset(GlyphID(2)), Ok(18));
    assert_eq!(loca.get_offset(GlyphID(3)), Err(Error::GlyphIDOutOfBounds));
    let long = [0u8, 1, 0, 0, 0, 0, 0, 7];
    let loca = Loca::load(&long, 2, IdxToLocFmt::Off32).unwrap();
    assert_eq!(loca.get_offset(GlyphID(0)), Ok(0x10000));
    assert_eq!(loca.get_offset(GlyphID(1)), Ok(7));
    assert!(matches!(Loca::load(&long, 3, IdxToLocFmt::Off32), Err(Error::Invalid)));
}

#[test]
fn small_tables_refused() {
    assert!(matches!(Head::load(&[0; 53]), Err(Error::Invalid)));
    assert!(matches!(Hhea::load(&[0; 35]), Err(Error::Invalid)));
    assert!(matches!(Maxp::load(&[0; 5]), Err(Error::Invalid)));
    assert!(Maxp::load(&[0; 6]).is_ok());
}

#[test]
fn square_glyph_outline() {
    let fc = FontCollection::new_from(&truetype_font()).unwrap();
    let face = fc.get_face(0).unwrap();
    let glyph = face.get_glyph(GlyphID(1)).unwrap();
    let ops = glyph.outline().unwrap();
    assert_eq!(
        ops,
        vec![
            PathOp::Move(p(0, 0)),
            PathOp::Line(p(200, 0)),
            PathOp::Line(p(200, 200)),
            PathOp::Line(p(0, 200)),
            PathOp::Line(p(0, 0)),
        ]
    );
    assert_eq!(glyph.outline(), glyph.outline());
}

#[test]
fn curved_glyph_outline_has_implicit_midpoint() {
    let fc = FontCollection::new_from(&truetype_font()).unwrap();
    let face = fc.get_face(0).unwrap();
    let glyph = face.get_glyph(GlyphID(2)).unwrap();
    match glyph {
        TTGlyph::Simple(s) => assert_eq!((s.num_contours, s.xmin, s.ymin, s.xmax, s.ymax), (1, 0, 0, 100, 100)),
        TTGlyph::Composite(_) => panic!("expected a simple glyph"),
    }
    assert_eq!(
        glyph.outline().unwrap(),
        vec![
            PathOp::Move(p(0, 0)),
            PathOp::QuadBez(p(200, 0), p(200, 100)),
            PathOp::QuadBez(p(200, 200), p(0, 200)),
            PathOp::Line(p(0, 0)),
        ]
    );
}

#[test]
fn trailing_control_point_closes_with_curve() {
    let g = simple_glyph(&[2, 5], &[(true, 0, 0), (true, 100, 0), (false, 100, 100), (true, 10, 10), (false, 20, 10), (true, 20, 20)]);
    let glyf = Glyf(&g);
    let ops = glyf.glyph(0).unwrap().outline().unwrap();
    assert_eq!(
        ops,
        vec![
            PathOp::Move(p(0, 0)),
            PathOp::Line(p(200, 0)),
            PathOp::QuadBez(p(200, 200), p(0, 0)),
            PathOp::Move(p(20, 20)),
            PathOp::QuadBez(p(40, 20), p(40, 40)),
            PathOp::Line(p(20, 20)),
        ]
    );
}

#[test]
fn packed_flags_and_short_coordinates() {
    // Three on-curve points under one repeated flag with positive byte
    // deltas, then one whose x repeats and whose y is a negative byte delta.
    let mut g = Vec::new();
    be16(&mut g, 1);
    for v in [0u16, 0, 60, 15] {
        be16(&mut g, v);
    }
    be16(&mut g, 3);
    be16(&mut g, 0);
    g.extend_from_slice(&[0x3F, 2, 0x15]);
    g.extend_from_slice(&[10, 20, 30]);
    g.extend_from_slice(&[5, 5, 5, 15]);
    let ops = Glyf(&g).glyph(0).unwrap().outline().unwrap();
    assert_eq!(
        ops,
        vec![
            PathOp::Move(p(20, 10)),
            PathOp::Line(p(60, 20)),
            PathOp::Line(p(120, 30)),
            PathOp::Line(p(120, 0)),
            PathOp::Line(p(20, 10)),
        ]
    );
}

#[test]
fn glyph_errors() {
    let fc = FontCollection::new_from(&truetype_font()).unwrap();
    let face = fc.get_face(0).unwrap();
    assert!(matches!(face.get_glyph(GlyphID(3)), Err(Error::GlyphIDOutOfBounds)));
    let glyf_data = [0xFFu8, 0xFF, 0, 0, 0, 0, 0, 0, 0, 0];
    let composite = Glyf(&glyf_data).glyph(0).unwrap();
    assert_eq!(composite.outline(), Err(Error::Unimplemented("composite glyphs".to_string())));
    assert!(matches!(Glyf(&glyf_data).glyph(1), Err(Error::Invalid)));
    let off_start = simple_glyph(&[1], &[(false, 0, 0), (true, 5, 5)]);
    assert_eq!(Glyf(&off_start).glyph(0).unwrap().outline(), Err(Error::Invalid));
    let mut cut = simple_glyph(&[3], &SQUARE);
    cut.truncate(cut.len() - 1);
    assert_eq!(Glyf(&cut).glyph(0).unwrap().outline(), Err(Error::Invalid));
    let empty = simple_glyph(&[], &[]);
    assert_eq!(Glyf(&empty).glyph(0).unwrap().outline(), Ok(vec![]));
}

#[test]
fn cmap_first_ucs4_record_stays_active() {
    let data = cmap_table(&[
        (3, 1, fmt12(&[(0x41, 0x41, 7)])),
        (3, 10, fmt12(&[(0x41, 0x41, 1)])),
        (3, 10, fmt12(&[(0x41, 0x41, 2)])),
        (3, 1, fmt12(&[(0x41, 0x41, 3)])),
    ]);
    let cmap = Cmap::load(&data).unwrap();
    assert_eq!(cmap.get_glyph_id(0x41), Ok(GlyphID(1)));
    let bmp_only = cmap_table(&[(3, 1, fmt12(&[(0x41, 0x41, 7)])), (3, 1, fmt12(&[(0x41, 0x41, 8)]))]);
    assert_eq!(Cmap::load(&bmp_only).unwrap().get_glyph_id(0x41), Ok(GlyphID(7)));
}

#[test]
fn collection_refuses_face_offset_past_end() {
    let face = sfnt_at(16, 0x00010000, &[]);
    let mut f = b"ttcf".to_vec();
    be32(&mut f, 0x00010000);
    be32(&mut f, 1);
    be32(&mut f, 16);
    f.extend_from_slice(&face);
    assert_eq!(FontCollection::new_from(&f).unwrap().num_faces(), 1);
    put16(&mut f, 14, 0x0100);
    assert!(matches!(FontCollection::new_from(&f), Err(Error::Invalid)));
    let mut near_end = f.clone();
    put16(&mut near_end, 14, (f.len() - 11) as u16);
    assert!(matches!(FontCollection::new_from(&near_end), Err(Error::Invalid)));
    assert!(matches!(FontCollection::new_from(&[0, 1, 0, 0, 0, 0, 0, 0, 0, 0, 0]), Err(Error::Invalid)));
}

#[test]
fn empty_glyph_has_empty_outline() {
    let fc = FontCollection::new_from(&truetype_font()).unwrap();
    let face = fc.get_face(0).unwrap();
    let glyph = face.get_glyph(GlyphID(0)).unwrap();
    match glyph {
        TTGlyph::Simple(s) => {
            assert_eq!((s.num_contours, s.xmin, s.ymin, s.xmax, s.ymax), (0, 0, 0, 0, 0));
            assert!(s.data.is_empty());
        }
        TTGlyph::Composite(_) => panic!("expected a simple glyph"),
    }
    assert_eq!(glyph.outline(), Ok(vec![]));
}

#[test]
fn last_glyph_without_end_entry_runs_to_end_of_glyf() {
    let g = simple_glyph(&[3], &SQUARE);
    let mut loca = Vec::new();
    be16(&mut loca, 0);
    be16(&mut loca, 0);
    let loca_view = Loca::load(&loca, 2, IdxToLocFmt::Off16).unwrap();
    assert_eq!(loca_view.get_end_offset(GlyphID(0)), Some(0));
    assert_eq!(loca_view.get_end_offset(GlyphID(1)), None);
    let glyf = Glyf(&g);
    let ops = glyf.glyph(loca_view.get_offset(GlyphID(1)).unwrap()).unwrap().outline().unwrap();
    assert_eq!(ops.len(), 5);
}

#[test]
fn flag_walk_past_end_is_invalid() {
    let d = [0x01u8, 0, 0, 0, 0];
    assert_eq!(get_ttglyph_offsets(&d, 1, 0), Ok((1, 3)));
    assert_eq!(get_ttglyph_offsets(&d, 1, 9), Err(Error::Invalid));
    assert_eq!(get_ttglyph_offsets(&d, 0, 9), Ok((9, 9)));
    assert_eq!(get_ttglyph_offsets(&d, 6, 0), Err(Error::Invalid));
}

#[test]
fn flag_offsets_follow_from_flags_alone() {
    // The x array of these points runs past the data; the offsets are still
    // those that the flags give, and decoding the points then fails.
    assert_eq!(get_ttglyph_offsets(&[0x00], 1, 0), Ok((1, 3)));
    let d = [0x01u8, 0, 0, 0, 0];
    assert_eq!(get_ttglyph_offsets(&d, 3, 0), Ok((3, 9)));
}

#[test]
fn collection_refuses_unknown_ttc_version() {
    let face = sfnt_at(16, 0x00010000, &[]);
    let mut f = b"ttcf".to_vec();
    be32(&mut f, 0x00020000);
    be32(&mut f, 1);
    be32(&mut f, 16);
    f.extend_from_slice(&face);
    assert_eq!(FontCollection::new_from(&f).unwrap().num_faces(), 1);
    put16(&mut f, 4, 0x0003);
    assert!(matches!(FontCollection::new_from(&f), Err(Error::Invalid)));
}
