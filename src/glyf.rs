//! The TrueType glyph data table and its outline decoder.
use vstd::prelude::*;

use crate::error::{Error, Result};
use crate::types::{fits, get_i16, get_i16_unchecked, get_u16, get_u16_unchecked, get_u8, i16_at, u16_at};

verus! {

/// View of a `glyf` table.
#[derive(Clone, Copy)]
pub struct Glyf<'a>(pub &'a [u8]);

/// A simple glyph: its header fields and the bytes after the header.
#[derive(Clone, Copy)]
pub struct SimpleGlyph<'a> {
    /// Number of contours.
    pub num_contours: u16,
    /// Smallest x of the outline.
    pub xmin: i16,
    /// Smallest y of the outline.
    pub ymin: i16,
    /// Largest x of the outline.
    pub xmax: i16,
    /// Largest y of the outline.
    pub ymax: i16,
    /// The bytes that follow the ten-byte header, to the end of the table.
    pub data: &'a [u8],
}

/// A TrueType glyph description.
#[derive(Clone, Copy)]
pub enum TTGlyph<'a> {
    /// An outline of its own.
    Simple(SimpleGlyph<'a>),
    /// Built of other glyphs; holds the bytes from the glyph's start.
    Composite(&'a [u8]),
}

/// `g` is the glyph that starts at byte `off` of the `glyf` table `d`.
pub open spec fn glyph_at(d: Seq<u8>, off: int, g: TTGlyph) -> bool {
    match g {
        TTGlyph::Simple(s) => {
            &&& i16_at(d, off) >= 0
            &&& s.num_contours as int == i16_at(d, off)
            &&& s.xmin as int == i16_at(d, off + 2)
            &&& s.ymin as int == i16_at(d, off + 4)
            &&& s.xmax as int == i16_at(d, off + 6)
            &&& s.ymax as int == i16_at(d, off + 8)
            &&& s.data@ == d.subrange(off + 10, d.len() as int)
        },
        TTGlyph::Composite(c) => {
            &&& i16_at(d, off) < 0
            &&& c@ == d.subrange(off, d.len() as int)
        },
    }
}

impl<'a> Glyf<'a> {
    /// The glyph at byte `offset`; `Invalid` when its ten-byte header does not fit.
    pub fn glyph(&self, offset: usize) -> (r: Result<TTGlyph<'a>>)
        ensures
            offset + 10 > self.0@.len() ==> r == Err::<TTGlyph<'a>, Error>(Error::Invalid),
            offset + 10 <= self.0@.len() ==> r is Ok && glyph_at(self.0@, offset as int, r->Ok_0),
    {
        let d = self.0;
        let len = d.len();
        if offset >= len || len - offset < 10 {
            return Err(Error::Invalid);
        }
        let num_contours = get_i16_unchecked(d, offset);
        let xmin = get_i16_unchecked(d, offset + 2);
        let ymin = get_i16_unchecked(d, offset + 4);
        let xmax = get_i16_unchecked(d, offset + 6);
        let ymax = get_i16_unchecked(d, offset + 8);
        if num_contours < 0 {
            Ok(TTGlyph::Composite(vstd::slice::slice_subrange(d, offset, len)))
        } else {
            Ok(
                TTGlyph::Simple(
                    SimpleGlyph {
                        num_contours: num_contours as u16,
                        xmin,
                        ymin,
                        xmax,
                        ymax,
                        data: vstd::slice::slice_subrange(d, offset + 10, len),
                    },
                ),
            )
        }
    }
}

/// Bytes that one point's x coordinate takes under `flag`.
pub open spec fn x_width(flag: u8) -> int {
    if flag & 0x02 != 0 {
        1
    } else if flag & 0x10 != 0 {
        0
    } else {
        2
    }
}

/// Walks the run-length coded flags of `remaining` points from byte `pos`.
/// Gives the position just past the flags and the size of the x coordinates.
pub open spec fn flags_scan(d: Seq<u8>, pos: int, remaining: int) -> Result<(int, int)>
    decreases remaining,
{
    if remaining <= 0 {
        Ok((pos, 0))
    } else if !fits(d, pos, 1) {
        Err(Error::Invalid)
    } else {
        let f = d[pos];
        let (next, run) = if f & 0x08 != 0 {
            (pos + 2, d[pos + 1] + 1)
        } else {
            (pos + 1, 1)
        };
        let n = if run < remaining {
            run
        } else {
            remaining
        };
        if f & 0x08 != 0 && !fits(d, pos + 1, 1) {
            Err(Error::Invalid)
        } else {
            match flags_scan(d, next, remaining - n) {
                Ok((end, xs)) => Ok((end, xs + n * x_width(f))),
                Err(e) => Err(e),
            }
        }
    }
}

/// Where the x and y coordinates of `points` points start when their flags
/// start at `flags_off`. This depends on the flags alone: `Invalid` when the
/// flag bytes run out, or when the y offset would not fit in a `usize`.
pub open spec fn coord_offsets(d: Seq<u8>, flags_off: int, points: int) -> Result<(int, int)> {
    match flags_scan(d, flags_off, points) {
        Err(e) => Err(e),
        Ok((end, xs)) => if end + xs > usize::MAX {
            Err(Error::Invalid)
        } else {
            Ok((end, end + xs))
        },
    }
}

/// Where the x and y coordinates of a simple glyph's `points` points start,
/// given that its flags start at `flags_off`.
pub fn get_ttglyph_offsets(data: &[u8], points: usize, flags_off: usize) -> (r: Result<(usize, usize)>)
    requires
        points <= 0x10000,
    ensures
        r is Ok <==> coord_offsets(data@, flags_off as int, points as int) is Ok,
        r matches Ok((x_off, y_off)) ==> coord_offsets(data@, flags_off as int, points as int)
            == Ok::<(int, int), Error>((x_off as int, y_off as int)),
        r matches Err(e) ==> coord_offsets(data@, flags_off as int, points as int) == Err::<(int, int), Error>(e),
{
    let ghost d = data@;
    let len = data.len();
    if points == 0 {
        return Ok((flags_off, flags_off));
    }
    if flags_off > len {
        return Err(Error::Invalid);
    }
    let mut pos: usize = flags_off;
    let mut x_size: usize = 0;
    let mut remaining: usize = points;
    while remaining > 0
        invariant
            d == data@,
            len == d.len(),
            pos <= len,
            remaining <= points <= 0x10000,
            x_size <= 2 * (points - remaining),
            flags_scan(d, flags_off as int, points as int) == match flags_scan(d, pos as int, remaining as int) {
                Ok((end, xs)) => Ok::<(int, int), Error>((end, xs + x_size)),
                Err(e) => Err(e),
            },
        decreases remaining,
    {
        let ghost pos0 = pos as int;
        let ghost rem0 = remaining as int;
        let ghost xs0 = x_size as int;
        let flag = match get_u8(data, pos) {
            Ok(f) => f,
            Err(e) => return Err(e),
        };
        let run: usize = if flag & 0x08 != 0 {
            match get_u8(data, pos + 1) {
                Ok(c) => {
                    pos = pos + 2;
                    c as usize + 1
                },
                Err(e) => return Err(e),
            }
        } else {
            pos = pos + 1;
            1
        };
        let n = if run < remaining {
            run
        } else {
            remaining
        };
        if flag & 0x02 != 0 {
            x_size = x_size + n;
        } else if flag & 0x10 == 0 {
            x_size = x_size + 2 * n;
        }
        remaining = remaining - n;
        proof {
            assert(x_size == xs0 + n * x_width(flag));
            assert(flags_scan(d, pos0, rem0) == match flags_scan(d, pos as int, remaining as int) {
                Ok((end, xs)) => Ok::<(int, int), Error>((end, xs + n * x_width(flag))),
                Err(e) => Err(e),
            });
        }
    }
    if x_size > usize::MAX - pos {
        return Err(Error::Invalid);
    }
    Ok((pos, pos + x_size))
}

/// Where point decoding stands between two points: the next flag byte, the
/// repeats left of the current flag, and the next byte and running value of
/// each coordinate.
pub struct DecodeState {
    /// Position of the next flag byte.
    pub flag_pos: int,
    /// Points left that repeat `flag`.
    pub reps: int,
    /// The current flag.
    pub flag: u8,
    /// Position of the next x coordinate.
    pub x_pos: int,
    /// Position of the next y coordinate.
    pub y_pos: int,
    /// x of the last point, in font units.
    pub x: int,
    /// y of the last point, in font units.
    pub y: int,
}

/// The flag of the next point, with the flag position and repeats after it.
pub open spec fn next_flag(d: Seq<u8>, s: DecodeState) -> Option<(u8, int, int)> {
    if s.reps > 0 {
        Some((s.flag, s.flag_pos, s.reps - 1))
    } else if !fits(d, s.flag_pos, 1) {
        None
    } else if d[s.flag_pos] & 0x08 == 0 {
        Some((d[s.flag_pos], s.flag_pos + 1, 0))
    } else if !fits(d, s.flag_pos + 1, 1) {
        None
    } else {
        Some((d[s.flag_pos], s.flag_pos + 2, d[s.flag_pos + 1] as int))
    }
}

/// One coordinate step from value `v` with the next coordinate at `pos`:
/// `short` and `same` are the flag's two bits for this axis. A short value is
/// one unsigned byte, added when `same` is set and subtracted otherwise; a
/// long value is a signed 16-bit delta; `same` alone keeps the value.
pub open spec fn coord_step(d: Seq<u8>, short: bool, same: bool, pos: int, v: int) -> Option<(int, int)> {
    if short {
        if !fits(d, pos, 1) {
            None
        } else if same {
            Some((pos + 1, v + d[pos]))
        } else {
            Some((pos + 1, v - d[pos]))
        }
    } else if same {
        Some((pos, v))
    } else if !fits(d, pos, 2) {
        None
    } else {
        Some((pos + 2, v + i16_at(d, pos)))
    }
}

/// Decodes one point: its on-curve bit and coordinates, and the state after it.
pub open spec fn step(d: Seq<u8>, s: DecodeState) -> Option<(DecodeState, (bool, int, int))> {
    match next_flag(d, s) {
        None => None,
        Some((f, fpos, reps)) => match coord_step(d, f & 0x02 != 0, f & 0x10 != 0, s.x_pos, s.x) {
            None => None,
            Some((xp, x)) => match coord_step(d, f & 0x04 != 0, f & 0x20 != 0, s.y_pos, s.y) {
                None => None,
                Some((yp, y)) => Some(
                    (
                        DecodeState { flag_pos: fpos, reps, flag: f, x_pos: xp, y_pos: yp, x, y },
                        (f & 0x01 != 0, x, y),
                    ),
                ),
            },
        },
    }
}

/// The next `n` points from state `s`, or `None` when the data runs out.
pub open spec fn points_from(d: Seq<u8>, s: DecodeState, n: int) -> Option<Seq<(bool, int, int)>>
    decreases n,
{
    if n <= 0 {
        Some(Seq::empty())
    } else {
        match step(d, s) {
            None => None,
            Some((s2, p)) => match points_from(d, s2, n - 1) {
                None => None,
                Some(rest) => Some(seq![p] + rest),
            },
        }
    }
}

/// A decoded point of an outline, in font units.
#[derive(Clone, Copy, Debug, PartialEq, Eq, Structural)]
pub struct OutlinePoint {
    /// Whether the point is on the curve (else a control point).
    pub on_curve: bool,
    /// x in font units.
    pub x: i64,
    /// y in font units.
    pub y: i64,
}

/// The point as (on-curve, x, y).
pub open spec fn point_view(p: OutlinePoint) -> (bool, int, int) {
    (p.on_curve, p.x as int, p.y as int)
}

/// Largest magnitude that `k` coordinate steps can reach from zero.
pub open spec fn coord_bound(k: int) -> int {
    0x8000 * k
}

/// Executes `coord_step`.
fn read_coord(data: &[u8], short: bool, same: bool, pos: usize, v: i64, k: Ghost<int>) -> (r: Option<(usize, i64)>)
    requires
        0 <= k@ < 0x10000,
        -coord_bound(k@) <= v <= coord_bound(k@),
    ensures
        match coord_step(data@, short, same, pos as int, v as int) {
            None => r is None,
            Some((p, w)) => r matches Some((p2, w2)) && p2 == p && w2 == w && -coord_bound(k@ + 1) <= w <= coord_bound(k@ + 1),
        },
{
    let _len = data.len();
    if short {
        match get_u8(data, pos) {
            Ok(b) => if same {
                Some((pos + 1, v + b as i64))
            } else {
                Some((pos + 1, v - b as i64))
            },
            Err(_) => None,
        }
    } else if same {
        Some((pos, v))
    } else {
        match get_i16(data, pos) {
            Ok(dv) => Some((pos + 2, v + dv as i64)),
            Err(_) => None,
        }
    }
}

/// The points as (on-curve, x, y) triples.
pub open spec fn view_points(v: Seq<OutlinePoint>) -> Seq<(bool, int, int)> {
    v.map_values(|p: OutlinePoint| point_view(p))
}

/// Largest magnitude of a decoded coordinate.
pub open spec fn max_coord() -> int {
    0x8000_0000
}

/// Both coordinates of `p` lie within `max_coord`.
pub open spec fn point_in_range(p: (bool, int, int)) -> bool {
    -max_coord() <= p.1 <= max_coord() && -max_coord() <= p.2 <= max_coord()
}

/// Both coordinates of `p` lie within `max_coord`.
pub open spec fn point_bounded(p: OutlinePoint) -> bool {
    point_in_range(point_view(p))
}

/// Every point lies within `max_coord`.
pub open spec fn pts_bounded(s: Seq<(bool, int, int)>) -> bool {
    forall|i: int| 0 <= i < s.len() ==> #[trigger] point_in_range(s[i])
}

/// The state before the first point: flags at `flag_off`, x and y
/// coordinates at `x_off` and `y_off`, the pen at the origin.
pub open spec fn start_state(flag_off: int, x_off: int, y_off: int) -> DecodeState {
    DecodeState { flag_pos: flag_off, reps: 0, flag: 0, x_pos: x_off, y_pos: y_off, x: 0, y: 0 }
}

/// Decodes `n` points whose flags, x and y coordinates start at `flag_off`,
/// `x_off` and `y_off`; `Invalid` when the data runs out.
fn decode_points(data: &[u8], n: usize, flag_off: usize, x_off: usize, y_off: usize) -> (r: Result<Vec<OutlinePoint>>)
    requires
        n <= 0x10000,
    ensures
        match points_from(data@, start_state(flag_off as int, x_off as int, y_off as int), n as int) {
            None => r == Err::<Vec<OutlinePoint>, Error>(Error::Invalid),
            Some(ps) => r is Ok && view_points(r->Ok_0@) == ps,
        },
        r is Ok ==> pts_bounded(view_points(r->Ok_0@)),
{
    let ghost d = data@;
    let ghost s0 = start_state(flag_off as int, x_off as int, y_off as int);
    let len = data.len();
    let mut out: Vec<OutlinePoint> = Vec::new();
    let mut flag_pos = flag_off;
    let mut reps: usize = 0;
    let mut flag: u8 = 0;
    let mut x_pos = x_off;
    let mut y_pos = y_off;
    let mut x: i64 = 0;
    let mut y: i64 = 0;
    let mut k: usize = 0;
    while k < n
        invariant
            d == data@,
            s0 == start_state(flag_off as int, x_off as int, y_off as int),
            len == d.len(),
            n <= 0x10000,
            k <= n,
            out@.len() == k,
            -coord_bound(k as int) <= x <= coord_bound(k as int),
            -coord_bound(k as int) <= y <= coord_bound(k as int),
            reps <= 0xff,
            forall|j: int| 0 <= j < k ==> point_bounded(#[trigger] out@[j]),
            points_from(d, s0, n as int) == match points_from(
                d,
                DecodeState { flag_pos: flag_pos as int, reps: reps as int, flag, x_pos: x_pos as int, y_pos: y_pos as int, x: x as int, y: y as int },
                n - k,
            ) {
                None => None,
                Some(rest) => Some(view_points(out@) + rest),
            },
        decreases n - k,
    {
        let ghost st = DecodeState { flag_pos: flag_pos as int, reps: reps as int, flag, x_pos: x_pos as int, y_pos: y_pos as int, x: x as int, y: y as int };
        let ghost before = view_points(out@);
        if reps > 0 {
            reps = reps - 1;
        } else {
            match get_u8(data, flag_pos) {
                Ok(f) => {
                    flag = f;
                    if f & 0x08 == 0 {
                        flag_pos = flag_pos + 1;
                    } else {
                        match get_u8(data, flag_pos + 1) {
                            Ok(c) => {
                                reps = c as usize;
                                flag_pos = flag_pos + 2;
                            },
                            Err(_) => {
                                assert(next_flag(d, st) is None);
                                assert(points_from(d, st, n - k) is None);
                                return Err(Error::Invalid);
                            },
                        }
                    }
                },
                Err(_) => {
                    assert(next_flag(d, st) is None);
                    assert(points_from(d, st, n - k) is None);
                    return Err(Error::Invalid);
                },
            }
        }
        match read_coord(data, flag & 0x02 != 0, flag & 0x10 != 0, x_pos, x, Ghost(k as int)) {
            Some((p, v)) => {
                x_pos = p;
                x = v;
            },
            None => return Err(Error::Invalid),
        }
        match read_coord(data, flag & 0x04 != 0, flag & 0x20 != 0, y_pos, y, Ghost(k as int)) {
            Some((p, v)) => {
                y_pos = p;
                y = v;
            },
            None => return Err(Error::Invalid),
        }
        let pt = OutlinePoint { on_curve: flag & 0x01 != 0, x, y };
        out.push(pt);
        k = k + 1;
        proof {
            let st2 = DecodeState { flag_pos: flag_pos as int, reps: reps as int, flag, x_pos: x_pos as int, y_pos: y_pos as int, x: x as int, y: y as int };
            assert(step(d, st) == Some((st2, point_view(pt))));
            let after = view_points(out@);
            assert(after =~= before.push(point_view(pt)));
            match points_from(d, st2, n - k) {
                Some(rest2) => {
                    assert(before + (seq![point_view(pt)] + rest2) =~= after + rest2);
                },
                None => {},
            }
        }
    }
    proof {
        assert(view_points(out@) + Seq::<(bool, int, int)>::empty() =~= view_points(out@));
        assert forall|j: int| 0 <= j < out@.len() implies point_in_range(#[trigger] view_points(out@)[j]) by {
            assert(point_bounded(out@[j]));
        }
    }
    Ok(out)
}

/// A point of a path, in half font units: twice the font-unit coordinates,
/// so that the midpoint of two outline points is exact.
#[derive(Clone, Copy, Debug, PartialEq, Eq, Structural)]
pub struct Point {
    /// Twice the x coordinate in font units.
    pub x: i64,
    /// Twice the y coordinate in font units.
    pub y: i64,
}

/// One operation of a path.
#[derive(Clone, Copy, Debug, PartialEq, Eq, Structural)]
pub enum PathOp {
    /// Starts a contour at the point.
    Move(Point),
    /// A straight line to the point.
    Line(Point),
    /// A quadratic Bézier curve through the control point to the end point.
    QuadBez(Point, Point),
}

/// The path point of the outline point `p`.
pub open spec fn on_pt(p: (bool, int, int)) -> Point {
    Point { x: (2 * p.1) as i64, y: (2 * p.2) as i64 }
}

/// The path point halfway between the outline points `a` and `b`.
pub open spec fn mid_pt(a: (bool, int, int), b: (bool, int, int)) -> Point {
    Point { x: (a.1 + b.1) as i64, y: (a.2 + b.2) as i64 }
}

/// The operations after the first point of a contour that starts at `start`:
/// `rest` are the points left and `last_off` the pending control point.
/// Two control points in a row imply an on-curve point halfway between them;
/// the contour closes back to `start`.
pub open spec fn contour_body(
    rest: Seq<(bool, int, int)>,
    last_off: Option<(bool, int, int)>,
    start: (bool, int, int),
) -> Seq<PathOp>
    decreases rest.len(),
{
    if rest.len() == 0 {
        match last_off {
            Some(c) => seq![PathOp::QuadBez(on_pt(c), on_pt(start))],
            None => seq![PathOp::Line(on_pt(start))],
        }
    } else {
        let p = rest[0];
        let tail = rest.drop_first();
        match last_off {
            None => if p.0 {
                seq![PathOp::Line(on_pt(p))] + contour_body(tail, None, start)
            } else {
                contour_body(tail, Some(p), start)
            },
            Some(c) => if p.0 {
                seq![PathOp::QuadBez(on_pt(c), on_pt(p))] + contour_body(tail, None, start)
            } else {
                seq![PathOp::QuadBez(on_pt(c), mid_pt(c, p))] + contour_body(tail, Some(p), start)
            },
        }
    }
}

/// The operations of one contour; `Invalid` when it is empty or its first
/// point is off the curve.
pub open spec fn contour_path(pts: Seq<(bool, int, int)>) -> Result<Seq<PathOp>> {
    if pts.len() == 0 || !pts[0].0 {
        Err(Error::Invalid)
    } else {
        Ok(seq![PathOp::Move(on_pt(pts[0]))] + contour_body(pts.drop_first(), None, pts[0]))
    }
}

/// The pending control point as a triple.
pub open spec fn off_view(o: Option<OutlinePoint>) -> Option<(bool, int, int)> {
    match o {
        Some(c) => Some(point_view(c)),
        None => None,
    }
}

/// Appends the operations of the contour of points `start..=end` to `out`.
fn push_contour(pts: &Vec<OutlinePoint>, start: usize, end: usize, out: &mut Vec<PathOp>) -> (r: Result<()>)
    requires
        start <= end < pts@.len(),
        pts_bounded(view_points(pts@)),
    ensures
        match contour_path(view_points(pts@).subrange(start as int, end + 1)) {
            Ok(ops) => r is Ok && final(out)@ == old(out)@ + ops,
            Err(e) => r == Err::<(), Error>(e),
        },
{
    let ghost v = view_points(pts@);
    let ghost cpts = v.subrange(start as int, end + 1);
    let n = pts.len();
    let p0 = pts[start];
    assert(cpts[0] == v[start as int]);
    assert(point_in_range(v[start as int]));
    if !p0.on_curve {
        return Err(Error::Invalid);
    }
    let ghost out0 = out@;
    let ghost s0 = v[start as int];
    let first = Point { x: 2 * p0.x, y: 2 * p0.y };
    out.push(PathOp::Move(first));
    let mut last_off: Option<OutlinePoint> = None;
    let mut i: usize = start + 1;
    assert(v.subrange(i as int, end + 1) =~= cpts.drop_first());
    while i <= end
        invariant
            v == view_points(pts@),
            pts_bounded(v),
            start < i <= end + 1,
            end < pts@.len(),
            n == pts@.len(),
            s0 == v[start as int],
            p0 == pts@[start as int],
            first == on_pt(s0),
            match last_off {
                Some(c) => point_bounded(c),
                None => true,
            },
            out0 + seq![PathOp::Move(on_pt(s0))] + contour_body(cpts.drop_first(), None, s0)
                == out@ + contour_body(v.subrange(i as int, end + 1), off_view(last_off), s0),
            cpts == v.subrange(start as int, end + 1),
        decreases end + 1 - i,
    {
        let p = pts[i];
        let ghost pv = v[i as int];
        assert(point_in_range(pv));
        let ghost rest = v.subrange(i as int, end + 1);
        assert(rest[0] == pv);
        assert(rest.drop_first() =~= v.subrange(i + 1, end + 1));
        let ghost before = out@;
        match last_off {
            None => {
                if p.on_curve {
                    out.push(PathOp::Line(Point { x: 2 * p.x, y: 2 * p.y }));
                } else {
                    last_off = Some(p);
                }
            },
            Some(c) => {
                if p.on_curve {
                    out.push(PathOp::QuadBez(Point { x: 2 * c.x, y: 2 * c.y }, Point { x: 2 * p.x, y: 2 * p.y }));
                    last_off = None;
                } else {
                    out.push(PathOp::QuadBez(Point { x: 2 * c.x, y: 2 * c.y }, Point { x: c.x + p.x, y: c.y + p.y }));
                    last_off = Some(p);
                }
            },
        }
        i = i + 1;
        proof {
            let tail = v.subrange(i as int, end + 1);
            let lv = off_view(last_off);
            if out@.len() == before.len() {
                assert(out@ == before);
            } else {
                assert(out@ == before + seq![out@.last()]) by {
                    assert(out@ =~= before + seq![out@.last()]);
                }
                assert(before + (seq![out@.last()] + contour_body(tail, lv, s0)) =~= out@ + contour_body(tail, lv, s0));
            }
        }
    }
    let ghost before = out@;
    match last_off {
        Some(c) => out.push(PathOp::QuadBez(Point { x: 2 * c.x, y: 2 * c.y }, first)),
        None => out.push(PathOp::Line(first)),
    }
    proof {
        assert(v.subrange(i as int, end + 1).len() == 0);
        assert(out@ =~= before + contour_body(v.subrange(i as int, end + 1), off_view(last_off), s0));
        assert(out0 + seq![PathOp::Move(on_pt(s0))] + contour_body(cpts.drop_first(), None, s0)
            =~= out0 + (seq![PathOp::Move(on_pt(s0))] + contour_body(cpts.drop_first(), None, s0)));
    }
    Ok(())
}

/// The operations of the contours `c..` of `pts`, the first of them
/// starting at point `start`; `ends` holds each contour's last point.
/// `Invalid` when a contour is empty or runs past the points.
pub open spec fn contours_path(pts: Seq<(bool, int, int)>, ends: Seq<int>, c: int, start: int) -> Result<Seq<PathOp>>
    decreases ends.len() - c,
{
    if c >= ends.len() {
        Ok(Seq::empty())
    } else if ends[c] < start || ends[c] >= pts.len() {
        Err(Error::Invalid)
    } else {
        match contour_path(pts.subrange(start, ends[c] + 1)) {
            Err(e) => Err(e),
            Ok(ops) => match contours_path(pts, ends, c + 1, ends[c] + 1) {
                Err(e) => Err(e),
                Ok(rest) => Ok(ops + rest),
            },
        }
    }
}

/// The last point of each of the `nc` contours of the glyph body `d`.
pub open spec fn contour_ends(d: Seq<u8>, nc: int) -> Seq<int> {
    Seq::new(nc as nat, |i: int| u16_at(d, 2 * i))
}

/// Number of points of the glyph body `d` with `nc > 0` contours.
pub open spec fn glyph_num_points(d: Seq<u8>, nc: int) -> int {
    u16_at(d, 2 * (nc - 1)) + 1
}

/// Position of the flags of the glyph body `d` with `nc` contours.
pub open spec fn glyph_flags_off(d: Seq<u8>, nc: int) -> int {
    2 * nc + 2 + u16_at(d, 2 * nc)
}

/// The path of a simple glyph with `nc` contours whose body (the bytes after
/// its header) is `d`, in half font units.
pub open spec fn outline_of(d: Seq<u8>, nc: int) -> Result<Seq<PathOp>> {
    if nc == 0 {
        Ok(Seq::empty())
    } else if !fits(d, 2 * nc, 2) || glyph_flags_off(d, nc) > d.len() {
        Err(Error::Invalid)
    } else {
        let np = glyph_num_points(d, nc);
        let foff = glyph_flags_off(d, nc);
        match coord_offsets(d, foff, np) {
            Err(e) => Err(e),
            Ok((xo, yo)) => match points_from(d, start_state(foff, xo, yo), np) {
                None => Err(Error::Invalid),
                Some(pts) => contours_path(pts, contour_ends(d, nc), 0, 0),
            },
        }
    }
}

/// A glyph's path depends on its contour count and bytes alone: two glyphs
/// that agree on them decode to the same path, so decoding the same glyph
/// twice gives the same operations.
pub proof fn lemma_outline_depends_on_bytes(a: SimpleGlyph, b: SimpleGlyph)
    requires
        a.num_contours == b.num_contours,
        a.data@ == b.data@,
    ensures
        outline_of(a.data@, a.num_contours as int) == outline_of(b.data@, b.num_contours as int),
{
}

impl<'a> SimpleGlyph<'a> {
    /// The glyph's path in half font units: each contour starts with `Move`,
    /// continues with lines and quadratic curves, and closes at its start.
    /// `Invalid` when the body is malformed or a contour starts off the curve.
    pub fn outline(&self) -> (r: Result<Vec<PathOp>>)
        ensures
            match outline_of(self.data@, self.num_contours as int) {
                Ok(ops) => r is Ok && r->Ok_0@ == ops,
                Err(e) => r == Err::<Vec<PathOp>, Error>(e),
            },
    {
        let d = self.data;
        let len = d.len();
        let nc = self.num_contours as usize;
        let mut out: Vec<PathOp> = Vec::new();
        if nc == 0 {
            return Ok(out);
        }
        let num_insn = match get_u16(d, nc * 2) {
            Ok(v) => v as usize,
            Err(e) => {
                assert(!fits(d@, 2 * nc, 2));
                return Err(e);
            },
        };
        let np = get_u16_unchecked(d, (nc - 1) * 2) as usize + 1;
        let flag_off = nc * 2 + 2 + num_insn;
        assert(np == glyph_num_points(d@, nc as int));
        assert(flag_off == glyph_flags_off(d@, nc as int));
        if flag_off > len {
            return Err(Error::Invalid);
        }
        let (x_off, y_off) = match get_ttglyph_offsets(d, np, flag_off) {
            Ok(o) => o,
            Err(e) => return Err(e),
        };
        let pts = match decode_points(d, np, flag_off, x_off, y_off) {
            Ok(p) => p,
            Err(e) => return Err(e),
        };
        let ghost v = view_points(pts@);
        let ghost ends = contour_ends(d@, nc as int);
        assert(outline_of(d@, nc as int) == contours_path(v, ends, 0, 0));
        let mut c: usize = 0;
        let mut start: usize = 0;
        while c < nc
            invariant
                v == view_points(pts@),
                pts_bounded(v),
                d@ == self.data@,
                nc == self.num_contours,
                ends == contour_ends(d@, nc as int),
                outline_of(d@, nc as int) == contours_path(v, ends, 0, 0),
                fits(d@, 2 * nc, 2),
                c <= nc,
                contours_path(v, ends, 0, 0) == match contours_path(v, ends, c as int, start as int) {
                    Ok(rest) => Ok::<Seq<PathOp>, Error>(out@ + rest),
                    Err(e) => Err(e),
                },
            decreases nc - c,
        {
            let end = get_u16_unchecked(d, c * 2) as usize;
            assert(end == ends[c as int]);
            if end < start || end >= pts.len() {
                assert(contours_path(v, ends, c as int, start as int) == Err::<Seq<PathOp>, Error>(Error::Invalid));
                return Err(Error::Invalid);
            }
            let ghost before = out@;
            match push_contour(&pts, start, end, &mut out) {
                Ok(()) => {},
                Err(e) => return Err(e),
            }
            proof {
                let ops = contour_path(v.subrange(start as int, end + 1))->Ok_0;
                match contours_path(v, ends, c + 1, end + 1) {
                    Ok(rest) => {
                        assert(before + (ops + rest) =~= out@ + rest);
                    },
                    Err(_) => {},
                }
            }
            start = end + 1;
            c = c + 1;
        }
        proof {
            assert(out@ + Seq::<PathOp>::empty() =~= out@);
        }
        Ok(out)
    }
}

impl<'a> TTGlyph<'a> {
    /// The glyph's path in half font units (see `SimpleGlyph::outline`);
    /// `Unimplemented("composite glyphs")` for a composite glyph.
    pub fn outline(&self) -> (r: Result<Vec<PathOp>>)
        ensures
            match self {
                TTGlyph::Simple(s) => match outline_of(s.data@, s.num_contours as int) {
                    Ok(ops) => r is Ok && r->Ok_0@ == ops,
                    Err(e) => r == Err::<Vec<PathOp>, Error>(e),
                },
                TTGlyph::Composite(_) => r matches Err(Error::Unimplemented(m)) && m@ == "composite glyphs"@,
            },
    {
        match self {
            TTGlyph::Simple(s) => s.outline(),
            TTGlyph::Composite(_) => {
                let m = "composite glyphs".to_string();
                proof {
                    vstd::string::to_string_from_display_ensures_for_str("composite glyphs", m);
                }
                Err(Error::Unimplemented(m))
            },
        }
    }
}

} // verus!
