use vstd::prelude::*;

use crate::drawing::canvas::{in_canvas, paint, writer, Canvas};
use crate::drawing::canvas::{draw_if_in_bounds, lemma_paint_snoc, ImgBuf};
use crate::entity::definitions::Rgba8;
use crate::operation::pixelops::{interpolate, interpolate_spec, Weight};

verus! {

/// Absolute value over the mathematical integers.
pub open spec fn iabs(v: int) -> int {
    if v < 0 {
        -v
    } else {
        v
    }
}

/// Consecutive coordinates differ by at most one unit in each axis.
pub open spec fn eight_connected(pts: Seq<(int, int)>) -> bool {
    forall|j: int| #![trigger pts[j]]
        0 <= j < pts.len() - 1 ==> iabs(pts[j + 1].0 - pts[j].0) <= 1 && iabs(pts[j + 1].1 - pts[j].1) <= 1
}

/// A walk coordinate mapped back to the caller's axes: a steep walk ran with
/// the x and y roles swapped.
pub open spec fn bres_out(x: int, y: int, steep: bool) -> (int, int) {
    if steep {
        (y, x)
    } else {
        (x, y)
    }
}

/// The error-accumulator walk, one grid point per major-axis step. `err`
/// carries twice the classical accumulator, so halves never appear: it starts
/// at the major extent, loses the doubled minor extent each step, and wins
/// the doubled major extent back whenever it dips below zero, which is when
/// the minor axis advances one unit.
pub open spec fn bres_walk(
    x: int,
    y: int,
    err: int,
    end_x: int,
    dx2: int,
    dy2: int,
    ystep: int,
    steep: bool,
) -> Seq<(int, int)>
    decreases (if x <= end_x { end_x + 1 - x } else { 0 }),
{
    if x > end_x {
        Seq::empty()
    } else {
        let e = err - dy2;
        if e < 0 {
            seq![bres_out(x, y, steep)] + bres_walk(x + 1, y + ystep, e + dx2, end_x, dx2, dy2, ystep, steep)
        } else {
            seq![bres_out(x, y, steep)] + bres_walk(x + 1, y, e, end_x, dx2, dy2, ystep, steep)
        }
    }
}

/// Endpoint normalization: when the line is steep the x and y roles swap, so
/// the walk always follows the axis of greater extent; the walk then runs in
/// increasing order along that axis.
pub open spec fn bres_norm(start: (int, int), end: (int, int)) -> ((int, int), (int, int), bool) {
    let steep = iabs(end.1 - start.1) > iabs(end.0 - start.0);
    let p = if steep { (start.1, start.0) } else { start };
    let q = if steep { (end.1, end.0) } else { end };
    if p.0 > q.0 {
        (q, p, steep)
    } else {
        (p, q, steep)
    }
}

/// The full coordinate sequence of the line between the two endpoints, both
/// inclusive.
pub open spec fn bres_pts(start: (int, int), end: (int, int)) -> Seq<(int, int)> {
    let (s, e, steep) = bres_norm(start, end);
    bres_walk(
        s.0,
        s.1,
        e.0 - s.0,
        e.0,
        2 * (e.0 - s.0),
        2 * iabs(e.1 - s.1),
        if s.1 < e.1 { 1 } else { -1 },
        steep,
    )
}

/// A lazy, restartable iterator over the line's grid coordinates.
pub struct BresenhamLineIter {
    dx2: i64,
    dy2: i64,
    x: i64,
    y: i64,
    error: i64,
    end_x: i64,
    is_steep: bool,
    y_step: i64,
    norm: Ghost<((int, int), (int, int))>,
}

/// While the walk still has the major axis to cover, the minor axis has
/// advanced at most its full extent.
proof fn lemma_minor_steps_bound(dx: int, dy: int, i: int, k: int, e: int)
    by (nonlinear_arith)
    requires
        0 <= dy <= dx,
        1 <= i <= dx,
        0 <= k,
        e == dx + 2 * dx * k - 2 * dy * i,
        e <= 2 * dx,
    ensures
        k <= dy,
{
}

impl BresenhamLineIter {
    /// The iterator state describes a walk between the remembered normalized
    /// endpoints: the doubled extents match, the walk has not run past its
    /// end, the error accumulator sits in its window, and the minor axis has
    /// advanced between zero times and one step past its extent.
    /// The minor-axis progress of the walk: how far `y` has moved from the
    /// normalized start, in the walk's own direction.
    pub closed spec fn minor_progress(&self) -> int {
        let ((sx, sy), (ex, ey)) = self.norm@;
        if sy < ey {
            self.y - sy
        } else {
            sy - self.y
        }
    }

    pub closed spec fn wf(&self) -> bool {
        let ((sx, sy), (ex, ey)) = self.norm@;
        let dx = ex - sx;
        let dy = iabs(ey - sy);
        let i = self.x - sx;
        let k = self.minor_progress();
        &&& i32::MIN <= sx <= i32::MAX
        &&& i32::MIN <= sy <= i32::MAX
        &&& i32::MIN <= ex <= i32::MAX
        &&& i32::MIN <= ey <= i32::MAX
        &&& sx <= ex
        &&& 0 <= dy <= dx
        &&& self.dx2 == 2 * dx
        &&& self.dy2 == 2 * dy
        &&& self.end_x == ex
        &&& self.y_step == (if sy < ey { 1int } else { -1int })
        &&& 0 <= i <= dx + 1
        &&& 0 <= k <= dy + 1
        &&& (self.x <= self.end_x ==> k <= dy)
        &&& self.error == dx + self.dx2 * k - self.dy2 * i
        &&& -self.dy2 <= self.error <= self.dx2
    }

    /// The coordinates the iterator has yet to produce.
    pub closed spec fn pts(&self) -> Seq<(int, int)> {
        bres_walk(
            self.x as int,
            self.y as int,
            self.error as int,
            self.end_x as int,
            self.dx2 as int,
            self.dy2 as int,
            self.y_step as int,
            self.is_steep,
        )
    }

    pub fn new(start: (i32, i32), end: (i32, i32)) -> (r: BresenhamLineIter)
        ensures
            r.wf(),
            r.pts() == bres_pts((start.0 as int, start.1 as int), (end.0 as int, end.1 as int)),
    {
        let mut x0 = start.0 as i64;
        let mut y0 = start.1 as i64;
        let mut x1 = end.0 as i64;
        let mut y1 = end.1 as i64;

        let ady = if y1 >= y0 { y1 - y0 } else { y0 - y1 };
        let adx = if x1 >= x0 { x1 - x0 } else { x0 - x1 };
        let is_steep = ady > adx;
        if is_steep {
            let t = x0;
            x0 = y0;
            y0 = t;
            let u = x1;
            x1 = y1;
            y1 = u;
        }

        if x0 > x1 {
            let t = x0;
            x0 = x1;
            x1 = t;
            let u = y0;
            y0 = y1;
            y1 = u;
        }

        let dx = x1 - x0;
        let dy = if y1 >= y0 { y1 - y0 } else { y0 - y1 };

        let r = BresenhamLineIter {
            dx2: 2 * dx,
            dy2: 2 * dy,
            x: x0,
            y: y0,
            error: dx,
            end_x: x1,
            is_steep,
            y_step: if y0 < y1 { 1 } else { -1 },
            norm: Ghost(((x0 as int, y0 as int), (x1 as int, y1 as int))),
        };
        proof {
            assert(r.minor_progress() == 0);
            assert(2 * (dx as int) * 0 == 0) by (nonlinear_arith);
            assert(2 * (dy as int) * 0 == 0) by (nonlinear_arith);
        }
        r
    }

    /// The next grid coordinate of the line, or `None` once both endpoints
    /// have been covered.
    pub fn next(&mut self) -> (r: Option<(i32, i32)>)
        requires
            old(self).wf(),
        ensures
            final(self).wf(),
            old(self).pts().len() == 0 ==> r is None && *final(self) == *old(self),
            old(self).pts().len() > 0 ==> {
                &&& r matches Some(p) && (p.0 as int, p.1 as int) == old(self).pts()[0]
                &&& final(self).pts() == old(self).pts().subrange(1, old(self).pts().len() as int)
            },
    {
        if self.x > self.end_x {
            None
        } else {
            let ghost ((sx, sy), (ex, ey)) = self.norm@;
            let ret = if self.is_steep {
                (self.y as i32, self.x as i32)
            } else {
                (self.x as i32, self.y as i32)
            };
            proof {
                assert((if self.is_steep { (self.y as int, self.x as int) } else { (self.x as int, self.y as int) })
                    == bres_out(self.x as int, self.y as int, self.is_steep));
            }
            self.x = self.x + 1;
            self.error = self.error - self.dy2;
            if self.error < 0 {
                self.y = self.y + self.y_step;
                self.error = self.error + self.dx2;
            }
            proof {
                let dx = ex - sx;
                let dy = iabs(ey - sy);
                let i0 = old(self).x - sx;
                let k0 = old(self).minor_progress();
                let i1 = self.x - sx;
                let k1 = self.minor_progress();
                assert(i1 == i0 + 1);
                assert(2 * dy * i1 == 2 * dy * i0 + 2 * dy) by (nonlinear_arith)
                    requires
                        i1 == i0 + 1,
                ;
                if old(self).error - old(self).dy2 < 0 {
                    assert(k1 == k0 + 1);
                    assert(2 * dx * k1 == 2 * dx * k0 + 2 * dx) by (nonlinear_arith)
                        requires
                            k1 == k0 + 1,
                    ;
                } else {
                    assert(k1 == k0);
                }
                assert(self.error == dx + 2 * dx * k1 - 2 * dy * i1);
                if self.x <= self.end_x {
                    lemma_minor_steps_bound(dx, dy, i1, k1, self.error as int);
                }
                assert(old(self).pts() == seq![
                    bres_out(old(self).x as int, old(self).y as int, old(self).is_steep),
                ] + final(self).pts());
                assert(final(self).pts() =~= old(self).pts().subrange(
                    1,
                    old(self).pts().len() as int,
                ));
            }
            Some(ret)
        }
    }
}

/// The coordinate sequence covers the major axis once per unit, endpoints
/// included.
proof fn lemma_walk_len(x: int, y: int, err: int, end_x: int, dx2: int, dy2: int, ystep: int, steep: bool)
    ensures
        bres_walk(x, y, err, end_x, dx2, dy2, ystep, steep).len() == (if x > end_x {
            0int
        } else {
            end_x + 1 - x
        }),
    decreases (if x <= end_x { end_x + 1 - x } else { 0 }),
{
    if x <= end_x {
        let e = err - dy2;
        if e < 0 {
            lemma_walk_len(x + 1, y + ystep, e + dx2, end_x, dx2, dy2, ystep, steep);
        } else {
            lemma_walk_len(x + 1, y, e, end_x, dx2, dy2, ystep, steep);
        }
    }
}

/// Every pair of consecutive walk coordinates differs by at most one unit in
/// each axis.
proof fn lemma_walk_connected(
    x: int,
    y: int,
    err: int,
    end_x: int,
    dx2: int,
    dy2: int,
    ystep: int,
    steep: bool,
)
    requires
        ystep == 1 || ystep == -1,
    ensures
        eight_connected(bres_walk(x, y, err, end_x, dx2, dy2, ystep, steep)),
    decreases (if x <= end_x { end_x + 1 - x } else { 0 }),
{
    if x <= end_x {
        let pts = bres_walk(x, y, err, end_x, dx2, dy2, ystep, steep);
        let e = err - dy2;
        let y2: int = if e < 0 { y + ystep } else { y };
        let e2: int = if e < 0 { e + dx2 } else { e };
        let rest = bres_walk(x + 1, y2, e2, end_x, dx2, dy2, ystep, steep);
        lemma_walk_connected(x + 1, y2, e2, end_x, dx2, dy2, ystep, steep);
        assert(pts == seq![bres_out(x, y, steep)] + rest);
        assert forall|j: int| #![trigger pts[j]]
            0 <= j < pts.len() - 1 implies iabs(pts[j + 1].0 - pts[j].0) <= 1 && iabs(
            pts[j + 1].1 - pts[j].1,
        ) <= 1 by {
            if j == 0 {
                assert(x + 1 <= end_x);
                assert(rest[0] == bres_out(x + 1, y2, steep));
            } else {
                assert(pts[j] == rest[j - 1]);
                assert(pts[j + 1] == rest[j]);
            }
        }
    }
}

/// The line's coordinate sequence has length `max(|dx|, |dy|) + 1`.
pub proof fn lemma_bresenham_length(a: (int, int), b: (int, int))
    ensures
        bres_pts(a, b).len() == 1 + vstd::math::max(
            iabs(b.0 - a.0),
            iabs(b.1 - a.1),
        ),
{
    let (s, e, steep) = bres_norm(a, b);
    lemma_walk_len(
        s.0,
        s.1,
        e.0 - s.0,
        e.0,
        2 * (e.0 - s.0),
        2 * iabs(e.1 - s.1),
        if s.1 < e.1 { 1int } else { -1int },
        steep,
    );
}

/// The line's coordinate sequence is 8-connected: consecutive coordinates
/// differ by at most one unit in each axis.
pub proof fn lemma_bresenham_connected(a: (int, int), b: (int, int))
    ensures
        eight_connected(bres_pts(a, b)),
{
    let (s, e, steep) = bres_norm(a, b);
    lemma_walk_connected(
        s.0,
        s.1,
        e.0 - s.0,
        e.0,
        2 * (e.0 - s.0),
        2 * iabs(e.1 - s.1),
        if s.1 < e.1 { 1int } else { -1int },
        steep,
    );
}

/// The line from `a` to `b` runs through exactly the coordinates of the line
/// from `b` to `a`, in the same order: normalization erases the argument
/// order.
pub proof fn lemma_bresenham_symmetric(a: (int, int), b: (int, int))
    ensures
        bres_pts(a, b) == bres_pts(b, a),
{
    let (s1, e1, st1) = bres_norm(a, b);
    let (s2, e2, st2) = bres_norm(b, a);
    assert(st1 == st2);
    if st1 {
        if a.1 == b.1 {
            assert(iabs(b.1 - a.1) == 0);
        }
    } else {
        if a.0 == b.0 {
            assert(iabs(b.0 - a.0) == 0);
            assert(iabs(b.1 - a.1) <= 0);
            assert(a.1 == b.1);
        }
    }
    assert(s1 == s2 && e1 == e2);
}

/// Drawing a line yields the same pixel map whichever endpoint comes first.
pub proof fn lemma_line_draw_symmetric<P>(
    img: Map<(int, int), P>,
    w: int,
    h: int,
    a: (int, int),
    b: (int, int),
    c: P,
    wf: spec_fn(P, P) -> P,
)
    ensures
        paint(img, w, h, bres_pts(a, b), c, wf) == paint(img, w, h, bres_pts(b, a), c, wf),
{
    lemma_bresenham_symmetric(a, b);
}

/// Draw the line segment between the two endpoints: every coordinate of the
/// Bresenham walk that lies on the canvas is written; the rest of the canvas
/// is untouched.
pub fn draw_line_segment_mut<C: Canvas>(
    canvas: &mut C,
    start: (i32, i32),
    end: (i32, i32),
    color: C::Pixel,
)
    ensures
        final(canvas).wd() == old(canvas).wd(),
        final(canvas).hgt() == old(canvas).hgt(),
        final(canvas).img() == paint(
            old(canvas).img(),
            old(canvas).wd() as int,
            old(canvas).hgt() as int,
            bres_pts((start.0 as int, start.1 as int), (end.0 as int, end.1 as int)),
            color,
            writer::<C>(),
        ),
{
    let ghost all = bres_pts((start.0 as int, start.1 as int), (end.0 as int, end.1 as int));
    let ghost w = old(canvas).wd() as int;
    let ghost h = old(canvas).hgt() as int;
    let ghost img0 = old(canvas).img();
    let mut iter = BresenhamLineIter::new(start, end);
    let ghost mut done: Seq<(int, int)> = Seq::empty();
    proof {
        assert(done + iter.pts() =~= all);
        assert(paint(img0, w, h, done, color, writer::<C>()) == img0);
    }
    loop
        invariant
            iter.wf(),
            canvas.wd() as int == w,
            canvas.hgt() as int == h,
            done + iter.pts() == all,
            canvas.img() == paint(img0, w, h, done, color, writer::<C>()),
        ensures
            canvas.wd() as int == w,
            canvas.hgt() as int == h,
            canvas.img() == paint(img0, w, h, all, color, writer::<C>()),
        decreases iter.pts().len(),
    {
        let ghost pre = iter.pts();
        match iter.next() {
            Some(p) => {
                draw_if_in_bounds(canvas, p.0 as i64, p.1 as i64, color);
                proof {
                    assert(((p.0 as i64) as int, (p.1 as i64) as int) == pre[0]);
                    lemma_paint_snoc(img0, w, h, done, pre[0], color, writer::<C>());
                    done = done.push(pre[0]);
                    assert(done + iter.pts() =~= all);
                }
            },
            None => {
                proof {
                    assert(done + iter.pts() =~= done);
                }
                break ;
            },
        }
    }
}

/// The grid points of the horizontal run from `xa` to `xb` at height `y`,
/// left to right; empty when `xb < xa`.
pub open spec fn hseg(xa: int, xb: int, y: int) -> Seq<(int, int)>
    decreases (if xa <= xb { xb + 1 - xa } else { 0 }),
{
    if xa > xb {
        Seq::empty()
    } else {
        seq![(xa, y)] + hseg(xa + 1, xb, y)
    }
}

/// On a horizontal walk the error accumulator never dips, so the walk is the
/// plain run along the row.
proof fn lemma_walk_horizontal(x: int, y: int, err: int, end_x: int, dx2: int, ystep: int)
    requires
        err >= 0,
    ensures
        bres_walk(x, y, err, end_x, dx2, 0, ystep, false) == hseg(x, end_x, y),
    decreases (if x <= end_x { end_x + 1 - x } else { 0 }),
{
    if x <= end_x {
        lemma_walk_horizontal(x + 1, y, err, end_x, dx2, ystep);
    }
}

/// A horizontal line rasterizes to the plain run between its endpoints.
pub proof fn lemma_bresenham_horizontal(xa: int, xb: int, y: int)
    requires
        xa <= xb,
    ensures
        bres_pts((xa, y), (xb, y)) == hseg(xa, xb, y),
        bres_pts((xb, y), (xa, y)) == hseg(xa, xb, y),
{
    lemma_walk_horizontal(xa, y, xb - xa, xb, 2 * (xb - xa), -1);
    lemma_walk_horizontal(xa, y, xb - xa, xb, 2 * (xb - xa), 1);
    lemma_bresenham_symmetric((xa, y), (xb, y));
}

/// A horizontal run grows on the right one cell at a time.
pub proof fn lemma_hseg_snoc(xa: int, xb: int, y: int)
    requires
        xa <= xb + 1,
    ensures
        hseg(xa, xb + 1, y) == hseg(xa, xb, y).push((xb + 1, y)),
    decreases (if xa <= xb { xb + 1 - xa } else { 0 }),
{
    if xa <= xb {
        lemma_hseg_snoc(xa + 1, xb, y);
        assert(hseg(xa, xb + 1, y) == seq![(xa, y)] + hseg(xa + 1, xb + 1, y));
        assert(hseg(xa, xb, y).push((xb + 1, y)) =~= seq![(xa, y)] + hseg(xa + 1, xb, y).push(
            (xb + 1, y),
        ));
    } else {
        assert(hseg(xa, xb + 1, y) == seq![(xa, y)] + hseg(xa + 1, xb + 1, y));
        assert(hseg(xa + 1, xb + 1, y) == Seq::<(int, int)>::empty());
        assert(hseg(xa, xb, y) == Seq::<(int, int)>::empty());
        assert(hseg(xa, xb + 1, y) =~= hseg(xa, xb, y).push((xb + 1, y)));
    }
}

/// Draw the horizontal run between the two column bounds at height `y`,
/// given in either order: every cell of the run that lies on the canvas is
/// written, and nothing else changes.
pub fn draw_hline_mut<C: Canvas>(canvas: &mut C, xa: i64, xb: i64, y: i64, color: C::Pixel)
    requires
        -0x4000_0000_0000_0000 <= xa <= 0x4000_0000_0000_0000,
        -0x4000_0000_0000_0000 <= xb <= 0x4000_0000_0000_0000,
    ensures
        final(canvas).wd() == old(canvas).wd(),
        final(canvas).hgt() == old(canvas).hgt(),
        final(canvas).img() == paint(
            old(canvas).img(),
            old(canvas).wd() as int,
            old(canvas).hgt() as int,
            hseg(
                if xa <= xb { xa as int } else { xb as int },
                if xa <= xb { xb as int } else { xa as int },
                y as int,
            ),
            color,
            writer::<C>(),
        ),
{
    let ghost img0 = old(canvas).img();
    let ghost w = old(canvas).wd() as int;
    let ghost h = old(canvas).hgt() as int;
    let lo = if xa <= xb { xa } else { xb };
    let hi = if xa <= xb { xb } else { xa };
    let mut x = lo;
    proof {
        assert(hseg(lo as int, lo - 1, y as int) == Seq::<(int, int)>::empty());
    }
    while x <= hi
        invariant
            lo <= x <= hi + 1,
            -0x4000_0000_0000_0000 <= lo,
            hi <= 0x4000_0000_0000_0000,
            canvas.wd() as int == w,
            canvas.hgt() as int == h,
            canvas.img() == paint(img0, w, h, hseg(lo as int, x - 1, y as int), color, writer::<C>()),
        decreases hi + 1 - x,
    {
        draw_if_in_bounds(canvas, x, y, color);
        proof {
            lemma_paint_snoc(img0, w, h, hseg(lo as int, x - 1, y as int), (x as int, y as int), color, writer::<C>());
            lemma_hseg_snoc(lo as int, x - 1, y as int);
        }
        x = x + 1;
    }
}


/// Draw the line segment on a fresh copy of the canvas, leaving the original
/// untouched.
pub fn draw_line_segment<C: Canvas>(image: &C, start: (i32, i32), end: (i32, i32), color: C::Pixel) -> (out:
    crate::drawing::canvas::ImgBuf<C::Pixel>)
    requires
        image.wd() * image.hgt() <= usize::MAX,
    ensures
        out.wd() == image.wd(),
        out.hgt() == image.hgt(),
        out.img() == paint(
            image.img(),
            image.wd() as int,
            image.hgt() as int,
            bres_pts((start.0 as int, start.1 as int), (end.0 as int, end.1 as int)),
            color,
            writer::<crate::drawing::canvas::ImgBuf<C::Pixel>>(),
        ),
{
    let mut out = crate::drawing::canvas::copy_canvas(image);
    draw_line_segment_mut(&mut out, start, end, color);
    out
}


/// A strategy for blending a coverage-weighted color into an existing pixel.
pub trait Blender<P>: Sized {
    /// The pixel the blend produces from an incoming color, an existing
    /// pixel, and the coverage weight `num / den`.
    spec fn blend_spec(new_color: P, existing: P, num: int, den: int) -> P;

    fn blend(&self, new_color: P, existing: P, wt: Weight) -> (r: P)
        requires
            wt.wf(),
        ensures
            r == Self::blend_spec(new_color, existing, wt.num as int, wt.den as int),
    ;
}

/// The default blend for antialiased drawing: mix the incoming color into the
/// existing pixel by the coverage weight.
pub struct Interpolate;

impl Blender<Rgba8> for Interpolate {
    open spec fn blend_spec(new_color: Rgba8, existing: Rgba8, num: int, den: int) -> Rgba8 {
        interpolate_spec(new_color, existing, Weight { num: num as u32, den: den as u32 })
    }

    fn blend(&self, new_color: Rgba8, existing: Rgba8, wt: Weight) -> (r: Rgba8) {
        interpolate(new_color, existing, wt)
    }
}

/// The blend rule of a blender type, as a function value for the walk.
pub open spec fn blender<P, B: Blender<P>>() -> spec_fn(P, P, int, int) -> P {
    |n: P, e: P, num: int, den: int| B::blend_spec(n, e, num, den)
}

/// One coverage plot: inside the bounds, the color is blended into the
/// existing pixel with the weight `num / den` and written by the canvas's
/// rule; outside, nothing changes.
pub open spec fn wu_plot<P>(
    img: Map<(int, int), P>,
    w: int,
    h: int,
    q: (int, int),
    c: P,
    num: int,
    den: int,
    bs: spec_fn(P, P, int, int) -> P,
    ws: spec_fn(P, P) -> P,
) -> Map<(int, int), P> {
    if in_canvas(w, h, q) {
        img.insert(q, ws(img[q], bs(c, img[q], num, den)))
    } else {
        img
    }
}

/// The antialiased walk from step `i` on: at each major-axis step the exact
/// crossing splits the coverage between the two adjacent minor-axis pixels,
/// the integer part taking the remainder of the fraction and the next pixel
/// the fraction itself.
pub open spec fn wu_walk<P>(
    img: Map<(int, int), P>,
    w: int,
    h: int,
    x0: int,
    y0: int,
    dy: int,
    dx: int,
    i: int,
    steep: bool,
    c: P,
    bs: spec_fn(P, P, int, int) -> P,
    ws: spec_fn(P, P) -> P,
) -> Map<(int, int), P>
    decreases (if i <= dx { dx + 1 - i } else { 0 }),
{
    if i > dx {
        img
    } else {
        let den = if dx == 0 { 1int } else { dx };
        let fy = if dx == 0 { y0 } else { y0 + (i * dy) / dx };
        let fnum = if dx == 0 { 0int } else { (i * dy) % dx };
        let img1 = wu_plot(img, w, h, bres_out(x0 + i, fy, steep), c, den - fnum, den, bs, ws);
        let img2 = wu_plot(img1, w, h, bres_out(x0 + i, fy + 1, steep), c, fnum, den, bs, ws);
        wu_walk(img2, w, h, x0, y0, dy, dx, i + 1, steep, c, bs, ws)
    }
}

/// The pixel map after the full antialiased line: the walk is oriented along
/// the axis of greater extent and runs in increasing order along it.
pub open spec fn wu_line<P>(
    img: Map<(int, int), P>,
    w: int,
    h: int,
    start: (int, int),
    end: (int, int),
    c: P,
    bs: spec_fn(P, P, int, int) -> P,
    ws: spec_fn(P, P) -> P,
) -> Map<(int, int), P> {
    let steep = iabs(end.1 - start.1) > iabs(end.0 - start.0);
    if steep {
        let s = if start.1 > end.1 { end } else { start };
        let e = if start.1 > end.1 { start } else { end };
        wu_walk(img, w, h, s.1, s.0, e.0 - s.0, e.1 - s.1, 0, true, c, bs, ws)
    } else {
        let s = if start.0 > end.0 { end } else { start };
        let e = if start.0 > end.0 { start } else { end };
        wu_walk(img, w, h, s.0, s.1, e.1 - s.1, e.0 - s.0, 0, false, c, bs, ws)
    }
}

/// Make one coverage plot: the walk coordinates are mapped back to the
/// caller's axes, filtered against the bounds, and blended in.
fn plot_aa<C: Canvas, B: Blender<C::Pixel>>(
    canvas: &mut C,
    blend: &B,
    steep: bool,
    a: i64,
    b: i64,
    color: C::Pixel,
    wt: Weight,
)
    requires
        wt.wf(),
    ensures
        final(canvas).wd() == old(canvas).wd(),
        final(canvas).hgt() == old(canvas).hgt(),
        final(canvas).img() == wu_plot(
            old(canvas).img(),
            old(canvas).wd() as int,
            old(canvas).hgt() as int,
            bres_out(a as int, b as int, steep),
            color,
            wt.num as int,
            wt.den as int,
            blender::<C::Pixel, B>(),
            writer::<C>(),
        ),
{
    let tx = if steep { b } else { a };
    let ty = if steep { a } else { b };
    let (w, h) = canvas.dimensions();
    if 0 <= tx && tx < w as i64 && 0 <= ty && ty < h as i64 {
        let existing = canvas.get_pixel(tx as u32, ty as u32);
        let blended = blend.blend(color, existing, wt);
        canvas.draw_pixel(tx as u32, ty as u32, blended);
    }
}

/// Draw the line segment with Wu's antialiasing: at every step along the
/// major axis the coverage splits between the two adjacent pixels by the
/// exact fractional crossing, and each plot is blended in with the supplied
/// strategy. Off-canvas plots are silently skipped.
pub fn draw_antialiased_line_segment_mut<C: Canvas, B: Blender<C::Pixel>>(
    canvas: &mut C,
    start: (i32, i32),
    end: (i32, i32),
    color: C::Pixel,
    blend: &B,
)
    ensures
        final(canvas).wd() == old(canvas).wd(),
        final(canvas).hgt() == old(canvas).hgt(),
        final(canvas).img() == wu_line(
            old(canvas).img(),
            old(canvas).wd() as int,
            old(canvas).hgt() as int,
            (start.0 as int, start.1 as int),
            (end.0 as int, end.1 as int),
            color,
            blender::<C::Pixel, B>(),
            writer::<C>(),
        ),
{
    let ghost img0 = old(canvas).img();
    let ghost w = old(canvas).wd() as int;
    let ghost h = old(canvas).hgt() as int;
    let ghost bs = blender::<C::Pixel, B>();
    let ghost ws = writer::<C>();
    let ghost target = wu_line(
        img0,
        w,
        h,
        (start.0 as int, start.1 as int),
        (end.0 as int, end.1 as int),
        color,
        bs,
        ws,
    );

    let mut x0 = start.0 as i64;
    let mut y0 = start.1 as i64;
    let mut x1 = end.0 as i64;
    let mut y1 = end.1 as i64;
    let ady = if y1 >= y0 { y1 - y0 } else { y0 - y1 };
    let adx = if x1 >= x0 { x1 - x0 } else { x0 - x1 };
    let is_steep = ady > adx;
    let major0: i64;
    let minor0: i64;
    let dx_w: i64;
    let dy_w: i64;
    if is_steep {
        if y0 > y1 {
            let t = x0;
            x0 = x1;
            x1 = t;
            let u = y0;
            y0 = y1;
            y1 = u;
        }
        major0 = y0;
        minor0 = x0;
        dx_w = y1 - y0;
        dy_w = x1 - x0;
    } else {
        if x0 > x1 {
            let t = x0;
            x0 = x1;
            x1 = t;
            let u = y0;
            y0 = y1;
            y1 = u;
        }
        major0 = x0;
        minor0 = y0;
        dx_w = x1 - x0;
        dy_w = y1 - y0;
    }
    proof {
        assert(target == wu_walk(
            img0,
            w,
            h,
            major0 as int,
            minor0 as int,
            dy_w as int,
            dx_w as int,
            0,
            is_steep,
            color,
            bs,
            ws,
        ));
    }

    let mut i: i64 = 0;
    while i <= dx_w
        invariant
            0 <= i <= dx_w + 1,
            0 <= dx_w <= 0xFFFF_FFFF,
            -dx_w <= dy_w <= dx_w,
            -0x8000_0000 <= major0 <= 0x8000_0000,
            -0x8000_0000 <= minor0 <= 0x8000_0000,
            bs == blender::<C::Pixel, B>(),
            ws == writer::<C>(),
            canvas.wd() as int == w,
            canvas.hgt() as int == h,
            wu_walk(
                canvas.img(),
                w,
                h,
                major0 as int,
                minor0 as int,
                dy_w as int,
                dx_w as int,
                i as int,
                is_steep,
                color,
                bs,
                ws,
            ) == target,
        decreases dx_w + 1 - i,
    {
        let ghost img_pre = canvas.img();
        let ghost ii = i as int;
        let fy: i64;
        let fnum: u32;
        let den: u32;
        if dx_w == 0 {
            fy = minor0;
            fnum = 0;
            den = 1;
        } else {
            proof {
                assert((0 <= ii <= dx_w && -(dx_w as int) <= dy_w <= dx_w && 1 <= dx_w
                    <= 0x1_0000_0000) ==> (-(dx_w * 0x1_0000_0000) <= ii * dy_w <= dx_w
                    * 0x1_0000_0000 && dx_w * 0x1_0000_0000 <= 0x1_0000_0000_0000_0000 && dx_w * (
                0x2_0000_0000int) == dx_w * 0x1_0000_0000 + dx_w * 0x1_0000_0000)) by (nonlinear_arith);
            }
            let q: i128 = (i as i128) * (dy_w as i128) + (dx_w as i128) * 0x2_0000_0000;
            let qu: u128 = q as u128;
            let du: u128 = dx_w as u128;
            let qd: u128 = qu / du;
            let qr: u128 = qu % du;
            proof {
                let qq = (ii * (dy_w as int)) / (dx_w as int);
                let rr = (ii * (dy_w as int)) % (dx_w as int);
                vstd::arithmetic::div_mod::lemma_fundamental_div_mod(ii * (dy_w as int), dx_w as int);
                vstd::arithmetic::div_mod::lemma_mod_bound(ii * (dy_w as int), dx_w as int);
                assert((qq + 0x2_0000_0000) * (dx_w as int) == qq * (dx_w as int) + 0x2_0000_0000 * (
                dx_w as int)) by (nonlinear_arith);
                vstd::arithmetic::div_mod::lemma_fundamental_div_mod_converse(
                    qu as int,
                    dx_w as int,
                    qq + 0x2_0000_0000,
                    rr,
                );
                assert(-(dx_w * 0x1_0000_0000) <= (dx_w as int) * qq <= dx_w * 0x1_0000_0000
                    && ((dx_w as int) * qq <= dx_w * 0x1_0000_0000 ==> qq <= 0x1_0000_0000) && ((-(
                dx_w * 0x1_0000_0000) <= (dx_w as int) * qq) ==> -0x1_0000_0000 <= qq)) by (nonlinear_arith)
                    requires
                        1 <= dx_w <= 0x1_0000_0000,
                        (dx_w as int) * qq <= ii * (dy_w as int),
                        ii * (dy_w as int) < (dx_w as int) * qq + dx_w,
                        -(dx_w * 0x1_0000_0000) <= ii * dy_w <= dx_w * 0x1_0000_0000,
                ;
            }
            fy = minor0 + (qd as i64) - 0x2_0000_0000;
            fnum = qr as u32;
            den = dx_w as u32;
        }
        let wa = Weight::new(den - fnum, den);
        let wb = Weight::new(fnum, den);
        plot_aa(canvas, blend, is_steep, major0 + i, fy, color, wa);
        plot_aa(canvas, blend, is_steep, major0 + i, fy + 1, color, wb);
        proof {
            let sden: int = if dx_w == 0 { 1int } else { dx_w as int };
            let sfy: int = if dx_w == 0 { minor0 as int } else { minor0 + (ii * (dy_w as int)) / (dx_w as int) };
            let sfnum: int = if dx_w == 0 { 0int } else { (ii * (dy_w as int)) % (dx_w as int) };
            assert(fy as int == sfy && fnum as int == sfnum && den as int == sden);
            assert(wu_walk(img_pre, w, h, major0 as int, minor0 as int, dy_w as int, dx_w as int, ii, is_steep, color, bs, ws)
                == wu_walk(canvas.img(), w, h, major0 as int, minor0 as int, dy_w as int, dx_w as int, ii + 1, is_steep, color, bs, ws));
        }
        i = i + 1;
    }
}

/// Draw the antialiased line segment on a fresh copy of the canvas, leaving
/// the original untouched.
pub fn draw_antialiased_line_segment<C: Canvas, B: Blender<C::Pixel>>(
    image: &C,
    start: (i32, i32),
    end: (i32, i32),
    color: C::Pixel,
    blend: &B,
) -> (out: crate::drawing::canvas::ImgBuf<C::Pixel>)
    requires
        image.wd() * image.hgt() <= usize::MAX,
    ensures
        out.wd() == image.wd(),
        out.hgt() == image.hgt(),
        out.img() == wu_line(
            image.img(),
            image.wd() as int,
            image.hgt() as int,
            (start.0 as int, start.1 as int),
            (end.0 as int, end.1 as int),
            color,
            blender::<C::Pixel, B>(),
            writer::<crate::drawing::canvas::ImgBuf<C::Pixel>>(),
        ),
{
    let mut out = crate::drawing::canvas::copy_canvas(image);
    draw_antialiased_line_segment_mut(&mut out, start, end, color, blend);
    out
}


/// A coordinate clamped into `[0, upper)`.
pub open spec fn clamp_coord_spec(x: int, upper: int) -> int {
    if x < 0 {
        0
    } else if x >= upper {
        upper - 1
    } else {
        x
    }
}

/// Clamp a point into the valid coordinate range of a surface of the given
/// dimensions, as the pixel-fetching iterators require.
pub fn clamp_point(p: (i32, i32), width: u32, height: u32) -> (r: (i32, i32))
    requires
        1 <= width <= i32::MAX,
        1 <= height <= i32::MAX,
    ensures
        r.0 as int == clamp_coord_spec(p.0 as int, width as int),
        r.1 as int == clamp_coord_spec(p.1 as int, height as int),
{
    let x = if p.0 < 0 {
        0
    } else if p.0 >= width as i32 {
        width as i32 - 1
    } else {
        p.0
    };
    let y = if p.1 < 0 {
        0
    } else if p.1 >= height as i32 {
        height as i32 - 1
    } else {
        p.1
    };
    (x, y)
}

/// A pixel-fetching walk along a line: the endpoints are clamped into the
/// surface's valid range before the walk starts, and each step hands back the
/// pixel under the walk's coordinate. The surface must not be empty.
pub struct BresenhamLinePixelIter<'a, P> {
    iter: BresenhamLineIter,
    image: &'a ImgBuf<P>,
}

impl<'a, P: Copy> BresenhamLinePixelIter<'a, P> {
    pub closed spec fn wf(&self) -> bool {
        self.iter.wf()
    }

    /// The coordinates the walk has yet to visit.
    pub closed spec fn pts(&self) -> Seq<(int, int)> {
        self.iter.pts()
    }

    pub closed spec fn img(&self) -> Map<(int, int), P> {
        self.image.img()
    }

    pub fn new(image: &'a ImgBuf<P>, start: (i32, i32), end: (i32, i32)) -> (r:
        BresenhamLinePixelIter<'a, P>)
        requires
            1 <= image.wd() <= i32::MAX,
            1 <= image.hgt() <= i32::MAX,
        ensures
            r.wf(),
            r.img() == image.img(),
            r.pts() == bres_pts(
                (
                    clamp_coord_spec(start.0 as int, image.wd() as int),
                    clamp_coord_spec(start.1 as int, image.hgt() as int),
                ),
                (
                    clamp_coord_spec(end.0 as int, image.wd() as int),
                    clamp_coord_spec(end.1 as int, image.hgt() as int),
                ),
            ),
    {
        let (w, h) = image.dimensions();
        let iter = BresenhamLineIter::new(clamp_point(start, w, h), clamp_point(end, w, h));
        BresenhamLinePixelIter { iter, image }
    }

    /// The pixel under the walk's next coordinate: `Some` exactly when the
    /// walk still has coordinates left and the next one lies on the surface,
    /// which clamped endpoints keep true.
    pub fn next(&mut self) -> (r: Option<P>)
        requires
            old(self).wf(),
        ensures
            final(self).wf(),
            final(self).img() == old(self).img(),
            r is Some <==> (old(self).pts().len() > 0 && old(self).img().dom().contains(
                old(self).pts()[0],
            )),
            r matches Some(px) ==> px == old(self).img()[old(self).pts()[0]] && final(self).pts()
                == old(self).pts().subrange(1, old(self).pts().len() as int),
    {
        let (w, h) = self.image.dimensions();
        proof {
            self.image.lemma_dom();
        }
        match self.iter.next() {
            Some(p) => {
                if 0 <= p.0 && (p.0 as i64) < w as i64 && 0 <= p.1 && (p.1 as i64) < h as i64 {
                    Some(self.image.get_pixel(p.0 as u32, p.1 as u32))
                } else {
                    None
                }
            },
            None => None,
        }
    }
}

} // verus!
