use vstd::prelude::*;

use crate::drawing::canvas::{lemma_paint_concat, paint, writer, Canvas};
use crate::drawing::line::{bres_pts, draw_line_segment_mut};

verus! {

/// The floor of the square root of a natural number.
pub open spec fn sqrt_floor(n: nat) -> nat
    decreases n,
{
    if n == 0 {
        0
    } else {
        let r = sqrt_floor((n - 1) as nat);
        if (r + 1) * (r + 1) <= n {
            r + 1
        } else {
            r
        }
    }
}

/// The defining bracket of the square-root floor.
proof fn lemma_sqrt_floor_bounds(n: nat)
    ensures
        sqrt_floor(n) * sqrt_floor(n) <= n,
        n < (sqrt_floor(n) + 1) * (sqrt_floor(n) + 1),
    decreases n,
{
    if n > 0 {
        lemma_sqrt_floor_bounds((n - 1) as nat);
        let r = sqrt_floor((n - 1) as nat);
        if (r + 1) * (r + 1) <= n {
            assert(sqrt_floor(n) == r + 1);
            assert(n < (r + 2) * (r + 2)) by (nonlinear_arith)
                requires
                    n <= (n - 1) + 1,
                    (n - 1) < (r + 1) * (r + 1),
            ;
            assert(n < (sqrt_floor(n) + 1) * (sqrt_floor(n) + 1)) by (nonlinear_arith)
                requires
                    sqrt_floor(n) == r + 1,
                    n < (r + 2) * (r + 2),
            ;
        } else {
            assert(sqrt_floor(n) == r);
            assert(r * r <= n);
            assert(n < (sqrt_floor(n) + 1) * (sqrt_floor(n) + 1)) by (nonlinear_arith)
                requires
                    sqrt_floor(n) == r,
                    n < (r + 1) * (r + 1),
            ;
        }
    } else {
        assert(sqrt_floor(0nat) == 0);
        assert(0nat < (sqrt_floor(0nat) + 1) * (sqrt_floor(0nat) + 1)) by (nonlinear_arith)
            requires
                sqrt_floor(0nat) == 0,
        ;
    }
}

/// Any value satisfying the bracket is the square-root floor.
proof fn lemma_sqrt_floor_unique(n: nat, r: nat)
    requires
        r * r <= n,
        n < (r + 1) * (r + 1),
    ensures
        r == sqrt_floor(n),
{
    lemma_sqrt_floor_bounds(n);
    let s = sqrt_floor(n);
    assert(r == s) by (nonlinear_arith)
        requires
            r * r <= n,
            n < (r + 1) * (r + 1),
            s * s <= n,
            n < (s + 1) * (s + 1),
    ;
}

/// The square-root floor of a machine integer, by bisection.
fn isqrt(n: u64) -> (r: u64)
    ensures
        r as nat == sqrt_floor(n as nat),
        r * r <= n,
        n < ((r + 1) as nat) * ((r + 1) as nat),
{
    let mut lo: u64 = 0;
    let mut hi: u64 = if n < 0xFFFF_FFFF {
        n + 1
    } else {
        0x1_0000_0000
    };
    proof {
        assert((n as nat) < (hi as nat) * (hi as nat)) by (nonlinear_arith)
            requires
                hi as nat >= 0x1_0000_0000 || hi as nat == n as nat + 1,
                n < 0x1_0000_0000_0000_0000,
        ;
    }
    while lo + 1 < hi
        invariant
            lo < hi <= 0x1_0000_0000,
            (lo as nat) * (lo as nat) <= n as nat,
            (n as nat) < (hi as nat) * (hi as nat),
        decreases hi - lo,
    {
        let mid = lo + (hi - lo) / 2;
        proof {
            assert((mid as nat) * (mid as nat) < 0x1_0000_0000_0000_0000) by (nonlinear_arith)
                requires
                    mid < 0x1_0000_0000,
            ;
        }
        if mid * mid <= n {
            lo = mid;
        } else {
            hi = mid;
        }
    }
    proof {
        lemma_sqrt_floor_unique(n as nat, lo as nat);
    }
    lo
}

/// Round the exact quotient `num / den` to the nearest integer, halves away
/// from zero.
pub open spec fn rnd_div(num: int, den: int) -> int {
    if num >= 0 {
        (2 * num + den) / (2 * den)
    } else {
        -((2 * (-num) + den) / (2 * den))
    }
}

/// Saturate a value into the i32 range.
pub open spec fn clamp_i32_spec(v: int) -> int {
    if v < i32::MIN {
        i32::MIN as int
    } else if v > i32::MAX {
        i32::MAX as int
    } else {
        v
    }
}

/// The curve point at parameter `i / n`, from the explicit cubic blending
/// polynomial over exact rationals, each coordinate rounded to its nearest
/// integer and saturated into the coordinate range.
pub open spec fn bezier_point(
    start: (int, int),
    end: (int, int),
    ca: (int, int),
    cb: (int, int),
    i: int,
    n: int,
) -> (int, int) {
    let m = n - i;
    let den = n * n * n;
    let xnum = ((start.0 * (m * m * m) + 3 * ca.0 * ((m * m) * i)) + 3 * cb.0 * (m * (i * i)))
        + end.0 * (i * (i * i));
    let ynum = ((start.1 * (m * m * m) + 3 * ca.1 * ((m * m) * i)) + 3 * cb.1 * (m * (i * i)))
        + end.1 * (i * (i * i));
    (clamp_i32_spec(rnd_div(xnum, den)), clamp_i32_spec(rnd_div(ynum, den)))
}

/// The straight-line bound on the curve's length: the perimeter of the
/// polygon through the control points, each leg's length taken to its floor.
pub open spec fn seg_bound_spec(a: (int, int), b: (int, int)) -> int {
    sqrt_floor(((b.0 - a.0) * (b.0 - a.0) + (b.1 - a.1) * (b.1 - a.1)) as nat) as int
}

/// How many straight segments approximate the curve: derived from the length
/// bound, never fewer than three.
pub open spec fn bezier_segments(
    start: (int, int),
    end: (int, int),
    ca: (int, int),
    cb: (int, int),
) -> int {
    let b = seg_bound_spec(start, ca) + seg_bound_spec(ca, cb) + seg_bound_spec(cb, end);
    sqrt_floor((b * b + 800) as nat) as int / 8
}

/// The footprint of the flattened curve from segment `i` on: each pair of
/// adjacent samples contributes its line's coordinates.
pub open spec fn bezier_pts_from(
    start: (int, int),
    end: (int, int),
    ca: (int, int),
    cb: (int, int),
    i: int,
    n: int,
) -> Seq<(int, int)>
    decreases (if i < n { n - i } else { 0 }),
{
    if i >= n {
        Seq::empty()
    } else {
        bres_pts(bezier_point(start, end, ca, cb, i, n), bezier_point(start, end, ca, cb, i + 1, n))
            + bezier_pts_from(start, end, ca, cb, i + 1, n)
    }
}

/// The full footprint of the flattened curve.
pub open spec fn bezier_pts(start: (int, int), end: (int, int), ca: (int, int), cb: (int, int)) -> Seq<
    (int, int),
> {
    bezier_pts_from(start, end, ca, cb, 0, bezier_segments(start, end, ca, cb))
}

/// The floor length of one polygon leg, by integer square root.
fn seg_bound(ax: i64, ay: i64, bx: i64, by: i64) -> (r: u64)
    requires
        -0x10_0000 <= ax <= 0x10_0000,
        -0x10_0000 <= ay <= 0x10_0000,
        -0x10_0000 <= bx <= 0x10_0000,
        -0x10_0000 <= by <= 0x10_0000,
    ensures
        r as int == seg_bound_spec((ax as int, ay as int), (bx as int, by as int)),
        r <= 0x300000,
{
    let dx = bx - ax;
    let dy = by - ay;
    proof {
        assert((-0x20_0000 <= dx <= 0x20_0000 && -0x20_0000 <= dy <= 0x20_0000) ==> (0 <= dx * dx
            + dy * dy <= 0x800_0000_0000 && 0 <= dx * dx && 0 <= dy * dy)) by (nonlinear_arith);
    }
    let dsq: u64 = (dx * dx + dy * dy) as u64;
    let r = isqrt(dsq);
    proof {
        assert(r as int <= 0x300000) by (nonlinear_arith)
            requires
                (r as nat) * (r as nat) <= dsq as nat,
                dsq <= 0x800_0000_0000,
        ;
    }
    r
}

/// Approximate the cubic Bezier curve from `start` to `end` with control
/// points `control_a` and `control_b` by straight segments, and draw each
/// with the line rasterizer. The segment count grows with the polygon bound
/// on the curve's length and never falls below three.
pub fn draw_cubic_bezier_curve_mut<C: Canvas>(
    canvas: &mut C,
    start: (i32, i32),
    end: (i32, i32),
    control_a: (i32, i32),
    control_b: (i32, i32),
    color: C::Pixel,
)
    requires
        -0x10_0000 <= start.0 <= 0x10_0000,
        -0x10_0000 <= start.1 <= 0x10_0000,
        -0x10_0000 <= end.0 <= 0x10_0000,
        -0x10_0000 <= end.1 <= 0x10_0000,
        -0x10_0000 <= control_a.0 <= 0x10_0000,
        -0x10_0000 <= control_a.1 <= 0x10_0000,
        -0x10_0000 <= control_b.0 <= 0x10_0000,
        -0x10_0000 <= control_b.1 <= 0x10_0000,
    ensures
        final(canvas).wd() == old(canvas).wd(),
        final(canvas).hgt() == old(canvas).hgt(),
        final(canvas).img() == paint(
            old(canvas).img(),
            old(canvas).wd() as int,
            old(canvas).hgt() as int,
            bezier_pts(
                (start.0 as int, start.1 as int),
                (end.0 as int, end.1 as int),
                (control_a.0 as int, control_a.1 as int),
                (control_b.0 as int, control_b.1 as int),
            ),
            color,
            writer::<C>(),
        ),
{
    let ghost img0 = old(canvas).img();
    let ghost w = old(canvas).wd() as int;
    let ghost h = old(canvas).hgt() as int;
    let ghost gs = (start.0 as int, start.1 as int);
    let ghost ge = (end.0 as int, end.1 as int);
    let ghost ga = (control_a.0 as int, control_a.1 as int);
    let ghost gb = (control_b.0 as int, control_b.1 as int);

    let d1 = seg_bound(start.0 as i64, start.1 as i64, control_a.0 as i64, control_a.1 as i64);
    let d2 = seg_bound(control_a.0 as i64, control_a.1 as i64, control_b.0 as i64, control_b.1 as i64);
    let d3 = seg_bound(control_b.0 as i64, control_b.1 as i64, end.0 as i64, end.1 as i64);
    let b = d1 + d2 + d3;
    proof {
        assert(b * b <= 0x5100_0000_0000) by (nonlinear_arith)
            requires
                0 <= b <= 0x900000,
        ;
    }
    let s = isqrt(b * b + 800);
    proof {
        assert(s >= 28 && s <= 0x900001) by (nonlinear_arith)
            requires
                (s as nat) * (s as nat) <= (b * b + 800) as nat,
                ((b * b + 800) as nat) < (((s + 1) as nat) * ((s + 1) as nat)),
                b * b <= 0x5100_0000_0000,
        ;
    }
    let num_segments = s / 8;
    let ghost n = bezier_segments(gs, ge, ga, gb);
    proof {
        assert(num_segments as int == n);
        assert(3 <= n <= 0x200000);
    }

    let ghost all = bezier_pts(gs, ge, ga, gb);
    let ghost mut done: Seq<(int, int)> = Seq::empty();
    proof {
        assert(done + bezier_pts_from(gs, ge, ga, gb, 0, n) =~= all);
        assert(paint(img0, w, h, done, color, writer::<C>()) == img0);
    }
    let mut i: u64 = 0;
    let mut p1 = bezier_eval(start, end, control_a, control_b, 0, num_segments);
    while i < num_segments
        invariant
            i <= num_segments,
            num_segments as int == n,
            3 <= n <= 0x200000,
            -0x10_0000 <= start.0 <= 0x10_0000,
            -0x10_0000 <= start.1 <= 0x10_0000,
            -0x10_0000 <= end.0 <= 0x10_0000,
            -0x10_0000 <= end.1 <= 0x10_0000,
            -0x10_0000 <= control_a.0 <= 0x10_0000,
            -0x10_0000 <= control_a.1 <= 0x10_0000,
            -0x10_0000 <= control_b.0 <= 0x10_0000,
            -0x10_0000 <= control_b.1 <= 0x10_0000,
            gs == (start.0 as int, start.1 as int),
            ge == (end.0 as int, end.1 as int),
            ga == (control_a.0 as int, control_a.1 as int),
            gb == (control_b.0 as int, control_b.1 as int),
            (p1.0 as int, p1.1 as int) == bezier_point(gs, ge, ga, gb, i as int, n),
            canvas.wd() as int == w,
            canvas.hgt() as int == h,
            done + bezier_pts_from(gs, ge, ga, gb, i as int, n) == all,
            canvas.img() == paint(img0, w, h, done, color, writer::<C>()),
        decreases num_segments - i,
    {
        let ghost ii = i as int;
        let p2 = bezier_eval(start, end, control_a, control_b, i + 1, num_segments);
        let ghost seg = bres_pts(
            bezier_point(gs, ge, ga, gb, ii, n),
            bezier_point(gs, ge, ga, gb, ii + 1, n),
        );
        draw_line_segment_mut(canvas, p1, p2, color);
        proof {
            lemma_paint_concat(img0, w, h, done, seg, color, writer::<C>());
            assert(bezier_pts_from(gs, ge, ga, gb, ii, n) == seg + bezier_pts_from(
                gs,
                ge,
                ga,
                gb,
                ii + 1,
                n,
            ));
            done = done + seg;
            assert(done + bezier_pts_from(gs, ge, ga, gb, ii + 1, n) =~= all);
        }
        p1 = p2;
        i = i + 1;
    }
    proof {
        assert(bezier_pts_from(gs, ge, ga, gb, i as int, n) == Seq::<(int, int)>::empty());
        assert(done + Seq::<(int, int)>::empty() =~= done);
    }
}

/// Evaluate the cubic blending polynomial at parameter `i / n`, exactly.
fn bezier_eval(
    start: (i32, i32),
    end: (i32, i32),
    control_a: (i32, i32),
    control_b: (i32, i32),
    i: u64,
    n: u64,
) -> (p: (i32, i32))
    requires
        -0x10_0000 <= start.0 <= 0x10_0000,
        -0x10_0000 <= start.1 <= 0x10_0000,
        -0x10_0000 <= end.0 <= 0x10_0000,
        -0x10_0000 <= end.1 <= 0x10_0000,
        -0x10_0000 <= control_a.0 <= 0x10_0000,
        -0x10_0000 <= control_a.1 <= 0x10_0000,
        -0x10_0000 <= control_b.0 <= 0x10_0000,
        -0x10_0000 <= control_b.1 <= 0x10_0000,
        i <= n,
        1 <= n <= 0x200000,
    ensures
        (p.0 as int, p.1 as int) == bezier_point(
            (start.0 as int, start.1 as int),
            (end.0 as int, end.1 as int),
            (control_a.0 as int, control_a.1 as int),
            (control_b.0 as int, control_b.1 as int),
            i as int,
            n as int,
        ),
{
    let ni: i128 = n as i128;
    let ti: i128 = i as i128;
    let m: i128 = ni - ti;
    proof {
        assert((0 <= m <= 0x200000 && 0 <= ti <= 0x200000 && 1 <= ni <= 0x200000) ==> (0 <= m * m
            * m <= 0x8000_0000_0000_0000 && 0 <= (m * m) * ti <= 0x8000_0000_0000_0000 && 0 <= m * (
        ti * ti) <= 0x8000_0000_0000_0000 && 0 <= ti * (ti * ti) <= 0x8000_0000_0000_0000 && 0 <= m
            * m <= 0x4_0000_0000_0000 && 0 <= ti * ti <= 0x4_0000_0000_0000 && 0 <= ni * ni
            <= 0x4_0000_0000_0000 && 1 <= ni * ni * ni <= 0x8000_0000_0000_0000)) by (nonlinear_arith);
    }
    let t1: i128 = m * m * m;
    let t2: i128 = (m * m) * ti;
    let t3: i128 = m * (ti * ti);
    let t4: i128 = ti * (ti * ti);
    let den: i128 = ni * ni * ni;
    proof {
        let sx = start.0 as int;
        let sy = start.1 as int;
        let ex = end.0 as int;
        let ey = end.1 as int;
        let ax = control_a.0 as int;
        let ay = control_a.1 as int;
        let bx = control_b.0 as int;
        let by = control_b.1 as int;
        assert((0 <= t1 <= 0x8000_0000_0000_0000 && 0 <= t2 <= 0x8000_0000_0000_0000 && 0 <= t3
            <= 0x8000_0000_0000_0000 && 0 <= t4 <= 0x8000_0000_0000_0000 && -0x10_0000 <= sx
            <= 0x10_0000 && -0x10_0000 <= sy <= 0x10_0000 && -0x10_0000 <= ex <= 0x10_0000
            && -0x10_0000 <= ey <= 0x10_0000 && -0x30_0000 <= 3 * ax <= 0x30_0000 && -0x30_0000 <= 3
            * ay <= 0x30_0000 && -0x30_0000 <= 3 * bx <= 0x30_0000 && -0x30_0000 <= 3 * by
            <= 0x30_0000) ==> (-0x20_0000_0000_0000_0000_0000 <= sx * t1
            <= 0x20_0000_0000_0000_0000_0000 && -0x20_0000_0000_0000_0000_0000 <= sy * t1
            <= 0x20_0000_0000_0000_0000_0000 && -0x20_0000_0000_0000_0000_0000 <= ex * t4
            <= 0x20_0000_0000_0000_0000_0000 && -0x20_0000_0000_0000_0000_0000 <= ey * t4
            <= 0x20_0000_0000_0000_0000_0000 && -0x20_0000_0000_0000_0000_0000 <= (3 * ax) * t2
            <= 0x20_0000_0000_0000_0000_0000 && -0x20_0000_0000_0000_0000_0000 <= (3 * ay) * t2
            <= 0x20_0000_0000_0000_0000_0000 && -0x20_0000_0000_0000_0000_0000 <= (3 * bx) * t3
            <= 0x20_0000_0000_0000_0000_0000 && -0x20_0000_0000_0000_0000_0000 <= (3 * by) * t3
            <= 0x20_0000_0000_0000_0000_0000)) by (nonlinear_arith);
    }
    let xnum: i128 = ((start.0 as i128) * t1 + 3 * (control_a.0 as i128) * t2) + (3 * (control_b.0
        as i128) * t3 + (end.0 as i128) * t4);
    let ynum: i128 = ((start.1 as i128) * t1 + 3 * (control_a.1 as i128) * t2) + (3 * (control_b.1
        as i128) * t3 + (end.1 as i128) * t4);
    let px = rnd_div_clamped(xnum, den);
    let py = rnd_div_clamped(ynum, den);
    proof {
        assert(((start.0 as i128) * t1 + 3 * (control_a.0 as i128) * t2) + (3 * (control_b.0
            as i128) * t3 + (end.0 as i128) * t4) == ((start.0 as int) * (m as int * (m as int) * (
        m as int)) + 3 * (control_a.0 as int) * ((m as int * (m as int)) * (ti as int))) + (3 * (
        control_b.0 as int) * ((m as int) * ((ti as int) * (ti as int))) + (end.0 as int) * ((ti
            as int) * ((ti as int) * (ti as int)))));
    }
    (px, py)
}

/// The rounded quotient, saturated into the coordinate range.
fn rnd_div_clamped(num: i128, den: i128) -> (q: i32)
    requires
        1 <= den <= 0x8000_0000_0000_0000,
        -0x100_0000_0000_0000_0000_0000 <= num <= 0x100_0000_0000_0000_0000_0000,
    ensures
        q as int == clamp_i32_spec(rnd_div(num as int, den as int)),
{
    let v: i128 = if num >= 0 {
        (2 * num + den) / (2 * den)
    } else {
        -((2 * (-num) + den) / (2 * den))
    };
    proof {
        if num >= 0 {
            vstd::arithmetic::div_mod::lemma_div_pos_is_pos(2 * num + den, 2 * den);
        } else {
            vstd::arithmetic::div_mod::lemma_div_pos_is_pos(2 * (-num) + den, 2 * den);
        }
    }
    if v > i32::MAX as i128 {
        i32::MAX
    } else if v < i32::MIN as i128 {
        i32::MIN
    } else {
        v as i32
    }
}


/// Flatten and draw the cubic Bezier curve on a fresh copy of the canvas,
/// leaving the original untouched.
pub fn draw_cubic_bezier_curve<C: Canvas>(
    image: &C,
    start: (i32, i32),
    end: (i32, i32),
    control_a: (i32, i32),
    control_b: (i32, i32),
    color: C::Pixel,
) -> (out: crate::drawing::canvas::ImgBuf<C::Pixel>)
    requires
        image.wd() * image.hgt() <= usize::MAX,
        -0x10_0000 <= start.0 <= 0x10_0000,
        -0x10_0000 <= start.1 <= 0x10_0000,
        -0x10_0000 <= end.0 <= 0x10_0000,
        -0x10_0000 <= end.1 <= 0x10_0000,
        -0x10_0000 <= control_a.0 <= 0x10_0000,
        -0x10_0000 <= control_a.1 <= 0x10_0000,
        -0x10_0000 <= control_b.0 <= 0x10_0000,
        -0x10_0000 <= control_b.1 <= 0x10_0000,
    ensures
        out.wd() == image.wd(),
        out.hgt() == image.hgt(),
        out.img() == paint(
            image.img(),
            image.wd() as int,
            image.hgt() as int,
            bezier_pts(
                (start.0 as int, start.1 as int),
                (end.0 as int, end.1 as int),
                (control_a.0 as int, control_a.1 as int),
                (control_b.0 as int, control_b.1 as int),
            ),
            color,
            writer::<crate::drawing::canvas::ImgBuf<C::Pixel>>(),
        ),
{
    let mut out = crate::drawing::canvas::copy_canvas(image);
    draw_cubic_bezier_curve_mut(&mut out, start, end, control_a, control_b, color);
    out
}

} // verus!
