use vstd::prelude::*;

use crate::drawing::canvas::{
    draw_if_in_bounds, flat_pts, lemma_flat_pts_snoc, lemma_paint_concat, lemma_paint_snoc, paint,
    writer, Canvas,
};
use crate::drawing::line::{draw_hline_mut, hseg};

verus! {

/// The first-octant offsets emitted by the midpoint circle walk from state
/// (x, y, p): one offset per step while x has not passed y; the sign of the
/// decision variable p picks whether y falls.
pub open spec fn circle_offsets(x: int, y: int, p: int) -> Seq<(int, int)>
    decreases (if x <= y { y + 1 - x } else { 0 }),
{
    if x > y {
        Seq::empty()
    } else {
        let x2 = x + 1;
        if p < 0 {
            seq![(x, y)] + circle_offsets(x2, y, p + 2 * x2 + 1)
        } else {
            let y2 = y - 1;
            seq![(x, y)] + circle_offsets(x2, y2, p + 2 * (x2 - y2) + 1)
        }
    }
}

/// The eight mirror images of a first-octant offset around the center, in
/// drawing order.
pub open spec fn octant_pts(x0: int, y0: int, x: int, y: int) -> Seq<(int, int)> {
    seq![
        (x0 + x, y0 + y),
        (x0 + y, y0 + x),
        (x0 - y, y0 + x),
        (x0 - x, y0 + y),
        (x0 - x, y0 - y),
        (x0 - y, y0 - x),
        (x0 + y, y0 - x),
        (x0 + x, y0 - y),
    ]
}

pub open spec fn octant_expand(x0: int, y0: int) -> spec_fn((int, int)) -> Seq<(int, int)> {
    |o: (int, int)| octant_pts(x0, y0, o.0, o.1)
}

/// The four horizontal scanlines covering a first-octant offset's mirror
/// images, in drawing order.
pub open spec fn circle_scan_pts(x0: int, y0: int, x: int, y: int) -> Seq<(int, int)> {
    ((hseg(x0 - x, x0 + x, y0 + y) + hseg(x0 - y, x0 + y, y0 + x)) + hseg(x0 - x, x0 + x, y0 - y))
        + hseg(x0 - y, x0 + y, y0 - x)
}

pub open spec fn circle_scan_expand(x0: int, y0: int) -> spec_fn((int, int)) -> Seq<(int, int)> {
    |o: (int, int)| circle_scan_pts(x0, y0, o.0, o.1)
}

/// The full footprint of the hollow circle of the given center and radius.
pub open spec fn hollow_circle_pts(cx: int, cy: int, r: int) -> Seq<(int, int)> {
    flat_pts(octant_expand(cx, cy), circle_offsets(0, r, 1 - r))
}

/// The full footprint of the filled circle of the given center and radius.
pub open spec fn filled_circle_pts(cx: int, cy: int, r: int) -> Seq<(int, int)> {
    flat_pts(circle_scan_expand(cx, cy), circle_offsets(0, r, 1 - r))
}

/// Write the eight mirror images of one first-octant offset, each filtered
/// against the canvas bounds.
fn draw_octant<C: Canvas>(canvas: &mut C, x0: i64, y0: i64, x: i64, y: i64, color: C::Pixel)
    requires
        -0x1_0000_0000 <= x0 <= 0x1_0000_0000,
        -0x1_0000_0000 <= y0 <= 0x1_0000_0000,
        -0x1_0000_0000 <= x <= 0x1_0000_0000,
        -0x1_0000_0000 <= y <= 0x1_0000_0000,
    ensures
        final(canvas).wd() == old(canvas).wd(),
        final(canvas).hgt() == old(canvas).hgt(),
        final(canvas).img() == paint(
            old(canvas).img(),
            old(canvas).wd() as int,
            old(canvas).hgt() as int,
            octant_pts(x0 as int, y0 as int, x as int, y as int),
            color,
            writer::<C>(),
        ),
{
    let ghost img0 = old(canvas).img();
    let ghost w = old(canvas).wd() as int;
    let ghost h = old(canvas).hgt() as int;
    let ghost mut done: Seq<(int, int)> = Seq::empty();
    proof {
        assert(paint(img0, w, h, done, color, writer::<C>()) == img0);
    }

    draw_if_in_bounds(canvas, x0 + x, y0 + y, color);
    proof {
        lemma_paint_snoc(img0, w, h, done, ((x0 + x) as int, (y0 + y) as int), color, writer::<C>());
        done = done.push(((x0 + x) as int, (y0 + y) as int));
    }
    draw_if_in_bounds(canvas, x0 + y, y0 + x, color);
    proof {
        lemma_paint_snoc(img0, w, h, done, ((x0 + y) as int, (y0 + x) as int), color, writer::<C>());
        done = done.push(((x0 + y) as int, (y0 + x) as int));
    }
    draw_if_in_bounds(canvas, x0 - y, y0 + x, color);
    proof {
        lemma_paint_snoc(img0, w, h, done, ((x0 - y) as int, (y0 + x) as int), color, writer::<C>());
        done = done.push(((x0 - y) as int, (y0 + x) as int));
    }
    draw_if_in_bounds(canvas, x0 - x, y0 + y, color);
    proof {
        lemma_paint_snoc(img0, w, h, done, ((x0 - x) as int, (y0 + y) as int), color, writer::<C>());
        done = done.push(((x0 - x) as int, (y0 + y) as int));
    }
    draw_if_in_bounds(canvas, x0 - x, y0 - y, color);
    proof {
        lemma_paint_snoc(img0, w, h, done, ((x0 - x) as int, (y0 - y) as int), color, writer::<C>());
        done = done.push(((x0 - x) as int, (y0 - y) as int));
    }
    draw_if_in_bounds(canvas, x0 - y, y0 - x, color);
    proof {
        lemma_paint_snoc(img0, w, h, done, ((x0 - y) as int, (y0 - x) as int), color, writer::<C>());
        done = done.push(((x0 - y) as int, (y0 - x) as int));
    }
    draw_if_in_bounds(canvas, x0 + y, y0 - x, color);
    proof {
        lemma_paint_snoc(img0, w, h, done, ((x0 + y) as int, (y0 - x) as int), color, writer::<C>());
        done = done.push(((x0 + y) as int, (y0 - x) as int));
    }
    draw_if_in_bounds(canvas, x0 + x, y0 - y, color);
    proof {
        lemma_paint_snoc(img0, w, h, done, ((x0 + x) as int, (y0 - y) as int), color, writer::<C>());
        done = done.push(((x0 + x) as int, (y0 - y) as int));
        assert(done =~= octant_pts(x0 as int, y0 as int, x as int, y as int));
    }
}

/// Draw the circle's outline by the midpoint walk: eight mirrored points per
/// step, each silently skipped when off-canvas.
pub fn draw_hollow_circle_mut<C: Canvas>(
    canvas: &mut C,
    center: (i32, i32),
    radius: i32,
    color: C::Pixel,
)
    ensures
        final(canvas).wd() == old(canvas).wd(),
        final(canvas).hgt() == old(canvas).hgt(),
        final(canvas).img() == paint(
            old(canvas).img(),
            old(canvas).wd() as int,
            old(canvas).hgt() as int,
            hollow_circle_pts(center.0 as int, center.1 as int, radius as int),
            color,
            writer::<C>(),
        ),
{
    let ghost img0 = old(canvas).img();
    let ghost w = old(canvas).wd() as int;
    let ghost h = old(canvas).hgt() as int;
    let ghost f = octant_expand(center.0 as int, center.1 as int);
    let ghost all = circle_offsets(0, radius as int, 1 - radius as int);
    let ghost mut done: Seq<(int, int)> = Seq::empty();
    let x0 = center.0 as i64;
    let y0 = center.1 as i64;
    let mut x: i64 = 0;
    let mut y: i64 = radius as i64;
    let mut p: i128 = 1 - (radius as i128);
    proof {
        assert(flat_pts(f, done) == Seq::<(int, int)>::empty());
        assert(paint(img0, w, h, flat_pts(f, done), color, writer::<C>()) == img0);
        assert(done + all =~= all);
    }
    while x <= y
        invariant
            0 <= x <= 0x8000_0001,
            -0x8000_0000 <= y <= 0x8000_0000,
            x == 0 || (-2 <= y && x <= y + 2),
            -(0x1_0000_0000 + x * 0x10_0000_0000) <= p <= 0x1_0000_0000 + x * 0x10_0000_0000,
            x0 == center.0 as i64,
            y0 == center.1 as i64,
            f == octant_expand(center.0 as int, center.1 as int),
            canvas.wd() as int == w,
            canvas.hgt() as int == h,
            done + circle_offsets(x as int, y as int, p as int) == all,
            canvas.img() == paint(img0, w, h, flat_pts(f, done), color, writer::<C>()),
        decreases (if x <= y { y + 1 - x } else { 0 }),
    {
        let ghost xi = x as int;
        let ghost yi = y as int;
        let ghost pi = p as int;
        draw_octant(canvas, x0, y0, x, y, color);
        proof {
            lemma_paint_concat(
                img0,
                w,
                h,
                flat_pts(f, done),
                octant_pts(x0 as int, y0 as int, xi, yi),
                color,
                writer::<C>(),
            );
            lemma_flat_pts_snoc(f, done, (xi, yi));
            assert(f((xi, yi)) == octant_pts(x0 as int, y0 as int, xi, yi));
            done = done.push((xi, yi));
        }
        x = x + 1;
        if p < 0 {
            p = p + 2 * (x as i128) + 1;
        } else {
            y = y - 1;
            p = p + 2 * ((x as i128) - (y as i128)) + 1;
        }
        proof {
            assert(circle_offsets(xi, yi, pi) == seq![(xi, yi)] + circle_offsets(
                x as int,
                y as int,
                p as int,
            ));
            assert(done + circle_offsets(x as int, y as int, p as int) =~= all);
        }
    }
    proof {
        assert(circle_offsets(x as int, y as int, p as int) == Seq::<(int, int)>::empty());
        assert(done =~= all);
    }
}

/// Fill the circle by the midpoint walk: four horizontal scanlines per step,
/// each clipped against the canvas bounds.
pub fn draw_filled_circle_mut<C: Canvas>(
    canvas: &mut C,
    center: (i32, i32),
    radius: i32,
    color: C::Pixel,
)
    ensures
        final(canvas).wd() == old(canvas).wd(),
        final(canvas).hgt() == old(canvas).hgt(),
        final(canvas).img() == paint(
            old(canvas).img(),
            old(canvas).wd() as int,
            old(canvas).hgt() as int,
            filled_circle_pts(center.0 as int, center.1 as int, radius as int),
            color,
            writer::<C>(),
        ),
{
    let ghost img0 = old(canvas).img();
    let ghost w = old(canvas).wd() as int;
    let ghost h = old(canvas).hgt() as int;
    let ghost f = circle_scan_expand(center.0 as int, center.1 as int);
    let ghost all = circle_offsets(0, radius as int, 1 - radius as int);
    let ghost mut done: Seq<(int, int)> = Seq::empty();
    let x0 = center.0 as i64;
    let y0 = center.1 as i64;
    let mut x: i64 = 0;
    let mut y: i64 = radius as i64;
    let mut p: i128 = 1 - (radius as i128);
    proof {
        assert(flat_pts(f, done) == Seq::<(int, int)>::empty());
        assert(paint(img0, w, h, flat_pts(f, done), color, writer::<C>()) == img0);
        assert(done + all =~= all);
    }
    while x <= y
        invariant
            0 <= x <= 0x8000_0001,
            -0x8000_0000 <= y <= 0x8000_0000,
            x == 0 || (-2 <= y && x <= y + 2),
            -(0x1_0000_0000 + x * 0x10_0000_0000) <= p <= 0x1_0000_0000 + x * 0x10_0000_0000,
            x0 == center.0 as i64,
            y0 == center.1 as i64,
            f == circle_scan_expand(center.0 as int, center.1 as int),
            canvas.wd() as int == w,
            canvas.hgt() as int == h,
            done + circle_offsets(x as int, y as int, p as int) == all,
            canvas.img() == paint(img0, w, h, flat_pts(f, done), color, writer::<C>()),
        decreases (if x <= y { y + 1 - x } else { 0 }),
    {
        let ghost xi = x as int;
        let ghost yi = y as int;
        let ghost pi = p as int;
        let ghost imgc = canvas.img();
        let ghost s1 = hseg((x0 - x) as int, (x0 + x) as int, (y0 + y) as int);
        let ghost s2 = hseg((x0 - y) as int, (x0 + y) as int, (y0 + x) as int);
        let ghost s3 = hseg((x0 - x) as int, (x0 + x) as int, (y0 - y) as int);
        let ghost s4 = hseg((x0 - y) as int, (x0 + y) as int, (y0 - x) as int);
        draw_hline_mut(canvas, x0 - x, x0 + x, y0 + y, color);
        draw_hline_mut(canvas, x0 - y, x0 + y, y0 + x, color);
        draw_hline_mut(canvas, x0 - x, x0 + x, y0 - y, color);
        draw_hline_mut(canvas, x0 - y, x0 + y, y0 - x, color);
        proof {
            lemma_paint_concat(imgc, w, h, s1, s2, color, writer::<C>());
            lemma_paint_concat(imgc, w, h, s1 + s2, s3, color, writer::<C>());
            lemma_paint_concat(imgc, w, h, (s1 + s2) + s3, s4, color, writer::<C>());
            assert(canvas.img() == paint(
                imgc,
                w,
                h,
                circle_scan_pts(x0 as int, y0 as int, xi, yi),
                color,
                writer::<C>(),
            ));
            lemma_paint_concat(
                img0,
                w,
                h,
                flat_pts(f, done),
                circle_scan_pts(x0 as int, y0 as int, xi, yi),
                color,
                writer::<C>(),
            );
            lemma_flat_pts_snoc(f, done, (xi, yi));
            assert(f((xi, yi)) == circle_scan_pts(x0 as int, y0 as int, xi, yi));
            done = done.push((xi, yi));
        }
        x = x + 1;
        if p < 0 {
            p = p + 2 * (x as i128) + 1;
        } else {
            y = y - 1;
            p = p + 2 * ((x as i128) - (y as i128)) + 1;
        }
        proof {
            assert(circle_offsets(xi, yi, pi) == seq![(xi, yi)] + circle_offsets(
                x as int,
                y as int,
                p as int,
            ));
            assert(done + circle_offsets(x as int, y as int, p as int) =~= all);
        }
    }
    proof {
        assert(circle_offsets(x as int, y as int, p as int) == Seq::<(int, int)>::empty());
        assert(done =~= all);
    }
}

/// Region-one steps of the midpoint ellipse walk: x advances while the
/// boundary's slope stays shallow, that is while `px < py`; the decision
/// variable `p` carries four times the classical discriminant, so quarters
/// never appear. Returns the emitted offsets and the state handed to region
/// two.
pub open spec fn ellipse_r1(x: int, y: int, px: int, py: int, p: int, w2: int, h2: int) -> (
    Seq<(int, int)>,
    (int, int, int, int),
)
    decreases (if px < py && h2 > 0 && w2 >= 0 { py - px } else { 0 }),
{
    if px < py && h2 > 0 && w2 >= 0 {
        let x2 = x + 1;
        let px2 = px + 2 * h2;
        if p < 0 {
            let r = ellipse_r1(x2, y, px2, py, p + 4 * (h2 + px2), w2, h2);
            (seq![(x2, y)] + r.0, r.1)
        } else {
            let y2 = y - 1;
            let py2 = py - 2 * w2;
            let r = ellipse_r1(x2, y2, px2, py2, p + 4 * (h2 + px2 - py2), w2, h2);
            (seq![(x2, y2)] + r.0, r.1)
        }
    } else {
        (Seq::empty(), (x, y, px, py))
    }
}

/// Region-two steps of the midpoint ellipse walk: y falls to zero, x
/// advancing when the decision variable asks for it.
pub open spec fn ellipse_r2(x: int, y: int, px: int, py: int, p: int, w2: int, h2: int) -> Seq<
    (int, int),
>
    decreases (if y > 0 { y } else { 0 }),
{
    if y > 0 {
        let y2 = y - 1;
        let py2 = py - 2 * w2;
        if p > 0 {
            seq![(x, y2)] + ellipse_r2(x, y2, px, py2, p + 4 * (w2 - py2), w2, h2)
        } else {
            let x2 = x + 1;
            let px2 = px + 2 * h2;
            seq![(x2, y2)] + ellipse_r2(x2, y2, px2, py2, p + 4 * (w2 - py2 + px2), w2, h2)
        }
    } else {
        Seq::empty()
    }
}

/// Region two as it starts from a region-one end state: the decision variable
/// is re-seeded from the ellipse's discriminant at that state.
pub open spec fn ellipse_r2_from(st: (int, int, int, int), w2: int, h2: int) -> Seq<(int, int)> {
    let (x, y, px, py) = st;
    let p2 = h2 * (2 * x + 1) * (2 * x + 1) + 4 * w2 * (y - 1) * (y - 1) - 4 * w2 * h2;
    ellipse_r2(x, y, px, py, p2, w2, h2)
}

/// All first-quadrant offsets the two-region midpoint ellipse walk emits,
/// the initial top point included.
pub open spec fn ellipse_offsets(wr: int, hr: int) -> Seq<(int, int)> {
    let w2 = wr * wr;
    let h2 = hr * hr;
    let p0 = 4 * (h2 - w2 * hr) + w2;
    let r1 = ellipse_r1(0, hr, 0, 2 * w2 * hr, p0, w2, h2);
    (seq![(0, hr)] + r1.0) + ellipse_r2_from(r1.1, w2, h2)
}

/// How one emitted offset is rendered: as its four mirror points for a
/// hollow ellipse, or as two horizontal scanlines for a filled one.
#[derive(Clone, Copy, Debug, PartialEq, Eq, Structural)]
pub enum EllipseMode {
    Hollow,
    Filled,
}

/// The four mirror images of a first-quadrant offset around the center, in
/// drawing order.
pub open spec fn quad_pts(x0: int, y0: int, x: int, y: int) -> Seq<(int, int)> {
    seq![(x0 + x, y0 + y), (x0 - x, y0 + y), (x0 + x, y0 - y), (x0 - x, y0 - y)]
}

/// The two horizontal scanlines covering a first-quadrant offset's mirror
/// images, in drawing order.
pub open spec fn ellipse_scan_pts(x0: int, y0: int, x: int, y: int) -> Seq<(int, int)> {
    hseg(x0 - x, x0 + x, y0 + y) + hseg(x0 - x, x0 + x, y0 - y)
}

pub open spec fn ellipse_step_pts(mode: EllipseMode, x0: int, y0: int, x: int, y: int) -> Seq<
    (int, int),
> {
    if mode == EllipseMode::Hollow {
        quad_pts(x0, y0, x, y)
    } else {
        ellipse_scan_pts(x0, y0, x, y)
    }
}

pub open spec fn ellipse_expand(mode: EllipseMode, x0: int, y0: int) -> spec_fn((int, int)) -> Seq<
    (int, int),
> {
    |o: (int, int)| ellipse_step_pts(mode, x0, y0, o.0, o.1)
}

/// The full footprint of the ellipse walk under the given rendering mode.
pub open spec fn ellipse_pts(mode: EllipseMode, cx: int, cy: int, wr: int, hr: int) -> Seq<
    (int, int),
> {
    flat_pts(ellipse_expand(mode, cx, cy), ellipse_offsets(wr, hr))
}

/// Render one emitted offset of the ellipse walk.
fn render_ellipse_step<C: Canvas>(
    canvas: &mut C,
    mode: EllipseMode,
    x0: i64,
    y0: i64,
    x: i64,
    y: i64,
    color: C::Pixel,
)
    requires
        -0x8000_0000 <= x0 <= 0x8000_0000,
        -0x8000_0000 <= y0 <= 0x8000_0000,
        0 <= x <= 0x1_0000_0000_0000,
        -0x1_0000_0000_0000 <= y <= 0x1_0000_0000_0000,
    ensures
        final(canvas).wd() == old(canvas).wd(),
        final(canvas).hgt() == old(canvas).hgt(),
        final(canvas).img() == paint(
            old(canvas).img(),
            old(canvas).wd() as int,
            old(canvas).hgt() as int,
            ellipse_step_pts(mode, x0 as int, y0 as int, x as int, y as int),
            color,
            writer::<C>(),
        ),
{
    let ghost img0 = old(canvas).img();
    let ghost w = old(canvas).wd() as int;
    let ghost h = old(canvas).hgt() as int;
    match mode {
        EllipseMode::Hollow => {
            let ghost mut done: Seq<(int, int)> = Seq::empty();
            proof {
                assert(paint(img0, w, h, done, color, writer::<C>()) == img0);
            }
            draw_if_in_bounds(canvas, x0 + x, y0 + y, color);
            proof {
                lemma_paint_snoc(img0, w, h, done, ((x0 + x) as int, (y0 + y) as int), color, writer::<C>());
                done = done.push(((x0 + x) as int, (y0 + y) as int));
            }
            draw_if_in_bounds(canvas, x0 - x, y0 + y, color);
            proof {
                lemma_paint_snoc(img0, w, h, done, ((x0 - x) as int, (y0 + y) as int), color, writer::<C>());
                done = done.push(((x0 - x) as int, (y0 + y) as int));
            }
            draw_if_in_bounds(canvas, x0 + x, y0 - y, color);
            proof {
                lemma_paint_snoc(img0, w, h, done, ((x0 + x) as int, (y0 - y) as int), color, writer::<C>());
                done = done.push(((x0 + x) as int, (y0 - y) as int));
            }
            draw_if_in_bounds(canvas, x0 - x, y0 - y, color);
            proof {
                lemma_paint_snoc(img0, w, h, done, ((x0 - x) as int, (y0 - y) as int), color, writer::<C>());
                done = done.push(((x0 - x) as int, (y0 - y) as int));
                assert(done =~= quad_pts(x0 as int, y0 as int, x as int, y as int));
            }
        },
        EllipseMode::Filled => {
            let ghost s1 = hseg((x0 - x) as int, (x0 + x) as int, (y0 + y) as int);
            let ghost s2 = hseg((x0 - x) as int, (x0 + x) as int, (y0 - y) as int);
            draw_hline_mut(canvas, x0 - x, x0 + x, y0 + y, color);
            draw_hline_mut(canvas, x0 - x, x0 + x, y0 - y, color);
            proof {
                lemma_paint_concat(img0, w, h, s1, s2, color, writer::<C>());
            }
        },
    }
}

/// Walk the midpoint ellipse and render each emitted first-quadrant offset
/// under the given mode. The radii may be negative; their magnitudes are
/// bounded so that the scaled decision variable stays representable.
pub fn draw_ellipse<C: Canvas>(
    canvas: &mut C,
    mode: EllipseMode,
    center: (i32, i32),
    width_radius: i32,
    height_radius: i32,
    color: C::Pixel,
)
    requires
        -32767 <= width_radius <= 32767,
        -32767 <= height_radius <= 32767,
    ensures
        final(canvas).wd() == old(canvas).wd(),
        final(canvas).hgt() == old(canvas).hgt(),
        final(canvas).img() == paint(
            old(canvas).img(),
            old(canvas).wd() as int,
            old(canvas).hgt() as int,
            ellipse_pts(
                mode,
                center.0 as int,
                center.1 as int,
                width_radius as int,
                height_radius as int,
            ),
            color,
            writer::<C>(),
        ),
{
    let ghost img0 = old(canvas).img();
    let ghost w = old(canvas).wd() as int;
    let ghost h = old(canvas).hgt() as int;
    let ghost f = ellipse_expand(mode, center.0 as int, center.1 as int);
    let ghost all = ellipse_offsets(width_radius as int, height_radius as int);
    let x0 = center.0 as i64;
    let y0 = center.1 as i64;
    let hri = height_radius as i128;
    let wri = width_radius as i128;
    proof {
        assert((-32767 <= wri <= 32767 && -32767 <= hri <= 32767) ==> (0 <= wri * wri
            <= 0x4000_0000 && 0 <= hri * hri <= 0x4000_0000)) by (nonlinear_arith);
    }
    let w2: i128 = wri * wri;
    let h2: i128 = hri * hri;
    proof {
        assert(hri != 0 ==> h2 >= 1) by (nonlinear_arith)
            requires
                h2 == hri * hri,
        ;
        assert((0 <= w2 <= 0x4000_0000 && -32767 <= hri <= 32767) ==> (-0x1_0000_0000_0000 <= w2
            * hri <= 0x1_0000_0000_0000 && -0x4000_0000_0000 <= (2 * w2) * hri
            <= 0x4000_0000_0000)) by (nonlinear_arith);
        assert(hri == 0 ==> (2 * w2) * hri == 0) by (nonlinear_arith);
    }
    let mut x: i64 = 0;
    let mut y: i64 = height_radius as i64;
    let mut px: i128 = 0;
    let mut py: i128 = 2 * w2 * hri;
    let mut p: i128 = 4 * (h2 - w2 * hri) + w2;
    let ghost mut done: Seq<(int, int)> = Seq::empty();

    render_ellipse_step(canvas, mode, x0, y0, x, y, color);
    proof {
        lemma_flat_pts_snoc(f, done, (0, height_radius as int));
        assert(flat_pts(f, done) == Seq::<(int, int)>::empty());
        assert(paint(img0, w, h, flat_pts(f, done), color, writer::<C>()) == img0);
        assert(flat_pts(f, done.push((0, height_radius as int))) =~= ellipse_step_pts(
            mode,
            center.0 as int,
            center.1 as int,
            0,
            height_radius as int,
        ));
        done = done.push((0, height_radius as int));
        assert(2 * h2 * 0 == 0) by (nonlinear_arith);
        let r1 = ellipse_r1(0, height_radius as int, 0, py as int, p as int, w2 as int, h2 as int);
        assert(all == done + r1.0 + ellipse_r2_from(r1.1, w2 as int, h2 as int)) by {
            assert(all == (seq![(0, height_radius as int)] + r1.0) + ellipse_r2_from(
                r1.1,
                w2 as int,
                h2 as int,
            ));
            assert((seq![(0, height_radius as int)] + r1.0) =~= done + r1.0);
        }
    }

    while px < py
        invariant
            0 <= w2 <= 0x4000_0000,
            0 <= h2 <= 0x4000_0000,
            w2 == (width_radius as int) * (width_radius as int),
            h2 == (height_radius as int) * (height_radius as int),
            h2 >= 1 || py <= 0,
            h2 >= 1 || y == height_radius,
            -32767 <= height_radius <= 32767,
            0 <= x <= 0x2000_0000_0000,
            y >= height_radius - x,
            -0x2000_0000_8000 <= y <= 0x8000,
            px == 2 * h2 * x,
            py == 2 * w2 * y,
            0 <= px <= 0x8000_0000_0000,
            -0x4000_0000_0000 <= py <= 0x4000_0000_0000,
            -(0x40_0000_0000_0000 + x * 0x8_0000_0000_0000) <= p <= 0x40_0000_0000_0000 + x
                * 0x8_0000_0000_0000,
            x0 == center.0 as i64,
            y0 == center.1 as i64,
            f == ellipse_expand(mode, center.0 as int, center.1 as int),
            canvas.wd() as int == w,
            canvas.hgt() as int == h,
            all == done + ellipse_r1(
                x as int,
                y as int,
                px as int,
                py as int,
                p as int,
                w2 as int,
                h2 as int,
            ).0 + ellipse_r2_from(
                ellipse_r1(x as int, y as int, px as int, py as int, p as int, w2 as int, h2 as int).1,
                w2 as int,
                h2 as int,
            ),
            canvas.img() == paint(img0, w, h, flat_pts(f, done), color, writer::<C>()),
        decreases (if px < py { py - px } else { 0 }),
    {
        let ghost xi = x as int;
        let ghost yi = y as int;
        let ghost pxi = px as int;
        let ghost pyi = py as int;
        let ghost pi = p as int;
        proof {
            assert(h2 >= 1);
            assert(2 * x <= px) by (nonlinear_arith)
                requires
                    h2 >= 1,
                    x >= 0,
                    px == 2 * h2 * x,
            ;
            assert(2 * h2 * (xi + 1) == 2 * h2 * xi + 2 * h2) by (nonlinear_arith);
            assert(2 * w2 * (yi - 1) == 2 * w2 * yi - 2 * w2) by (nonlinear_arith);
        }
        x = x + 1;
        px = px + 2 * h2;
        if p < 0 {
            p = p + 4 * (h2 + px);
        } else {
            y = y - 1;
            py = py - 2 * w2;
            p = p + 4 * (h2 + px - py);
        }
        render_ellipse_step(canvas, mode, x0, y0, x, y, color);
        proof {
            let r1pre = ellipse_r1(xi, yi, pxi, pyi, pi, w2 as int, h2 as int);
            let r1post = ellipse_r1(
                x as int,
                y as int,
                px as int,
                py as int,
                p as int,
                w2 as int,
                h2 as int,
            );
            assert(r1pre.0 == seq![(x as int, y as int)] + r1post.0 && r1pre.1 == r1post.1);
            lemma_paint_concat(
                img0,
                w,
                h,
                flat_pts(f, done),
                ellipse_step_pts(mode, center.0 as int, center.1 as int, x as int, y as int),
                color,
                writer::<C>(),
            );
            lemma_flat_pts_snoc(f, done, (x as int, y as int));
            assert(f((x as int, y as int)) == ellipse_step_pts(
                mode,
                center.0 as int,
                center.1 as int,
                x as int,
                y as int,
            ));
            done = done.push((x as int, y as int));
            assert(all == done + r1post.0 + ellipse_r2_from(r1post.1, w2 as int, h2 as int)) by {
                assert((done.drop_last() + (seq![(x as int, y as int)] + r1post.0)) =~= (done
                    + r1post.0));
            }
        }
    }

    proof {
        let r1end = ellipse_r1(
            x as int,
            y as int,
            px as int,
            py as int,
            p as int,
            w2 as int,
            h2 as int,
        );
        assert(r1end.0 == Seq::<(int, int)>::empty() && r1end.1 == (
            x as int,
            y as int,
            px as int,
            py as int,
        ));
        assert(done + r1end.0 =~= done);
    }

    let tx: i128 = 2 * (x as i128) + 1;
    proof {
        let yi = y as int;
        assert((0 <= h2 <= 0x4000_0000 && 1 <= tx <= 0x4000_0000_8000) ==> (0 <= h2 * tx
            <= 0x4000_0000_0000_0000_0000 && 0 <= (h2 * tx) * tx
            <= 0x800_0000_0000_0000_0000_0000_0000_0000)) by (nonlinear_arith);
        assert((0 <= w2 <= 0x4000_0000 && -0x2000_0000_8000 <= yi <= 0x8000) ==> (
        -0x4000_0000_0000_0000_0000 <= (4 * w2) * (yi - 1) <= 0x4000_0000_0000_0000_0000 && 0 <= ((4
        * w2) * (yi - 1)) * (yi - 1) <= 0x800_0000_0000_0000_0000_0000_0000_0000)) by (nonlinear_arith);
        assert((0 <= w2 <= 0x4000_0000 && 0 <= h2 <= 0x4000_0000) ==> 0 <= (4 * w2) * h2
            <= 0x1_0000_0000_0000_0000) by (nonlinear_arith);
    }
    p = h2 * tx * tx + 4 * w2 * ((y as i128) - 1) * ((y as i128) - 1) - 4 * w2 * h2;

    proof {
        assert((0 <= h2 <= 0x4000_0000 && -0x2000_0000_8000 <= y as int <= 0x8000) ==> (2 * h2) * (
        y as int) <= 0x8000_0000_0000) by (nonlinear_arith);
        assert(h2 == 0 ==> hri == 0) by (nonlinear_arith)
            requires
                h2 == hri * hri,
        ;
        assert(h2 >= 1 || y as int <= 0);
    }
    while y > 0
        invariant
            0 <= w2 <= 0x4000_0000,
            0 <= h2 <= 0x4000_0000,
            h2 >= 1 || y <= 0,
            0 <= x <= 0x1_0000_0000_0000,
            -0x2000_0000_8000 <= y <= 0x8000,
            px == 2 * h2 * x,
            py == 2 * w2 * y,
            0 <= px <= 0x2_0000_0000_0000,
            px + 2 * h2 * y <= 0x2_0000_0000_0000,
            -0x8000_0000_0000 <= py <= 0x4000_0000_0000,
            -(0x2000_0000_0000_0000_0000_0000_0000_0000 - y * 0x8_0000_0000_0000_0000) <= p
                <= 0x2000_0000_0000_0000_0000_0000_0000_0000 - y * 0x8_0000_0000_0000_0000,
            x0 == center.0 as i64,
            y0 == center.1 as i64,
            f == ellipse_expand(mode, center.0 as int, center.1 as int),
            canvas.wd() as int == w,
            canvas.hgt() as int == h,
            all == done + ellipse_r2(
                x as int,
                y as int,
                px as int,
                py as int,
                p as int,
                w2 as int,
                h2 as int,
            ),
            canvas.img() == paint(img0, w, h, flat_pts(f, done), color, writer::<C>()),
        decreases (if y > 0 { y } else { 0 }),
    {
        let ghost xi = x as int;
        let ghost yi = y as int;
        let ghost pxi = px as int;
        let ghost pyi = py as int;
        let ghost pi = p as int;
        proof {
            assert(2 * w2 * (yi - 1) == 2 * w2 * yi - 2 * w2) by (nonlinear_arith);
            assert(2 * h2 * (xi + 1) == 2 * h2 * xi + 2 * h2) by (nonlinear_arith);
            assert(2 * h2 * yi >= 0 && 2 * h2 * (yi - 1) >= 0 && 2 * h2 * yi - 2 * h2 * (yi - 1)
                == 2 * h2) by (nonlinear_arith)
                requires
                    yi >= 1,
                    0 <= h2,
            ;
            assert(2 * (xi + 1) <= 2 * h2 * (xi + 1)) by (nonlinear_arith)
                requires
                    h2 >= 1,
                    xi >= 0,
            ;
            assert((2 * w2) * yi >= 0) by (nonlinear_arith)
                requires
                    w2 >= 0,
                    yi >= 1,
            ;
        }
        y = y - 1;
        py = py - 2 * w2;
        if p > 0 {
            p = p + 4 * (w2 - py);
        } else {
            x = x + 1;
            px = px + 2 * h2;
            p = p + 4 * (w2 - py + px);
        }
        render_ellipse_step(canvas, mode, x0, y0, x, y, color);
        proof {
            let r2pre = ellipse_r2(xi, yi, pxi, pyi, pi, w2 as int, h2 as int);
            let r2post = ellipse_r2(
                x as int,
                y as int,
                px as int,
                py as int,
                p as int,
                w2 as int,
                h2 as int,
            );
            assert(r2pre == seq![(x as int, y as int)] + r2post);
            lemma_paint_concat(
                img0,
                w,
                h,
                flat_pts(f, done),
                ellipse_step_pts(mode, center.0 as int, center.1 as int, x as int, y as int),
                color,
                writer::<C>(),
            );
            lemma_flat_pts_snoc(f, done, (x as int, y as int));
            assert(f((x as int, y as int)) == ellipse_step_pts(
                mode,
                center.0 as int,
                center.1 as int,
                x as int,
                y as int,
            ));
            done = done.push((x as int, y as int));
            assert(all == done + r2post) by {
                assert((done.drop_last() + (seq![(x as int, y as int)] + r2post)) =~= (done
                    + r2post));
            }
        }
    }
    proof {
        assert(ellipse_r2(x as int, y as int, px as int, py as int, p as int, w2 as int, h2 as int)
            == Seq::<(int, int)>::empty());
        assert(done + Seq::<(int, int)>::empty() =~= done);
    }
}

/// The footprint of the hollow ellipse: with equal radii the walk dispatches
/// to the numerically simpler circle algorithm.
pub open spec fn hollow_ellipse_pts(cx: int, cy: int, wr: int, hr: int) -> Seq<(int, int)> {
    if wr == hr {
        hollow_circle_pts(cx, cy, wr)
    } else {
        ellipse_pts(EllipseMode::Hollow, cx, cy, wr, hr)
    }
}

/// The footprint of the filled ellipse: with equal radii the walk dispatches
/// to the numerically simpler circle algorithm.
pub open spec fn filled_ellipse_pts(cx: int, cy: int, wr: int, hr: int) -> Seq<(int, int)> {
    if wr == hr {
        filled_circle_pts(cx, cy, wr)
    } else {
        ellipse_pts(EllipseMode::Filled, cx, cy, wr, hr)
    }
}

/// Draw the ellipse's outline: four mirrored points per walk step, each
/// silently skipped when off-canvas. Equal radii dispatch to the circle
/// algorithm.
pub fn draw_hollow_ellipse_mut<C: Canvas>(
    canvas: &mut C,
    center: (i32, i32),
    width_radius: i32,
    height_radius: i32,
    color: C::Pixel,
)
    requires
        width_radius == height_radius || (-32767 <= width_radius <= 32767 && -32767
            <= height_radius <= 32767),
    ensures
        final(canvas).wd() == old(canvas).wd(),
        final(canvas).hgt() == old(canvas).hgt(),
        final(canvas).img() == paint(
            old(canvas).img(),
            old(canvas).wd() as int,
            old(canvas).hgt() as int,
            hollow_ellipse_pts(
                center.0 as int,
                center.1 as int,
                width_radius as int,
                height_radius as int,
            ),
            color,
            writer::<C>(),
        ),
{
    if width_radius == height_radius {
        draw_hollow_circle_mut(canvas, center, width_radius, color);
        return ;
    }
    draw_ellipse(canvas, EllipseMode::Hollow, center, width_radius, height_radius, color);
}

/// Fill the ellipse: two horizontal scanlines per walk step, each clipped
/// against the canvas bounds. Equal radii dispatch to the circle algorithm.
pub fn draw_filled_ellipse_mut<C: Canvas>(
    canvas: &mut C,
    center: (i32, i32),
    width_radius: i32,
    height_radius: i32,
    color: C::Pixel,
)
    requires
        width_radius == height_radius || (-32767 <= width_radius <= 32767 && -32767
            <= height_radius <= 32767),
    ensures
        final(canvas).wd() == old(canvas).wd(),
        final(canvas).hgt() == old(canvas).hgt(),
        final(canvas).img() == paint(
            old(canvas).img(),
            old(canvas).wd() as int,
            old(canvas).hgt() as int,
            filled_ellipse_pts(
                center.0 as int,
                center.1 as int,
                width_radius as int,
                height_radius as int,
            ),
            color,
            writer::<C>(),
        ),
{
    if width_radius == height_radius {
        draw_filled_circle_mut(canvas, center, width_radius, color);
        return ;
    }
    draw_ellipse(canvas, EllipseMode::Filled, center, width_radius, height_radius, color);
}

/// An ellipse with equal radii covers exactly the circle of that radius,
/// hollow and filled alike: the walk dispatches to the circle algorithm, so
/// the footprints coincide point for point.
pub proof fn lemma_ellipse_circle_equal_radii(cx: int, cy: int, r: int)
    ensures
        hollow_ellipse_pts(cx, cy, r, r) == hollow_circle_pts(cx, cy, r),
        filled_ellipse_pts(cx, cy, r, r) == filled_circle_pts(cx, cy, r),
{
}


/// Draw the circle's outline on a fresh copy of the canvas, leaving the
/// original untouched.
pub fn draw_hollow_circle<C: Canvas>(image: &C, center: (i32, i32), radius: i32, color: C::Pixel) -> (out:
    crate::drawing::canvas::ImgBuf<C::Pixel>)
    requires
        image.wd() * image.hgt() <= usize::MAX,
    ensures
        out.wd() == image.wd(),
        out.hgt() == image.hgt(),
        out.img() == paint(
            image.img(),
            image.wd() as int,
            image.hgt() as int,
            hollow_circle_pts(center.0 as int, center.1 as int, radius as int),
            color,
            writer::<crate::drawing::canvas::ImgBuf<C::Pixel>>(),
        ),
{
    let mut out = crate::drawing::canvas::copy_canvas(image);
    draw_hollow_circle_mut(&mut out, center, radius, color);
    out
}

/// Fill the circle on a fresh copy of the canvas, leaving the original
/// untouched.
pub fn draw_filled_circle<C: Canvas>(image: &C, center: (i32, i32), radius: i32, color: C::Pixel) -> (out:
    crate::drawing::canvas::ImgBuf<C::Pixel>)
    requires
        image.wd() * image.hgt() <= usize::MAX,
    ensures
        out.wd() == image.wd(),
        out.hgt() == image.hgt(),
        out.img() == paint(
            image.img(),
            image.wd() as int,
            image.hgt() as int,
            filled_circle_pts(center.0 as int, center.1 as int, radius as int),
            color,
            writer::<crate::drawing::canvas::ImgBuf<C::Pixel>>(),
        ),
{
    let mut out = crate::drawing::canvas::copy_canvas(image);
    draw_filled_circle_mut(&mut out, center, radius, color);
    out
}

/// Draw the ellipse's outline on a fresh copy of the canvas, leaving the
/// original untouched.
pub fn draw_hollow_ellipse<C: Canvas>(
    image: &C,
    center: (i32, i32),
    width_radius: i32,
    height_radius: i32,
    color: C::Pixel,
) -> (out: crate::drawing::canvas::ImgBuf<C::Pixel>)
    requires
        image.wd() * image.hgt() <= usize::MAX,
        width_radius == height_radius || (-32767 <= width_radius <= 32767 && -32767
            <= height_radius <= 32767),
    ensures
        out.wd() == image.wd(),
        out.hgt() == image.hgt(),
        out.img() == paint(
            image.img(),
            image.wd() as int,
            image.hgt() as int,
            hollow_ellipse_pts(
                center.0 as int,
                center.1 as int,
                width_radius as int,
                height_radius as int,
            ),
            color,
            writer::<crate::drawing::canvas::ImgBuf<C::Pixel>>(),
        ),
{
    let mut out = crate::drawing::canvas::copy_canvas(image);
    draw_hollow_ellipse_mut(&mut out, center, width_radius, height_radius, color);
    out
}

/// Fill the ellipse on a fresh copy of the canvas, leaving the original
/// untouched.
pub fn draw_filled_ellipse<C: Canvas>(
    image: &C,
    center: (i32, i32),
    width_radius: i32,
    height_radius: i32,
    color: C::Pixel,
) -> (out: crate::drawing::canvas::ImgBuf<C::Pixel>)
    requires
        image.wd() * image.hgt() <= usize::MAX,
        width_radius == height_radius || (-32767 <= width_radius <= 32767 && -32767
            <= height_radius <= 32767),
    ensures
        out.wd() == image.wd(),
        out.hgt() == image.hgt(),
        out.img() == paint(
            image.img(),
            image.wd() as int,
            image.hgt() as int,
            filled_ellipse_pts(
                center.0 as int,
                center.1 as int,
                width_radius as int,
                height_radius as int,
            ),
            color,
            writer::<crate::drawing::canvas::ImgBuf<C::Pixel>>(),
        ),
{
    let mut out = crate::drawing::canvas::copy_canvas(image);
    draw_filled_ellipse_mut(&mut out, center, width_radius, height_radius, color);
    out
}

} // verus!
