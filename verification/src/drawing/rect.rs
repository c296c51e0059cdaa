use vstd::prelude::*;

use crate::drawing::canvas::{lemma_paint_concat, lemma_paint_snoc, paint, writer, Canvas};
use crate::drawing::line::{bres_pts, draw_line_segment_mut, hseg, lemma_hseg_snoc};
use crate::entity::rect::Rect;

verus! {

/// The coordinate sequences of a rectangle's four edges, in drawing order:
/// top, bottom, left, right.
pub open spec fn hollow_rect_pts(l: int, t: int, r: int, b: int) -> Seq<(int, int)> {
    ((bres_pts((l, t), (r, t)) + bres_pts((l, b), (r, b))) + bres_pts((l, t), (l, b))) + bres_pts(
        (r, t),
        (r, b),
    )
}

/// Row-major coordinates of the axis-aligned block `[xa..xb] x [ya..yb]`,
/// all bounds inclusive; empty when either range is.
pub open spec fn rect_rows(xa: int, xb: int, ya: int, yb: int) -> Seq<(int, int)>
    decreases (if ya <= yb { yb + 1 - ya } else { 0 }),
{
    if ya > yb {
        Seq::empty()
    } else {
        hseg(xa, xb, ya) + rect_rows(xa, xb, ya + 1, yb)
    }
}

/// A block grows at the bottom one row at a time.
proof fn lemma_rect_rows_snoc(xa: int, xb: int, ya: int, yb: int)
    requires
        ya <= yb + 1,
    ensures
        rect_rows(xa, xb, ya, yb + 1) == rect_rows(xa, xb, ya, yb) + hseg(xa, xb, yb + 1),
    decreases (if ya <= yb { yb + 1 - ya } else { 0 }),
{
    if ya <= yb {
        lemma_rect_rows_snoc(xa, xb, ya + 1, yb);
        assert(rect_rows(xa, xb, ya, yb + 1) == hseg(xa, xb, ya) + rect_rows(xa, xb, ya + 1, yb + 1));
        assert(hseg(xa, xb, ya) + (rect_rows(xa, xb, ya + 1, yb) + hseg(xa, xb, yb + 1)) =~= (hseg(
            xa,
            xb,
            ya,
        ) + rect_rows(xa, xb, ya + 1, yb)) + hseg(xa, xb, yb + 1));
    } else {
        assert(rect_rows(xa, xb, ya, yb + 1) == hseg(xa, xb, ya) + rect_rows(xa, xb, ya + 1, yb + 1));
        assert(rect_rows(xa, xb, ya + 1, yb + 1) == Seq::<(int, int)>::empty());
        assert(rect_rows(xa, xb, ya, yb) == Seq::<(int, int)>::empty());
        assert(rect_rows(xa, xb, ya, yb + 1) =~= rect_rows(xa, xb, ya, yb) + hseg(xa, xb, yb + 1));
    }
}

/// Draw the rectangle's outline: one line along each of the four edges.
pub fn draw_hollow_rect_mut<C: Canvas>(canvas: &mut C, rect: Rect, color: C::Pixel)
    ensures
        final(canvas).wd() == old(canvas).wd(),
        final(canvas).hgt() == old(canvas).hgt(),
        final(canvas).img() == paint(
            old(canvas).img(),
            old(canvas).wd() as int,
            old(canvas).hgt() as int,
            hollow_rect_pts(rect.left_spec(), rect.top_spec(), rect.right_spec(), rect.bottom_spec()),
            color,
            writer::<C>(),
        ),
{
    let ghost img0 = old(canvas).img();
    let ghost w = old(canvas).wd() as int;
    let ghost h = old(canvas).hgt() as int;
    let left = rect.left();
    let right = rect.right();
    let top = rect.top();
    let bottom = rect.bottom();

    draw_line_segment_mut(canvas, (left, top), (right, top), color);
    draw_line_segment_mut(canvas, (left, bottom), (right, bottom), color);
    draw_line_segment_mut(canvas, (left, top), (left, bottom), color);
    draw_line_segment_mut(canvas, (right, top), (right, bottom), color);

    proof {
        let l = rect.left_spec();
        let t = rect.top_spec();
        let r = rect.right_spec();
        let b = rect.bottom_spec();
        let s1 = bres_pts((l, t), (r, t));
        let s2 = bres_pts((l, b), (r, b));
        let s3 = bres_pts((l, t), (l, b));
        let s4 = bres_pts((r, t), (r, b));
        lemma_paint_concat(img0, w, h, s1, s2, color, writer::<C>());
        lemma_paint_concat(img0, w, h, s1 + s2, s3, color, writer::<C>());
        lemma_paint_concat(img0, w, h, (s1 + s2) + s3, s4, color, writer::<C>());
    }
}

/// Fill the rectangle: clip it against the canvas bounds and overwrite every
/// pixel of the clipped block; a rectangle with no on-canvas area writes
/// nothing.
pub fn draw_filled_rect_mut<C: Canvas>(canvas: &mut C, rect: Rect, color: C::Pixel)
    requires
        1 <= old(canvas).wd() <= i32::MAX,
        1 <= old(canvas).hgt() <= i32::MAX,
    ensures
        final(canvas).wd() == old(canvas).wd(),
        final(canvas).hgt() == old(canvas).hgt(),
        final(canvas).img() == paint(
            old(canvas).img(),
            old(canvas).wd() as int,
            old(canvas).hgt() as int,
            rect_rows(
                vstd::math::max(rect.left_spec(), 0),
                vstd::math::min(rect.right_spec(), old(canvas).wd() - 1),
                vstd::math::max(rect.top_spec(), 0),
                vstd::math::min(rect.bottom_spec(), old(canvas).hgt() - 1),
            ),
            color,
            writer::<C>(),
        ),
{
    let ghost img0 = old(canvas).img();
    let ghost w = old(canvas).wd() as int;
    let ghost h = old(canvas).hgt() as int;
    let (cw, ch) = canvas.dimensions();
    let canvas_bounds = Rect::at(0, 0).of_size(cw, ch);
    let ghost xa = vstd::math::max(rect.left_spec(), 0);
    let ghost xb = vstd::math::min(rect.right_spec(), w - 1);
    let ghost ya = vstd::math::max(rect.top_spec(), 0);
    let ghost yb = vstd::math::min(rect.bottom_spec(), h - 1);
    match canvas_bounds.intersect(rect) {
        Some(intersection) => {
            let left = intersection.left();
            let top = intersection.top();
            let width = intersection.width();
            let height = intersection.height();
            proof {
                assert(left == xa && top == ya);
                assert(left + width - 1 == xb && top + height - 1 == yb);
            }
            let mut dy: u32 = 0;
            while dy < height
                invariant
                    dy <= height,
                    xa == left as int,
                    ya == top as int,
                    xb == left + width - 1,
                    yb == top + height - 1,
                    0 <= left,
                    0 <= top,
                    xb < w,
                    yb < h,
                    1 <= width,
                    1 <= height,
                    canvas.wd() as int == w,
                    canvas.hgt() as int == h,
                    canvas.img() == paint(
                        img0,
                        w,
                        h,
                        rect_rows(xa, xb, ya, ya + dy - 1),
                        color,
                        writer::<C>(),
                    ),
                decreases height - dy,
            {
                let y = top as u32 + dy;
                let ghost row = ya + dy;
                let ghost rows_done = rect_rows(xa, xb, ya, row - 1);
                let mut dx: u32 = 0;
                proof {
                    assert(hseg(xa, xa - 1, row) == Seq::<(int, int)>::empty());
                    assert(rows_done + hseg(xa, xa - 1, row) =~= rows_done);
                }
                while dx < width
                    invariant
                        dx <= width,
                        y == top + dy,
                        row == ya + dy,
                        dy < height,
                        rows_done == rect_rows(xa, xb, ya, row - 1),
                        xa == left as int,
                        ya == top as int,
                        xb == left + width - 1,
                        yb == top + height - 1,
                        0 <= left,
                        0 <= top,
                        xb < w,
                        yb < h,
                        1 <= width,
                        row <= yb,
                        canvas.wd() as int == w,
                        canvas.hgt() as int == h,
                        canvas.img() == paint(
                            img0,
                            w,
                            h,
                            rows_done + hseg(xa, xa + dx - 1, row),
                            color,
                            writer::<C>(),
                        ),
                    decreases width - dx,
                {
                    let x = left as u32 + dx;
                    canvas.draw_pixel(x, y, color);
                    proof {
                        let pt = (xa + dx, row);
                        let part = hseg(xa, xa + dx - 1, row);
                        lemma_paint_snoc(img0, w, h, rows_done + part, pt, color, writer::<C>());
                        lemma_hseg_snoc(xa, xa + dx - 1, row);
                        assert((rows_done + part).push(pt) =~= rows_done + hseg(xa, xa + dx, row));
                        assert(canvas.img() == paint(
                            img0,
                            w,
                            h,
                            (rows_done + part).push(pt),
                            color,
                            writer::<C>(),
                        ));
                    }
                    dx = dx + 1;
                }
                proof {
                    lemma_rect_rows_snoc(xa, xb, ya, row - 1);
                    assert(hseg(xa, xa + width - 1, row) == hseg(xa, xb, row));
                    assert(rect_rows(xa, xb, ya, row) == rows_done + hseg(xa, xb, row));
                }
                dy = dy + 1;
            }
            proof {
                assert(ya + height - 1 == yb);
            }
        },
        None => {
            proof {
                assert(ya > yb || xa > xb);
                if ya <= yb {
                    lemma_rect_rows_all_empty(xa, xb, ya, yb);
                }
                assert(paint(img0, w, h, rect_rows(xa, xb, ya, yb), color, writer::<C>()) == img0);
            }
        },
    }
}

/// A block whose horizontal range is empty paints nothing.
proof fn lemma_rect_rows_all_empty(xa: int, xb: int, ya: int, yb: int)
    requires
        xa > xb,
    ensures
        rect_rows(xa, xb, ya, yb) =~= Seq::<(int, int)>::empty(),
    decreases (if ya <= yb { yb + 1 - ya } else { 0 }),
{
    if ya <= yb {
        lemma_rect_rows_all_empty(xa, xb, ya + 1, yb);
    }
}


/// Draw the rectangle's outline on a fresh copy of the canvas, leaving the
/// original untouched.
pub fn draw_hollow_rect<C: Canvas>(image: &C, rect: Rect, color: C::Pixel) -> (out:
    crate::drawing::canvas::ImgBuf<C::Pixel>)
    requires
        image.wd() * image.hgt() <= usize::MAX,
    ensures
        out.wd() == image.wd(),
        out.hgt() == image.hgt(),
        out.img() == paint(
            image.img(),
            image.wd() as int,
            image.hgt() as int,
            hollow_rect_pts(rect.left_spec(), rect.top_spec(), rect.right_spec(), rect.bottom_spec()),
            color,
            writer::<crate::drawing::canvas::ImgBuf<C::Pixel>>(),
        ),
{
    let mut out = crate::drawing::canvas::copy_canvas(image);
    draw_hollow_rect_mut(&mut out, rect, color);
    out
}

/// Fill the rectangle on a fresh copy of the canvas, leaving the original
/// untouched.
pub fn draw_filled_rect<C: Canvas>(image: &C, rect: Rect, color: C::Pixel) -> (out:
    crate::drawing::canvas::ImgBuf<C::Pixel>)
    requires
        image.wd() * image.hgt() <= usize::MAX,
        1 <= image.wd() <= i32::MAX,
        1 <= image.hgt() <= i32::MAX,
    ensures
        out.wd() == image.wd(),
        out.hgt() == image.hgt(),
        out.img() == paint(
            image.img(),
            image.wd() as int,
            image.hgt() as int,
            rect_rows(
                vstd::math::max(rect.left_spec(), 0),
                vstd::math::min(rect.right_spec(), image.wd() - 1),
                vstd::math::max(rect.top_spec(), 0),
                vstd::math::min(rect.bottom_spec(), image.hgt() - 1),
            ),
            color,
            writer::<crate::drawing::canvas::ImgBuf<C::Pixel>>(),
        ),
{
    let mut out = crate::drawing::canvas::copy_canvas(image);
    draw_filled_rect_mut(&mut out, rect, color);
    out
}

} // verus!
