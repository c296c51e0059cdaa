use vstd::prelude::*;

use crate::drawing::canvas::{draw_if_in_bounds, lemma_paint_snoc, paint, writer, Canvas};

verus! {

/// The five cells of the plus-shaped stamp centered on (x, y), in stencil
/// order: the cell above, the middle row left to right, the cell below.
pub open spec fn cross_pts(x: int, y: int) -> Seq<(int, int)> {
    seq![(x, y - 1), (x - 1, y), (x, y), (x + 1, y), (x, y + 1)]
}

/// Stamp a plus-shaped marker centered on (x, y): each of its five cells is
/// written if it lies on the canvas, and nothing else changes.
pub fn draw_cross_mut<C: Canvas>(canvas: &mut C, color: C::Pixel, x: i32, y: i32)
    ensures
        final(canvas).wd() == old(canvas).wd(),
        final(canvas).hgt() == old(canvas).hgt(),
        final(canvas).img() == paint(
            old(canvas).img(),
            old(canvas).wd() as int,
            old(canvas).hgt() as int,
            cross_pts(x as int, y as int),
            color,
            writer::<C>(),
        ),
{
    let ghost img0 = old(canvas).img();
    let ghost w = old(canvas).wd() as int;
    let ghost h = old(canvas).hgt() as int;
    let ghost mut done: Seq<(int, int)> = Seq::empty();
    let xl = x as i64;
    let yl = y as i64;
    proof {
        assert(paint(img0, w, h, done, color, writer::<C>()) == img0);
    }

    draw_if_in_bounds(canvas, xl, yl - 1, color);
    proof {
        lemma_paint_snoc(img0, w, h, done, (x as int, y as int - 1), color, writer::<C>());
        done = done.push((x as int, y as int - 1));
    }

    draw_if_in_bounds(canvas, xl - 1, yl, color);
    proof {
        lemma_paint_snoc(img0, w, h, done, (x as int - 1, y as int), color, writer::<C>());
        done = done.push((x as int - 1, y as int));
    }

    draw_if_in_bounds(canvas, xl, yl, color);
    proof {
        lemma_paint_snoc(img0, w, h, done, (x as int, y as int), color, writer::<C>());
        done = done.push((x as int, y as int));
    }

    draw_if_in_bounds(canvas, xl + 1, yl, color);
    proof {
        lemma_paint_snoc(img0, w, h, done, (x as int + 1, y as int), color, writer::<C>());
        done = done.push((x as int + 1, y as int));
    }

    draw_if_in_bounds(canvas, xl, yl + 1, color);
    proof {
        lemma_paint_snoc(img0, w, h, done, (x as int, y as int + 1), color, writer::<C>());
        done = done.push((x as int, y as int + 1));
        assert(done =~= cross_pts(x as int, y as int));
    }
}


/// Stamp the plus-shaped marker on a fresh copy of the canvas, leaving the
/// original untouched.
pub fn draw_cross<C: Canvas>(image: &C, color: C::Pixel, x: i32, y: i32) -> (out:
    crate::drawing::canvas::ImgBuf<C::Pixel>)
    requires
        image.wd() * image.hgt() <= usize::MAX,
    ensures
        out.wd() == image.wd(),
        out.hgt() == image.hgt(),
        out.img() == paint(
            image.img(),
            image.wd() as int,
            image.hgt() as int,
            cross_pts(x as int, y as int),
            color,
            writer::<crate::drawing::canvas::ImgBuf<C::Pixel>>(),
        ),
{
    let mut out = crate::drawing::canvas::copy_canvas(image);
    draw_cross_mut(&mut out, color, x, y);
    out
}

} // verus!
