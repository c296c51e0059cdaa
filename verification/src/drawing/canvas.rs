use vstd::prelude::*;

use crate::entity::definitions::{Luma8, Rgba8};

verus! {

/// Whether the point lies on a canvas of the given dimensions.
pub open spec fn in_canvas(w: int, h: int, q: (int, int)) -> bool {
    0 <= q.0 < w && 0 <= q.1 < h
}

/// One write through a canvas: inside the bounds the pixel at `q` becomes
/// `wf(existing, c)`; outside the bounds nothing changes.
pub open spec fn write_at<P>(
    img: Map<(int, int), P>,
    w: int,
    h: int,
    q: (int, int),
    c: P,
    wf: spec_fn(P, P) -> P,
) -> Map<(int, int), P> {
    if in_canvas(w, h, q) {
        img.insert(q, wf(img[q], c))
    } else {
        img
    }
}

/// The pixel map after writing `c` at every point of `pts`, in order, each
/// write filtered against the canvas bounds.
pub open spec fn paint<P>(
    img: Map<(int, int), P>,
    w: int,
    h: int,
    pts: Seq<(int, int)>,
    c: P,
    wf: spec_fn(P, P) -> P,
) -> Map<(int, int), P>
    decreases pts.len(),
{
    if pts.len() == 0 {
        img
    } else {
        paint(write_at(img, w, h, pts[0], c, wf), w, h, pts.subrange(1, pts.len() as int), c, wf)
    }
}

/// Painting a sequence extended by one point is painting the sequence and
/// then writing the extra point.
pub proof fn lemma_paint_snoc<P>(
    img: Map<(int, int), P>,
    w: int,
    h: int,
    pts: Seq<(int, int)>,
    q: (int, int),
    c: P,
    wf: spec_fn(P, P) -> P,
)
    ensures
        paint(img, w, h, pts.push(q), c, wf) == write_at(paint(img, w, h, pts, c, wf), w, h, q, c, wf),
    decreases pts.len(),
{
    let s = pts.push(q);
    if pts.len() == 0 {
        assert(s[0] == q);
        assert(s.subrange(1, s.len() as int) =~= Seq::<(int, int)>::empty());
        assert(paint(img, w, h, s, c, wf) == paint(
            write_at(img, w, h, q, c, wf),
            w,
            h,
            Seq::<(int, int)>::empty(),
            c,
            wf,
        ));
        assert(paint(write_at(img, w, h, q, c, wf), w, h, Seq::<(int, int)>::empty(), c, wf)
            == write_at(img, w, h, q, c, wf));
        assert(paint(img, w, h, pts, c, wf) == img);
    } else {
        let rest = pts.subrange(1, pts.len() as int);
        let img2 = write_at(img, w, h, pts[0], c, wf);
        assert(s[0] == pts[0]);
        assert(s.subrange(1, s.len() as int) =~= rest.push(q));
        assert(paint(img, w, h, s, c, wf) == paint(img2, w, h, rest.push(q), c, wf));
        lemma_paint_snoc(img2, w, h, rest, q, c, wf);
        assert(paint(img, w, h, pts, c, wf) == paint(img2, w, h, rest, c, wf));
    }
}

/// Painting a concatenation is painting the first part and then the second.
pub proof fn lemma_paint_concat<P>(
    img: Map<(int, int), P>,
    w: int,
    h: int,
    a: Seq<(int, int)>,
    b: Seq<(int, int)>,
    c: P,
    wf: spec_fn(P, P) -> P,
)
    ensures
        paint(img, w, h, a + b, c, wf) == paint(paint(img, w, h, a, c, wf), w, h, b, c, wf),
    decreases a.len(),
{
    if a.len() == 0 {
        assert(a + b =~= b);
        assert(paint(img, w, h, a, c, wf) == img);
    } else {
        let img2 = write_at(img, w, h, a[0], c, wf);
        let rest = a.subrange(1, a.len() as int);
        assert((a + b)[0] == a[0]);
        assert((a + b).subrange(1, (a + b).len() as int) =~= rest + b);
        assert(paint(img, w, h, a + b, c, wf) == paint(img2, w, h, rest + b, c, wf));
        lemma_paint_concat(img2, w, h, rest, b, c, wf);
        assert(paint(img, w, h, a, c, wf) == paint(img2, w, h, rest, c, wf));
    }
}

/// Under a write rule that overwrites, painting sets every in-bounds point of
/// the sequence to the color and leaves every other point alone.
pub proof fn lemma_paint_overwrite<P>(
    img: Map<(int, int), P>,
    w: int,
    h: int,
    pts: Seq<(int, int)>,
    c: P,
    wf: spec_fn(P, P) -> P,
)
    requires
        forall|o: P, n: P| #[trigger] wf(o, n) == n,
    ensures
        forall|q: (int, int)| #[trigger] paint(img, w, h, pts, c, wf).dom().contains(q)
            <==> img.dom().contains(q) || (pts.contains(q) && in_canvas(w, h, q)),
        forall|q: (int, int)| pts.contains(q) && in_canvas(w, h, q)
            ==> #[trigger] paint(img, w, h, pts, c, wf)[q] == c,
        forall|q: (int, int)| !pts.contains(q) ==> #[trigger] paint(img, w, h, pts, c, wf)[q]
            == img[q],
    decreases pts.len(),
{
    if pts.len() != 0 {
        let img2 = write_at(img, w, h, pts[0], c, wf);
        let rest = pts.subrange(1, pts.len() as int);
        lemma_paint_overwrite(img2, w, h, rest, c, wf);
        assert(paint(img, w, h, pts, c, wf) == paint(img2, w, h, rest, c, wf));
        assert forall|q: (int, int)| pts.contains(q) && in_canvas(w, h, q) implies #[trigger] paint(
            img,
            w,
            h,
            pts,
            c,
            wf,
        )[q] == c by {
            if rest.contains(q) {
                assert(paint(img2, w, h, rest, c, wf)[q] == c);
            } else {
                let i = choose|i: int| 0 <= i < pts.len() && pts[i] == q;
                if i > 0 {
                    assert(rest[i - 1] == q);
                    assert(rest.contains(q));
                }
                assert(q == pts[0]);
                assert(img2[q] == wf(img[q], c));
                assert(paint(img2, w, h, rest, c, wf)[q] == img2[q]);
            }
        }
        assert forall|q: (int, int)| !pts.contains(q) implies #[trigger] paint(img, w, h, pts, c, wf)[q]
            == img[q] by {
            if rest.contains(q) {
                let i = choose|i: int| 0 <= i < rest.len() && rest[i] == q;
                assert(pts[i + 1] == q);
                assert(pts.contains(q));
            }
            if pts[0] == q {
                assert(pts.contains(q)) by {
                    assert(pts[0] == q);
                }
            }
            assert(paint(img2, w, h, rest, c, wf)[q] == img2[q]);
            assert(img2[q] == img[q]);
        }
        assert forall|q: (int, int)|
            #[trigger] paint(img, w, h, pts, c, wf).dom().contains(q) <==> img.dom().contains(q) || (
            pts.contains(q) && in_canvas(w, h, q)) by {
            assert(paint(img2, w, h, rest, c, wf).dom().contains(q) <==> img2.dom().contains(q) || (
            rest.contains(q) && in_canvas(w, h, q)));
            if pts.contains(q) && q != pts[0] {
                let i = choose|i: int| 0 <= i < pts.len() && pts[i] == q;
                assert(rest[i - 1] == q);
                assert(rest.contains(q));
            }
            if rest.contains(q) {
                let i = choose|i: int| 0 <= i < rest.len() && rest[i] == q;
                assert(pts[i + 1] == q);
                assert(pts.contains(q));
            }
            if q == pts[0] {
                assert(pts.contains(q)) by {
                    assert(pts[0] == q);
                }
            }
        }
    }
}

/// A pixel surface: dimensions, a read, and a write. The write rule — plain
/// overwrite, or compositing — is the surface's own choice, recorded in
/// `write_spec`. Callers must keep coordinates inside the bounds; the drawing
/// algorithms filter every point before writing.
pub trait Canvas: Sized {
    type Pixel: Copy;

    /// Width of the surface.
    spec fn wd(&self) -> u32;

    /// Height of the surface.
    spec fn hgt(&self) -> u32;

    /// The pixels, addressed by (x, y).
    spec fn img(&self) -> Map<(int, int), Self::Pixel>;

    /// How one write combines the incoming color with the existing pixel.
    spec fn write_spec(old_pix: Self::Pixel, new_pix: Self::Pixel) -> Self::Pixel;

    /// The pixel map is defined exactly on the in-bounds coordinates.
    proof fn lemma_dom(&self)
        ensures
            forall|q: (int, int)| #[trigger] self.img().dom().contains(q) <==> in_canvas(
                self.wd() as int,
                self.hgt() as int,
                q,
            ),
    ;

    fn dimensions(&self) -> (r: (u32, u32))
        ensures
            r.0 == self.wd(),
            r.1 == self.hgt(),
    ;

    fn width(&self) -> (r: u32)
        ensures
            r == self.wd(),
    ;

    fn height(&self) -> (r: u32)
        ensures
            r == self.hgt(),
    ;

    fn get_pixel(&self, x: u32, y: u32) -> (p: Self::Pixel)
        requires
            x < self.wd(),
            y < self.hgt(),
        ensures
            p == self.img()[(x as int, y as int)],
    ;

    fn draw_pixel(&mut self, x: u32, y: u32, color: Self::Pixel)
        requires
            x < old(self).wd(),
            y < old(self).hgt(),
        ensures
            final(self).wd() == old(self).wd(),
            final(self).hgt() == old(self).hgt(),
            final(self).img() == old(self).img().insert(
                (x as int, y as int),
                Self::write_spec(old(self).img()[(x as int, y as int)], color),
            ),
    ;
}

/// The write rule of a canvas type, as a function value for `paint`.
pub open spec fn writer<C: Canvas>() -> spec_fn(C::Pixel, C::Pixel) -> C::Pixel {
    |o: C::Pixel, n: C::Pixel| C::write_spec(o, n)
}

/// Write one pixel if its coordinates lie on the canvas; off-canvas
/// coordinates are silently skipped.
pub fn draw_if_in_bounds<C: Canvas>(canvas: &mut C, x: i64, y: i64, color: C::Pixel)
    ensures
        final(canvas).wd() == old(canvas).wd(),
        final(canvas).hgt() == old(canvas).hgt(),
        final(canvas).img() == write_at(
            old(canvas).img(),
            old(canvas).wd() as int,
            old(canvas).hgt() as int,
            (x as int, y as int),
            color,
            writer::<C>(),
        ),
{
    let (w, h) = canvas.dimensions();
    if 0 <= x && x < w as i64 && 0 <= y && y < h as i64 {
        canvas.draw_pixel(x as u32, y as u32, color);
    }
}

/// An in-memory pixel surface: a row-major buffer addressed by (x, y) in
/// `[0, width) x [0, height)`. Its write rule is plain overwrite.
pub struct ImgBuf<P> {
    width: u32,
    height: u32,
    data: Vec<P>,
}

impl<P> ImgBuf<P> {
    /// The buffer holds one entry per coordinate.
    #[verifier::type_invariant]
    pub closed spec fn inv(&self) -> bool {
        self.data.len() == self.width * self.height
    }

    pub closed spec fn wd_spec(&self) -> u32 {
        self.width
    }

    pub closed spec fn ht_spec(&self) -> u32 {
        self.height
    }

    pub closed spec fn img_spec(&self) -> Map<(int, int), P> {
        Map::new(
            |q: (int, int)| in_canvas(self.width as int, self.height as int, q),
            |q: (int, int)| self.data@[q.1 * self.width + q.0],
        )
    }
}

/// Row-major addressing stays in range and hits each in-bounds coordinate
/// exactly once.
proof fn lemma_rowmajor(w: int, h: int, x1: int, y1: int, x2: int, y2: int)
    by (nonlinear_arith)
    requires
        0 <= x1 < w,
        0 <= y1 < h,
        0 <= x2 < w,
        0 <= y2 < h,
    ensures
        0 <= y1 * w + x1 < h * w,
        y1 * w + x1 == y2 * w + x2 ==> x1 == x2 && y1 == y2,
{
}

impl<P: Copy> ImgBuf<P> {
    /// A zero-area buffer: one of its dimensions is zero, so it holds no
    /// pixels.
    pub fn empty(width: u32, height: u32) -> (r: ImgBuf<P>)
        requires
            width == 0 || height == 0,
        ensures
            r.wd() == width,
            r.hgt() == height,
    {
        proof {
            assert(width * height == 0) by (nonlinear_arith)
                requires
                    width == 0 || height == 0,
            ;
        }
        ImgBuf { width, height, data: Vec::new() }
    }

    /// A buffer of the given dimensions with every pixel set to `fill`.
    pub fn new(width: u32, height: u32, fill: P) -> (r: ImgBuf<P>)
        requires
            width * height <= usize::MAX,
        ensures
            r.wd() == width,
            r.hgt() == height,
            forall|q: (int, int)| in_canvas(width as int, height as int, q) ==> #[trigger] r.img()[q]
                == fill,
    {
        let size: usize = (width as usize) * (height as usize);
        let mut data: Vec<P> = Vec::new();
        for i in 0..size
            invariant
                data.len() == i,
                forall|k: int| 0 <= k < i ==> #[trigger] data@[k] == fill,
        {
            data.push(fill);
        }
        proof {
            assert(data.len() == size);
        }
        let ghost filled: Seq<P> = data@;
        let r = ImgBuf { width, height, data };
        proof {
            assert forall|q: (int, int)| in_canvas(width as int, height as int, q) implies #[trigger] r.img()[q]
                == fill by {
                lemma_rowmajor(width as int, height as int, q.0, q.1, q.0, q.1);
                assert(r.img()[q] == r.data@[q.1 * width + q.0]);
                assert(0 <= q.1 * width + q.0 < height * width);
                assert(filled[q.1 * width + q.0] == fill);
            }
        }
        r
    }
}

impl<P: Copy> Canvas for ImgBuf<P> {
    type Pixel = P;

    open spec fn wd(&self) -> u32 {
        self.wd_spec()
    }

    open spec fn hgt(&self) -> u32 {
        self.ht_spec()
    }

    open spec fn img(&self) -> Map<(int, int), P> {
        self.img_spec()
    }

    /// Overwrite: the incoming color replaces the existing pixel.
    open spec fn write_spec(old_pix: P, new_pix: P) -> P {
        new_pix
    }

    proof fn lemma_dom(&self) {
    }

    fn dimensions(&self) -> (r: (u32, u32)) {
        (self.width, self.height)
    }

    fn width(&self) -> (r: u32) {
        self.width
    }

    fn height(&self) -> (r: u32) {
        self.height
    }

    fn get_pixel(&self, x: u32, y: u32) -> (p: P) {
        proof {
            use_type_invariant(self);
            lemma_rowmajor(self.width as int, self.height as int, x as int, y as int, x as int, y as int);
        }
        let i: usize = (y as usize) * (self.width as usize) + (x as usize);
        self.data[i]
    }

    fn draw_pixel(&mut self, x: u32, y: u32, color: P) {
        proof {
            use_type_invariant(&*self);
            lemma_rowmajor(self.width as int, self.height as int, x as int, y as int, x as int, y as int);
        }
        let i: usize = (y as usize) * (self.width as usize) + (x as usize);
        self.data[i] = color;
        proof {
            let w = self.width as int;
            let h = self.height as int;
            assert(final(self).img() =~= old(self).img().insert(
                (x as int, y as int),
                color,
            )) by {
                assert forall|q: (int, int)| in_canvas(w, h, q) && q != (x as int, y as int)
                    implies self.data@[q.1 * w + q.0] == old(self).data@[q.1 * w + q.0] by {
                    lemma_rowmajor(w, h, q.0, q.1, x as int, y as int);
                }
            }
        }
    }
}

/// Pixel representations that can alpha-composite one value onto another.
pub trait PixelOver: Copy {
    /// The pixel that compositing `above` onto `below` produces.
    spec fn over_spec(below: Self, above: Self) -> Self;

    fn over(below: Self, above: Self) -> (r: Self)
        ensures
            r == Self::over_spec(below, above),
    ;
}

/// The pixel that image's alpha compositing produces for a pair of pixels;
/// it depends on the two pixels alone.
pub uninterp spec fn alpha_over(below: Rgba8, above: Rgba8) -> Rgba8;

/// Relies on image's `Pixel::blend` on `image::Rgba<u8>`: src-over alpha
/// compositing, a function of the two pixels alone. Its source returns the
/// existing pixel unchanged when the incoming alpha is zero, and the incoming
/// pixel when the incoming alpha is full.
#[verifier::external_body]
fn blend_rgba8(below: Rgba8, above: Rgba8) -> (r: Rgba8)
    ensures
        r == alpha_over(below, above),
        above.a == 0 ==> r == below,
        above.a == u8::MAX ==> r == above,
{
    let mut px = image::Rgba([below.r, below.g, below.b, below.a]);
    image::Pixel::blend(&mut px, &image::Rgba([above.r, above.g, above.b, above.a]));
    Rgba8 { r: px.0[0], g: px.0[1], b: px.0[2], a: px.0[3] }
}

impl PixelOver for Rgba8 {
    open spec fn over_spec(below: Self, above: Self) -> Self {
        alpha_over(below, above)
    }

    fn over(below: Self, above: Self) -> (r: Self) {
        blend_rgba8(below, above)
    }
}

impl PixelOver for Luma8 {
    /// A grayscale pixel has no alpha channel; compositing replaces it.
    open spec fn over_spec(below: Self, above: Self) -> Self {
        above
    }

    fn over(below: Self, above: Self) -> (r: Self) {
        above
    }
}

/// A canvas wrapper that alpha-composites each written pixel onto the
/// existing content instead of handing it through unchanged.
pub struct Blend<I>(pub I);

impl<I: Canvas> Canvas for Blend<I> where I::Pixel: PixelOver {
    type Pixel = I::Pixel;

    open spec fn wd(&self) -> u32 {
        self.0.wd()
    }

    open spec fn hgt(&self) -> u32 {
        self.0.hgt()
    }

    open spec fn img(&self) -> Map<(int, int), I::Pixel> {
        self.0.img()
    }

    /// Compositing first, then the wrapped canvas's own write rule.
    open spec fn write_spec(old_pix: I::Pixel, new_pix: I::Pixel) -> I::Pixel {
        I::write_spec(old_pix, <I::Pixel as PixelOver>::over_spec(old_pix, new_pix))
    }

    proof fn lemma_dom(&self) {
        self.0.lemma_dom();
    }

    fn dimensions(&self) -> (r: (u32, u32)) {
        self.0.dimensions()
    }

    fn width(&self) -> (r: u32) {
        self.0.width()
    }

    fn height(&self) -> (r: u32) {
        self.0.height()
    }

    fn get_pixel(&self, x: u32, y: u32) -> (p: I::Pixel) {
        self.0.get_pixel(x, y)
    }

    fn draw_pixel(&mut self, x: u32, y: u32, color: I::Pixel) {
        let below = self.0.get_pixel(x, y);
        let blended = PixelOver::over(below, color);
        self.0.draw_pixel(x, y, blended);
    }
}

/// A full copy of a canvas's pixels into a fresh buffer of the same
/// dimensions.
pub fn copy_canvas<C: Canvas>(image: &C) -> (out: ImgBuf<C::Pixel>)
    requires
        image.wd() * image.hgt() <= usize::MAX,
    ensures
        out.wd() == image.wd(),
        out.hgt() == image.hgt(),
        out.img() == image.img(),
{
    let (w, h) = image.dimensions();
    proof {
        image.lemma_dom();
    }
    if w == 0 || h == 0 {
        let out = ImgBuf::<C::Pixel>::empty(w, h);
        proof {
            out.lemma_dom();
            assert(out.img() =~= image.img());
        }
        return out;
    }
    let fill = image.get_pixel(0, 0);
    let mut out: ImgBuf<C::Pixel> = ImgBuf::new(w, h, fill);
    let mut y: u32 = 0;
    while y < h
        invariant
            y <= h,
            w == image.wd(),
            h == image.hgt(),
            out.wd() == w,
            out.hgt() == h,
            forall|q: (int, int)| in_canvas(w as int, h as int, q) && q.1 < y
                ==> #[trigger] out.img()[q] == image.img()[q],
        decreases h - y,
    {
        let mut x: u32 = 0;
        while x < w
            invariant
                y < h,
                x <= w,
                w == image.wd(),
                h == image.hgt(),
                out.wd() == w,
                out.hgt() == h,
                forall|q: (int, int)| in_canvas(w as int, h as int, q) && q.1 < y
                    ==> #[trigger] out.img()[q] == image.img()[q],
                forall|q: (int, int)| in_canvas(w as int, h as int, q) && q.1 == y && q.0 < x
                    ==> #[trigger] out.img()[q] == image.img()[q],
            decreases w - x,
        {
            let px = image.get_pixel(x, y);
            out.draw_pixel(x, y, px);
            x = x + 1;
        }
        y = y + 1;
    }
    proof {
        out.lemma_dom();
        assert(out.img() =~= image.img());
    }
    out
}

/// The points of a walk's emissions, flattened: each emitted offset `o`
/// contributes the group `f(o)`, in emission order.
pub open spec fn flat_pts(f: spec_fn((int, int)) -> Seq<(int, int)>, offs: Seq<(int, int)>) -> Seq<
    (int, int),
>
    decreases offs.len(),
{
    if offs.len() == 0 {
        Seq::empty()
    } else {
        f(offs[0]) + flat_pts(f, offs.subrange(1, offs.len() as int))
    }
}

/// Flattening a walk extended by one emission appends that emission's group.
pub proof fn lemma_flat_pts_snoc(
    f: spec_fn((int, int)) -> Seq<(int, int)>,
    offs: Seq<(int, int)>,
    o: (int, int),
)
    ensures
        flat_pts(f, offs.push(o)) == flat_pts(f, offs) + f(o),
    decreases offs.len(),
{
    let s = offs.push(o);
    if offs.len() == 0 {
        assert(s[0] == o);
        assert(s.subrange(1, s.len() as int) =~= Seq::<(int, int)>::empty());
        assert(flat_pts(f, s) == f(o) + flat_pts(f, Seq::<(int, int)>::empty()));
        assert(flat_pts(f, Seq::<(int, int)>::empty()) == Seq::<(int, int)>::empty());
        assert(f(o) + Seq::<(int, int)>::empty() =~= f(o));
        assert(flat_pts(f, offs) == Seq::<(int, int)>::empty());
        assert(flat_pts(f, offs) + f(o) =~= f(o));
    } else {
        let rest = offs.subrange(1, offs.len() as int);
        assert(s[0] == offs[0]);
        assert(s.subrange(1, s.len() as int) =~= rest.push(o));
        assert(flat_pts(f, s) == f(offs[0]) + flat_pts(f, rest.push(o)));
        lemma_flat_pts_snoc(f, rest, o);
        assert(flat_pts(f, offs) == f(offs[0]) + flat_pts(f, rest));
        assert(f(offs[0]) + (flat_pts(f, rest) + f(o)) =~= (f(offs[0]) + flat_pts(f, rest)) + f(o));
    }
}

} // verus!
