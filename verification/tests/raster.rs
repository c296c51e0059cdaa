use ducat::drawing::canvas::{Blend, Canvas, ImgBuf};
use ducat::drawing::conics::{
    draw_filled_circle_mut, draw_filled_ellipse_mut, draw_hollow_circle_mut,
    draw_hollow_ellipse_mut,
};
use ducat::drawing::cross::draw_cross_mut;
use ducat::drawing::line::{
    draw_antialiased_line_segment_mut, draw_line_segment, draw_line_segment_mut,
    BresenhamLineIter, Interpolate,
};
use ducat::drawing::rect::{draw_filled_rect_mut, draw_hollow_rect_mut};
use ducat::entity::definitions::{HasBlack, HasWhite, Luma8, Rgba8};
use ducat::entity::rect::Rect;

fn white() -> Rgba8 {
    <Rgba8 as HasWhite>::white()
}

fn black() -> Rgba8 {
    <Rgba8 as HasBlack>::black()
}

fn canvas(w: u32, h: u32) -> ImgBuf<Rgba8> {
    ImgBuf::new(w, h, white())
}

fn colored_pixels(buf: &ImgBuf<Rgba8>, color: Rgba8) -> Vec<(u32, u32)> {
    let (w, h) = buf.dimensions();
    let mut out = Vec::new();
    for y in 0..h {
        for x in 0..w {
            if buf.get_pixel(x, y) == color {
                out.push((x, y));
            }
        }
    }
    out
}

#[test]
fn diagonal_line_writes_exactly_the_diagonal() {
    let mut buf = canvas(10, 10);
    draw_line_segment_mut(&mut buf, (0, 0), (9, 9), black());
    let pixels = colored_pixels(&buf, black());
    assert_eq!(pixels.len(), 10);
    for (x, y) in pixels {
        assert_eq!(x, y);
    }
}

#[test]
fn line_pixels_do_not_depend_on_endpoint_order() {
    let mut fwd = canvas(20, 20);
    let mut rev = canvas(20, 20);
    draw_line_segment_mut(&mut fwd, (2, 3), (17, 9), black());
    draw_line_segment_mut(&mut rev, (17, 9), (2, 3), black());
    assert_eq!(colored_pixels(&fwd, black()), colored_pixels(&rev, black()));
}

#[test]
fn bresenham_iter_covers_major_axis_once_per_unit() {
    let mut iter = BresenhamLineIter::new((1, 1), (8, 4));
    let mut pts = Vec::new();
    while let Some(p) = iter.next() {
        pts.push(p);
    }
    assert_eq!(pts.len(), 8);
    assert_eq!(pts[0], (1, 1));
    assert_eq!(pts[7], (8, 4));
    for k in 1..pts.len() {
        assert!((pts[k].0 - pts[k - 1].0).abs() <= 1);
        assert!((pts[k].1 - pts[k - 1].1).abs() <= 1);
    }
}

#[test]
fn line_draw_clips_off_canvas_points() {
    let mut buf = canvas(4, 4);
    draw_line_segment_mut(&mut buf, (-3, 1), (6, 1), black());
    let pixels = colored_pixels(&buf, black());
    assert_eq!(pixels, vec![(0, 1), (1, 1), (2, 1), (3, 1)]);
}

#[test]
fn non_mutating_line_leaves_source_untouched() {
    let buf = canvas(5, 5);
    let drawn = draw_line_segment(&buf, (0, 0), (4, 0), black());
    assert_eq!(colored_pixels(&buf, black()).len(), 0);
    assert_eq!(
        colored_pixels(&drawn, black()),
        vec![(0, 0), (1, 0), (2, 0), (3, 0), (4, 0)]
    );
}

#[test]
fn filled_circle_radius_zero_writes_exactly_the_center() {
    let mut buf = canvas(9, 9);
    draw_filled_circle_mut(&mut buf, (4, 4), 0, black());
    assert_eq!(colored_pixels(&buf, black()), vec![(4, 4)]);
}

#[test]
fn hollow_ellipse_with_equal_radii_matches_hollow_circle() {
    for r in 0..6 {
        let mut ell = canvas(16, 16);
        let mut cir = canvas(16, 16);
        draw_hollow_ellipse_mut(&mut ell, (8, 8), r, r, black());
        draw_hollow_circle_mut(&mut cir, (8, 8), r, black());
        assert_eq!(colored_pixels(&ell, black()), colored_pixels(&cir, black()));
    }
}

#[test]
fn filled_ellipse_with_equal_radii_matches_filled_circle() {
    for r in 0..6 {
        let mut ell = canvas(16, 16);
        let mut cir = canvas(16, 16);
        draw_filled_ellipse_mut(&mut ell, (8, 8), r, r, black());
        draw_filled_circle_mut(&mut cir, (8, 8), r, black());
        assert_eq!(colored_pixels(&ell, black()), colored_pixels(&cir, black()));
    }
}

#[test]
fn hollow_ellipse_covers_its_extreme_points() {
    let mut buf = canvas(21, 21);
    draw_hollow_ellipse_mut(&mut buf, (10, 10), 6, 3, black());
    let pixels = colored_pixels(&buf, black());
    assert!(pixels.contains(&(4, 10)));
    assert!(pixels.contains(&(16, 10)));
    assert!(pixels.contains(&(10, 7)));
    assert!(pixels.contains(&(10, 13)));
}

#[test]
fn filled_rect_fills_exactly_the_clipped_block() {
    let mut buf = canvas(6, 6);
    let rect = Rect::at(4, 4).of_size(5, 5);
    draw_filled_rect_mut(&mut buf, rect, black());
    assert_eq!(colored_pixels(&buf, black()), vec![(4, 4), (5, 4), (4, 5), (5, 5)]);
}

#[test]
fn hollow_rect_draws_the_four_edges() {
    let mut buf = canvas(8, 8);
    let rect = Rect::at(1, 1).of_size(4, 3);
    draw_hollow_rect_mut(&mut buf, rect, black());
    let pixels = colored_pixels(&buf, black());
    assert_eq!(pixels.len(), 10);
    assert!(pixels.contains(&(1, 1)));
    assert!(pixels.contains(&(4, 1)));
    assert!(pixels.contains(&(1, 3)));
    assert!(pixels.contains(&(4, 3)));
    assert!(!pixels.contains(&(2, 2)));
}

#[test]
fn cross_writes_the_five_stencil_cells() {
    let mut buf = canvas(7, 7);
    draw_cross_mut(&mut buf, black(), 3, 3);
    assert_eq!(
        colored_pixels(&buf, black()),
        vec![(3, 2), (2, 3), (3, 3), (4, 3), (3, 4)]
    );
}

#[test]
fn cross_at_the_corner_is_clipped() {
    let mut buf = canvas(7, 7);
    draw_cross_mut(&mut buf, black(), 0, 0);
    assert_eq!(colored_pixels(&buf, black()), vec![(0, 0), (1, 0), (0, 1)]);
}

#[test]
fn degenerate_bezier_matches_the_straight_line() {
    let mut curve = canvas(12, 12);
    let mut line = canvas(12, 12);
    ducat::drawing::bezier::draw_cubic_bezier_curve_mut(
        &mut curve,
        (0, 0),
        (9, 0),
        (3, 0),
        (6, 0),
        black(),
    );
    draw_line_segment_mut(&mut line, (0, 0), (9, 0), black());
    assert_eq!(colored_pixels(&curve, black()), colored_pixels(&line, black()));
}

#[test]
fn antialiased_horizontal_line_writes_full_coverage_on_the_row() {
    let mut buf = canvas(8, 8);
    draw_antialiased_line_segment_mut(&mut buf, (1, 3), (6, 3), black(), &Interpolate);
    for x in 1..7 {
        assert_eq!(buf.get_pixel(x, 3), black());
    }
    assert_eq!(buf.get_pixel(0, 3), white());
}

#[test]
fn blend_canvas_composites_instead_of_overwriting() {
    let mut blended = Blend(canvas(3, 3));
    let transparent = Rgba8 { r: 10, g: 20, b: 30, a: 0 };
    blended.draw_pixel(0, 0, transparent);
    assert_eq!(blended.get_pixel(0, 0), white());

    let opaque = Rgba8 { r: 10, g: 20, b: 30, a: 255 };
    blended.draw_pixel(1, 1, opaque);
    assert_eq!(blended.get_pixel(1, 1), opaque);

    let translucent = Rgba8 { r: 0, g: 0, b: 0, a: 128 };
    blended.draw_pixel(2, 2, translucent);
    let mixed = blended.get_pixel(2, 2);
    assert_ne!(mixed, translucent);
    assert_ne!(mixed, white());
    assert!(mixed.a >= 254);
    assert!(mixed.r > 0 && mixed.r < 255);
}

#[test]
fn blend_of_luma_replaces_the_pixel() {
    let mut blended = Blend(ImgBuf::new(2, 2, Luma8 { v: 250 }));
    blended.draw_pixel(0, 0, Luma8 { v: 7 });
    assert_eq!(blended.get_pixel(0, 0), Luma8 { v: 7 });
}

#[test]
fn pixel_iter_clamps_endpoints_and_hands_back_pixels() {
    let mut buf = canvas(5, 5);
    draw_line_segment_mut(&mut buf, (0, 0), (4, 4), black());
    let mut iter = ducat::drawing::line::BresenhamLinePixelIter::new(&buf, (-2, -2), (9, 9));
    let mut seen = Vec::new();
    while let Some(px) = iter.next() {
        seen.push(px);
    }
    assert_eq!(seen.len(), 5);
    for px in seen {
        assert_eq!(px, black());
    }
}

#[test]
fn clamp_point_saturates_into_the_surface() {
    assert_eq!(ducat::drawing::line::clamp_point((-3, 7), 5, 5), (0, 4));
    assert_eq!(ducat::drawing::line::clamp_point((2, 3), 5, 5), (2, 3));
}
