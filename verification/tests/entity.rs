use ducat::entity::definitions::{Clamp, HasBlack, HasWhite, Luma16, Luma8, Rgba16, Rgba8};
use ducat::entity::point::Point;
use ducat::entity::rect::{Rect, Region};
use ducat::operation::pixelops::{interpolate, weighted_sum, Weight};

#[test]
fn rect_accessors_follow_the_inclusive_bounds() {
    let r = Rect::at(2, 3).of_size(4, 5);
    assert_eq!(r.left(), 2);
    assert_eq!(r.top(), 3);
    assert_eq!(r.right(), 5);
    assert_eq!(r.bottom(), 7);
    assert_eq!(r.width(), 4);
    assert_eq!(r.height(), 5);
}

#[test]
fn rect_intersect_overlapping_corners() {
    let a = Rect::at(0, 0).of_size(5, 5);
    let b = Rect::at(3, 3).of_size(5, 5);
    let c = a.intersect(b).unwrap();
    assert_eq!(c, Rect::at(3, 3).of_size(2, 2));
}

#[test]
fn rect_intersect_is_commutative() {
    let a = Rect::at(-2, 1).of_size(7, 3);
    let b = Rect::at(0, 0).of_size(4, 9);
    assert_eq!(a.intersect(b), b.intersect(a));
}

#[test]
fn rect_intersect_with_itself_is_itself() {
    let a = Rect::at(11, -4).of_size(3, 8);
    assert_eq!(a.intersect(a), Some(a));
}

#[test]
fn rect_intersect_disjoint_is_none() {
    let a = Rect::at(0, 0).of_size(2, 2);
    let b = Rect::at(5, 5).of_size(2, 2);
    assert_eq!(a.intersect(b), None);
}

#[test]
fn rect_contains_uses_inclusive_bounds() {
    let r = Rect::at(1, 1).of_size(3, 3);
    assert!(r.contains(1, 1));
    assert!(r.contains(3, 3));
    assert!(!r.contains(4, 3));
    assert!(!r.contains(0, 1));
}

#[test]
fn point_new_and_to_i32() {
    let p = Point::new(7u32, 9u32);
    let q = p.to_i32();
    assert_eq!(q, Point::new(7i32, 9i32));
    assert_eq!(Point::new(-3i32, 4i32).to_i32(), Point::new(-3i32, 4i32));
}

#[test]
fn black_and_white_sentinels() {
    assert_eq!(<Rgba8 as HasBlack>::black(), Rgba8 { r: 0, g: 0, b: 0, a: 255 });
    assert_eq!(<Rgba8 as HasWhite>::white(), Rgba8 { r: 255, g: 255, b: 255, a: 255 });
    assert_eq!(<Luma8 as HasBlack>::black(), Luma8 { v: 0 });
    assert_eq!(<Luma8 as HasWhite>::white(), Luma8 { v: 255 });
}

#[test]
fn clamps_saturate_at_the_channel_bounds() {
    assert_eq!(<u8 as Clamp<i32>>::clamp(-7), 0u8);
    assert_eq!(<u8 as Clamp<i32>>::clamp(300), 255u8);
    assert_eq!(<u8 as Clamp<i32>>::clamp(144), 144u8);
    assert_eq!(<u8 as Clamp<i16>>::clamp(-1), 0u8);
    assert_eq!(<u8 as Clamp<u16>>::clamp(9999), 255u8);
    assert_eq!(<u8 as Clamp<u32>>::clamp(77), 77u8);
    assert_eq!(<u16 as Clamp<i32>>::clamp(70000), 65535u16);
    assert_eq!(<i16 as Clamp<i32>>::clamp(-40000), i16::MIN);
    assert_eq!(<u8 as Clamp<u8>>::clamp(5), 5u8);
    assert_eq!(<i64 as Clamp<i64>>::clamp(-5), -5i64);
}

#[test]
fn weighted_sum_with_identity_weights_returns_the_left_pixel() {
    let p = Rgba8 { r: 1, g: 2, b: 3, a: 4 };
    let q = Rgba8 { r: 200, g: 201, b: 202, a: 203 };
    let got = weighted_sum(p, q, Weight::one(), Weight::zero());
    assert_eq!(got, p);
}

#[test]
fn weighted_sum_mixes_and_floors() {
    let p = Rgba8 { r: 100, g: 0, b: 255, a: 255 };
    let q = Rgba8 { r: 0, g: 101, b: 255, a: 255 };
    let got = weighted_sum(p, q, Weight::half(), Weight::half());
    assert_eq!(got, Rgba8 { r: 50, g: 50, b: 255, a: 255 });
}

#[test]
fn interpolate_halfway_is_symmetric() {
    let p = Rgba8 { r: 10, g: 250, b: 0, a: 255 };
    let q = Rgba8 { r: 33, g: 7, b: 255, a: 1 };
    assert_eq!(
        interpolate(p, q, Weight::half()),
        interpolate(q, p, Weight::half())
    );
}

#[test]
fn interpolate_with_full_weight_returns_the_left_pixel() {
    let p = Rgba8 { r: 9, g: 8, b: 7, a: 6 };
    let q = Rgba8 { r: 90, g: 80, b: 70, a: 60 };
    assert_eq!(interpolate(p, q, Weight::one()), p);
}

#[test]
fn sixteen_bit_sentinels() {
    assert_eq!(<Luma16 as HasWhite>::white(), Luma16 { v: 65535 });
    assert_eq!(
        <Rgba16 as HasBlack>::black(),
        Rgba16 { r: 0, g: 0, b: 0, a: 65535 }
    );
}
