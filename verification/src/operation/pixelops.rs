use vstd::prelude::*;

use crate::entity::definitions::Rgba8;

verus! {

/// A blending weight: the exact rational `num / den`, between zero and one.
#[derive(Clone, Copy, Debug, PartialEq, Eq, Structural)]
pub struct Weight {
    pub num: u32,
    pub den: u32,
}

impl Weight {
    /// The denominator is positive and the value does not exceed one.
    pub open spec fn wf(&self) -> bool {
        1 <= self.den && self.num <= self.den
    }

    pub fn new(num: u32, den: u32) -> (r: Weight)
        requires
            1 <= den,
            num <= den,
        ensures
            r.wf(),
            r.num == num,
            r.den == den,
    {
        Weight { num, den }
    }

    /// No coverage.
    pub fn zero() -> (r: Weight)
        ensures
            r.wf(),
            r.num == 0,
            r.den == 1,
    {
        Weight { num: 0, den: 1 }
    }

    /// Full coverage.
    pub fn one() -> (r: Weight)
        ensures
            r.wf(),
            r.num == 1,
            r.den == 1,
    {
        Weight { num: 1, den: 1 }
    }

    /// Half coverage.
    pub fn half() -> (r: Weight)
        ensures
            r.wf(),
            r.num == 1,
            r.den == 2,
    {
        Weight { num: 1, den: 2 }
    }

    /// The rest of the coverage: one minus this weight.
    pub fn complement(&self) -> (r: Weight)
        requires
            self.wf(),
        ensures
            r.wf(),
            r.num == self.den - self.num,
            r.den == self.den,
    {
        Weight { num: self.den - self.num, den: self.den }
    }
}

/// Saturate a value into the eight-bit channel range.
pub open spec fn clamp_u8_spec(v: int) -> int {
    if v < 0 {
        0
    } else if v > 255 {
        255
    } else {
        v
    }
}

/// One channel of a weighted sum: the exact value `l * ln/ld + r * rn/rd`,
/// taken to its floor and saturated into the channel range.
pub open spec fn weighted_channel_spec(l: int, r: int, ln: int, ld: int, rn: int, rd: int) -> int {
    clamp_u8_spec(((l * ln) * rd + (r * rn) * ld) / (ld * rd))
}

fn weighted_channel(l: u8, r: u8, lw: Weight, rw: Weight) -> (c: u8)
    requires
        lw.wf(),
        rw.wf(),
    ensures
        c as int == weighted_channel_spec(
            l as int,
            r as int,
            lw.num as int,
            lw.den as int,
            rw.num as int,
            rw.den as int,
        ),
{
    proof {
        assert((0 <= l as int * lw.num as int <= 0x100_0000_0000 && 0 <= r as int * rw.num as int
            <= 0x100_0000_0000 && (l as int * lw.num as int) * rw.den as int
            <= 0x100_0000_0000_0000_0000 && 0 <= (l as int * lw.num as int) * rw.den as int && (r
            as int * rw.num as int) * lw.den as int <= 0x100_0000_0000_0000_0000 && 0 <= (r as int
            * rw.num as int) * lw.den as int && lw.den as int * rw.den as int >= 1 && lw.den as int
            * rw.den as int <= 0x1_0000_0000_0000_0000)) by (nonlinear_arith)
            requires
                0 <= l as int <= 255,
                0 <= r as int <= 255,
                0 <= lw.num as int <= 0x1_0000_0000,
                1 <= lw.den as int <= 0x1_0000_0000,
                0 <= rw.num as int <= 0x1_0000_0000,
                1 <= rw.den as int <= 0x1_0000_0000,
        ;
    }
    let v: u128 = (l as u128) * (lw.num as u128) * (rw.den as u128) + (r as u128) * (rw.num
        as u128) * (lw.den as u128);
    let d: u128 = (lw.den as u128) * (rw.den as u128);
    let q: u128 = v / d;
    proof {
        vstd::arithmetic::div_mod::lemma_div_pos_is_pos(v as int, d as int);
    }
    if q > 255 {
        255
    } else {
        q as u8
    }
}

/// The channel-wise weighted sum of two pixels, each channel saturated into
/// its range.
pub open spec fn weighted_sum_spec(left: Rgba8, right: Rgba8, lw: Weight, rw: Weight) -> Rgba8 {
    Rgba8 {
        r: weighted_channel_spec(
            left.r as int,
            right.r as int,
            lw.num as int,
            lw.den as int,
            rw.num as int,
            rw.den as int,
        ) as u8,
        g: weighted_channel_spec(
            left.g as int,
            right.g as int,
            lw.num as int,
            lw.den as int,
            rw.num as int,
            rw.den as int,
        ) as u8,
        b: weighted_channel_spec(
            left.b as int,
            right.b as int,
            lw.num as int,
            lw.den as int,
            rw.num as int,
            rw.den as int,
        ) as u8,
        a: weighted_channel_spec(
            left.a as int,
            right.a as int,
            lw.num as int,
            lw.den as int,
            rw.num as int,
            rw.den as int,
        ) as u8,
    }
}

/// Combine two pixels channel by channel, weighting the left one by
/// `left_weight` and the right one by `right_weight`, saturating each channel.
pub fn weighted_sum(left: Rgba8, right: Rgba8, left_weight: Weight, right_weight: Weight) -> (r:
    Rgba8)
    requires
        left_weight.wf(),
        right_weight.wf(),
    ensures
        r == weighted_sum_spec(left, right, left_weight, right_weight),
{
    Rgba8 {
        r: weighted_channel(left.r, right.r, left_weight, right_weight),
        g: weighted_channel(left.g, right.g, left_weight, right_weight),
        b: weighted_channel(left.b, right.b, left_weight, right_weight),
        a: weighted_channel(left.a, right.a, left_weight, right_weight),
    }
}

/// The weighted sum that gives the left pixel `w` of the coverage and the
/// right pixel the rest.
pub open spec fn interpolate_spec(left: Rgba8, right: Rgba8, w: Weight) -> Rgba8 {
    weighted_sum_spec(left, right, w, Weight { num: (w.den - w.num) as u32, den: w.den })
}

/// Mix two pixels: the left one carries `left_weight` of the coverage, the
/// right one the rest.
pub fn interpolate(left: Rgba8, right: Rgba8, left_weight: Weight) -> (r: Rgba8)
    requires
        left_weight.wf(),
    ensures
        r == interpolate_spec(left, right, left_weight),
{
    let rest = left_weight.complement();
    weighted_sum(left, right, left_weight, rest)
}

/// Full weight on the left operand and none on the right reproduces the left
/// pixel exactly, whatever the right one holds.
pub proof fn lemma_weighted_sum_identity(p: Rgba8, q: Rgba8, lw: Weight, rw: Weight)
    requires
        lw.wf(),
        rw.wf(),
        lw.num == lw.den,
        rw.num == 0,
    ensures
        weighted_sum_spec(p, q, lw, rw) == p,
{
    let ld = lw.den as int;
    let rd = rw.den as int;
    assert forall|l: int, r: int| 0 <= l <= 255 && 0 <= r <= 255 implies #[trigger] weighted_channel_spec(
        l,
        r,
        lw.num as int,
        ld,
        0,
        rd,
    ) == l by {
        assert((l * ld) * rd == (ld * rd) * l && (r * 0) * ld == 0) by (nonlinear_arith);
        vstd::arithmetic::mul::lemma_mul_strictly_positive(ld, rd);
        vstd::arithmetic::div_mod::lemma_div_multiples_vanish(l, ld * rd);
    }
}

/// Mixing two pixels half and half does not depend on their order.
pub proof fn lemma_interpolate_half_symmetric(p: Rgba8, q: Rgba8, w: Weight)
    requires
        w.wf(),
        2 * w.num == w.den,
    ensures
        interpolate_spec(p, q, w) == interpolate_spec(q, p, w),
{
    let n = w.num as int;
    let d = w.den as int;
    assert forall|l: int, r: int| 0 <= l <= 255 && 0 <= r <= 255 implies #[trigger] weighted_channel_spec(
        l,
        r,
        n,
        d,
        n,
        d,
    ) == weighted_channel_spec(r, l, n, d, n, d) by {
        assert((l * n) * d + (r * n) * d == (r * n) * d + (l * n) * d);
    }
    assert(w.den - w.num == w.num);
}

} // verus!
