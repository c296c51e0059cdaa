use vstd::prelude::*;

verus! {

/// A grayscale pixel with one 8-bit channel.
#[derive(Copy, Clone, Debug, PartialEq, Eq, Structural)]
pub struct Luma8 {
    pub v: u8,
}

/// A color pixel with four 8-bit channels: red, green, blue and alpha.
#[derive(Copy, Clone, Debug, PartialEq, Eq, Structural)]
pub struct Rgba8 {
    pub r: u8,
    pub g: u8,
    pub b: u8,
    pub a: u8,
}

/// Pixel representations with a canonical darkest value: every channel at
/// its minimum, except an alpha channel, which sits at its maximum.
pub trait HasBlack: Sized {
    spec fn black_spec() -> Self;

    fn black() -> (r: Self)
        ensures
            r == Self::black_spec(),
    ;
}

/// Pixel representations with a canonical brightest value: every channel at
/// its maximum.
pub trait HasWhite: Sized {
    spec fn white_spec() -> Self;

    fn white() -> (r: Self)
        ensures
            r == Self::white_spec(),
    ;
}

impl HasBlack for Luma8 {
    open spec fn black_spec() -> Self {
        Luma8 { v: u8::MIN }
    }

    fn black() -> (r: Self) {
        Luma8 { v: u8::MIN }
    }
}

impl HasWhite for Luma8 {
    open spec fn white_spec() -> Self {
        Luma8 { v: u8::MAX }
    }

    fn white() -> (r: Self) {
        Luma8 { v: u8::MAX }
    }
}

impl HasBlack for Rgba8 {
    open spec fn black_spec() -> Self {
        Rgba8 { r: u8::MIN, g: u8::MIN, b: u8::MIN, a: u8::MAX }
    }

    fn black() -> (r: Self) {
        Rgba8 { r: u8::MIN, g: u8::MIN, b: u8::MIN, a: u8::MAX }
    }
}

impl HasWhite for Rgba8 {
    open spec fn white_spec() -> Self {
        Rgba8 { r: u8::MAX, g: u8::MAX, b: u8::MAX, a: u8::MAX }
    }

    fn white() -> (r: Self) {
        Rgba8 { r: u8::MAX, g: u8::MAX, b: u8::MAX, a: u8::MAX }
    }
}

/// A grayscale pixel with one 16-bit channel.
#[derive(Copy, Clone, Debug, PartialEq, Eq, Structural)]
pub struct Luma16 {
    pub v: u16,
}

/// A color pixel with four 16-bit channels: red, green, blue and alpha.
#[derive(Copy, Clone, Debug, PartialEq, Eq, Structural)]
pub struct Rgba16 {
    pub r: u16,
    pub g: u16,
    pub b: u16,
    pub a: u16,
}

impl HasBlack for Luma16 {
    open spec fn black_spec() -> Self {
        Luma16 { v: u16::MIN }
    }

    fn black() -> (r: Self) {
        Luma16 { v: u16::MIN }
    }
}

impl HasWhite for Luma16 {
    open spec fn white_spec() -> Self {
        Luma16 { v: u16::MAX }
    }

    fn white() -> (r: Self) {
        Luma16 { v: u16::MAX }
    }
}

impl HasBlack for Rgba16 {
    open spec fn black_spec() -> Self {
        Rgba16 { r: u16::MIN, g: u16::MIN, b: u16::MIN, a: u16::MAX }
    }

    fn black() -> (r: Self) {
        Rgba16 { r: u16::MIN, g: u16::MIN, b: u16::MIN, a: u16::MAX }
    }
}

impl HasWhite for Rgba16 {
    open spec fn white_spec() -> Self {
        Rgba16 { r: u16::MAX, g: u16::MAX, b: u16::MAX, a: u16::MAX }
    }

    fn white() -> (r: Self) {
        Rgba16 { r: u16::MAX, g: u16::MAX, b: u16::MAX, a: u16::MAX }
    }
}

/// Values that sit somewhere on a pixel grid.
pub trait Position {
    fn x(&self) -> u32;

    fn y(&self) -> u32;
}

/// Conversion from a wider numeric domain into a channel representation,
/// saturating at the representation's bounds.
pub trait Clamp<T>: Sized {
    spec fn clamp_spec(x: T) -> Self;

    fn clamp(x: T) -> (r: Self)
        ensures
            r == Self::clamp_spec(x),
    ;
}

impl Clamp<i16> for u8 {
    open spec fn clamp_spec(x: i16) -> u8 {
        if x > u8::MAX as i16 {
            u8::MAX
        } else if x < u8::MIN as i16 {
            u8::MIN
        } else {
            x as u8
        }
    }

    fn clamp(x: i16) -> (r: u8) {
        if x < u8::MAX as i16 {
            if x > u8::MIN as i16 {
                x as u8
            } else {
                u8::MIN
            }
        } else {
            u8::MAX
        }
    }
}

impl Clamp<u16> for u8 {
    open spec fn clamp_spec(x: u16) -> u8 {
        if x > u8::MAX as u16 {
            u8::MAX
        } else {
            x as u8
        }
    }

    fn clamp(x: u16) -> (r: u8) {
        if x < u8::MAX as u16 {
            x as u8
        } else {
            u8::MAX
        }
    }
}

impl Clamp<i32> for u8 {
    open spec fn clamp_spec(x: i32) -> u8 {
        if x > u8::MAX as i32 {
            u8::MAX
        } else if x < u8::MIN as i32 {
            u8::MIN
        } else {
            x as u8
        }
    }

    fn clamp(x: i32) -> (r: u8) {
        if x < u8::MAX as i32 {
            if x > u8::MIN as i32 {
                x as u8
            } else {
                u8::MIN
            }
        } else {
            u8::MAX
        }
    }
}

impl Clamp<u32> for u8 {
    open spec fn clamp_spec(x: u32) -> u8 {
        if x > u8::MAX as u32 {
            u8::MAX
        } else {
            x as u8
        }
    }

    fn clamp(x: u32) -> (r: u8) {
        if x < u8::MAX as u32 {
            x as u8
        } else {
            u8::MAX
        }
    }
}

impl Clamp<i32> for u16 {
    open spec fn clamp_spec(x: i32) -> u16 {
        if x > u16::MAX as i32 {
            u16::MAX
        } else if x < u16::MIN as i32 {
            u16::MIN
        } else {
            x as u16
        }
    }

    fn clamp(x: i32) -> (r: u16) {
        if x < u16::MAX as i32 {
            if x > u16::MIN as i32 {
                x as u16
            } else {
                u16::MIN
            }
        } else {
            u16::MAX
        }
    }
}

impl Clamp<i32> for i16 {
    open spec fn clamp_spec(x: i32) -> i16 {
        if x > i16::MAX as i32 {
            i16::MAX
        } else if x < i16::MIN as i32 {
            i16::MIN
        } else {
            x as i16
        }
    }

    fn clamp(x: i32) -> (r: i16) {
        if x < i16::MAX as i32 {
            if x > i16::MIN as i32 {
                x as i16
            } else {
                i16::MIN
            }
        } else {
            i16::MAX
        }
    }
}

impl Clamp<u8> for u8 {
    open spec fn clamp_spec(x: u8) -> u8 {
        x
    }

    fn clamp(x: u8) -> (r: u8) {
        x
    }
}

impl Clamp<u16> for u16 {
    open spec fn clamp_spec(x: u16) -> u16 {
        x
    }

    fn clamp(x: u16) -> (r: u16) {
        x
    }
}

impl Clamp<i16> for i16 {
    open spec fn clamp_spec(x: i16) -> i16 {
        x
    }

    fn clamp(x: i16) -> (r: i16) {
        x
    }
}

impl Clamp<u32> for u32 {
    open spec fn clamp_spec(x: u32) -> u32 {
        x
    }

    fn clamp(x: u32) -> (r: u32) {
        x
    }
}

impl Clamp<i32> for i32 {
    open spec fn clamp_spec(x: i32) -> i32 {
        x
    }

    fn clamp(x: i32) -> (r: i32) {
        x
    }
}

impl Clamp<u64> for u64 {
    open spec fn clamp_spec(x: u64) -> u64 {
        x
    }

    fn clamp(x: u64) -> (r: u64) {
        x
    }
}

impl Clamp<i64> for i64 {
    open spec fn clamp_spec(x: i64) -> i64 {
        x
    }

    fn clamp(x: i64) -> (r: i64) {
        x
    }
}

} // verus!
