//! The RENDER extension: the types other extensions share with it.
use vstd::prelude::*;

verus! {

/// The order of the subpixels of a screen (SUBPIXELORDER).
#[derive(Debug, Clone, Copy, PartialEq, Eq, Structural, PartialOrd, Ord, Hash)]
pub enum Subpixel {
    Unknown,
    HorizontalRGB,
    HorizontalBGR,
    VerticalRGB,
    VerticalBGR,
    Nothing,
}

impl Subpixel {
    /// The variant encoded by `value`, if any.
    pub open spec fn spec_from_u16(value: u16) -> Option<Subpixel> {
        if value == 0 {
            Some(Subpixel::Unknown)
        } else if value == 1 {
            Some(Subpixel::HorizontalRGB)
        } else if value == 2 {
            Some(Subpixel::HorizontalBGR)
        } else if value == 3 {
            Some(Subpixel::VerticalRGB)
        } else if value == 4 {
            Some(Subpixel::VerticalBGR)
        } else if value == 5 {
            Some(Subpixel::Nothing)
        } else {
            None
        }
    }

    /// The variant encoded by `value`, if any.
    pub fn from_u16(value: u16) -> (r: Option<Subpixel>)
        ensures
            r == Self::spec_from_u16(value),
    {
        match value {
            0 => Some(Subpixel::Unknown),
            1 => Some(Subpixel::HorizontalRGB),
            2 => Some(Subpixel::HorizontalBGR),
            3 => Some(Subpixel::VerticalRGB),
            4 => Some(Subpixel::VerticalBGR),
            5 => Some(Subpixel::Nothing),
            _ => None,
        }
    }

    /// The wire value of the variant.
    pub open spec fn spec_to_u16(self) -> u16 {
        match self {
            Subpixel::Unknown => 0,
            Subpixel::HorizontalRGB => 1,
            Subpixel::HorizontalBGR => 2,
            Subpixel::VerticalRGB => 3,
            Subpixel::VerticalBGR => 4,
            Subpixel::Nothing => 5,
        }
    }

    /// The wire value of the variant.
    pub fn to_u16(self) -> (r: u16)
        ensures
            r == self.spec_to_u16(),
            Self::spec_from_u16(r) == Some(self),
    {
        match self {
            Subpixel::Unknown => 0,
            Subpixel::HorizontalRGB => 1,
            Subpixel::HorizontalBGR => 2,
            Subpixel::VerticalRGB => 3,
            Subpixel::VerticalBGR => 4,
            Subpixel::Nothing => 5,
        }
    }
}

/// A fixed-point number with 16 fractional bits.
#[derive(Debug)]
pub struct Fixed {
    inner: u32,
}

impl Fixed {
    /// The number whose bits are `inner`.
    pub fn from_bits(inner: u32) -> (r: Self)
        ensures
            r.spec_bits() == inner,
    {
        Fixed { inner }
    }

    /// The bits of the number.
    pub closed spec fn spec_bits(&self) -> u32 {
        self.inner
    }

    /// The bits of the number.
    pub fn bits(&self) -> (r: u32)
        ensures
            r == self.spec_bits(),
    {
        self.inner
    }
}

/// A 3 by 3 transformation matrix.
#[derive(Debug)]
pub struct Transform {
    pub matrix: [[Fixed; 3]; 3],
}

} // verus!
