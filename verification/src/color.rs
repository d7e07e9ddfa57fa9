//! The two fixed colours of a save box.

use vstd::prelude::*;

verus! {

/// A colour as its red, green and blue channels.
#[derive(Clone, Copy, Debug, PartialEq, Eq, Structural)]
pub struct Rgb {
    pub r: u8,
    pub g: u8,
    pub b: u8,
}

/// The named colours of the interface.
#[derive(Clone, Copy, Debug, PartialEq, Eq, Structural)]
pub enum AppColor {
    SaveBorder,
    SaveBackground,
}

impl AppColor {
    /// The channels of each named colour.
    pub open spec fn rgb(self) -> Rgb {
        match self {
            AppColor::SaveBorder => Rgb { r: 232, g: 201, b: 90 },
            AppColor::SaveBackground => Rgb { r: 33, g: 28, b: 51 },
        }
    }

    /// Gold for the border of a save box, dark violet for its background.
    pub fn color(self) -> (c: Rgb)
        ensures
            c == self.rgb(),
    {
        match self {
            AppColor::SaveBorder => Rgb { r: 232, g: 201, b: 90 },
            AppColor::SaveBackground => Rgb { r: 33, g: 28, b: 51 },
        }
    }
}

} // verus!
