//! RGBA colors with 8-bit channels.

use vstd::prelude::*;

verus! {

#[derive(Debug, Clone, Copy, PartialEq, Eq, Structural)]
pub struct RgbaColor {
    pub r: u8,
    pub g: u8,
    pub b: u8,
    pub a: u8,
}

impl RgbaColor {
    pub fn new(r: u8, g: u8, b: u8, a: u8) -> (c: RgbaColor)
        ensures
            c == (RgbaColor { r, g, b, a }),
    {
        RgbaColor { r, g, b, a }
    }

    /// Opaque red, the default particle tint.
    pub fn red() -> (c: RgbaColor)
        ensures
            c == (RgbaColor { r: 255u8, g: 0u8, b: 0u8, a: 255u8 }),
    {
        RgbaColor { r: 255, g: 0, b: 0, a: 255 }
    }
}

} // verus!
