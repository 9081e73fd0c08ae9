//! Colours as byte triplets.

use vstd::prelude::*;

verus! {

/// An opaque colour: red, green, blue.
#[derive(Clone, Copy, Debug, PartialEq, Eq, Structural)]
pub struct Color {
    pub r: u8,
    pub g: u8,
    pub b: u8,
}

impl Color {
    pub fn new(r: u8, g: u8, b: u8) -> (color: Self)
        ensures
            color.r == r,
            color.g == g,
            color.b == b,
    {
        Self { r, g, b }
    }

    pub fn get_rgb(&self) -> (rgb: (u8, u8, u8))
        ensures
            rgb == (self.r, self.g, self.b),
    {
        (self.r, self.g, self.b)
    }
}

} // verus!
