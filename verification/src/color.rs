//! Colours and surface materials.

use vstd::prelude::*;

verus! {

/// An RGBA colour with eight bits per channel.
#[derive(Clone, Copy, Debug, PartialEq, Eq, Structural)]
pub struct Color {
    pub r: u8,
    pub g: u8,
    pub b: u8,
    pub a: u8,
}

/// The sum of two channel values, held at 255.
pub open spec fn saturating_sum(x: u8, y: u8) -> u8 {
    if x + y > 255 {
        255u8
    } else {
        (x + y) as u8
    }
}

/// Adds two channel values, holding the sum at 255.
pub fn add_channels(x: u8, y: u8) -> (sum: u8)
    ensures
        sum == saturating_sum(x, y),
{
    if x > 255 - y {
        255
    } else {
        x + y
    }
}

impl Color {
    pub fn new(r: u8, g: u8, b: u8, a: u8) -> (color: Color)
        ensures
            color == (Color { r, g, b, a }),
    {
        Color { r, g, b, a }
    }

    /// The colour that `self + other` denotes: each of red, green and blue is
    /// the saturating sum of the two channels, and alpha is that of `self`.
    pub open spec fn plus(self, other: Color) -> Color {
        Color {
            r: saturating_sum(self.r, other.r),
            g: saturating_sum(self.g, other.g),
            b: saturating_sum(self.b, other.b),
            a: self.a,
        }
    }

    /// The three bytes that an 8-bit RGB image holds for this colour.
    pub open spec fn rgb(self) -> Seq<u8> {
        seq![self.r, self.g, self.b]
    }
}

impl std::ops::Add<Color> for Color {
    type Output = Color;

    fn add(self, other: Color) -> (sum: Color) {
        Color {
            r: add_channels(self.r, other.r),
            g: add_channels(self.g, other.g),
            b: add_channels(self.b, other.b),
            a: self.a,
        }
    }
}

impl vstd::std_specs::ops::AddSpecImpl<Color> for Color {
    open spec fn obeys_add_spec() -> bool {
        true
    }

    open spec fn add_req(self, other: Color) -> bool {
        true
    }

    open spec fn add_spec(self, other: Color) -> Color {
        self.plus(other)
    }
}

/// What a surface looks like: its colour, and whether it is a mirror.
#[derive(Clone, Copy, Debug, PartialEq, Eq, Structural)]
pub struct Material {
    pub color: Color,
    pub reflective: bool,
}

impl Material {
    pub fn new(color: Color, reflective: bool) -> (material: Material)
        ensures
            material == (Material { color, reflective }),
    {
        Material { color, reflective }
    }
}

} // verus!
