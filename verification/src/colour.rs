//! Linear colours and their conversion for display.
use crate::gamma::{encode, gamma_level, lemma_gamma_level_ends};
use crate::raster::{rgba, rgba_channels};
use crate::scalar::{Scalar, ONE_RAW};
use image::Rgba;
use vstd::prelude::*;

verus! {

/// Light as three linear channels. A channel may leave `[0, 1]` while light is
/// summed up; it is clamped only when the colour is converted for display.
#[derive(Clone, Copy, Debug, PartialEq, Eq, Structural)]
pub struct Colour {
    pub red: Scalar,
    pub green: Scalar,
    pub blue: Scalar,
}

impl Colour {
    /// Channel by channel product.
    pub open spec fn times(self, rhs: Colour) -> Colour {
        Colour {
            red: self.red.product(rhs.red),
            green: self.green.product(rhs.green),
            blue: self.blue.product(rhs.blue),
        }
    }

    /// Each channel multiplied by `k`.
    pub open spec fn scaled(self, k: Scalar) -> Colour {
        Colour { red: self.red.product(k), green: self.green.product(k), blue: self.blue.product(k) }
    }

    /// Channel by channel sum.
    pub open spec fn plus(self, rhs: Colour) -> Colour {
        Colour {
            red: self.red.sum(rhs.red),
            green: self.green.sum(rhs.green),
            blue: self.blue.sum(rhs.blue),
        }
    }

    /// Each channel raised by `k`.
    pub open spec fn lifted(self, k: Scalar) -> Colour {
        Colour { red: self.red.sum(k), green: self.green.sum(k), blue: self.blue.sum(k) }
    }

    /// The three display levels: each channel clamped to `[0, 1]`, gamma
    /// encoded and scaled to `255`.
    pub open spec fn display(self) -> (u8, u8, u8) {
        (
            gamma_level(self.red.raw as int) as u8,
            gamma_level(self.green.raw as int) as u8,
            gamma_level(self.blue.raw as int) as u8,
        )
    }

    /// A channel of one or more shows as `255` and a channel of zero or less
    /// as `0`: what lies outside `[0, 1]` is clamped before the gamma
    /// encoding.
    pub proof fn lemma_display_clamps(self)
        ensures
            self.red.raw >= ONE_RAW ==> self.display().0 == 255,
            self.green.raw >= ONE_RAW ==> self.display().1 == 255,
            self.blue.raw >= ONE_RAW ==> self.display().2 == 255,
            self.red.raw <= 0 ==> self.display().0 == 0,
            self.green.raw <= 0 ==> self.display().1 == 0,
            self.blue.raw <= 0 ==> self.display().2 == 0,
    {
        lemma_gamma_level_ends(self.red.raw as int);
        lemma_gamma_level_ends(self.green.raw as int);
        lemma_gamma_level_ends(self.blue.raw as int);
    }

    /// The red, green and blue levels, `0` to `255`, that show this colour.
    pub fn to_display(&self) -> (r: (u8, u8, u8))
        ensures
            r == self.display(),
    {
        (encode(self.red), encode(self.green), encode(self.blue))
    }

    /// The opaque pixel that shows this colour.
    pub fn to_rgba(&self) -> (p: Rgba<u8>)
        ensures
            rgba_channels(p) == seq![self.display().0, self.display().1, self.display().2, 255u8],
    {
        let levels: (u8, u8, u8) = self.to_display();
        rgba(levels.0, levels.1, levels.2, 255)
    }

    /// No light.
    pub fn black() -> (r: Colour)
        ensures
            r == (Colour { red: Scalar { raw: 0 }, green: Scalar { raw: 0 }, blue: Scalar { raw: 0 } }),
    {
        Colour { red: Scalar::zero(), green: Scalar::zero(), blue: Scalar::zero() }
    }

    pub fn mul(self, rhs: Colour) -> (r: Colour)
        ensures
            r == self.times(rhs),
    {
        Colour {
            red: self.red.mul(rhs.red),
            green: self.green.mul(rhs.green),
            blue: self.blue.mul(rhs.blue),
        }
    }

    pub fn scale(self, op: Scalar) -> (r: Colour)
        ensures
            r == self.scaled(op),
    {
        Colour { red: self.red.mul(op), green: self.green.mul(op), blue: self.blue.mul(op) }
    }

    pub fn add(self, rhs: Colour) -> (r: Colour)
        ensures
            r == self.plus(rhs),
    {
        Colour {
            red: self.red.add(rhs.red),
            green: self.green.add(rhs.green),
            blue: self.blue.add(rhs.blue),
        }
    }

    pub fn add_scalar(self, rhs: Scalar) -> (r: Colour)
        ensures
            r == self.lifted(rhs),
    {
        Colour { red: self.red.add(rhs), green: self.green.add(rhs), blue: self.blue.add(rhs) }
    }
}

} // verus!
