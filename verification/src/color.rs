//! Light as three channels of energy.

use vstd::prelude::*;
use crate::energy::{clamp_to_i64, lemma_product_keeps_sign, Energy};
use crate::scalar::Scalar;

verus! {

/// Red, green and blue energy. A colour that stands for light has no negative channel.
#[derive(Clone, Copy, Debug, PartialEq, Eq, Structural)]
pub struct Color {
    pub red: Energy,
    pub green: Energy,
    pub blue: Energy,
}

impl Color {
    /// No channel is negative.
    pub open spec fn wf(self) -> bool {
        self.red@ >= 0 && self.green@ >= 0 && self.blue@ >= 0
    }

    pub open spec fn spec_brightness(self) -> Energy {
        Energy::of(self.red@ + self.green@ + self.blue@)
    }

    pub open spec fn spec_add(self, rhs: Color) -> Color {
        Color {
            red: self.red.spec_add(rhs.red),
            green: self.green.spec_add(rhs.green),
            blue: self.blue.spec_add(rhs.blue),
        }
    }

    /// The product channel by channel.
    pub open spec fn spec_mul(self, rhs: Color) -> Color {
        Color {
            red: self.red.spec_mul(rhs.red),
            green: self.green.spec_mul(rhs.green),
            blue: self.blue.spec_mul(rhs.blue),
        }
    }

    /// Every channel times a factor.
    pub open spec fn spec_scale(self, rhs: Scalar) -> Color {
        Color {
            red: self.red.spec_scale(rhs),
            green: self.green.spec_scale(rhs),
            blue: self.blue.spec_scale(rhs),
        }
    }

    /// Every channel times an amount of energy.
    pub open spec fn spec_amplify(self, rhs: Energy) -> Color {
        Color {
            red: self.red.spec_mul(rhs),
            green: self.green.spec_mul(rhs),
            blue: self.blue.spec_mul(rhs),
        }
    }

    pub open spec fn spec_div(self, rhs: Scalar) -> Color {
        Color {
            red: self.red.spec_div(rhs),
            green: self.green.spec_div(rhs),
            blue: self.blue.spec_div(rhs),
        }
    }

    pub fn new(red: Energy, green: Energy, blue: Energy) -> (c: Color)
        ensures
            c == (Color { red, green, blue }),
    {
        Color { red, green, blue }
    }

    /// The grey with all three channels at `gray`.
    pub fn from_gray(gray: Energy) -> (c: Color)
        ensures
            c == (Color { red: gray, green: gray, blue: gray }),
    {
        Color::new(gray, gray, gray)
    }

    /// The sum of the three channels.
    pub fn brightness(&self) -> (b: Energy)
        ensures
            b == self.spec_brightness(),
            self.wf() ==> b@ >= 0,
    {
        Energy::from_raw(
            clamp_to_i64(self.red.raw as i128 + self.green.raw as i128 + self.blue.raw as i128),
        )
    }

    pub fn add_assign(&mut self, rhs: Color)
        ensures
            *final(self) == old(self).spec_add(rhs),
            old(self).wf() && rhs.wf() ==> final(self).wf(),
    {
        self.red = self.red.add(rhs.red);
        self.green = self.green.add(rhs.green);
        self.blue = self.blue.add(rhs.blue);
    }

    pub fn add(self, rhs: Color) -> (c: Color)
        ensures
            c == self.spec_add(rhs),
            self.wf() && rhs.wf() ==> c.wf(),
    {
        Color {
            red: self.red.add(rhs.red),
            green: self.green.add(rhs.green),
            blue: self.blue.add(rhs.blue),
        }
    }

    pub fn mul(self, rhs: Color) -> (c: Color)
        ensures
            c == self.spec_mul(rhs),
            self.wf() && rhs.wf() ==> c.wf(),
    {
        proof {
            if self.wf() && rhs.wf() {
                lemma_product_keeps_sign(self.red@, rhs.red@);
                lemma_product_keeps_sign(self.green@, rhs.green@);
                lemma_product_keeps_sign(self.blue@, rhs.blue@);
            }
        }
        Color {
            red: self.red.mul(rhs.red),
            green: self.green.mul(rhs.green),
            blue: self.blue.mul(rhs.blue),
        }
    }

    /// The colour with every channel multiplied by `rhs`.
    pub fn mul_scalar(self, rhs: Scalar) -> (c: Color)
        ensures
            c == self.spec_scale(rhs),
            self.wf() && rhs@ >= 0 ==> c.wf(),
    {
        proof {
            if self.wf() && rhs@ >= 0 {
                lemma_product_keeps_sign(self.red@, rhs@);
                lemma_product_keeps_sign(self.green@, rhs@);
                lemma_product_keeps_sign(self.blue@, rhs@);
            }
        }
        Color {
            red: self.red.scale(rhs),
            green: self.green.scale(rhs),
            blue: self.blue.scale(rhs),
        }
    }

    /// The colour with every channel multiplied by an amount of energy.
    pub fn amplify(self, rhs: Energy) -> (c: Color)
        ensures
            c == self.spec_amplify(rhs),
            self.wf() && rhs@ >= 0 ==> c.wf(),
    {
        proof {
            if self.wf() && rhs@ >= 0 {
                lemma_product_keeps_sign(self.red@, rhs@);
                lemma_product_keeps_sign(self.green@, rhs@);
                lemma_product_keeps_sign(self.blue@, rhs@);
            }
        }
        Color { red: self.red.mul(rhs), green: self.green.mul(rhs), blue: self.blue.mul(rhs) }
    }

    /// The colour with every channel divided by `rhs`.
    pub fn div(self, rhs: Scalar) -> (c: Color)
        ensures
            c == self.spec_div(rhs),
    {
        Color { red: self.red.div(rhs), green: self.green.div(rhs), blue: self.blue.div(rhs) }
    }
}

impl Default for Color {
    fn default() -> (c: Color)
        ensures
            c.red@ == 0 && c.green@ == 0 && c.blue@ == 0,
    {
        Color { red: Energy::zero(), green: Energy::zero(), blue: Energy::zero() }
    }
}

} // verus!
