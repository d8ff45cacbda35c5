//! One picture element.

use vstd::prelude::*;
use crate::color::Color;
use crate::energy::Energy;

verus! {

#[derive(Clone, Copy, Debug, PartialEq, Eq, Structural)]
pub struct Pixel {
    pub red: u16,
    pub green: u16,
    pub blue: u16,
}

/// A channel's energy on the scale of 255 to one, cut off below zero and
/// above what sixteen bits hold, fractions dropped.
pub open spec fn channel_level(c: Energy) -> u16 {
    if c@ <= 0 {
        0
    } else if (c@ * 255) / 1_000_000 > 65535 {
        65535
    } else {
        ((c@ * 255) / 1_000_000) as u16
    }
}

/// The sum of two levels, held at what sixteen bits hold.
pub open spec fn level_sum(a: u16, b: u16) -> u16 {
    if a + b > 65535 {
        65535
    } else {
        (a + b) as u16
    }
}

fn level(c: Energy) -> (r: u16)
    ensures
        r == channel_level(c),
{
    if c.raw <= 0 {
        0
    } else {
        let v: i128 = (c.raw as i128 * 255) / 1_000_000;
        if v > 65535 {
            65535
        } else {
            v as u16
        }
    }
}

fn sum(a: u16, b: u16) -> (r: u16)
    ensures
        r == level_sum(a, b),
{
    if a > 65535 - b {
        65535
    } else {
        a + b
    }
}

/// The light that falls on a pixel adds up to the same in whatever order
/// it arrives.
pub proof fn lemma_light_adds_up_in_any_order(p: Pixel, a: Pixel, b: Pixel)
    ensures
        p.spec_plus(a).spec_plus(b) == p.spec_plus(b).spec_plus(a),
        p.spec_plus(a) == a.spec_plus(p),
        p.spec_plus(a).spec_plus(b) == p.spec_plus(a.spec_plus(b)),
{
}

impl Pixel {
    pub open spec fn spec_plus(self, rhs: Pixel) -> Pixel {
        Pixel {
            red: level_sum(self.red, rhs.red),
            green: level_sum(self.green, rhs.green),
            blue: level_sum(self.blue, rhs.blue),
        }
    }

    pub fn new(red: u16, green: u16, blue: u16) -> (p: Pixel)
        ensures
            p == (Pixel { red, green, blue }),
    {
        Pixel { red, green, blue }
    }

    pub open spec fn spec_from_color(color: Color) -> Pixel {
        Pixel {
            red: channel_level(color.red),
            green: channel_level(color.green),
            blue: channel_level(color.blue),
        }
    }

    /// The pixel that shows a colour; see `channel_level`.
    pub fn from_color(color: &Color) -> (p: Pixel)
        ensures
            p == Pixel::spec_from_color(*color),
    {
        Pixel { red: level(color.red), green: level(color.green), blue: level(color.blue) }
    }

    /// The pixel with the levels of `rhs` added, each held at the greatest level.
    pub fn plus(self, rhs: Pixel) -> (p: Pixel)
        ensures
            p == self.spec_plus(rhs),
    {
        Pixel {
            red: sum(self.red, rhs.red),
            green: sum(self.green, rhs.green),
            blue: sum(self.blue, rhs.blue),
        }
    }
}

} // verus!
