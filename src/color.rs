//! Bar colors of a bi-color (red/green) LED pair.
use vstd::prelude::*;

verus! {

/// The color of one bar: its red and its green LED, each on or off.
#[derive(Clone, Copy, Debug, PartialEq, Eq, Structural)]
pub enum LedColor {
    /// Both LEDs off.
    Off,
    /// Only the green LED on.
    Green,
    /// Only the red LED on.
    Red,
    /// Both LEDs on.
    Yellow,
}

/// Whether a color lights the red LED of its bar.
pub open spec fn has_red(c: LedColor) -> bool {
    c == LedColor::Red || c == LedColor::Yellow
}

/// Whether a color lights the green LED of its bar.
pub open spec fn has_green(c: LedColor) -> bool {
    c == LedColor::Green || c == LedColor::Yellow
}

/// The color shown by a red and a green LED.
pub open spec fn color_of(red: bool, green: bool) -> LedColor {
    if red && green {
        LedColor::Yellow
    } else if red {
        LedColor::Red
    } else if green {
        LedColor::Green
    } else {
        LedColor::Off
    }
}

/// The two-bit mask of a color: bit 0 green, bit 1 red.
pub open spec fn mask_of(c: LedColor) -> u8 {
    match c {
        LedColor::Off => 0,
        LedColor::Green => 1,
        LedColor::Red => 2,
        LedColor::Yellow => 3,
    }
}

/// The color of a two-bit mask.
pub open spec fn color_of_mask(mask: u8) -> LedColor {
    color_of(mask & 2 != 0, mask & 1 != 0)
}

/// Bit 0 of a color's mask is its green LED and bit 1 its red LED.
pub proof fn lemma_mask_bits(c: LedColor)
    ensures
        (mask_of(c) & 1 != 0) == has_green(c),
        (mask_of(c) & 2 != 0) == has_red(c),
        color_of_mask(mask_of(c)) == c,
{
    assert(0u8 & 2 == 0 && 0u8 & 1 == 0) by (bit_vector);
    assert(1u8 & 2 == 0 && 1u8 & 1 != 0) by (bit_vector);
    assert(2u8 & 2 != 0 && 2u8 & 1 == 0) by (bit_vector);
    assert(3u8 & 2 != 0 && 3u8 & 1 != 0) by (bit_vector);
}

impl LedColor {
    /// The two-bit mask of this color (green = 1, red = 2, yellow = 3).
    pub fn mask(&self) -> (r: u8)
        ensures
            r == mask_of(*self),
            r < 4,
            color_of_mask(r) == *self,
    {
        let r: u8 = match self {
            LedColor::Off => 0,
            LedColor::Green => 1,
            LedColor::Red => 2,
            LedColor::Yellow => 3,
        };
        proof {
            lemma_mask_bits(*self);
        }
        r
    }

    /// Whether this color lights the red LED.
    pub fn is_red(&self) -> (r: bool)
        ensures
            r == has_red(*self),
    {
        matches!(self, LedColor::Red | LedColor::Yellow)
    }

    /// Whether this color lights the green LED.
    pub fn is_green(&self) -> (r: bool)
        ensures
            r == has_green(*self),
    {
        matches!(self, LedColor::Green | LedColor::Yellow)
    }
}

} // verus!
