//! Colours with 8-bit channels, and the binary contrast rule that picks a
//! legible foreground for a background.

use vstd::prelude::*;

verus! {

/// An RGB colour. Each channel holds the numerator of a fraction over 255,
/// so every value stands for a colour whose channels lie in the closed unit
/// interval.
#[derive(Clone, Copy, Debug, PartialEq, Eq, Structural)]
pub struct ColorValue {
    pub r: u8,
    pub g: u8,
    pub b: u8,
}

/// A background colour together with the foreground drawn on top of it.
#[derive(Clone, Copy, Debug, PartialEq, Eq, Structural)]
pub struct ColorPair {
    pub background: ColorValue,
    pub foreground: ColorValue,
}

/// The dark foreground, used on light backgrounds.
pub open spec fn near_black() -> ColorValue {
    ColorValue { r: 10, g: 10, b: 10 }
}

/// The light foreground, used on dark backgrounds.
pub open spec fn near_white() -> ColorValue {
    ColorValue { r: 235, g: 235, b: 235 }
}

/// A thousand times the perceived brightness of `c` on the 0..=255 scale:
/// the channels weighted by 299, 587 and 114.
pub open spec fn brightness_milli(c: ColorValue) -> int {
    299 * c.r + 587 * c.g + 114 * c.b
}

/// Whether `c` counts as a light background: brightness of at least 128.
pub open spec fn is_light(c: ColorValue) -> bool {
    brightness_milli(c) >= 128_000
}

/// The foreground that goes with the background `c`.
pub open spec fn contrast_of(c: ColorValue) -> ColorValue {
    if is_light(c) {
        near_black()
    } else {
        near_white()
    }
}

/// The red, green and blue bytes of a packed `0xRRGGBB` number. Bits above
/// the low 24 do not contribute.
pub open spec fn unpacked(packed: u32) -> ColorValue {
    ColorValue {
        r: ((packed as int / 0x1_0000) % 0x100) as u8,
        g: ((packed as int / 0x100) % 0x100) as u8,
        b: (packed as int % 0x100) as u8,
    }
}

impl ColorValue {
    /// The colour with the given channels.
    pub fn from_rgb8(r: u8, g: u8, b: u8) -> (c: ColorValue)
        ensures
            c == (ColorValue { r, g, b }),
    {
        ColorValue { r, g, b }
    }

    /// Expands a packed `0xRRGGBB` number into its three channels.
    pub fn from_packed(packed: u32) -> (c: ColorValue)
        ensures
            c == unpacked(packed),
    {
        let r: u32 = (packed & 0xff_0000) >> 16;
        let g: u32 = (packed & 0xff00) >> 8;
        let b: u32 = packed & 0xff;
        assert(r == (packed / 0x1_0000) % 0x100 && g == (packed / 0x100) % 0x100 && b == packed
            % 0x100) by (bit_vector)
            requires
                r == (packed & 0xff_0000) >> 16,
                g == (packed & 0xff00) >> 8,
                b == packed & 0xff,
        ;
        ColorValue { r: r as u8, g: g as u8, b: b as u8 }
    }
}

/// Picks the foreground for a background: near-black when the background's
/// brightness is 128 or more, near-white otherwise.
pub fn contrast_for(color: ColorValue) -> (text: ColorValue)
    ensures
        text == contrast_of(color),
        text == near_black() || text == near_white(),
        text == near_black() <==> brightness_milli(color) >= 128_000,
{
    let weighted: u32 = 299 * (color.r as u32) + 587 * (color.g as u32) + 114 * (color.b as u32);
    if weighted >= 128_000 {
        ColorValue { r: 10, g: 10, b: 10 }
    } else {
        ColorValue { r: 235, g: 235, b: 235 }
    }
}

impl ColorPair {
    /// The pair that a background forms with its contrasting foreground.
    pub open spec fn of(background: ColorValue) -> ColorPair {
        ColorPair { background, foreground: contrast_of(background) }
    }

    /// Whether the foreground is the one that the contrast rule gives for
    /// the background.
    pub open spec fn is_derived(&self) -> bool {
        self.foreground == contrast_of(self.background)
    }

    /// Builds the pair for a background, computing the foreground.
    pub fn new(background: ColorValue) -> (pair: ColorPair)
        ensures
            pair == ColorPair::of(background),
            pair.is_derived(),
    {
        ColorPair { background, foreground: contrast_for(background) }
    }
}

} // verus!
