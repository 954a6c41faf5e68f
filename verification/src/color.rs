//! sRGB colors with straight (non-premultiplied) alpha.
//!
//! A color is one 32-bit word in the crate's canonical little-endian layout:
//! red in the lowest byte, then green, blue, and alpha in the highest byte.
//! The all-zero word is the sentinel "default" color: the renderer emits the
//! VT "default foreground/background" sequence for it instead of an RGB
//! triple.
//!
//! Compositing and the lightness measure are fixed integer functions, stated
//! exactly below: source-over interpolation per channel with rounding, and a
//! Rec. 709-weighted lightness on a 0..=2_550_000 scale.

use vstd::prelude::*;

verus! {

/// Lightness value of pure white; the scale of `spec_lightness`.
pub const LIGHTNESS_MAX: u32 = 2550000;

#[derive(Clone, Copy, PartialEq, Eq, Structural, Debug)]
pub struct StraightRgba {
    /// Canonical little-endian word: `a << 24 | b << 16 | g << 8 | r`.
    pub bits: u32,
}

/// The canonical word of a color given in the big-endian layout.
pub open spec fn spec_from_be(v: u32) -> u32 {
    (v >> 24) | ((v >> 8) & 0xff00) | ((v << 8) & 0xff0000) | (v << 24)
}

/// One channel of source-over compositing with rounding:
/// `(dst * (255 - alpha) + src * alpha + 127) / 255`.
pub open spec fn spec_blend_channel(dst: u32, src: u32, alpha: u32) -> u32
    recommends
        dst <= 255,
        src <= 255,
        alpha <= 255,
{
    ((dst * (255 - alpha) + src * alpha + 127) / 255) as u32
}

impl StraightRgba {
    pub open spec fn spec_red(self) -> u32 {
        self.bits & 0xff
    }

    pub open spec fn spec_green(self) -> u32 {
        (self.bits >> 8) & 0xff
    }

    pub open spec fn spec_blue(self) -> u32 {
        (self.bits >> 16) & 0xff
    }

    pub open spec fn spec_alpha(self) -> u32 {
        self.bits >> 24
    }

    /// The color as seen through source-over compositing of `src` onto `self`:
    /// every channel is interpolated by `src`'s alpha, and the alpha channels
    /// themselves compose source-over.
    pub open spec fn spec_blend_over(self, src: StraightRgba) -> StraightRgba {
        let a = src.spec_alpha();
        let r = spec_blend_channel(self.spec_red(), src.spec_red(), a);
        let g = spec_blend_channel(self.spec_green(), src.spec_green(), a);
        let b = spec_blend_channel(self.spec_blue(), src.spec_blue(), a);
        let ao = spec_blend_channel(self.spec_alpha(), 255, a);
        StraightRgba { bits: (r | (g << 8) | (b << 16) | (ao << 24)) as u32 }
    }

    /// Perceived lightness on a fixed integer scale: Rec. 709 luma weights,
    /// `2126 * red + 7152 * green + 722 * blue`, between 0 and `LIGHTNESS_MAX`.
    pub open spec fn spec_lightness(self) -> u32 {
        (2126 * self.spec_red() + 7152 * self.spec_green() + 722 * self.spec_blue()) as u32
    }

    /// The all-zero sentinel ("terminal default" color).
    pub fn zero() -> (r: StraightRgba)
        ensures
            r.bits == 0,
    {
        StraightRgba { bits: 0 }
    }

    /// Builds a color from a word in the canonical little-endian layout.
    pub fn from_le(v: u32) -> (r: StraightRgba)
        ensures
            r.bits == v,
    {
        StraightRgba { bits: v }
    }

    /// Builds a color from a big-endian word (`r << 24 | g << 16 | b << 8 | a`),
    /// the layout color literals are usually written in.
    pub fn from_be(v: u32) -> (r: StraightRgba)
        ensures
            r.bits == spec_from_be(v),
    {
        StraightRgba { bits: (v >> 24) | ((v >> 8) & 0xff00) | ((v << 8) & 0xff0000) | (v << 24) }
    }

    /// The canonical little-endian word.
    pub fn to_le(self) -> (r: u32)
        ensures
            r == self.bits,
    {
        self.bits
    }

    /// The color word in the crate's native layout, which is the canonical
    /// little-endian one.
    pub fn to_ne(self) -> (r: u32)
        ensures
            r == self.bits,
    {
        self.bits
    }

    pub fn red(self) -> (r: u32)
        ensures
            r == self.spec_red(),
            r <= 255,
    {
        let r = self.bits & 0xff;
        proof {
            let b = self.bits;
            assert(b & 0xff <= 255) by (bit_vector);
        }
        r
    }

    pub fn green(self) -> (r: u32)
        ensures
            r == self.spec_green(),
            r <= 255,
    {
        let r = (self.bits >> 8) & 0xff;
        proof {
            let b = self.bits;
            assert((b >> 8) & 0xff <= 255) by (bit_vector);
        }
        r
    }

    pub fn blue(self) -> (r: u32)
        ensures
            r == self.spec_blue(),
            r <= 255,
    {
        let r = (self.bits >> 16) & 0xff;
        proof {
            let b = self.bits;
            assert((b >> 16) & 0xff <= 255) by (bit_vector);
        }
        r
    }

    pub fn alpha(self) -> (r: u32)
        ensures
            r == self.spec_alpha(),
            r <= 255,
    {
        let r = self.bits >> 24;
        proof {
            let b = self.bits;
            assert(b >> 24 <= 255) by (bit_vector);
        }
        r
    }

    /// Source-over compositing of `src` onto `self`, exactly
    /// `spec_blend_over`.
    pub fn blend_over(self, src: StraightRgba) -> (r: StraightRgba)
        ensures
            r == self.spec_blend_over(src),
    {
        let a = src.alpha();
        let r = blend_channel(self.red(), src.red(), a);
        let g = blend_channel(self.green(), src.green(), a);
        let b = blend_channel(self.blue(), src.blue(), a);
        let ao = blend_channel(self.alpha(), 255, a);
        StraightRgba { bits: r | (g << 8) | (b << 16) | (ao << 24) }
    }

    /// The integer lightness measure, exactly `spec_lightness`.
    pub fn lightness(self) -> (r: u32)
        ensures
            r == self.spec_lightness(),
            r <= LIGHTNESS_MAX,
    {
        2126 * self.red() + 7152 * self.green() + 722 * self.blue()
    }
}

/// One channel of source-over compositing, exactly `spec_blend_channel`.
pub fn blend_channel(dst: u32, src: u32, alpha: u32) -> (r: u32)
    requires
        dst <= 255,
        src <= 255,
        alpha <= 255,
    ensures
        r == spec_blend_channel(dst, src, alpha),
        r <= 255,
{
    proof {
        assert(dst * (255 - alpha) <= 255 * 255 && src * alpha <= 255 * 255) by (nonlinear_arith)
            requires
                dst <= 255 && src <= 255 && alpha <= 255,
        ;
    }
    let r = (dst * (255 - alpha) + src * alpha + 127) / 255;
    proof {
        assert(r <= 255) by (nonlinear_arith)
            requires
                dst <= 255 && src <= 255 && alpha <= 255 && r == ((dst * (255 - alpha) + src
                    * alpha + 127) / 255),
        ;
    }
    r
}

} // verus!
