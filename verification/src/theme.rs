//! Big Picture colour tokens as framebuffer colours (blue, green, red order,
//! as the Steam Deck's GOP framebuffer stores them).

use vstd::prelude::*;

verus! {

/// A single framebuffer colour.
#[derive(Clone, Copy, PartialEq, Eq, Debug, Structural)]
pub struct Bgra {
    pub b: u8,
    pub g: u8,
    pub r: u8,
}

/// One channel of `a` blended toward `b` by `t / 255`.
pub open spec fn mix_channel(a: u8, b: u8, t: u8) -> int {
    (a * (255 - t) + b * t) / 255
}

/// One channel multiplied by `pct / 100`, capped at 255.
pub open spec fn scale_channel(c: u8, pct: u16) -> int {
    if (c * pct) / 100 < 255 {
        (c * pct) / 100
    } else {
        255
    }
}

impl Bgra {
    /// The colour `0xRRGGBB`.
    pub open spec fn from_rgb(rgb: u32) -> Bgra {
        Bgra { r: ((rgb / 0x10000) % 0x100) as u8, g: ((rgb / 0x100) % 0x100) as u8, b: (rgb % 0x100) as u8 }
    }

    /// Builds a colour from a `0xRRGGBB` literal, so values read like the CSS tokens.
    pub fn hex(rgb: u32) -> (c: Bgra)
        ensures
            c == Bgra::from_rgb(rgb),
    {
        let r = (rgb >> 16) as u8;
        let g = (rgb >> 8) as u8;
        let b = rgb as u8;
        assert(((rgb >> 16) as u8) == ((rgb / 0x10000) % 0x100) as u8) by (bit_vector);
        assert(((rgb >> 8) as u8) == ((rgb / 0x100) % 0x100) as u8) by (bit_vector);
        assert((rgb as u8) == (rgb % 0x100) as u8) by (bit_vector);
        Bgra { r, g, b }
    }

    /// The colour `t / 255` of the way from `self` to `other`.
    pub open spec fn mixed(self, other: Bgra, t: u8) -> Bgra {
        Bgra {
            b: mix_channel(self.b, other.b, t) as u8,
            g: mix_channel(self.g, other.g, t) as u8,
            r: mix_channel(self.r, other.r, t) as u8,
        }
    }

    /// Linear blend toward `other` by `t` in `0..=255` (255 is fully `other`).
    pub fn lerp(self, other: Bgra, t: u8) -> (c: Bgra)
        ensures
            c == self.mixed(other, t),
            c.b == mix_channel(self.b, other.b, t),
            c.g == mix_channel(self.g, other.g, t),
            c.r == mix_channel(self.r, other.r, t),
    {
        Bgra { b: mix_u8(self.b, other.b, t), g: mix_u8(self.g, other.g, t), r: mix_u8(self.r, other.r, t) }
    }

    /// The colour with each channel multiplied by `pct / 100`, capped at 255.
    pub open spec fn scaled(self, pct: u16) -> Bgra {
        Bgra {
            b: scale_channel(self.b, pct) as u8,
            g: scale_channel(self.g, pct) as u8,
            r: scale_channel(self.r, pct) as u8,
        }
    }

    /// Multiplies the brightness by `pct / 100`, clamped at full intensity
    /// (the focus "lift").
    pub fn scale(self, pct: u16) -> (c: Bgra)
        ensures
            c == self.scaled(pct),
            c.b == scale_channel(self.b, pct),
            c.g == scale_channel(self.g, pct),
            c.r == scale_channel(self.r, pct),
    {
        Bgra { b: scale_u8(self.b, pct), g: scale_u8(self.g, pct), r: scale_u8(self.r, pct) }
    }
}

fn mix_u8(a: u8, b: u8, t: u8) -> (m: u8)
    ensures
        m == mix_channel(a, b, t),
{
    let a16 = a as u16;
    let b16 = b as u16;
    let t16 = t as u16;
    assert(a16 * (255 - t16) + b16 * t16 <= 255 * 255) by (nonlinear_arith)
        requires
            a16 <= 255,
            b16 <= 255,
            t16 <= 255,
    ;
    let v = (a16 * (255 - t16) + b16 * t16) / 255;
    v as u8
}

fn scale_u8(c: u8, pct: u16) -> (m: u8)
    ensures
        m == scale_channel(c, pct),
{
    assert(c as u32 * pct as u32 <= 255 * 65535) by (nonlinear_arith);
    let v = (c as u32 * pct as u32) / 100;
    if v < 255 {
        v as u8
    } else {
        255
    }
}

// --- Surfaces (the dark blue-black ramp) -----------------------------------

/// Body gradient top.
pub fn bg_top() -> (c: Bgra)
    ensures
        c == Bgra::from_rgb(0x212328),
{
    Bgra::hex(0x212328)
}

/// Body gradient bottom.
pub fn bg_bottom() -> (c: Bgra)
    ensures
        c == Bgra::from_rgb(0x191A1E),
{
    Bgra::hex(0x191A1E)
}

/// Standard card / tile surface.
pub fn surface_3() -> (c: Bgra)
    ensures
        c == Bgra::from_rgb(0x23262E),
{
    Bgra::hex(0x23262E)
}

/// Raised edge / hairline.
pub fn surface_4() -> (c: Bgra)
    ensures
        c == Bgra::from_rgb(0x3D4450),
{
    Bgra::hex(0x3D4450)
}

// --- Text ------------------------------------------------------------------

pub fn text_secondary() -> (c: Bgra)
    ensures
        c == Bgra::from_rgb(0x8B929A),
{
    Bgra::hex(0x8B929A)
}

pub fn text_bright() -> (c: Bgra)
    ensures
        c == Bgra::from_rgb(0xDCDEDF),
{
    Bgra::hex(0xDCDEDF)
}

pub fn text_white() -> (c: Bgra)
    ensures
        c == Bgra::from_rgb(0xFFFFFF),
{
    Bgra::hex(0xFFFFFF)
}

/// Text on the inverted (white) focus surface.
pub fn text_dark() -> (c: Bgra)
    ensures
        c == Bgra::from_rgb(0x23262E),
{
    Bgra::hex(0x23262E)
}

// --- Accents ---------------------------------------------------------------

/// The Steam blue.
pub fn accent() -> (c: Bgra)
    ensures
        c == Bgra::from_rgb(0x1A9FFF),
{
    Bgra::hex(0x1A9FFF)
}

/// Focus glow (active-tab underline).
pub fn glow() -> (c: Bgra)
    ensures
        c == Bgra::from_rgb(0x199FFF),
{
    Bgra::hex(0x199FFF)
}

pub fn destructive() -> (c: Bgra)
    ensures
        c == Bgra::from_rgb(0xDE3618),
{
    Bgra::hex(0xDE3618)
}

// --- Controller glyph chip colours (A green / B red / X blue / Y yellow) ---

pub fn glyph_a() -> (c: Bgra)
    ensures
        c == Bgra::from_rgb(0x5BA32B),
{
    Bgra::hex(0x5BA32B)
}

pub fn glyph_b() -> (c: Bgra)
    ensures
        c == Bgra::from_rgb(0xC0392B),
{
    Bgra::hex(0xC0392B)
}

pub fn glyph_x() -> (c: Bgra)
    ensures
        c == Bgra::from_rgb(0x2D7FC1),
{
    Bgra::hex(0x2D7FC1)
}

pub fn glyph_y() -> (c: Bgra)
    ensures
        c == Bgra::from_rgb(0xD4A017),
{
    Bgra::hex(0xD4A017)
}

} // verus!
