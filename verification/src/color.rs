//! RGBA colour, 8 bits per channel.

use vstd::prelude::*;

verus! {

/// RGBA colour with 8 bits per channel, laid out as `(r, g, b, a)`.
#[derive(Clone, Copy, Debug, PartialEq, Eq, Hash, Structural)]
pub struct Color {
    /// Red channel, 0..=255.
    pub r: u8,
    /// Green channel, 0..=255.
    pub g: u8,
    /// Blue channel, 0..=255.
    pub b: u8,
    /// Alpha channel, 0..=255. `255` is fully opaque.
    pub a: u8,
}

/// The packed `0xRRGGBBAA` value of a colour, as an integer.
pub open spec fn packed_value(c: Color) -> int {
    c.r as int * 0x100_0000 + c.g as int * 0x1_0000 + c.b as int * 0x100 + c.a as int
}

/// The colour whose channels are the four bytes of `v`, most significant first.
pub open spec fn unpacked_color(v: u32) -> Color {
    Color {
        r: (v as int / 0x100_0000) as u8,
        g: ((v as int / 0x1_0000) % 0x100) as u8,
        b: ((v as int / 0x100) % 0x100) as u8,
        a: (v as int % 0x100) as u8,
    }
}

impl Color {
    /// Fully transparent.
    pub fn transparent() -> (c: Color)
        ensures
            c == (Color { r: 0, g: 0, b: 0, a: 0 }),
    {
        Color { r: 0, g: 0, b: 0, a: 0 }
    }

    /// Pure white, fully opaque.
    pub fn white() -> (c: Color)
        ensures
            c == (Color { r: 255, g: 255, b: 255, a: 255 }),
    {
        Color { r: 255, g: 255, b: 255, a: 255 }
    }

    /// Pure black, fully opaque.
    pub fn black() -> (c: Color)
        ensures
            c == (Color { r: 0, g: 0, b: 0, a: 255 }),
    {
        Color { r: 0, g: 0, b: 0, a: 255 }
    }

    /// BSE brand yellow `#FFD02F`, fully opaque.
    pub fn brand_yellow() -> (c: Color)
        ensures
            c == (Color { r: 0xFF, g: 0xD0, b: 0x2F, a: 255 }),
    {
        Color { r: 0xFF, g: 0xD0, b: 0x2F, a: 255 }
    }

    /// BSE brand blue `#4262FF`, fully opaque.
    pub fn brand_blue() -> (c: Color)
        ensures
            c == (Color { r: 0x42, g: 0x62, b: 0xFF, a: 255 }),
    {
        Color { r: 0x42, g: 0x62, b: 0xFF, a: 255 }
    }

    /// Construct an opaque colour from RGB components.
    pub fn rgb(r: u8, g: u8, b: u8) -> (c: Color)
        ensures
            c == (Color { r, g, b, a: 255 }),
    {
        Color { r, g, b, a: 255 }
    }

    /// Construct a colour from RGBA components.
    pub fn rgba(r: u8, g: u8, b: u8, a: u8) -> (c: Color)
        ensures
            c == (Color { r, g, b, a }),
    {
        Color { r, g, b, a }
    }

    /// Construct from a packed `0xRRGGBBAA` `u32`.
    pub fn from_rgba_u32(rgba: u32) -> (c: Color)
        ensures
            c == unpacked_color(rgba),
    {
        let r = ((rgba >> 24u32) & 0xFFu32) as u8;
        let g = ((rgba >> 16u32) & 0xFFu32) as u8;
        let b = ((rgba >> 8u32) & 0xFFu32) as u8;
        let a = (rgba & 0xFFu32) as u8;
        assert(((rgba >> 24u32) & 0xFFu32) == rgba / 0x100_0000) by (bit_vector);
        assert(((rgba >> 16u32) & 0xFFu32) == (rgba / 0x1_0000) % 0x100) by (bit_vector);
        assert(((rgba >> 8u32) & 0xFFu32) == (rgba / 0x100) % 0x100) by (bit_vector);
        assert((rgba & 0xFFu32) == rgba % 0x100) by (bit_vector);
        Color { r, g, b, a }
    }

    /// Pack into a `0xRRGGBBAA` `u32`.
    pub fn to_rgba_u32(self) -> (v: u32)
        ensures
            v as int == packed_value(self),
    {
        let r = self.r as u32;
        let g = self.g as u32;
        let b = self.b as u32;
        let a = self.a as u32;
        assert(r < 256 && g < 256 && b < 256 && a < 256);
        assert((r << 24u32) | (g << 16u32) | (b << 8u32) | a
            == r * 0x100_0000 + g * 0x1_0000 + b * 0x100 + a) by (bit_vector)
            requires
                r < 256,
                g < 256,
                b < 256,
                a < 256,
        ;
        (r << 24u32) | (g << 16u32) | (b << 8u32) | a
    }
}

/// Unpacking a packed colour gives the colour back.
pub proof fn lemma_unpack_pack(c: Color)
    ensures
        0 <= packed_value(c) <= u32::MAX,
        unpacked_color(packed_value(c) as u32) == c,
{
    let r = c.r as u32;
    let g = c.g as u32;
    let b = c.b as u32;
    let a = c.a as u32;
    assert(r * 0x100_0000 + g * 0x1_0000 + b * 0x100 + a <= u32::MAX) by (nonlinear_arith)
        requires
            r < 256,
            g < 256,
            b < 256,
            a < 256,
    ;
    let v = (r * 0x100_0000 + g * 0x1_0000 + b * 0x100 + a) as u32;
    assert(v / 0x100_0000 == r && (v / 0x1_0000) % 0x100 == g && (v / 0x100) % 0x100 == b && v
        % 0x100 == a) by (bit_vector)
        requires
            r < 256,
            g < 256,
            b < 256,
            a < 256,
            v == r * 0x100_0000 + g * 0x1_0000 + b * 0x100 + a,
    ;
}

/// Packing an unpacked value gives the value back.
pub proof fn lemma_pack_unpack(v: u32)
    ensures
        packed_value(unpacked_color(v)) == v as int,
{
    assert((v / 0x100_0000) * 0x100_0000 + ((v / 0x1_0000) % 0x100) * 0x1_0000 + ((v / 0x100)
        % 0x100) * 0x100 + v % 0x100 == v) by (bit_vector);
    assert(v / 0x100_0000 < 256) by (bit_vector);
}

} // verus!
