//! Pen colour swatches offered by the pen-options panel.

use vstd::prelude::*;

verus! {

/// One swatch of the palette, as RGB channels.
#[derive(Copy, Clone, Debug, PartialEq, Eq, Structural)]
pub struct ColorSwatch {
    /// Red component.
    pub r: u8,
    /// Green component.
    pub g: u8,
    /// Blue component.
    pub b: u8,
}

impl ColorSwatch {
    /// Construct a swatch.
    pub fn new(r: u8, g: u8, b: u8) -> (s: ColorSwatch)
        ensures
            s == (ColorSwatch { r, g, b }),
    {
        ColorSwatch { r, g, b }
    }
}

/// The default 8-swatch palette : ink, red, orange, brand yellow, teal,
/// brand blue, purple, rose.
pub fn default_palette() -> (p: Vec<ColorSwatch>)
    ensures
        p@ == seq![
            ColorSwatch { r: 0x1C, g: 0x1C, b: 0x1E },
            ColorSwatch { r: 0xE6, g: 0x3A, b: 0x46 },
            ColorSwatch { r: 0xF2, g: 0x82, b: 0x14 },
            ColorSwatch { r: 0xFF, g: 0xD0, b: 0x2F },
            ColorSwatch { r: 0x0F, g: 0xBC, b: 0xB0 },
            ColorSwatch { r: 0x42, g: 0x62, b: 0xFF },
            ColorSwatch { r: 0x9C, g: 0x4C, b: 0xDD },
            ColorSwatch { r: 0xFF, g: 0x99, b: 0xC8 },
        ],
{
    let mut p: Vec<ColorSwatch> = Vec::new();
    p.push(ColorSwatch::new(0x1C, 0x1C, 0x1E));
    p.push(ColorSwatch::new(0xE6, 0x3A, 0x46));
    p.push(ColorSwatch::new(0xF2, 0x82, 0x14));
    p.push(ColorSwatch::new(0xFF, 0xD0, 0x2F));
    p.push(ColorSwatch::new(0x0F, 0xBC, 0xB0));
    p.push(ColorSwatch::new(0x42, 0x62, 0xFF));
    p.push(ColorSwatch::new(0x9C, 0x4C, 0xDD));
    p.push(ColorSwatch::new(0xFF, 0x99, 0xC8));
    assert(p@ =~= seq![
        ColorSwatch { r: 0x1C, g: 0x1C, b: 0x1E },
        ColorSwatch { r: 0xE6, g: 0x3A, b: 0x46 },
        ColorSwatch { r: 0xF2, g: 0x82, b: 0x14 },
        ColorSwatch { r: 0xFF, g: 0xD0, b: 0x2F },
        ColorSwatch { r: 0x0F, g: 0xBC, b: 0xB0 },
        ColorSwatch { r: 0x42, g: 0x62, b: 0xFF },
        ColorSwatch { r: 0x9C, g: 0x4C, b: 0xDD },
        ColorSwatch { r: 0xFF, g: 0x99, b: 0xC8 },
    ]);
    p
}

} // verus!
