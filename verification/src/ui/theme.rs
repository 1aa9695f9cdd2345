//! Theme selection and the visual variants of the reusable components.

use vstd::prelude::*;
use std::path::PathBuf;
use crate::color::Color;

verus! {

#[verifier::external_type_specification]
#[verifier::external_body]
pub struct ExPathBuf(PathBuf);

/// Which theme mode the app is currently rendering in.
#[derive(Clone, Copy, Debug, PartialEq, Eq, Structural)]
pub enum ThemeMode {
    /// Light mode, white canvas.
    Light,
    /// Dark mode, warm dark.
    Dark,
}

impl Default for ThemeMode {
    fn default() -> (m: Self)
        ensures
            m == ThemeMode::Light,
    {
        ThemeMode::Light
    }
}

/// Visual variant of a card.
#[derive(Copy, Clone, Debug, PartialEq, Eq, Structural)]
pub enum CardVariant {
    /// White background, hairline border. The default.
    Base,
    /// Brand-yellow background, ink text.
    Yellow,
    /// Pale coral background, ink text.
    Coral,
    /// Pale teal background, ink text.
    Teal,
    /// Pale rose background, ink text.
    Rose,
    /// Pale orange background, ink text.
    Orange,
    /// Black background, white text.
    Dark,
}

/// Visual variant of the pill button.
#[derive(Copy, Clone, Debug, PartialEq, Eq, Structural)]
pub enum PillVariant {
    /// Black background, white text. The dominant call to action.
    Primary,
    /// Brand yellow background, ink text.
    Yellow,
    /// Brand blue background, white text.
    Blue,
    /// Transparent background with hairline border, ink text.
    Secondary,
    /// Transparent background, ink text, no border.
    Ghosted,
}

/// Visual tone of a status pill.
#[derive(Copy, Clone, Debug, PartialEq, Eq, Structural)]
pub enum PillTone {
    /// Subtle / inactive.
    Neutral,
    /// Live / OK.
    Success,
    /// Warning / pending.
    Warning,
    /// Error.
    Error,
    /// Brand accent.
    Brand,
}

/// The `(background, foreground)` colours of a status pill of tone `t`,
/// as unmultiplied RGBA : a translucent tint of the tone behind an
/// opaque, darker text colour.
pub open spec fn pill_tone_colors(t: PillTone) -> (Color, Color) {
    match t {
        PillTone::Neutral => (
            Color { r: 0xA5, g: 0xA8, b: 0xB5, a: 30 },
            Color { r: 0x6B, g: 0x6F, b: 0x7E, a: 0xFF },
        ),
        PillTone::Success => (
            Color { r: 0x00, g: 0xB4, b: 0x73, a: 40 },
            Color { r: 0x00, g: 0x7A, b: 0x4D, a: 0xFF },
        ),
        PillTone::Warning => (
            Color { r: 0xE6, g: 0x9A, b: 0x00, a: 50 },
            Color { r: 0x94, g: 0x65, b: 0x00, a: 0xFF },
        ),
        PillTone::Error => (
            Color { r: 0xE6, g: 0x3A, b: 0x46, a: 40 },
            Color { r: 0xB9, g: 0x1C, b: 0x1C, a: 0xFF },
        ),
        PillTone::Brand => (
            Color { r: 0xFF, g: 0xF8, b: 0xE0, a: 0xFF },
            Color { r: 0x74, g: 0x60, b: 0x19, a: 0xFF },
        ),
    }
}

impl PillTone {
    /// Background and text colour of a pill of this tone.
    pub fn colors(self) -> (c: (Color, Color))
        ensures
            c == pill_tone_colors(self),
    {
        match self {
            PillTone::Neutral => (Color::rgba(0xA5, 0xA8, 0xB5, 30), Color::rgb(0x6B, 0x6F, 0x7E)),
            PillTone::Success => (Color::rgba(0x00, 0xB4, 0x73, 40), Color::rgb(0x00, 0x7A, 0x4D)),
            PillTone::Warning => (Color::rgba(0xE6, 0x9A, 0x00, 50), Color::rgb(0x94, 0x65, 0x00)),
            PillTone::Error => (Color::rgba(0xE6, 0x3A, 0x46, 40), Color::rgb(0xB9, 0x1C, 0x1C)),
            PillTone::Brand => (Color::rgb(0xFF, 0xF8, 0xE0), Color::rgb(0x74, 0x60, 0x19)),
        }
    }
}

/// Colours block of a design-token file (hex strings).
#[derive(Debug)]
pub struct ColorTokens {
    pub brand_yellow: String,
    pub brand_blue: String,
    pub ink: String,
    pub canvas: String,
    pub surface: String,
    pub hairline: String,
    pub success: String,
    pub warning: String,
    pub error: String,
}

/// Design-token hot reload, compiled without the file watcher : no
/// watcher is started and `on_change` is never called.
pub fn start_hot_reload<F>(path: PathBuf, on_change: F) -> (r: Option<()>) where
    F: FnMut(()) + Send + 'static,

    ensures
        r is None,
{
    None
}

} // verus!
