//! The colours of the control panel, light and dark.

use vstd::prelude::*;

verus! {

/// A colour.
#[derive(Clone, Copy, Debug, PartialEq, Eq, Structural)]
pub struct Rgb {
    /// Red.
    pub r: u8,
    /// Green.
    pub g: u8,
    /// Blue.
    pub b: u8,
}

/// A theme. The panel starts dark.
#[derive(Clone, Copy, Debug, PartialEq, Eq, Structural)]
pub enum Theme {
    /// Light text on dark.
    Dark,
    /// Dark text on light.
    Light,
}

/// What a colour is used for.
#[derive(Clone, Copy, Debug, PartialEq, Eq, Structural)]
pub enum Shade {
    /// The window.
    Background,
    /// A card.
    Surface,
    /// A control on a card.
    SurfaceAlt,
    /// A line around a card.
    Border,
    /// Text.
    Text,
    /// Text of lesser weight.
    Text2,
    /// Hints.
    Dim,
    /// What can be acted on.
    Accent,
    /// What can be acted on, and text in its colour.
    AccentHigh,
    /// Things that go well.
    Good,
    /// Things that went wrong.
    Bad,
    /// A control under the pointer.
    HoverFill,
    /// The line around a control under the pointer.
    HoverStroke,
    /// A control that is pressed.
    ActiveFill,
    /// Text on a control that is pressed.
    ActiveText,
    /// Text on a selection.
    SelectionText,
}

/// A colour by its parts.
pub open spec fn rgb(r: u8, g: u8, b: u8) -> Rgb {
    Rgb { r, g, b }
}

/// The colour of a shade in the light theme and in the dark one.
pub open spec fn palette(s: Shade) -> (Rgb, Rgb) {
    match s {
        Shade::Background => (rgb(0xf4, 0xf6, 0xfa), rgb(0x0b, 0x0f, 0x15)),
        Shade::Surface => (rgb(0xff, 0xff, 0xff), rgb(0x16, 0x1c, 0x26)),
        Shade::SurfaceAlt => (rgb(0xee, 0xf1, 0xf6), rgb(0x1d, 0x25, 0x31)),
        Shade::Border => (rgb(0xd6, 0xdd, 0xe6), rgb(0x2a, 0x33, 0x40)),
        Shade::Text => (rgb(0x16, 0x20, 0x2e), rgb(0xe8, 0xee, 0xf5)),
        Shade::Text2 => (rgb(0x3a, 0x46, 0x57), rgb(0xd6, 0xe0, 0xea)),
        Shade::Dim => (rgb(0x5c, 0x68, 0x78), rgb(0xad, 0xbd, 0xcd)),
        Shade::Accent => (rgb(0x25, 0x63, 0xeb), rgb(0x3b, 0x8e, 0xff)),
        Shade::AccentHigh => (rgb(0x1d, 0x4e, 0xd8), rgb(0x5a, 0xa2, 0xff)),
        Shade::Good => (rgb(0x1a, 0x9c, 0x3e), rgb(0x3f, 0xb9, 0x50)),
        Shade::Bad => (rgb(0xd1, 0x2d, 0x24), rgb(0xf8, 0x51, 0x49)),
        Shade::HoverFill => (rgb(0xe2, 0xe8, 0xf2), rgb(0x24, 0x30, 0x44)),
        Shade::HoverStroke => (rgb(0xc2, 0xcd, 0xdb), rgb(0x34, 0x40, 0x4f)),
        Shade::ActiveFill => (rgb(0xd5, 0xdf, 0xf0), rgb(0x2a, 0x38, 0x50)),
        Shade::ActiveText => (rgb(0, 0, 0), rgb(255, 255, 255)),
        Shade::SelectionText => (rgb(255, 255, 255), rgb(0xe8, 0xee, 0xf5)),
    }
}

/// Whether the theme is the light one.
pub fn lt(theme: Theme) -> (r: bool)
    ensures
        r == (theme == Theme::Light),
{
    match theme {
        Theme::Light => true,
        Theme::Dark => false,
    }
}

fn make(r: u8, g: u8, b: u8) -> (c: Rgb)
    ensures
        c == rgb(r, g, b),
{
    Rgb { r, g, b }
}

fn pair(s: Shade) -> (p: (Rgb, Rgb))
    ensures
        p == palette(s),
{
    match s {
        Shade::Background => (make(0xf4, 0xf6, 0xfa), make(0x0b, 0x0f, 0x15)),
        Shade::Surface => (make(0xff, 0xff, 0xff), make(0x16, 0x1c, 0x26)),
        Shade::SurfaceAlt => (make(0xee, 0xf1, 0xf6), make(0x1d, 0x25, 0x31)),
        Shade::Border => (make(0xd6, 0xdd, 0xe6), make(0x2a, 0x33, 0x40)),
        Shade::Text => (make(0x16, 0x20, 0x2e), make(0xe8, 0xee, 0xf5)),
        Shade::Text2 => (make(0x3a, 0x46, 0x57), make(0xd6, 0xe0, 0xea)),
        Shade::Dim => (make(0x5c, 0x68, 0x78), make(0xad, 0xbd, 0xcd)),
        Shade::Accent => (make(0x25, 0x63, 0xeb), make(0x3b, 0x8e, 0xff)),
        Shade::AccentHigh => (make(0x1d, 0x4e, 0xd8), make(0x5a, 0xa2, 0xff)),
        Shade::Good => (make(0x1a, 0x9c, 0x3e), make(0x3f, 0xb9, 0x50)),
        Shade::Bad => (make(0xd1, 0x2d, 0x24), make(0xf8, 0x51, 0x49)),
        Shade::HoverFill => (make(0xe2, 0xe8, 0xf2), make(0x24, 0x30, 0x44)),
        Shade::HoverStroke => (make(0xc2, 0xcd, 0xdb), make(0x34, 0x40, 0x4f)),
        Shade::ActiveFill => (make(0xd5, 0xdf, 0xf0), make(0x2a, 0x38, 0x50)),
        Shade::ActiveText => (make(0, 0, 0), make(255, 255, 255)),
        Shade::SelectionText => (make(255, 255, 255), make(0xe8, 0xee, 0xf5)),
    }
}

/// The colour of a shade.
pub open spec fn shade_colour(theme: Theme, s: Shade) -> Rgb {
    if theme == Theme::Light {
        palette(s).0
    } else {
        palette(s).1
    }
}

/// The colour of a shade.
pub fn colour(theme: Theme, s: Shade) -> (c: Rgb)
    ensures
        c == shade_colour(theme, s),
{
    let p = pair(s);
    if lt(theme) {
        p.0
    } else {
        p.1
    }
}

/// The other theme.
pub open spec fn other(theme: Theme) -> Theme {
    match theme {
        Theme::Dark => Theme::Light,
        Theme::Light => Theme::Dark,
    }
}

/// The other theme.
pub fn toggled(theme: Theme) -> (r: Theme)
    ensures
        r == other(theme),
{
    match theme {
        Theme::Dark => Theme::Light,
        Theme::Light => Theme::Dark,
    }
}

/// Switching the theme changes every colour, and switching it twice changes none.
pub proof fn law_switching_the_theme(theme: Theme, s: Shade)
    ensures
        shade_colour(theme, s) != shade_colour(other(theme), s),
        other(other(theme)) == theme,
{
}

/// Text stands out: in the light theme it is darker than the card that it is on by 128 at least in
/// every part, and in the dark theme lighter.
pub proof fn law_text_stands_out()
    ensures
        ({
            let t = palette(Shade::Text);
            let s = palette(Shade::Surface);
            &&& t.0.r + 128 <= s.0.r && t.0.g + 128 <= s.0.g && t.0.b + 128 <= s.0.b
            &&& t.1.r >= s.1.r + 128 && t.1.g >= s.1.g + 128 && t.1.b >= s.1.b + 128
        }),
{
}

} // verus!
