//! Cell styling: colors, formats, and the font choice a format implies.

use vstd::prelude::*;

verus! {

/// An RGBA color with 8-bit channels.
#[derive(Clone, Copy, PartialEq, Eq, Structural, Debug)]
pub struct Rgba {
    pub r: u8,
    pub g: u8,
    pub b: u8,
    pub a: u8,
}

/// How a cell attribute names a color: an explicit color (optionally with a
/// palette fallback for reduced-color outputs), a palette index, or the
/// terminal's configured default.
#[derive(Clone, Copy, Debug, PartialEq)]
pub enum ColorSpec {
    TrueColorWithPaletteFallback(Rgba, u8),
    TrueColorWithDefaultFallback(Rgba),
    PaletteIndex(u8),
    Default,
}

/// A 256-entry color palette.
pub struct Palette {
    pub colors: Vec<Rgba>,
}

impl Palette {
    pub open spec fn wf(&self) -> bool {
        self.colors@.len() == 256
    }

    /// Builds a palette from exactly 256 colors; anything else is rejected.
    pub fn new(colors: Vec<Rgba>) -> (r: Option<Palette>)
        ensures
            match r {
                Some(p) => p.wf() && p.colors@ == colors@,
                None => colors@.len() != 256,
            },
    {
        if colors.len() == 256 {
            Some(Palette { colors })
        } else {
            None
        }
    }
}

/// What a color attribute resolves to against a palette: explicit colors
/// stand as given, a palette index is looked up, and the configured default
/// resolves to `None` (policy: `None` means "no styling", matching
/// `Format::default`, so a default-colored cell merges with unstyled ones).
pub open spec fn resolve_color(color: ColorSpec, palette: Seq<Rgba>) -> Option<Rgba> {
    match color {
        ColorSpec::TrueColorWithPaletteFallback(c, _) => Some(c),
        ColorSpec::TrueColorWithDefaultFallback(c) => Some(c),
        ColorSpec::PaletteIndex(i) => Some(palette[i as int]),
        ColorSpec::Default => None,
    }
}

/// Resolves a color attribute against a palette.
pub fn get_color(color: ColorSpec, palette: &Palette) -> (r: Option<Rgba>)
    requires
        palette.wf(),
    ensures
        r == resolve_color(color, palette.colors@),
{
    match color {
        ColorSpec::TrueColorWithPaletteFallback(c, _fallback) => Some(c),
        ColorSpec::TrueColorWithDefaultFallback(c) => Some(c),
        ColorSpec::PaletteIndex(i) => Some(palette.colors[i as usize]),
        ColorSpec::Default => None,
    }
}

/// The effective style of one cell: optional foreground and background
/// colors plus the boolean attribute flags.
#[derive(Clone, Copy, Debug, PartialEq)]
pub struct Format {
    pub foreground: Option<Rgba>,
    pub background: Option<Rgba>,
    pub bold: bool,
    pub faint: bool,
    pub italic: bool,
    pub underline: bool,
    pub blinking: bool,
    pub inverse: bool,
    pub hidden: bool,
    pub strikethrough: bool,
}

/// The unstyled format: no colors, every flag off.
pub open spec fn default_format() -> Format {
    Format {
        foreground: None,
        background: None,
        bold: false,
        faint: false,
        italic: false,
        underline: false,
        blinking: false,
        inverse: false,
        hidden: false,
        strikethrough: false,
    }
}

impl Default for Format {
    fn default() -> (r: Self)
        ensures
            r == default_format(),
    {
        Format {
            foreground: None,
            background: None,
            bold: false,
            faint: false,
            italic: false,
            underline: false,
            blinking: false,
            inverse: false,
            hidden: false,
            strikethrough: false,
        }
    }
}

/// Structural equality of two formats.
pub fn format_eq(a: &Format, b: &Format) -> (r: bool)
    ensures
        r == (*a == *b),
{
    let fg_eq = match (&a.foreground, &b.foreground) {
        (Option::None, Option::None) => true,
        (Option::Some(x), Option::Some(y)) => *x == *y,
        _ => false,
    };
    let bg_eq = match (&a.background, &b.background) {
        (Option::None, Option::None) => true,
        (Option::Some(x), Option::Some(y)) => *x == *y,
        _ => false,
    };
    fg_eq && bg_eq && a.bold == b.bold && a.faint == b.faint && a.italic == b.italic
        && a.underline == b.underline && a.blinking == b.blinking && a.inverse == b.inverse
        && a.hidden == b.hidden && a.strikethrough == b.strikethrough
}

/// The weight a monospace font takes for a format.
#[derive(Clone, Copy, PartialEq, Eq, Structural, Debug)]
pub enum FontWeight {
    Normal,
    Bold,
    Light,
}

/// The font variation a format selects: a weight and an italic flag.
#[derive(Clone, Copy, PartialEq, Eq, Structural, Debug)]
pub struct FontStyle {
    pub weight: FontWeight,
    pub italic: bool,
}

/// The font a format selects: bold wins over faint; anything else is normal
/// weight; italic is independent.
pub open spec fn spec_font_style(f: Format) -> FontStyle {
    FontStyle {
        weight: if f.bold {
            FontWeight::Bold
        } else if f.faint {
            FontWeight::Light
        } else {
            FontWeight::Normal
        },
        italic: f.italic,
    }
}

/// Picks the font variation for a format.
pub fn retrieve_font(format: &Format) -> (r: FontStyle)
    ensures
        r == spec_font_style(*format),
{
    let weight = if format.bold {
        FontWeight::Bold
    } else if format.faint {
        FontWeight::Light
    } else {
        FontWeight::Normal
    };
    FontStyle { weight, italic: format.italic }
}

/// One grid position: a display character and its format.
#[derive(Clone, Copy, Debug, PartialEq)]
pub struct Symbol {
    pub c: char,
    pub format: Format,
}

/// The default cell: a space with no styling.
pub open spec fn default_symbol() -> Symbol {
    Symbol { c: ' ', format: default_format() }
}

impl Default for Symbol {
    fn default() -> (r: Self)
        ensures
            r == default_symbol(),
    {
        Symbol { c: ' ', format: Format::default() }
    }
}

} // verus!
