//! Styling for terminal cells: [`Style`], [`Colour`] and [`Ansi4`].
//!
//! A [`Style`] is a set of optional properties; a property left as `None`
//! means "inherit from whatever painted before" (see [`Style::inherits`]).

use vstd::prelude::*;

verus! {

/// A 4-bit ANSI terminal colour.
///
/// Usually two of these are combined by a terminal into a foreground and a
/// background colour.
#[derive(Copy, Clone, Debug, Hash, Eq, PartialEq, PartialOrd, Default)]
#[allow(missing_docs)]
pub enum Ansi4 {
    #[default]
    Black,
    Red,
    Green,
    Yellow,
    Blue,
    Magenta,
    Cyan,
    /// "White" as defined by the ANSI spec is closer to gray. For true white,
    /// use [`Ansi4::BrightWhite`].
    White,
    BrightBlack,
    BrightRed,
    BrightGreen,
    BrightYellow,
    BrightBlue,
    BrightMagenta,
    BrightCyan,
    BrightWhite,
}

/// The terminal colours covered by this crate.
///
/// How terminals display unsupported colour formats is implementation
/// specific; they should never panic when they see an unimplemented colour.
#[derive(Copy, Clone, Debug, Hash, Eq, PartialEq, PartialOrd, Default)]
#[non_exhaustive]
pub enum Colour {
    /// True colour.
    Rgb24(u8, u8, u8),
    /// 8-bit grayscale colours.
    Luma8(u8),
    /// 16-colour ANSI terminal colours.
    Ansi16(Ansi4),
    /// 256-colour ANSI terminal colours.
    Ansi256(u8),
    #[default]
    /// Use the terminal's default colour.
    TerminalDefault,
}

/// A cell's styling data.
///
/// If a field is `None`, the cell uses the value of the last cell in the
/// terminal that had the field set; if a field is `None` for all cells, the
/// terminal default applies.
#[derive(Copy, Clone, Debug, Hash, Eq, PartialEq)]
#[non_exhaustive]
pub struct Style {
    /// The foreground colour of the terminal cell; `None` means unset.
    pub fg_colour: Option<Colour>,
    /// The background colour of the terminal cell; `None` means unset.
    pub bg_colour: Option<Colour>,
    /// The font weight of the terminal cell; `None` means unset.
    pub font_weight: Option<u16>,
    /// Whether the terminal cell is underlined; `None` means unset.
    pub underline: Option<bool>,
    /// Whether the background and foreground colours are switched; `None`
    /// means unset.
    pub invert: Option<bool>,
    /// Whether the cell is struck through; `None` means unset.
    pub strikethrough: Option<bool>,
    /// Whether the cell is italicized; `None` means unset.
    pub italic: Option<bool>,
}

impl Style {
    /// True of a style whose every property is unset.
    pub open spec fn is_unset(self) -> bool {
        self.fg_colour is None && self.bg_colour is None && self.font_weight is None
            && self.underline is None && self.invert is None && self.strikethrough is None
            && self.italic is None
    }

    /// The style `self` with every unset property replaced from `fallback`,
    /// property by property.
    pub open spec fn spec_inherits(self, fallback: Self) -> Style {
        Style {
            fg_colour: if self.fg_colour is Some {
                self.fg_colour
            } else {
                fallback.fg_colour
            },
            bg_colour: if self.bg_colour is Some {
                self.bg_colour
            } else {
                fallback.bg_colour
            },
            font_weight: if self.font_weight is Some {
                self.font_weight
            } else {
                fallback.font_weight
            },
            underline: if self.underline is Some {
                self.underline
            } else {
                fallback.underline
            },
            invert: if self.invert is Some {
                self.invert
            } else {
                fallback.invert
            },
            strikethrough: if self.strikethrough is Some {
                self.strikethrough
            } else {
                fallback.strikethrough
            },
            italic: if self.italic is Some {
                self.italic
            } else {
                fallback.italic
            },
        }
    }

    /// Creates a new [`Style`] with all fields set to `None`.
    #[must_use]
    pub fn new() -> (r: Self)
        ensures
            r.is_unset(),
    {
        Self {
            fg_colour: None,
            bg_colour: None,
            font_weight: None,
            underline: None,
            invert: None,
            strikethrough: None,
            italic: None,
        }
    }

    /// Set the foreground colour of the style.
    #[must_use]
    pub fn fg(self, fg_colour: Colour) -> (r: Self)
        ensures
            r == (Style { fg_colour: Some(fg_colour), ..self }),
    {
        Style { fg_colour: Some(fg_colour), ..self }
    }

    /// Set the background colour of the style.
    #[must_use]
    pub fn bg(self, bg_colour: Colour) -> (r: Self)
        ensures
            r == (Style { bg_colour: Some(bg_colour), ..self }),
    {
        Style { bg_colour: Some(bg_colour), ..self }
    }

    /// Set the background colour to a 4-bit ANSI colour.
    #[must_use]
    pub fn bg_ansi4(self, bg_colour: Ansi4) -> (r: Self)
        ensures
            r == (Style { bg_colour: Some(Colour::Ansi16(bg_colour)), ..self }),
    {
        self.bg(Colour::Ansi16(bg_colour))
    }

    /// Set the foreground colour to a 4-bit ANSI colour.
    #[must_use]
    pub fn fg_ansi4(self, fg_colour: Ansi4) -> (r: Self)
        ensures
            r == (Style { fg_colour: Some(Colour::Ansi16(fg_colour)), ..self }),
    {
        self.fg(Colour::Ansi16(fg_colour))
    }

    /// Set the foreground colour to an 8-bit ANSI colour.
    #[must_use]
    pub fn fg_ansi8(self, fg_colour: u8) -> (r: Self)
        ensures
            r == (Style { fg_colour: Some(Colour::Ansi256(fg_colour)), ..self }),
    {
        self.fg(Colour::Ansi256(fg_colour))
    }

    /// Set the background colour to an 8-bit ANSI colour.
    #[must_use]
    pub fn bg_ansi8(self, bg_colour: u8) -> (r: Self)
        ensures
            r == (Style { bg_colour: Some(Colour::Ansi256(bg_colour)), ..self }),
    {
        self.bg(Colour::Ansi256(bg_colour))
    }

    /// Set the background colour to an 8-bit luminosity.
    #[must_use]
    pub fn bg_luma8(self, bg_luminosity: u8) -> (r: Self)
        ensures
            r == (Style { bg_colour: Some(Colour::Luma8(bg_luminosity)), ..self }),
    {
        self.bg(Colour::Luma8(bg_luminosity))
    }

    /// Set the foreground colour to an 8-bit luminosity.
    #[must_use]
    pub fn fg_luma8(self, fg_luminosity: u8) -> (r: Self)
        ensures
            r == (Style { fg_colour: Some(Colour::Luma8(fg_luminosity)), ..self }),
    {
        self.fg(Colour::Luma8(fg_luminosity))
    }

    /// Set the background colour to a 24-bit colour.
    #[must_use]
    pub fn bg_rgb24(self, r: u8, g: u8, b: u8) -> (res: Self)
        ensures
            res == (Style { bg_colour: Some(Colour::Rgb24(r, g, b)), ..self }),
    {
        self.bg(Colour::Rgb24(r, g, b))
    }

    /// Set the foreground colour to a 24-bit colour.
    #[must_use]
    pub fn fg_rgb24(self, r: u8, g: u8, b: u8) -> (res: Self)
        ensures
            res == (Style { fg_colour: Some(Colour::Rgb24(r, g, b)), ..self }),
    {
        self.fg(Colour::Rgb24(r, g, b))
    }

    /// Set the background colour to the terminal's default colour.
    #[must_use]
    pub fn bg_default(self) -> (r: Self)
        ensures
            r == (Style { bg_colour: Some(Colour::TerminalDefault), ..self }),
    {
        self.bg(Colour::TerminalDefault)
    }

    /// Set the foreground colour to the terminal's default colour.
    #[must_use]
    pub fn fg_default(self) -> (r: Self)
        ensures
            r == (Style { fg_colour: Some(Colour::TerminalDefault), ..self }),
    {
        self.fg(Colour::TerminalDefault)
    }

    /// Set the style's underline to the given value.
    #[must_use]
    pub fn underline(self, underline: bool) -> (r: Self)
        ensures
            r == (Style { underline: Some(underline), ..self }),
    {
        Style { underline: Some(underline), ..self }
    }

    /// Set the style to underlined.
    #[must_use]
    pub fn underlined(self) -> (r: Self)
        ensures
            r == (Style { underline: Some(true), ..self }),
    {
        self.underline(true)
    }

    /// Set the style to explicitly *not* underlined.
    #[must_use]
    pub fn not_underlined(self) -> (r: Self)
        ensures
            r == (Style { underline: Some(false), ..self }),
    {
        self.underline(false)
    }

    /// Set the style's font weight to the given value.
    #[must_use]
    pub fn font_weight(self, weight: u16) -> (r: Self)
        ensures
            r == (Style { font_weight: Some(weight), ..self }),
    {
        Style { font_weight: Some(weight), ..self }
    }

    /// Set the font weight to 700, which CSS considers bold.
    #[must_use]
    pub fn bold(self) -> (r: Self)
        ensures
            r == (Style { font_weight: Some(700u16), ..self }),
    {
        self.font_weight(700)
    }

    /// Set the font weight to 400, which CSS considers normal.
    #[must_use]
    pub fn regular(self) -> (r: Self)
        ensures
            r == (Style { font_weight: Some(400u16), ..self }),
    {
        self.font_weight(400)
    }

    /// Set the font weight to 200, which CSS considers extra light.
    #[must_use]
    pub fn thin(self) -> (r: Self)
        ensures
            r == (Style { font_weight: Some(200u16), ..self }),
    {
        self.font_weight(200)
    }

    /// Set the style's colour inversion to the given value.
    #[must_use]
    pub fn inversion(self, inversion: bool) -> (r: Self)
        ensures
            r == (Style { invert: Some(inversion), ..self }),
    {
        Style { invert: Some(inversion), ..self }
    }

    /// Set the style's colour inversion to specifically *true*.
    #[must_use]
    pub fn inverted(self) -> (r: Self)
        ensures
            r == (Style { invert: Some(true), ..self }),
    {
        self.inversion(true)
    }

    /// Set the style's colour inversion to specifically *false*.
    #[must_use]
    pub fn not_inverted(self) -> (r: Self)
        ensures
            r == (Style { invert: Some(false), ..self }),
    {
        self.inversion(false)
    }

    /// Set the style's strikethrough to the given value.
    #[must_use]
    pub fn with_strikethrough(self, strikethrough: bool) -> (r: Self)
        ensures
            r == (Style { strikethrough: Some(strikethrough), ..self }),
    {
        Style { strikethrough: Some(strikethrough), ..self }
    }

    /// Set the style's strikethrough to specifically *true*.
    #[must_use]
    pub fn strikethrough(self) -> (r: Self)
        ensures
            r == (Style { strikethrough: Some(true), ..self }),
    {
        self.with_strikethrough(true)
    }

    /// Set the style's strikethrough to specifically *false*.
    #[must_use]
    pub fn not_strikethrough(self) -> (r: Self)
        ensures
            r == (Style { strikethrough: Some(false), ..self }),
    {
        self.with_strikethrough(false)
    }

    /// Set the style's italicization to the given value.
    #[must_use]
    pub fn italicization(self, italic: bool) -> (r: Self)
        ensures
            r == (Style { italic: Some(italic), ..self }),
    {
        Style { italic: Some(italic), ..self }
    }

    /// Set the style's italicization to specifically *true*.
    #[must_use]
    pub fn italic(self) -> (r: Self)
        ensures
            r == (Style { italic: Some(true), ..self }),
    {
        self.italicization(true)
    }

    /// Set the style's italicization to specifically *false*.
    #[must_use]
    pub fn upright(self) -> (r: Self)
        ensures
            r == (Style { italic: Some(false), ..self }),
    {
        self.italicization(false)
    }

    /// Replace every unset property of this style with the corresponding
    /// property of `fallback`.
    #[must_use]
    pub fn inherits(self, fallback: Self) -> (r: Self)
        ensures
            r == self.spec_inherits(fallback),
    {
        Style {
            fg_colour: if self.fg_colour.is_some() {
                self.fg_colour
            } else {
                fallback.fg_colour
            },
            bg_colour: if self.bg_colour.is_some() {
                self.bg_colour
            } else {
                fallback.bg_colour
            },
            font_weight: if self.font_weight.is_some() {
                self.font_weight
            } else {
                fallback.font_weight
            },
            underline: if self.underline.is_some() {
                self.underline
            } else {
                fallback.underline
            },
            invert: if self.invert.is_some() {
                self.invert
            } else {
                fallback.invert
            },
            strikethrough: if self.strikethrough.is_some() {
                self.strikethrough
            } else {
                fallback.strikethrough
            },
            italic: if self.italic.is_some() {
                self.italic
            } else {
                fallback.italic
            },
        }
    }
}

impl Default for Style {
    /// Equivalent to [`Style::new`].
    fn default() -> (r: Self)
        ensures
            r.is_unset(),
    {
        Self::new()
    }
}

} // verus!
