//! The colors of the page, taken from a terminal color theme.

use cursive::theme::PaletteColor;
use cursive::theme::Theme;
use vstd::prelude::*;

verus! {

/// A color by its red, green and blue parts.
#[derive(Clone, Copy, Debug, PartialEq, Eq, Structural)]
pub struct Color32 {
    pub r: u8,
    pub g: u8,
    pub b: u8,
}

impl Color32 {
    pub open spec fn rgb(r: u8, g: u8, b: u8) -> Color32 {
        Color32 { r, g, b }
    }

    pub fn from_rgb(r: u8, g: u8, b: u8) -> (res: Self)
        ensures
            res == Self::rgb(r, g, b),
    {
        Color32 { r, g, b }
    }
}

/// The colors that a page is drawn with.
#[derive(Clone, Copy, Debug, PartialEq, Eq, Structural)]
pub struct Colors {
    pub color: Color32,
    pub background: Color32,
    pub highlight: Color32,
    pub highlight_background: Color32,
    pub link: Color32,
}

/// A color as a terminal theme names it. The base colors go by their numbers,
/// from 0 to 7.
#[derive(Clone, Copy, Debug, PartialEq, Eq, Structural)]
pub enum TerminalColor {
    TerminalDefault,
    Dark(u8),
    Light(u8),
    Rgb(u8, u8, u8),
    RgbLowRes(u8, u8, u8),
}

impl TerminalColor {
    /// A base color has one of the eight numbers.
    pub open spec fn valid(self) -> bool {
        match self {
            TerminalColor::Dark(n) => n < 8,
            TerminalColor::Light(n) => n < 8,
            _ => true,
        }
    }
}

/// The parts that a theme gives a color to, as far as a page uses them.
#[derive(Clone, Copy, Debug, PartialEq, Eq, Structural)]
pub enum PaletteRole {
    Primary,
    Background,
    HighlightText,
    Highlight,
    Secondary,
}

/// The page color of the base color with number `n`.
pub open spec fn base_color(n: u8) -> Color32 {
    if n == 0 {
        // black
        Color32::rgb(0, 0, 0)
    } else if n == 1 {
        // red
        Color32::rgb(255, 0, 0)
    } else if n == 2 {
        // green
        Color32::rgb(0, 255, 0)
    } else if n == 3 {
        // yellow
        Color32::rgb(255, 255, 0)
    } else if n == 4 {
        // blue
        Color32::rgb(0, 0, 255)
    } else if n == 5 {
        // magenta
        Color32::rgb(255, 0, 255)
    } else if n == 6 {
        // cyan
        Color32::rgb(0, 255, 255)
    } else {
        // white
        Color32::rgb(255, 255, 255)
    }
}

/// The page color of a theme color. Dark and light shades are not told apart,
/// and the default color of the terminal is taken to be black.
pub open spec fn page_color(color: TerminalColor) -> Color32 {
    match color {
        TerminalColor::TerminalDefault => Color32::rgb(0, 0, 0),
        TerminalColor::Dark(n) => base_color(n),
        TerminalColor::Light(n) => base_color(n),
        TerminalColor::Rgb(r, g, b) => Color32::rgb(r, g, b),
        TerminalColor::RgbLowRes(r, g, b) => Color32::rgb(r, g, b),
    }
}

/// The page colors of a palette.
pub open spec fn page_colors(palette: Map<PaletteRole, TerminalColor>) -> Colors {
    Colors {
        color: page_color(palette[PaletteRole::Primary]),
        background: page_color(palette[PaletteRole::Background]),
        highlight: page_color(palette[PaletteRole::HighlightText]),
        highlight_background: page_color(palette[PaletteRole::Highlight]),
        link: page_color(palette[PaletteRole::Secondary]),
    }
}

/// Converts a base color, given by its number.
pub fn convert_base(n: u8) -> (res: Color32)
    requires
        n < 8,
    ensures
        res == base_color(n),
{
    match n {
        0 => Color32::from_rgb(0, 0, 0),
        1 => Color32::from_rgb(255, 0, 0),
        2 => Color32::from_rgb(0, 255, 0),
        3 => Color32::from_rgb(255, 255, 0),
        4 => Color32::from_rgb(0, 0, 255),
        5 => Color32::from_rgb(255, 0, 255),
        6 => Color32::from_rgb(0, 255, 255),
        _ => Color32::from_rgb(255, 255, 255),
    }
}

/// Converts a theme color.
pub fn convert(color: &TerminalColor) -> (res: Color32)
    requires
        color.valid(),
    ensures
        res == page_color(*color),
{
    match *color {
        TerminalColor::TerminalDefault => Color32::from_rgb(0, 0, 0),
        TerminalColor::Dark(n) => convert_base(n),
        TerminalColor::Light(n) => convert_base(n),
        TerminalColor::Rgb(r, g, b) => Color32::from_rgb(r, g, b),
        TerminalColor::RgbLowRes(r, g, b) => Color32::from_rgb(r, g, b),
    }
}

/// `cursive::theme::Theme`, of which only the palette matters here.
#[verifier::external_type_specification]
#[verifier::external_body]
pub struct ExTheme(Theme);

/// The palette of a theme: the color that it gives to each part of a page.
pub uninterp spec fn theme_palette(theme: Theme) -> Map<PaletteRole, TerminalColor>;

/// Looks a color up in the palette of a theme, by `Index<PaletteColor>` of
/// `cursive::theme::Palette`. The answer is the color that the palette holds
/// for that part. A base color is given by its number in the order in which
/// `cursive::theme::BaseColor` lists the eight of them, starting at zero.
#[verifier::external_body]
fn palette_color(theme: &Theme, role: PaletteRole) -> (res: TerminalColor)
    ensures
        res == theme_palette(*theme)[role],
        res.valid(),
{
    let part = match role {
        PaletteRole::Primary => PaletteColor::Primary,
        PaletteRole::Background => PaletteColor::Background,
        PaletteRole::HighlightText => PaletteColor::HighlightText,
        PaletteRole::Highlight => PaletteColor::Highlight,
        PaletteRole::Secondary => PaletteColor::Secondary,
    };
    match theme.palette[part] {
        cursive::theme::Color::TerminalDefault => TerminalColor::TerminalDefault,
        cursive::theme::Color::Dark(base) => TerminalColor::Dark(base as u8),
        cursive::theme::Color::Light(base) => TerminalColor::Light(base as u8),
        cursive::theme::Color::Rgb(r, g, b) => TerminalColor::Rgb(r, g, b),
        cursive::theme::Color::RgbLowRes(r, g, b) => TerminalColor::RgbLowRes(r, g, b),
    }
}

/// The page colors of the five palette colors that a page uses.
pub fn colors_from(
    primary: &TerminalColor,
    background: &TerminalColor,
    highlight_text: &TerminalColor,
    highlight: &TerminalColor,
    secondary: &TerminalColor,
) -> (res: Colors)
    requires
        primary.valid(),
        background.valid(),
        highlight_text.valid(),
        highlight.valid(),
        secondary.valid(),
    ensures
        res.color == page_color(*primary),
        res.background == page_color(*background),
        res.highlight == page_color(*highlight_text),
        res.highlight_background == page_color(*highlight),
        res.link == page_color(*secondary),
{
    Colors {
        color: convert(primary),
        background: convert(background),
        highlight: convert(highlight_text),
        highlight_background: convert(highlight),
        link: convert(secondary),
    }
}

/// The page colors of a terminal theme.
pub fn convert_colors(theme: &Theme) -> (res: Colors)
    ensures
        res == page_colors(theme_palette(*theme)),
{
    colors_from(
        &palette_color(theme, PaletteRole::Primary),
        &palette_color(theme, PaletteRole::Background),
        &palette_color(theme, PaletteRole::HighlightText),
        &palette_color(theme, PaletteRole::Highlight),
        &palette_color(theme, PaletteRole::Secondary),
    )
}

/// The number of a base color tells its parts: the first bit stands for red, the
/// second for green, the third for blue, each of which is there in full or not at
/// all. Dark and light shades come out the same, a color that is given by its
/// parts keeps them, and the default is black.
pub proof fn law_colors_keep_their_parts(
    color: TerminalColor,
    res: Color32,
)
    requires
        color.valid(),
        call_ensures(convert, (&color,), res),
    ensures
        match color {
            TerminalColor::TerminalDefault => res.r == 0 && res.g == 0 && res.b == 0,
            TerminalColor::Dark(n) => res.r == 255 * (n % 2) && res.g == 255 * (n / 2 % 2) && res.b
                == 255 * (n / 4),
            TerminalColor::Light(n) => res.r == 255 * (n % 2) && res.g == 255 * (n / 2 % 2)
                && res.b == 255 * (n / 4),
            TerminalColor::Rgb(r, g, b) => res.r == r && res.g == g && res.b == b,
            TerminalColor::RgbLowRes(r, g, b) => res.r == r && res.g == g && res.b == b,
        },
{
}

/// The same of base colors by themselves, and of colors that are put together.
pub proof fn law_base_colors_keep_their_parts(
    n: u8,
    base: Color32,
    r: u8,
    g: u8,
    b: u8,
    made: Color32,
)
    requires
        n < 8,
        call_ensures(convert_base, (n,), base),
        call_ensures(Color32::from_rgb, (r, g, b), made),
    ensures
        base.r == 255 * (n % 2),
        base.g == 255 * (n / 2 % 2),
        base.b == 255 * (n / 4),
        made.r == r && made.g == g && made.b == b,
{
}

/// Each part of a page has the color of its own part of the palette.
pub proof fn law_each_part_has_its_color(
    theme: &Theme,
    colors: Colors,
    primary: Color32,
    background: Color32,
    highlight_text: Color32,
    highlight: Color32,
    secondary: Color32,
)
    requires
        call_ensures(convert_colors, (theme,), colors),
        call_ensures(convert, (&theme_palette(*theme)[PaletteRole::Primary],), primary),
        call_ensures(convert, (&theme_palette(*theme)[PaletteRole::Background],), background),
        call_ensures(
            convert,
            (&theme_palette(*theme)[PaletteRole::HighlightText],),
            highlight_text,
        ),
        call_ensures(convert, (&theme_palette(*theme)[PaletteRole::Highlight],), highlight),
        call_ensures(convert, (&theme_palette(*theme)[PaletteRole::Secondary],), secondary),
    ensures
        colors.color == primary,
        colors.background == background,
        colors.highlight == highlight_text,
        colors.highlight_background == highlight,
        colors.link == secondary,
{
}

/// The same where the five colors of the palette are given.
pub proof fn law_each_given_color_has_its_part(
    palette: (TerminalColor, TerminalColor, TerminalColor, TerminalColor, TerminalColor),
    colors: Colors,
    converted: (Color32, Color32, Color32, Color32, Color32),
)
    requires
        call_ensures(
            colors_from,
            (&palette.0, &palette.1, &palette.2, &palette.3, &palette.4),
            colors,
        ),
        call_ensures(convert, (&palette.0,), converted.0),
        call_ensures(convert, (&palette.1,), converted.1),
        call_ensures(convert, (&palette.2,), converted.2),
        call_ensures(convert, (&palette.3,), converted.3),
        call_ensures(convert, (&palette.4,), converted.4),
    ensures
        colors.color == converted.0,
        colors.background == converted.1,
        colors.highlight == converted.2,
        colors.highlight_background == converted.3,
        colors.link == converted.4,
{
}

} // verus!
