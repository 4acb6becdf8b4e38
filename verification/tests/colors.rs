use cursive::theme::{BaseColor, Color, PaletteColor, Theme};
use tbr_gui::color::{colors_from, convert, convert_base, convert_colors, Color32, TerminalColor};

fn rgb(r: u8, g: u8, b: u8) -> Color32 {
    Color32::from_rgb(r, g, b)
}

#[test]
fn theme_palette_becomes_page_colors() {
    let mut theme = Theme::default();
    theme.palette[PaletteColor::Primary] = Color::Rgb(1, 2, 3);
    theme.palette[PaletteColor::Background] = Color::RgbLowRes(5, 4, 3);
    theme.palette[PaletteColor::HighlightText] = Color::TerminalDefault;
    theme.palette[PaletteColor::Highlight] = Color::Dark(BaseColor::Magenta);
    theme.palette[PaletteColor::Secondary] = Color::Light(BaseColor::Cyan);
    let colors = convert_colors(&theme);
    assert_eq!(colors.color, rgb(1, 2, 3));
    assert_eq!(colors.background, rgb(5, 4, 3));
    assert_eq!(colors.highlight, rgb(0, 0, 0));
    assert_eq!(colors.highlight_background, rgb(255, 0, 255));
    assert_eq!(colors.link, rgb(0, 255, 255));
}

#[test]
fn every_base_color_of_a_theme_is_converted() {
    let expected = [
        (BaseColor::Black, rgb(0, 0, 0)),
        (BaseColor::Red, rgb(255, 0, 0)),
        (BaseColor::Green, rgb(0, 255, 0)),
        (BaseColor::Yellow, rgb(255, 255, 0)),
        (BaseColor::Blue, rgb(0, 0, 255)),
        (BaseColor::Magenta, rgb(255, 0, 255)),
        (BaseColor::Cyan, rgb(0, 255, 255)),
        (BaseColor::White, rgb(255, 255, 255)),
    ];
    for (base, color) in expected {
        let mut theme = Theme::terminal_default();
        theme.palette[PaletteColor::Primary] = Color::Dark(base);
        theme.palette[PaletteColor::Secondary] = Color::Light(base);
        let colors = convert_colors(&theme);
        assert_eq!(colors.color, color);
        assert_eq!(colors.link, color);
        assert_eq!(colors.background, rgb(0, 0, 0));
    }
}

#[test]
fn single_colors_are_converted() {
    assert_eq!(convert_base(3), rgb(255, 255, 0));
    assert_eq!(convert(&TerminalColor::Light(7)), rgb(255, 255, 255));
    assert_eq!(convert(&TerminalColor::Rgb(9, 8, 7)), rgb(9, 8, 7));
    let colors = colors_from(
        &TerminalColor::Dark(1),
        &TerminalColor::Dark(2),
        &TerminalColor::Dark(4),
        &TerminalColor::TerminalDefault,
        &TerminalColor::RgbLowRes(1, 1, 1),
    );
    assert_eq!(colors.color, rgb(255, 0, 0));
    assert_eq!(colors.background, rgb(0, 255, 0));
    assert_eq!(colors.highlight, rgb(0, 0, 255));
    assert_eq!(colors.highlight_background, rgb(0, 0, 0));
    assert_eq!(colors.link, rgb(1, 1, 1));
}
