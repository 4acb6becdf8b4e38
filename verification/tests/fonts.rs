use ab_glyph::Font;
use tbr_gui::config::PathConfig;
use tbr_gui::fonts::{setup_fonts, FontError};

fn path(enabled: bool, path: &str) -> PathConfig {
    PathConfig { enabled, path: path.to_owned() }
}

/// A font with nothing but the three tables that every font has.
fn tiny_font(units_per_em: u16) -> Vec<u8> {
    let mut head = vec![0u8; 54];
    head[18..20].copy_from_slice(&units_per_em.to_be_bytes());
    let hhea = vec![0u8; 36];
    let maxp = vec![0x00, 0x00, 0x50, 0x00, 0x00, 0x01];
    let tables: [(&[u8; 4], &Vec<u8>); 3] = [(b"head", &head), (b"hhea", &hhea), (b"maxp", &maxp)];
    let mut font = vec![0x00, 0x01, 0x00, 0x00, 0x00, 0x03, 0, 0, 0, 0, 0, 0];
    let mut offset = font.len() + 16 * tables.len();
    for (tag, table) in tables {
        font.extend_from_slice(tag);
        font.extend_from_slice(&[0; 4]);
        font.extend_from_slice(&(offset as u32).to_be_bytes());
        font.extend_from_slice(&(table.len() as u32).to_be_bytes());
        offset += table.len();
    }
    for (_, table) in tables {
        font.extend_from_slice(table);
    }
    font
}

#[test]
fn no_paths_mean_no_fonts_of_ones_own() {
    assert!(setup_fonts(&vec![]).is_none());
}

#[test]
fn disabled_paths_are_left_out() {
    let setup = setup_fonts(&vec![path(false, "a"), path(false, "b")]).unwrap();
    assert!(setup.next_path().is_none());
    assert_eq!(setup.finish().len(), 0);
}

#[test]
fn enabled_fonts_are_loaded_in_order() {
    let list = vec![path(true, "a.ttf"), path(false, "b.ttf"), path(true, "c.ttf")];
    let mut setup = setup_fonts(&list).unwrap();
    assert_eq!(setup.next_path().unwrap(), "a.ttf");
    assert_eq!(setup.supply(tiny_font(1000)), Ok(()));
    assert_eq!(setup.next_path().unwrap(), "c.ttf");
    assert_eq!(setup.supply(tiny_font(2048)), Ok(()));
    assert!(setup.next_path().is_none());
    let fonts = setup.finish();
    assert_eq!(fonts.len(), 2);
    assert_eq!(fonts[0].units_per_em(), Some(1000.0));
    assert_eq!(fonts[1].units_per_em(), Some(2048.0));
    assert_eq!(fonts[0].as_slice(), tiny_font(1000).as_slice());
}

#[test]
fn invalid_font_is_refused_and_changes_nothing() {
    let mut setup = setup_fonts(&vec![path(true, "a.ttf")]).unwrap();
    assert_eq!(setup.supply(vec![1, 2, 3]), Err(FontError::InvalidFont));
    assert_eq!(FontError::InvalidFont.message(), "InvalidFont");
    assert_eq!(setup.next_path().unwrap(), "a.ttf");
    assert_eq!(setup.supply(tiny_font(16)), Ok(()));
    assert_eq!(setup.finish().len(), 1);
}
