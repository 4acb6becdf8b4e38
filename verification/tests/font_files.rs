use tbr_gui::config::PathConfig;
use tbr_gui::fontfile::check_counts;
use tbr_gui::fonts::{setup_fonts, FontError};

const REACH: u32 = 0xFFE0_0000;

fn long(n: u32) -> [u8; 4] {
    n.to_be_bytes()
}

fn joined(parts: &[&[u8]]) -> Vec<u8> {
    parts.concat()
}

/// The tables of a font from a place in a file on, with their directory.
fn face(at: usize, extra: &[(&[u8; 4], Vec<u8>)]) -> Vec<u8> {
    let mut head = vec![0u8; 54];
    head[18..20].copy_from_slice(&1000u16.to_be_bytes());
    let maxp = vec![0x00, 0x00, 0x50, 0x00, 0x00, 0x01];
    let mut tables = vec![(b"head", head), (b"hhea", vec![0u8; 36]), (b"maxp", maxp)];
    tables.extend(extra.iter().cloned());
    let count = (tables.len() as u16).to_be_bytes();
    let mut font = joined(&[&[0, 1, 0, 0], &count, &[0; 6]]);
    let mut offset = at + font.len() + 16 * tables.len();
    for (tag, table) in &tables {
        let length = long(table.len() as u32);
        font.extend(joined(&[*tag, &[0; 4], &long(offset as u32), &length]));
        offset += table.len();
    }
    for (_, table) in &tables {
        font.extend_from_slice(table);
    }
    font
}

fn font(tag: &[u8; 4], table: Vec<u8>) -> Vec<u8> {
    face(0, &[(tag, table)])
}

fn supply(data: Vec<u8>) -> Result<(), FontError> {
    let list = vec![PathConfig { enabled: true, path: "a".to_owned() }];
    setup_fonts(&list).unwrap().supply(data)
}

/// A font is taken as long as a number in it is not above the given one.
fn assert_limit(limit: u32, font: impl Fn(u32) -> Vec<u8>) {
    for sound in [0, 1, limit] {
        assert!(check_counts(&font(sound)));
        assert_eq!(supply(font(sound)), Ok(()));
    }
    for far in [limit + 1, u32::MAX] {
        assert!(!check_counts(&font(far)));
        assert_eq!(supply(font(far)), Err(FontError::InvalidFont));
    }
}

fn cmap(subtable: &[u8]) -> Vec<u8> {
    let record = [0, 3, 0, 10, 0, 0, 0, 12];
    font(b"cmap", joined(&[&[0, 0, 0, 1], &record, subtable]))
}

#[test]
fn character_maps_have_limits() {
    assert_limit((REACH - 20) / 2, |n| cmap(&joined(&[&[0, 10], &[0; 14], &long(n)])));
    assert_limit((REACH - 16) / 12, |n| cmap(&joined(&[&[0, 12], &[0; 10], &long(n)])));
    assert_limit((REACH - 16) / 12, |n| cmap(&joined(&[&[0, 13], &[0; 10], &long(n)])));
    assert_limit((REACH - 10) / 11, |n| cmap(&joined(&[&[0, 14], &[0; 4], &long(n)])));
    assert!(check_counts(&cmap(&joined(&[&[0, 6], &[0xFF; 20]]))));
}

#[test]
fn kerning_tables_have_limits() {
    let kern = |version: &[u8], n: u32| {
        font(b"kern", joined(&[version, &[0, 0, 0, 2], &long(n), &[0, 0, 0, 0]]))
    };
    assert_limit(REACH, |n| kern(&[0, 1, 0, 0], n));
    assert!(check_counts(&kern(&[0, 0, 0, 0], u32::MAX)));
    // the second subtable, behind one of ten bytes
    let second = |n: u32| {
        let first = [0, 0, 0, 10, 0, 2, 0, 0, 0, 0];
        let last = [0, 2, 0, 0];
        font(b"kern", joined(&[&[0, 1, 0, 0, 0, 0, 0, 2], &first, &long(n), &last]))
    };
    assert_limit(REACH - 10, second);
}

#[test]
fn bitmap_color_and_layout_tables_have_limits() {
    assert_limit((REACH - 8) / 4, |n| font(b"sbix", joined(&[&[0, 1, 0, 1], &long(n)])));
    let colr = |place: usize, part: &[u8]| {
        let mut table = vec![0u8; 34];
        table[1] = 1;
        table[place + 3] = 34;
        table.extend_from_slice(part);
        font(b"COLR", table)
    };
    assert_limit((REACH - 38) / 6, |n| colr(14, &long(n)));
    assert_limit((REACH - 38) / 4, |n| colr(18, &long(n)));
    assert_limit((REACH - 5) / 7, |n| colr(22, &joined(&[&[1], &long(n)])));
    assert_limit(REACH, |n| colr(30, &joined(&[&[0, 1], &long(n)])));
    for tag in [b"GPOS", b"GSUB"] {
        assert_limit((REACH - 8) / 8, |n| {
            let header = [0, 1, 0, 1, 0, 0, 0, 0, 0, 0, 0, 0, 0, 14];
            font(tag, joined(&[&header, &[0, 1, 0, 0], &long(n)]))
        });
    }
}

#[test]
fn variation_stores_have_limits() {
    let store = |n: u32| joined(&[&[0, 1], &long(n), &[0, 0]]);
    for tag in [b"HVAR", b"VVAR"] {
        assert_limit(REACH - 8, |n| {
            font(tag, joined(&[&[0, 1, 0, 0, 0, 0, 0, 8], &store(n)]))
        });
    }
    assert_limit(REACH - 12, |n| {
        font(b"MVAR", joined(&[&[0, 1, 0, 0, 0, 0, 0, 8, 0, 1, 0, 12], &store(n)]))
    });
    assert_limit(REACH, |n| {
        let header = joined(&[&[0, 1, 0, 3], &[0; 10], &long(18)]);
        font(b"GDEF", joined(&[&header, &store(n)]))
    });
}

/// An index with one item, whose last offset is given.
fn index(width: usize, last: u32) -> Vec<u8> {
    let count = &long(1)[4 - width..];
    joined(&[count, &[4], &long(1), &long(last)])
}

/// A `CFF` table: the header, no names, a top dictionary, no strings, no
/// subroutines, and then something more, which the dictionary can refer to.
fn cff(dict: impl Fn(u32) -> Vec<u8>, more: &[u8]) -> Vec<u8> {
    let length = dict(0).len();
    let at = 4 + 2 + 5 + length + 4;
    let top = joined(&[&[0, 1, 1, 1, length as u8 + 1], &dict(at as u32)]);
    font(b"CFF ", joined(&[&[1, 0, 4, 1, 0, 0], &top, &[0, 0, 0, 0], more]))
}

#[test]
fn outlines_have_limits() {
    // one of the four indexes at the start of the table
    assert_limit(REACH - 15, |n| font(b"CFF ", joined(&[&[1, 0, 4, 1], &index(2, n)])));
    assert_limit(REACH - 17, |n| font(b"CFF ", joined(&[&[1, 0, 4, 1, 0, 0], &index(2, n)])));
    // the glyphs, at 4 + 2 + 5 + 6 + 4
    let glyphs = |at: u32| joined(&[&[29], &long(at), &[17]]);
    assert_limit(REACH - 32, |n| cff(glyphs, &index(2, n)));
    // the dictionaries of the fonts, one byte further on
    let fonts = |at: u32| joined(&[&[29], &long(at), &[12, 36]]);
    assert_limit(REACH - 33, |n| cff(fonts, &index(2, n)));
    // the subroutines behind a private dictionary of two bytes
    let private = |at: u32| joined(&[&[141, 29], &long(at), &[18]]);
    assert_limit(REACH - 11, |n| cff(private, &joined(&[&[141, 19], &index(2, n)])));
    // a place is not given as a fraction
    assert!(!check_counts(&cff(|_| vec![30, 0x1F, 17], &[])));
    assert!(check_counts(&cff(|_| vec![30, 0x1A, 0x5F, 12, 7], &[])));
    // a place below zero leads nowhere
    assert!(check_counts(&cff(|_| vec![138, 17], &[])));
}

/// A `CFF2` table: the header, a top dictionary, no subroutines, and more.
fn cff2(dict: impl Fn(u32) -> Vec<u8>, more: &[u8]) -> Vec<u8> {
    let length = dict(0).len();
    let at = 5 + length + 4;
    let header = [2, 0, 5, 0, length as u8];
    font(b"CFF2", joined(&[&header, &dict(at as u32), &[0, 0, 0, 0], more]))
}

#[test]
fn variable_outlines_have_limits() {
    let glyphs = |at: u32| joined(&[&[29], &long(at), &[17]]);
    assert_limit(REACH - 28, |n| cff2(glyphs, &index(4, n)));
    let store = |at: u32| joined(&[&[29], &long(at), &[24]]);
    assert_limit(REACH - 17, |n| cff2(store, &joined(&[&[0, 8, 0, 1], &long(n), &[0, 0]])));
    assert_limit(REACH - 18, |n| {
        font(b"CFF2", joined(&[&[2, 0, 5, 0, 0], &index(4, n)]))
    });
    // the index of the fonts holds one dictionary, which leads to a private one
    let fonts = |at: u32| joined(&[&[29], &long(at), &[12, 36]]);
    assert_limit(REACH - 13, |n| {
        let at = 5 + 7 + 4;
        let private = at + 13 + 7;
        let dict = joined(&[&[141, 29], &long(private), &[18]]);
        let more = joined(&[&index(4, 8), &dict, &[141, 19], &index(4, n)]);
        cff2(fonts, &more)
    });
}

#[test]
fn collections_have_limits() {
    let collection = |count: u32| joined(&[b"ttcf", &[0, 1, 0, 0], &long(count)]);
    assert!(check_counts(&collection((REACH - 12) / 4)));
    assert!(!check_counts(&collection((REACH - 12) / 4 + 1)));
    assert_eq!(supply(collection(1)), Err(FontError::InvalidFont));
    assert_eq!(supply(collection(u32::MAX)), Err(FontError::InvalidFont));
    let first = joined(&[&collection(1), &long(16)]);
    assert_eq!(supply(joined(&[&first, &face(16, &[])])), Ok(()));
    let table = joined(&[&[0, 1, 0, 1], &long(u32::MAX)]);
    let far = joined(&[&first, &face(16, &[(b"sbix", table)])]);
    assert_eq!(supply(far), Err(FontError::InvalidFont));
}

#[test]
fn directories_have_a_limit() {
    let directory = |count: u16| {
        let mut data = vec![0u8; 12 + 16 * 65535];
        data[..4].copy_from_slice(&[0, 1, 0, 0]);
        data[4..6].copy_from_slice(&count.to_be_bytes());
        data
    };
    assert!(check_counts(&directory(65534)));
    assert!(!check_counts(&directory(65535)));
    assert_eq!(supply(directory(65534)), Err(FontError::InvalidFont));
    assert_eq!(supply(directory(65535)), Err(FontError::InvalidFont));
}

#[test]
fn other_tables_have_no_limit() {
    for tag in [b"name", b"post", b"morx", b"kerx", b"DSIG", b"glyf"] {
        assert!(check_counts(&font(tag, vec![0xFF; 64])));
        assert_eq!(supply(font(tag, vec![0xFF; 64])), Ok(()));
    }
    assert!(check_counts(&[]));
    assert_eq!(supply(vec![]), Err(FontError::InvalidFont));
}
