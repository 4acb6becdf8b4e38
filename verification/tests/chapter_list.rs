use tbr_gui::chapters::{do_sync, ChapterEntry, ChapterListSyncMode, ChapterSync};
use tbr_gui::color::{Color32, Colors};
use tbr_gui::config::{Configuration, GuiConfig};
use tbr_gui::context::GuiContext;
use tbr_gui::history::{Position, ReadingInfo};

fn rows() -> Vec<ChapterEntry> {
    vec![
        ChapterEntry { index: 1, book: true },
        ChapterEntry { index: 0, book: false },
        ChapterEntry { index: 1, book: false },
        ChapterEntry { index: 2, book: true },
        ChapterEntry { index: 1, book: false },
    ]
}

fn selected(sync: ChapterSync) -> Vec<usize> {
    match sync {
        ChapterSync::Select(rows) => rows,
        ChapterSync::Reload => panic!("the list is built anew"),
        ChapterSync::Keep => panic!("the list is left alone"),
    }
}

#[test]
fn the_list_is_built_anew_for_another_book() {
    let rows = rows();
    let mode = ChapterListSyncMode::ReloadIfNeeded(3);
    assert!(matches!(do_sync(mode, 4, 1, None, &rows), ChapterSync::Reload));
    assert!(matches!(do_sync(ChapterListSyncMode::Reload, 3, 1, None, &rows), ChapterSync::Reload));
    assert_eq!(selected(do_sync(mode, 3, 1, None, &rows)), vec![2, 4]);
    assert_eq!(selected(do_sync(ChapterListSyncMode::NoReload, 9, 1, None, &rows)), vec![2, 4]);
}

#[test]
fn a_fitting_selection_is_kept() {
    let rows = rows();
    let mode = ChapterListSyncMode::NoReload;
    assert!(matches!(do_sync(mode, 0, 1, Some(2), &rows), ChapterSync::Keep));
    // the row of a book with the same number counts too
    assert!(matches!(do_sync(mode, 0, 1, Some(0), &rows), ChapterSync::Keep));
    assert_eq!(selected(do_sync(mode, 0, 1, Some(1), &rows)), vec![2, 4]);
    assert_eq!(selected(do_sync(mode, 0, 1, Some(-1), &rows)), vec![2, 4]);
    assert_eq!(selected(do_sync(mode, 0, 1, Some(5), &rows)), vec![2, 4]);
}

#[test]
fn books_are_not_selected() {
    let rows = rows();
    let mode = ChapterListSyncMode::NoReload;
    assert!(selected(do_sync(mode, 0, 2, None, &rows)).is_empty());
    assert!(selected(do_sync(mode, 0, 7, None, &vec![])).is_empty());
}

#[test]
fn the_list_settles() {
    let rows = rows();
    let mode = ChapterListSyncMode::NoReload;
    let last = *selected(do_sync(mode, 0, 1, None, &rows)).last().unwrap();
    assert!(matches!(do_sync(mode, 0, 1, Some(last as i32), &rows), ChapterSync::Keep));
}

#[test]
fn the_context_knows_that_it_is_syncing() {
    let color = Color32::from_rgb(0, 0, 0);
    let colors = Colors {
        color,
        background: color,
        highlight: color,
        highlight_background: color,
        link: color,
    };
    let cfg = Configuration {
        render_han: false,
        dark_theme: false,
        current: None,
        history: vec![],
        gui: GuiConfig {
            lang: "en".to_owned(),
            fonts: vec![],
            dictionaries: vec![],
            cache_dict: false,
            font_size: 30,
            sidebar_size: 300,
        },
    };
    let reading = ReadingInfo {
        filename: "/a".to_owned(),
        inner_book: 5,
        position: Position::new(0, 0),
        custom_color: false,
    };
    let mut gc = GuiContext::new(cfg, reading, colors, colors);
    assert!(!gc.is_chapter_syncing());
    let sync = gc.sync_chapter_list(ChapterListSyncMode::ReloadIfNeeded(5), 0, None, &rows());
    assert_eq!(selected(sync), vec![1]);
    assert!(gc.is_chapter_syncing());
    gc.chapter_list_synced();
    assert!(!gc.is_chapter_syncing());
    let sync = gc.sync_chapter_list(ChapterListSyncMode::ReloadIfNeeded(4), 0, None, &rows());
    assert!(matches!(sync, ChapterSync::Reload));
}
