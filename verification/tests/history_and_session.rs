use cursive::theme::{Color, PaletteColor, Theme};
use tbr_gui::chapters::ChapterListSyncMode;
use tbr_gui::color::{Color32, Colors};
use tbr_gui::config::{Configuration, GuiConfig};
use tbr_gui::context::{GuiContext, Status};
use tbr_gui::history::{reading_info, Position, ReadingInfo};
use tbr_gui::startup::{build_ui, choose_page, new_window, resume, FileLoad, PageStep};

fn reading(filename: &str, inner_book: usize) -> ReadingInfo {
    ReadingInfo {
        filename: filename.to_owned(),
        inner_book,
        position: Position::new(inner_book + 10, 7),
        custom_color: true,
    }
}

fn fresh(filename: &str) -> ReadingInfo {
    ReadingInfo {
        filename: filename.to_owned(),
        inner_book: 0,
        position: Position::new(0, 0),
        custom_color: false,
    }
}

fn colors(n: u8) -> Colors {
    let color = Color32::from_rgb(n, n, n);
    Colors {
        color,
        background: color,
        highlight: color,
        highlight_background: color,
        link: color,
    }
}

fn configuration(current: Option<&str>, history: Vec<ReadingInfo>) -> Configuration {
    Configuration {
        render_han: false,
        dark_theme: true,
        current: current.map(|c| c.to_owned()),
        history,
        gui: GuiConfig {
            lang: "en".to_owned(),
            fonts: vec![],
            dictionaries: vec![],
            cache_dict: false,
            font_size: 30,
            sidebar_size: 300,
        },
    }
}

fn context(open: ReadingInfo, history: Vec<ReadingInfo>) -> GuiContext {
    GuiContext::new(configuration(None, history), open, colors(1), colors(2))
}

fn files(history: &Vec<ReadingInfo>) -> Vec<&str> {
    history.iter().map(|r| r.filename.as_str()).collect()
}

fn text(status: &Status) -> &str {
    match status {
        Status::Text(text) => text,
        Status::Markup(_) => panic!("an error is shown"),
    }
}

fn markup(status: &Status) -> &str {
    match status {
        Status::Markup(markup) => markup,
        Status::Text(_) => panic!("no error is shown"),
    }
}

#[test]
fn a_file_is_taken_out_of_the_history() {
    let mut history = vec![reading("/a", 1), reading("/b", 2), reading("/c", 3)];
    let (found, info) = reading_info(&mut history, "/b", fresh("/b"));
    assert!(found);
    assert_eq!((info.filename.as_str(), info.inner_book), ("/b", 2));
    assert_eq!(info.position, Position::new(12, 7));
    assert!(info.custom_color);
    assert_eq!(files(&history), vec!["/a", "/c"]);
}

#[test]
fn an_unknown_file_is_read_afresh() {
    let mut history = vec![reading("/a", 1)];
    let (found, info) = reading_info(&mut history, "/b", fresh("/b"));
    assert!(!found);
    assert_eq!((info.filename.as_str(), info.inner_book), ("/b", 0));
    assert_eq!(files(&history), vec!["/a"]);
}

#[test]
fn of_two_entries_the_oldest_is_taken() {
    let mut history = vec![reading("/a", 1), reading("/b", 2), reading("/a", 3)];
    let (found, info) = reading_info(&mut history, "/a", fresh("/a"));
    assert!(found);
    assert_eq!(info.inner_book, 1);
    assert_eq!(files(&history), vec!["/b", "/a"]);
}

#[test]
fn opening_the_open_file_does_nothing() {
    let mut gc = context(reading("/a", 1), vec![reading("/b", 2)]);
    assert!(gc.open_file("/a", fresh("/a")).is_none());
    assert_eq!(gc.reading.filename, "/a");
    assert_eq!(files(&gc.cfg.history), vec!["/b"]);
}

#[test]
fn opening_another_file_moves_the_history() {
    let mut gc = context(reading("/a", 1), vec![reading("/b", 2), reading("/c", 3)]);
    let pending = gc.open_file("/b", fresh("/b")).unwrap();
    assert!(pending.from_history);
    assert_eq!(pending.reading.inner_book, 2);
    let opened = pending.reading.clone();
    let (update, shown) = gc.file_opened(pending, Ok((opened, "opened".to_owned())));
    let shown = shown.unwrap();
    assert_eq!(shown.subject, "/b");
    assert_eq!(shown.recent_files, vec!["/a", "/c"]);
    assert_eq!(text(&update.status), "opened");
    assert_eq!(update.sync, Some(ChapterListSyncMode::Reload));
    assert_eq!(gc.reading.filename, "/b");
    assert_eq!(gc.reading.inner_book, 2);
    assert_eq!(files(&gc.cfg.history), vec!["/c", "/a"]);
    assert_eq!(gc.cfg.history[1].inner_book, 1);
}

#[test]
fn a_file_that_cannot_be_opened_goes_back_to_the_history() {
    let mut gc = context(reading("/a", 1), vec![reading("/b", 2), reading("/c", 3)]);
    let pending = gc.open_file("/b", fresh("/b")).unwrap();
    let (update, shown) = gc.file_opened(pending, Err("broken".to_owned()));
    assert!(shown.is_none());
    assert_eq!(markup(&update.status), "<span foreground='red'>broken</span>");
    assert_eq!(update.sync, None);
    assert_eq!(gc.reading.filename, "/a");
    assert_eq!(files(&gc.cfg.history), vec!["/c", "/b"]);
    assert_eq!(gc.cfg.history[1].inner_book, 2);
}

#[test]
fn an_unknown_file_that_cannot_be_opened_leaves_no_trace() {
    let mut gc = context(reading("/a", 1), vec![reading("/b", 2)]);
    let pending = gc.open_file("/z", fresh("/z")).unwrap();
    assert!(!pending.from_history);
    gc.file_opened(pending, Err("broken".to_owned()));
    assert_eq!(files(&gc.cfg.history), vec!["/b"]);
    assert_eq!(gc.reading.filename, "/a");
}

#[test]
fn closing_and_starting_again_resumes_reading() {
    let mut gc = context(reading("/a", 4), vec![reading("/b", 2), reading("/c", 3)]);
    gc.close_request();
    assert_eq!(gc.cfg.current.as_deref(), Some("/a"));
    assert_eq!(files(&gc.cfg.history), vec!["/b", "/c", "/a"]);
    let mut cfg = gc.cfg;
    let resumed = resume(&mut cfg, fresh("/a")).unwrap();
    assert_eq!(cfg.current.as_deref(), Some("/a"));
    assert_eq!((resumed.filename.as_str(), resumed.inner_book), ("/a", 4));
    assert_eq!(resumed.position, Position::new(14, 7));
    assert_eq!(files(&cfg.history), vec!["/b", "/c"]);
    assert_eq!(cfg.gui.sidebar_size, 300);
}

#[test]
fn closing_the_introduction_remembers_nothing() {
    let mut gc = context(fresh("readme"), vec![reading("/b", 2)]);
    gc.close_request();
    assert_eq!(gc.cfg.current, None);
    assert_eq!(files(&gc.cfg.history), vec!["/b"]);
}

#[test]
fn nothing_is_resumed_where_nothing_was_open() {
    let mut cfg = configuration(None, vec![reading("/b", 2)]);
    assert!(resume(&mut cfg, fresh("/x")).is_none());
    assert_eq!(files(&cfg.history), vec!["/b"]);
}

#[test]
fn the_window_comes_up_with_a_file() {
    let cfg = configuration(Some("/a"), vec![]);
    let opened = Some(reading("/a", 1));
    let (gc, plan) = new_window(cfg, colors(1), colors(2), opened, fresh("readme"));
    assert_eq!(gc.reading.filename, "/a");
    assert_eq!((gc.dark_colors, gc.bright_colors), (colors(1), colors(2)));
    assert!(!gc.is_chapter_syncing());
    assert_eq!(plan.subject, "/a");
    assert!(!plan.introduction);
    assert_eq!(plan.colors, colors(1));
    assert_eq!(plan.toolbar[3], ("render_han.svg", "render-han"));
    assert_eq!(plan.toolbar[4], ("theme_bright.svg", "theme-bright"));
    assert_eq!(plan.toolbar[5], ("custom_color_off.svg", "no-custom-color"));
}

#[test]
fn the_window_comes_up_with_the_introduction() {
    let mut cfg = configuration(None, vec![]);
    cfg.dark_theme = false;
    let (gc, plan) = new_window(cfg, colors(1), colors(2), None, fresh("anything"));
    assert_eq!(gc.reading.filename, "readme");
    assert_eq!(plan.subject, "The e-book reader");
    assert!(plan.introduction);
    assert_eq!(plan.colors, colors(2));
    assert_eq!(plan.toolbar[5], ("custom_color_on.svg", "with-custom-color"));
}

#[test]
fn a_window_takes_the_colors_of_its_themes() {
    let mut dark = Theme::terminal_default();
    dark.palette[PaletteColor::Background] = Color::Rgb(1, 2, 3);
    let mut bright = Theme::terminal_default();
    bright.palette[PaletteColor::Background] = Color::Rgb(4, 5, 6);
    let cfg = configuration(Some("/a"), vec![]);
    let loaded = Some(FileLoad::Loaded(reading("/a", 1)));
    let (gc, plan) = build_ui(cfg, &dark, &bright, Ok(()), loaded, fresh("readme")).unwrap();
    assert_eq!(gc.dark_colors.background, Color32::from_rgb(1, 2, 3));
    assert_eq!(gc.bright_colors.background, Color32::from_rgb(4, 5, 6));
    assert_eq!(plan.colors, gc.dark_colors);
    assert_eq!(gc.reading.filename, "/a");
}

#[test]
fn a_window_needs_its_fonts_and_its_file() {
    let theme = Theme::terminal_default();
    let build = |current, fonts, loaded| {
        let cfg = configuration(current, vec![reading("/b", 2)]);
        build_ui(cfg, &theme, &theme, fonts, loaded, fresh("readme"))
    };
    let no = |reason: &str| reason.to_owned();
    let error = build(Some("/a"), Err(no("no font")), None).unwrap_err();
    assert_eq!(error.message, "no font");
    assert_eq!(error.cfg.current, Some("/a".to_owned()));
    assert_eq!(files(&error.cfg.history), vec!["/b"]);
    let unread = Some(FileLoad::NoBook(no("no book")));
    let error = build(Some("/a"), Err(no("no font")), unread).unwrap_err();
    assert_eq!(error.message, "no font");
    let error = build(None, Err(no("no font")), None).unwrap_err();
    assert_eq!(error.message, "no font");
    let unread = Some(FileLoad::NoContainer(no("no file")));
    let error = build(Some("/a"), Ok(()), unread).unwrap_err();
    assert_eq!(error.message, "no file");
    let unread = Some(FileLoad::NoBook(no("no book")));
    let error = build(Some("/a"), Ok(()), unread).unwrap_err();
    assert_eq!(error.message, "no book");
    assert_eq!(files(&error.cfg.history), vec!["/b"]);
    let (gc, plan) = build(None, Ok(()), None).unwrap();
    assert_eq!(gc.reading.filename, "readme");
    assert!(plan.introduction);
    let loaded = Some(FileLoad::Loaded(reading("/a", 1)));
    let (gc, plan) = build(Some("/a"), Ok(()), loaded).unwrap();
    assert_eq!(gc.reading.filename, "/a");
    assert!(!plan.introduction);
}

#[test]
fn the_introduction_leaves_no_trace() {
    let cfg = configuration(None, vec![reading("/b", 2)]);
    let (mut gc, _) = new_window(cfg, colors(1), colors(2), None, fresh("readme"));
    gc.close_request();
    assert_eq!(gc.cfg.current, None);
    assert_eq!(files(&gc.cfg.history), vec!["/b"]);
    assert_eq!(gc.reading.filename, "readme");
}

#[test]
fn the_file_is_loaded_after_the_fonts() {
    let fine = Ok(());
    match choose_page(Some(reading("/a", 3)), &fine) {
        PageStep::LoadFile(info) => assert_eq!((info.filename.as_str(), info.inner_book), ("/a", 3)),
        _ => panic!("the file is loaded"),
    }
    assert!(matches!(choose_page(None, &fine), PageStep::LoadIntroduction));
    match choose_page(Some(reading("/a", 3)), &Err("no font".to_owned())) {
        PageStep::Fail(message) => assert_eq!(message, "no font"),
        _ => panic!("nothing is loaded"),
    }
}

#[test]
fn the_history_menu_lists_the_youngest_files() {
    let mut history = vec![];
    for i in 0..25usize {
        history.push(reading(&format!("/{i}"), i));
    }
    let gc = context(reading("/a", 1), history);
    let menu = gc.reload_history();
    assert_eq!(menu.len(), 20);
    assert_eq!(menu[0], "/24");
    assert_eq!(menu[19], "/5");
    let short = context(reading("/a", 1), vec![reading("/x", 0), reading("/y", 0)]);
    assert_eq!(short.reload_history(), vec!["/y", "/x"]);
    assert!(context(reading("/a", 1), vec![]).reload_history().is_empty());
}

#[test]
fn history_menu_entries_have_their_actions() {
    let gc = context(reading("/a", 1), vec![]);
    let path = "/books/x.epub".to_owned();
    let entry = gc.add_history_entry(0, &path, true, true).unwrap();
    assert_eq!(entry.action, "a0");
    assert_eq!(entry.menu_action, "popup.a0");
    assert_eq!(entry.label, "/books/x.epub");
    let entry = gc.add_history_entry(19, &path, true, true).unwrap();
    assert_eq!(entry.action, "a19");
    assert_eq!(entry.menu_action, "popup.a19");
    assert!(gc.add_history_entry(1, &path, false, false).is_none());
    assert!(gc.add_history_entry(1, &path, true, false).is_none());
}

#[test]
fn the_status_bar_tells_and_warns() {
    let gc = context(reading("/a", 1), vec![]);
    assert_eq!(text(&gc.message("page 3")), "page 3");
    assert_eq!(markup(&gc.error("no <b>")), "<span foreground='red'>no <b></span>");
    assert_eq!(text(&gc.update_status(false, "")), "");
    let update = gc.update("m", ChapterListSyncMode::NoReload);
    assert_eq!(text(&update.status), "m");
    assert_eq!(update.sync, Some(ChapterListSyncMode::NoReload));
}

#[test]
fn what_is_done_to_the_page_is_told() {
    let mut gc = context(reading("/a", 1), vec![]);
    let update = gc.handle(reading("/a", 2), Ok("next".to_owned()));
    assert_eq!(text(&update.status), "next");
    assert_eq!(update.sync, Some(ChapterListSyncMode::ReloadIfNeeded(1)));
    assert_eq!(gc.reading.inner_book, 2);
    let update = gc.handle(reading("/a", 3), Err("stuck".to_owned()));
    assert_eq!(markup(&update.status), "<span foreground='red'>stuck</span>");
    assert_eq!(update.sync, None);
    assert_eq!(gc.reading.inner_book, 3);
    let update = gc.apply(reading("/a", 3), "same");
    assert_eq!(text(&update.status), "same");
    assert_eq!(update.sync, Some(ChapterListSyncMode::ReloadIfNeeded(3)));
}

#[test]
fn switches_lead_back_when_used_twice() {
    let mut gc = context(reading("/a", 1), vec![]);
    assert_eq!(gc.colors(), colors(1));
    assert_eq!(gc.switch_theme(), ("theme_dark.svg", "theme-dark", colors(2)));
    assert!(!gc.cfg.dark_theme);
    assert_eq!(gc.switch_theme(), ("theme_bright.svg", "theme-bright", colors(1)));
    assert!(gc.cfg.dark_theme);
    assert_eq!(gc.switch_render(), ("render_xi.svg", "render-xi"));
    assert!(gc.cfg.render_han);
    assert_eq!(gc.switch_render(), ("render_han.svg", "render-han"));
    assert!(!gc.cfg.render_han);
    assert_eq!(gc.switch_custom_color(), ("custom_color_on.svg", "with-custom-color"));
    assert!(!gc.reading.custom_color);
    assert_eq!(gc.switch_custom_color(), ("custom_color_off.svg", "no-custom-color"));
    assert!(gc.reading.custom_color);
}

#[test]
fn the_font_size_is_remembered() {
    let mut gc = context(reading("/a", 1), vec![]);
    assert_eq!(gc.increase_font_size(), Some(32));
    assert_eq!(gc.cfg.gui.font_size, 32);
    assert_eq!(gc.decrease_font_size(), Some(30));
    assert_eq!(gc.cfg.gui.font_size, 30);
    gc.cfg.gui.font_size = 50;
    assert_eq!(gc.increase_font_size(), None);
    assert_eq!(gc.cfg.gui.font_size, 50);
    gc.cfg.gui.font_size = 20;
    assert_eq!(gc.decrease_font_size(), None);
    assert_eq!(gc.cfg.gui.font_size, 20);
}
