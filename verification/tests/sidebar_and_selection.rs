use tbr_gui::config::GuiConfig;
use tbr_gui::history::Position;
use tbr_gui::selection::{copy_selection, lookup_selection, select_text, text_selected};
use tbr_gui::sidebar::{
    pane_moved, setup_sidebar, switch_stack, toggle_sidebar, StackSwitch, SIDEBAR_CHAPTER_LIST_NAME,
    SIDEBAR_DICT_NAME,
};

fn gui() -> GuiConfig {
    GuiConfig {
        lang: "en".to_owned(),
        fonts: vec![],
        dictionaries: vec![],
        cache_dict: false,
        font_size: 30,
        sidebar_size: 300,
    }
}

#[test]
fn the_sidebar_starts_shut() {
    let setup = setup_sidebar();
    assert_eq!(
        setup.tabs,
        vec![("chapter_list", "tab-chapter"), ("dictionary_list", "tab-dictionary")]
    );
    assert_eq!((setup.visible, setup.position), (0, 0));
}

#[test]
fn the_size_of_an_open_sidebar_is_remembered() {
    let mut gui = gui();
    assert_eq!(pane_moved(&mut gui, 250), Some(250));
    assert_eq!(gui.sidebar_size, 250);
    assert_eq!(pane_moved(&mut gui, 0), None);
    assert_eq!(pane_moved(&mut gui, -1), None);
    assert_eq!(gui.sidebar_size, 250);
}

#[test]
fn the_sidebar_opens_and_shuts() {
    let toggle = toggle_sidebar(0, 300);
    assert_eq!((toggle.icon, toggle.tooltip), ("sidebar_off.svg", "sidebar-off"));
    assert_eq!((toggle.position, toggle.focus_page), (300, false));
    let toggle = toggle_sidebar(300, 300);
    assert_eq!((toggle.icon, toggle.tooltip), ("sidebar_on.svg", "sidebar-on"));
    assert_eq!((toggle.position, toggle.focus_page), (0, true));
    assert_eq!(toggle_sidebar(0, u32::MAX).position, -1);
}

#[test]
fn a_shut_sidebar_reopens_in_its_size() {
    let mut gui = gui();
    pane_moved(&mut gui, 123);
    let shut = toggle_sidebar(123, gui.sidebar_size);
    pane_moved(&mut gui, shut.position);
    assert_eq!(toggle_sidebar(shut.position, gui.sidebar_size).position, 123);
}

#[test]
fn tabs_are_brought_to_the_front() {
    let dict = SIDEBAR_DICT_NAME;
    let chapters = SIDEBAR_CHAPTER_LIST_NAME;
    let switch = |bring, toggle, shown| StackSwitch { bring, toggle, shown };
    assert_eq!(switch_stack(dict, Some(dict), 0, true), switch(true, true, true));
    assert_eq!(switch_stack(dict, None, 0, false), switch(true, true, true));
    assert_eq!(switch_stack(dict, Some(dict), 300, true), switch(false, true, false));
    assert_eq!(switch_stack(dict, Some(dict), 300, false), switch(false, false, true));
    assert_eq!(switch_stack(dict, Some(chapters), 300, true), switch(true, false, true));
    assert_eq!(switch_stack(dict, None, 300, true), switch(true, false, true));
}

#[test]
fn asking_twice_for_a_tab_shuts_the_sidebar_again() {
    let first = switch_stack(SIDEBAR_DICT_NAME, Some(SIDEBAR_CHAPTER_LIST_NAME), 0, true);
    assert!(first.shown);
    let position = toggle_sidebar(0, 300).position;
    let second = switch_stack(SIDEBAR_DICT_NAME, Some(SIDEBAR_DICT_NAME), position, true);
    assert!(second.toggle && !second.shown);
    assert_eq!(toggle_sidebar(position, 300).position, 0);
    // the same where the sidebar was open before, with the other tab in front
    let first = switch_stack(SIDEBAR_DICT_NAME, Some(SIDEBAR_CHAPTER_LIST_NAME), 300, true);
    assert!(first.bring && !first.toggle && first.shown);
    let second = switch_stack(SIDEBAR_DICT_NAME, Some(SIDEBAR_DICT_NAME), 300, true);
    assert!(second.toggle && !second.shown);
}

#[test]
fn selected_text_is_looked_up_while_the_dictionary_shows() {
    assert_eq!(text_selected(Some("word"), Some(SIDEBAR_DICT_NAME)), Some("word".to_owned()));
    assert_eq!(text_selected(Some("word"), Some(SIDEBAR_CHAPTER_LIST_NAME)), None);
    assert_eq!(text_selected(Some("word"), None), None);
    assert_eq!(text_selected(None, Some(SIDEBAR_DICT_NAME)), None);
}

#[test]
fn selected_text_is_copied_and_looked_up_on_request() {
    assert_eq!(copy_selection(Some("word")), Some("word".to_owned()));
    assert_eq!(copy_selection(None), None);
    assert_eq!(lookup_selection(Some("word")), Some("word".to_owned()));
    assert_eq!(lookup_selection(None), None);
}

#[test]
fn selection_runs_between_two_places() {
    assert_eq!(select_text(1, 2, 3, 4), (Position::new(1, 2), Position::new(3, 4)));
}
