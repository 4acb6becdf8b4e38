use tbr_gui::buttons::{
    create_button, file_suffixes, get_custom_color_icon, get_render_icon, get_theme_icon,
    popup_activated, right_click, setup_popup_menu, setup_toolbar, update_button, PopupCommand,
};
use tbr_gui::icons::{icon_name, icons_to_draw, load_icons, Asset, Icon};

fn asset(name: &str) -> Asset {
    Asset { name: name.to_owned(), data: vec![] }
}

fn assets() -> Vec<Asset> {
    vec![
        asset("gui/gtk.css"),
        asset("gui/image/a.svg"),
        asset("gui/image/a.png"),
        asset("gui/image/b.svg"),
        asset("i18n/en.ftl"),
        asset("gui/image/c.svg"),
    ]
}

fn icon(name: &str, byte: u8) -> Icon {
    Icon { name: name.to_owned(), png: vec![byte] }
}

#[test]
fn only_svg_files_in_the_folder_are_icons() {
    assert_eq!(icon_name("gui/image/history.svg"), Some("history.svg".to_owned()));
    assert_eq!(icon_name("gui/image/sub/x.svg"), Some("sub/x.svg".to_owned()));
    assert_eq!(icon_name("gui/image/.svg"), Some(".svg".to_owned()));
    assert_eq!(icon_name("gui/image/history.png"), None);
    assert_eq!(icon_name("gui/history.svg"), None);
    assert_eq!(icon_name(""), None);
}

#[test]
fn different_icon_files_have_different_names() {
    assert_ne!(icon_name("gui/image/a.svg"), icon_name("gui/image/b.svg"));
}

#[test]
fn the_icons_among_the_assets_are_drawn() {
    assert_eq!(icons_to_draw(&assets()), vec![1, 3, 5]);
    assert!(icons_to_draw(&vec![asset("readme")]).is_empty());
    assert!(icons_to_draw(&vec![]).is_empty());
}

#[test]
fn drawn_icons_keep_their_names() {
    let drawn = vec![Some(vec![1]), Some(vec![2, 2]), Some(vec![])];
    let icons = load_icons(&assets(), drawn).unwrap();
    let names: Vec<&str> = icons.iter().map(|icon| icon.name.as_str()).collect();
    assert_eq!(names, vec!["a.svg", "b.svg", "c.svg"]);
    assert_eq!(icons[0].png, vec![1]);
    assert_eq!(icons[1].png, vec![2, 2]);
    assert!(icons[2].png.is_empty());
    assert!(load_icons(&vec![asset("readme")], vec![]).unwrap().is_empty());
}

#[test]
fn the_first_icon_that_cannot_be_drawn_is_named() {
    let drawn = vec![Some(vec![1]), None, None];
    assert_eq!(load_icons(&assets(), drawn).unwrap_err(), 1);
    let drawn = vec![None, Some(vec![2]), Some(vec![3])];
    assert_eq!(load_icons(&assets(), drawn).unwrap_err(), 0);
}

#[test]
fn buttons_show_what_a_click_leads_to() {
    assert_eq!(get_render_icon(true), ("render_xi.svg", "render-xi"));
    assert_eq!(get_render_icon(false), ("render_han.svg", "render-han"));
    assert_eq!(get_theme_icon(true), ("theme_bright.svg", "theme-bright"));
    assert_eq!(get_theme_icon(false), ("theme_dark.svg", "theme-dark"));
    assert_eq!(get_custom_color_icon(true), ("custom_color_off.svg", "no-custom-color"));
    assert_eq!(get_custom_color_icon(false), ("custom_color_on.svg", "with-custom-color"));
}

#[test]
fn buttons_take_their_icon_and_size() {
    let icons = vec![icon("a", 1), icon("b", 2), icon("a", 3)];
    let look = create_button("a", "tip", &icons, false).unwrap();
    assert_eq!((look.icon, look.size, look.inline), (2, 32, false));
    assert_eq!(look.tooltip, "tip");
    let look = create_button("b", "tip", &icons, true).unwrap();
    assert_eq!((look.icon, look.size, look.inline), (1, 16, true));
    assert!(create_button("c", "tip", &icons, false).is_none());
    let look = update_button("b", "other", &icons).unwrap();
    assert_eq!((look.icon, look.size, look.inline), (1, 32, false));
    assert_eq!(look.tooltip, "other");
    assert!(update_button("c", "other", &icons).is_none());
}

#[test]
fn toolbar_has_its_buttons_in_order() {
    assert_eq!(
        setup_toolbar(true, false, true),
        vec![
            ("sidebar_on.svg", "sidebar-on"),
            ("file_open.svg", "file-open"),
            ("history.svg", "history"),
            ("render_xi.svg", "render-xi"),
            ("theme_dark.svg", "theme-dark"),
            ("custom_color_off.svg", "no-custom-color"),
            ("setting.svg", "settings-dialog"),
        ]
    );
}

#[test]
fn file_suffixes_have_no_dot() {
    let extensions = vec![".epub".to_owned(), ".tar.gz".to_owned(), ".".to_owned()];
    assert_eq!(file_suffixes(&extensions), vec!["epub", "tar.gz", ""]);
}

#[test]
fn popup_menu_copies_and_looks_up() {
    let entries = setup_popup_menu();
    assert_eq!(entries.len(), 2);
    assert_eq!(entries[0].action, "copy-content");
    assert_eq!(entries[0].menu_action, "popup.copy-content");
    assert_eq!(entries[1].action, "lookup-dictionary");
    assert_eq!(entries[1].menu_action, "popup.lookup-dictionary");
}

#[test]
fn popup_actions_copy_and_look_up() {
    assert_eq!(popup_activated("copy-content"), Some(PopupCommand::Copy));
    let look_up = popup_activated("lookup-dictionary").unwrap();
    assert_eq!(look_up, PopupCommand::ShowDictionaryAndLookUp);
    assert_eq!(popup_activated("popup.copy-content"), None);
    assert_eq!(popup_activated(""), None);
    let request = look_up.tab_request().unwrap();
    assert_eq!((request.tab, request.toggle), ("dictionary_list", false));
    assert!(PopupCommand::Copy.tab_request().is_none());
}

#[test]
fn popup_menu_opens_beside_the_click() {
    assert_eq!(right_click(true, 100, 61), Some(130));
    assert_eq!(right_click(true, 100, -3), Some(99));
    assert_eq!(right_click(true, -5, 0), Some(-5));
    assert_eq!(right_click(false, 100, 61), None);
}
