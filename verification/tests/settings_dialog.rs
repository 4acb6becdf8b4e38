use tbr_gui::config::{Configuration, GuiConfig, PathConfig};
use tbr_gui::settings::{
    apply_settings, fonts_loaded, paths_modified, PendingSettings, SettingsChange, SettingsStep,
};

fn path(enabled: bool, path: &str) -> PathConfig {
    PathConfig { enabled, path: path.to_owned() }
}

fn configuration() -> Configuration {
    Configuration {
        render_han: true,
        dark_theme: true,
        current: Some("/a".to_owned()),
        history: vec![],
        gui: GuiConfig {
            lang: "en".to_owned(),
            fonts: vec![path(true, "f")],
            dictionaries: vec![path(true, "d")],
            cache_dict: false,
            font_size: 30,
            sidebar_size: 300,
        },
    }
}

fn done(step: SettingsStep) -> SettingsChange {
    match step {
        SettingsStep::Done(change) => change,
        SettingsStep::LoadFonts(_) => panic!("fonts have to be loaded"),
    }
}

fn pending(step: SettingsStep) -> PendingSettings {
    match step {
        SettingsStep::LoadFonts(pending) => pending,
        SettingsStep::Done(_) => panic!("no fonts have to be loaded"),
    }
}

#[test]
fn lists_of_files_are_compared() {
    let list = vec![path(true, "a"), path(false, "b")];
    assert!(!paths_modified(&list, &vec![path(true, "a"), path(false, "b")]));
    assert!(paths_modified(&list, &vec![path(true, "a"), path(true, "b")]));
    assert!(paths_modified(&list, &vec![path(true, "a"), path(false, "c")]));
    assert!(paths_modified(&list, &vec![path(false, "b"), path(true, "a")]));
    assert!(paths_modified(&list, &vec![path(true, "a")]));
    assert!(!paths_modified(&vec![], &vec![]));
}

#[test]
fn the_language_alone_changes_nothing_else() {
    let mut cfg = configuration();
    let step = apply_settings(&mut cfg, "zh", vec![path(true, "f")], vec![path(true, "d")], false);
    assert_eq!(done(step), SettingsChange { reload_dictionaries: false, set_fonts: false });
    assert_eq!(cfg.gui.lang, "zh");
}

#[test]
fn other_dictionaries_are_loaded() {
    let mut cfg = configuration();
    let step = apply_settings(&mut cfg, "en", vec![path(true, "f")], vec![path(true, "e")], false);
    assert_eq!(done(step), SettingsChange { reload_dictionaries: true, set_fonts: false });
    assert_eq!(cfg.gui.dictionaries[0].path, "e");
    let step = apply_settings(&mut cfg, "en", vec![path(true, "f")], vec![path(true, "e")], true);
    assert_eq!(done(step), SettingsChange { reload_dictionaries: true, set_fonts: false });
    assert!(cfg.gui.cache_dict);
}

#[test]
fn other_fonts_are_loaded_first() {
    let mut cfg = configuration();
    let step = apply_settings(&mut cfg, "zh", vec![path(true, "g")], vec![], true);
    let pending = pending(step);
    assert_eq!(cfg.gui.lang, "zh");
    assert_eq!(cfg.gui.fonts[0].path, "f");
    assert_eq!(cfg.gui.dictionaries.len(), 1);
    let change = fonts_loaded(&mut cfg, pending, Ok(())).unwrap();
    assert_eq!(change, SettingsChange { reload_dictionaries: true, set_fonts: true });
    assert_eq!(cfg.gui.fonts[0].path, "g");
    assert!(cfg.gui.dictionaries.is_empty());
    assert!(cfg.gui.cache_dict);
}

#[test]
fn fonts_that_cannot_be_loaded_leave_the_settings() {
    let mut cfg = configuration();
    let step = apply_settings(&mut cfg, "zh", vec![], vec![], true);
    let pending = pending(step);
    let error = fonts_loaded(&mut cfg, pending, Err("InvalidFont".to_owned())).unwrap_err();
    assert_eq!((error.title, error.message), ("font-files", "invalid-path"));
    assert_eq!(error.detail, "InvalidFont");
    assert_eq!(cfg.gui.lang, "zh");
    assert_eq!(cfg.gui.fonts[0].path, "f");
    assert_eq!(cfg.gui.dictionaries[0].path, "d");
    assert!(!cfg.gui.cache_dict);
}

#[test]
fn the_same_settings_again_change_nothing() {
    let mut cfg = configuration();
    let step = apply_settings(&mut cfg, "zh", vec![path(false, "g")], vec![], true);
    fonts_loaded(&mut cfg, pending(step), Ok(())).unwrap();
    let step = apply_settings(&mut cfg, "zh", vec![path(false, "g")], vec![], true);
    assert_eq!(done(step), SettingsChange { reload_dictionaries: false, set_fonts: false });
}
