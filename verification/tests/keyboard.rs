use tbr_gui::keys::{
    larger_font_size, scrolled, smaller_font_size, view_key_pressed, window_key_pressed,
    window_key_released, FollowUp, Key, Modifiers, Propagation, TabFollowUp, ViewCommand,
    WindowCommand,
};

#[test]
fn page_keys_have_their_commands() {
    let expected = [
        (Key::Space, Modifiers::Empty, ViewCommand::NextPage),
        (Key::PageDown, Modifiers::Empty, ViewCommand::NextPage),
        (Key::Space, Modifiers::Shift, ViewCommand::PrevPage),
        (Key::PageUp, Modifiers::Empty, ViewCommand::PrevPage),
        (Key::Home, Modifiers::Empty, ViewCommand::GotoStart),
        (Key::End, Modifiers::Empty, ViewCommand::GotoEnd),
        (Key::Down, Modifiers::Empty, ViewCommand::StepNext),
        (Key::Up, Modifiers::Empty, ViewCommand::StepPrev),
        (Key::LowerN, Modifiers::Empty, ViewCommand::SearchAgain { forward: true }),
        (Key::UpperN, Modifiers::Shift, ViewCommand::SearchAgain { forward: false }),
        (Key::LowerD, Modifiers::Control, ViewCommand::SwitchChapter { forward: true }),
        (Key::LowerB, Modifiers::Control, ViewCommand::SwitchChapter { forward: false }),
        (Key::Right, Modifiers::Empty, ViewCommand::GotoTrace { backward: false }),
        (Key::Left, Modifiers::Empty, ViewCommand::GotoTrace { backward: true }),
        (Key::Tab, Modifiers::Empty, ViewCommand::SwitchLinkNext),
        (Key::Tab, Modifiers::Shift, ViewCommand::SwitchLinkPrev),
        (Key::Return, Modifiers::Empty, ViewCommand::TryGotoLink),
        (Key::Equal, Modifiers::Control, ViewCommand::IncreaseFontSize),
        (Key::Minus, Modifiers::Control, ViewCommand::DecreaseFontSize),
        (Key::LowerC, Modifiers::Control, ViewCommand::CopySelection),
    ];
    for (key, modifiers, command) in expected {
        assert_eq!(view_key_pressed(key, modifiers), (Some(command), Propagation::Stop));
        let in_window = window_key_pressed(key, modifiers, 100);
        assert_eq!(in_window, (None, Propagation::Proceed));
    }
}

#[test]
fn other_page_keys_go_on() {
    let nothing = (None, Propagation::Proceed);
    assert_eq!(view_key_pressed(Key::Other, Modifiers::Empty), nothing);
    assert_eq!(view_key_pressed(Key::Space, Modifiers::Control), nothing);
    assert_eq!(view_key_pressed(Key::Space, Modifiers::Other), nothing);
    assert_eq!(view_key_pressed(Key::UpperN, Modifiers::Empty), nothing);
    assert_eq!(view_key_pressed(Key::LowerC, Modifiers::Empty), nothing);
}

#[test]
fn commands_are_followed_up() {
    assert_eq!(ViewCommand::NextPage.follow_up(), FollowUp::Handle);
    assert_eq!(ViewCommand::GotoTrace { backward: true }.follow_up(), FollowUp::Handle);
    assert_eq!(ViewCommand::GotoEnd.follow_up(), FollowUp::Apply);
    assert_eq!(ViewCommand::IncreaseFontSize.follow_up(), FollowUp::Apply);
    assert_eq!(ViewCommand::CopySelection.follow_up(), FollowUp::Quiet);
}

#[test]
fn window_keys_have_their_commands() {
    let expected = [
        (Key::LowerC, Modifiers::Empty, WindowCommand::SwitchToChapters),
        (Key::LowerD, Modifiers::Empty, WindowCommand::SwitchToDictionary),
        (Key::Slash, Modifiers::Empty, WindowCommand::FocusSearchBox),
        (Key::LowerF, Modifiers::Control, WindowCommand::FocusSearchBox),
        (Key::LowerX, Modifiers::Control, WindowCommand::SwitchRender),
        (Key::LowerT, Modifiers::Empty, WindowCommand::SwitchTheme),
    ];
    for (key, modifiers, command) in expected {
        assert_eq!(window_key_pressed(key, modifiers, 0), (Some(command), Propagation::Stop));
        assert_eq!(view_key_pressed(key, modifiers).0, None);
    }
    assert_eq!(
        window_key_pressed(Key::ControlL, Modifiers::Empty, 0),
        (Some(WindowCommand::ControlPointer), Propagation::Proceed)
    );
    assert_eq!(
        window_key_pressed(Key::LowerT, Modifiers::Shift, 0),
        (None, Propagation::Proceed)
    );
}

#[test]
fn escape_shuts_an_open_sidebar_only() {
    assert_eq!(
        window_key_pressed(Key::Escape, Modifiers::Empty, 300),
        (Some(WindowCommand::ShutSidebar), Propagation::Stop)
    );
    assert_eq!(
        window_key_pressed(Key::Escape, Modifiers::Empty, 0),
        (None, Propagation::Proceed)
    );
}

#[test]
fn letting_the_control_key_go_resets_the_pointer() {
    assert!(window_key_released(Key::ControlL));
    assert!(!window_key_released(Key::LowerC));
}

#[test]
fn the_wheel_steps() {
    assert_eq!(scrolled(1), ViewCommand::StepNext);
    assert_eq!(scrolled(-1), ViewCommand::StepPrev);
    assert_eq!(scrolled(0), ViewCommand::StepPrev);
}

#[test]
fn font_size_has_bounds() {
    assert_eq!(larger_font_size(20), Some(22));
    assert_eq!(larger_font_size(48), Some(50));
    assert_eq!(larger_font_size(49), Some(51));
    assert_eq!(larger_font_size(50), None);
    assert_eq!(larger_font_size(255), None);
    assert_eq!(smaller_font_size(50), Some(48));
    assert_eq!(smaller_font_size(21), Some(19));
    assert_eq!(smaller_font_size(20), None);
    assert_eq!(smaller_font_size(0), None);
}

#[test]
fn font_size_steps_undo_each_other() {
    assert_eq!(smaller_font_size(larger_font_size(30).unwrap()), Some(30));
    assert_eq!(larger_font_size(smaller_font_size(30).unwrap()), Some(30));
}

#[test]
fn a_tab_that_shows_is_put_to_use() {
    let (chapters, dictionary) =
        (WindowCommand::SwitchToChapters, WindowCommand::SwitchToDictionary);
    let request = chapters.tab_request().unwrap();
    assert_eq!((request.tab, request.toggle), ("chapter_list", true));
    let request = dictionary.tab_request().unwrap();
    assert_eq!((request.tab, request.toggle), ("dictionary_list", true));
    assert!(WindowCommand::SwitchTheme.tab_request().is_none());
    assert_eq!(chapters.tab_switched(true), Some(TabFollowUp::ScrollToChapter));
    assert_eq!(dictionary.tab_switched(true), Some(TabFollowUp::LookUpSelection));
    assert_eq!(chapters.tab_switched(false), None);
    assert_eq!(dictionary.tab_switched(false), None);
    assert_eq!(WindowCommand::ShutSidebar.tab_switched(true), None);
}
