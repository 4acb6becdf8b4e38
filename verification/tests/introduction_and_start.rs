use tbr_gui::readme::{BookContent, ReadmeBook, ReadmeContainer};
use tbr_gui::startup::{
    activated, has_display, may_run, open_requested, setup_env, start, start_error, start_outcome,
    update_title, BookToOpen, IconSetup, StartOutcome, StartStep, WindowStep,
};
use tbr_gui::text::decimal;

fn lines(text: &str) -> Vec<String> {
    ReadmeBook::new(text).lines().iter().map(|line| line.text.clone()).collect()
}

#[test]
fn the_introduction_has_the_lines_of_its_text() {
    assert_eq!(lines("one\ntwo"), vec!["one", "two"]);
    assert_eq!(lines("one\r\n\r\ntwo\n"), vec!["one", "", "two"]);
    assert_eq!(lines("\n\n"), vec!["", ""]);
    assert_eq!(lines("a\rb\r"), vec!["a\rb\r"]);
    assert_eq!(lines("\u{6f22}\u{5b57}\n\u{1f4d6}"), vec!["\u{6f22}\u{5b57}", "\u{1f4d6}"]);
    assert!(lines("").is_empty());
}

#[test]
fn lines_are_those_of_the_standard_library() {
    for text in ["", "\n", "\r\n", "a", "a\n", "a\r\nb", "a\n\nb\n", "\r\r\n\n\r", "x\ry\n"] {
        assert_eq!(lines(text), text.lines().collect::<Vec<_>>());
    }
}

#[test]
fn the_container_lists_the_introduction_and_gives_its_text() {
    let text = "read \u{6211}\n";
    let mut container = ReadmeContainer::new(text);
    let names = container.inner_book_names();
    assert_eq!(names.len(), 1);
    assert_eq!(names[0].name, "readme");
    assert_eq!(names[0].index, 0);
    let BookContent::Buf(bytes) = container.book_content(0);
    assert_eq!(bytes, text.as_bytes());
    let BookContent::Buf(bytes) = container.book_content(9);
    assert_eq!(String::from_utf8(bytes).unwrap(), text);
}

#[test]
fn a_display_is_needed() {
    assert!(has_display(true, false));
    assert!(has_display(false, true));
    assert!(!has_display(false, false));
}

#[test]
fn only_what_is_missing_of_the_icon_is_made() {
    let setup = |create_folder, write_file| Some(IconSetup { create_folder, write_file });
    assert_eq!(setup_env(true, false, false, false), setup(true, true));
    assert_eq!(setup_env(false, true, true, false), setup(false, true));
    assert_eq!(setup_env(true, true, true, true), setup(false, false));
    assert_eq!(setup_env(false, false, false, false), None);
    assert_eq!(setup_env(false, false, true, true), None);
}

#[test]
fn the_program_runs_on_a_display_only() {
    let book = || BookToOpen::Env("/a".to_owned());
    assert!(matches!(start(&Ok(false), book()), StartStep::Stop));
    assert!(matches!(start(&Err("no space".to_owned()), book()), StartStep::Stop));
    match start(&Ok(true), book()) {
        StartStep::Run(file) => assert_eq!(file, Some("/a".to_owned())),
        StartStep::Stop => panic!("there is a display"),
    }
    match start(&Ok(true), BookToOpen::Nothing) {
        StartStep::Run(file) => assert_eq!(file, None),
        StartStep::Stop => panic!("there is a display"),
    }
}

#[test]
fn a_program_that_cannot_be_registered_is_not_run() {
    assert!(may_run(&Ok(())));
    assert!(!may_run(&Err("no bus".to_owned())));
}

#[test]
fn the_outcome_of_a_start_is_told() {
    let failed = |outcome| match outcome {
        StartOutcome::Failed(message) => message,
        _ => panic!("the start did not fail"),
    };
    let no = |reason: &str| Err(reason.to_owned());
    assert!(matches!(start_outcome(Ok(false), Ok(()), false), StartOutcome::HandBack));
    assert!(matches!(start_outcome(Ok(true), Ok(()), false), StartOutcome::Ended));
    assert_eq!(failed(start_outcome(Err("no space".to_owned()), Ok(()), false)), "no space");
    assert_eq!(
        failed(start_outcome(Ok(true), no("no bus"), false)),
        "Failed start tbr: no bus"
    );
    assert_eq!(failed(start_outcome(Ok(true), Ok(()), true)), "Failed start tbr");
    assert_eq!(
        failed(start_outcome(Ok(true), no("no bus"), true)),
        "Failed start tbr: no bus"
    );
}

#[test]
fn a_failed_start_is_explained() {
    assert_eq!(start_error(Some("no bus")), "Failed start tbr: no bus");
    assert_eq!(start_error(None), "Failed start tbr");
}

#[test]
fn a_running_window_comes_to_the_front() {
    assert_eq!(activated(true), WindowStep::Present);
    assert_eq!(activated(false), WindowStep::Show);
    assert_eq!(open_requested(true, &vec![true, false]), (true, WindowStep::Present));
    assert_eq!(open_requested(true, &vec![false, true]), (false, WindowStep::Present));
    assert_eq!(open_requested(true, &vec![]), (false, WindowStep::Present));
    assert_eq!(open_requested(false, &vec![true]), (false, WindowStep::Show));
}

#[test]
fn the_title_names_the_program() {
    assert_eq!(update_title("tbr", "a book"), "tbr - a book");
}

#[test]
fn numbers_are_written_in_decimal() {
    for n in [0usize, 7, 10, 42, 99, 100, 1009, usize::MAX] {
        assert_eq!(decimal(n), n.to_string());
    }
}
