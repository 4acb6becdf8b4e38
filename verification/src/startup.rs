//! How the program and its window come up.

use cursive::theme::Theme;
use vstd::prelude::*;

use crate::buttons;
use crate::color;
use crate::color::Colors;
use crate::config::Configuration;
use crate::context::GuiContext;
use crate::history;
use crate::history::ReadingInfo;
use crate::history::ReadingView;
use crate::readme;
use crate::text;

verus! {

/// Whether there is a display to show a window on: one of the two environment
/// variables that tell of one is set.
pub fn has_display(wayland_display: bool, display: bool) -> (res: bool)
    ensures
        res == (wayland_display || display),
{
    if wayland_display {
        true
    } else {
        display
    }
}

/// Where the icon of the program is put, below the home folder.
pub const ICON_FOLDER: &'static str = ".local/share/icons/hicolor/256x256/apps";

/// The file of the icon in that folder.
pub const ICON_FILE: &'static str = "tbr-icon.png";

/// What is missing of the icon of the program.
#[derive(Clone, Copy, Debug, PartialEq, Eq, Structural)]
pub struct IconSetup {
    pub create_folder: bool,
    pub write_file: bool,
}

/// What has to be made so that the icon of the program is there. Nothing that
/// is there already is touched, and nothing at all is made without a display.
pub fn setup_env(
    wayland_display: bool,
    display: bool,
    folder_present: bool,
    file_present: bool,
) -> (res: Option<IconSetup>)
    ensures
        res is None <==> !(wayland_display || display),
        res matches Some(setup) ==> {
            &&& setup.create_folder == !folder_present
            &&& setup.write_file == !file_present
        },
{
    if !has_display(wayland_display, display) {
        return None;
    }
    Some(IconSetup { create_folder: !folder_present, write_file: !file_present })
}

/// A file that the program is asked to open at its start.
#[derive(Debug)]
pub enum BookToOpen {
    /// There is none of its own.
    Nothing,
    /// The file that the environment names.
    Env(String),
}

/// How the program starts.
#[derive(Debug)]
pub enum StartStep {
    /// It does not run.
    Stop,
    /// It runs. This file is opened first, if there is one; for that the
    /// program has to be registered.
    Run(Option<String>),
}

/// Decides how the program starts. `prepared` tells whether there is a display,
/// or why that and the icon could not be seen to.
pub fn start(prepared: &Result<bool, String>, book_to_open: BookToOpen) -> (res: StartStep)
    ensures
        res is Run <==> *prepared == Ok::<bool, String>(true),
        res matches StartStep::Run(file) ==> match book_to_open {
            BookToOpen::Env(filename) => file matches Some(f) && f@ == filename@,
            BookToOpen::Nothing => file is None,
        },
{
    match prepared {
        Ok(true) => match book_to_open {
            BookToOpen::Env(filename) => StartStep::Run(Some(filename)),
            BookToOpen::Nothing => StartStep::Run(None),
        },
        _ => StartStep::Stop,
    }
}

/// Whether the program is run, now that it is registered, or could not be.
pub fn may_run(registered: &Result<(), String>) -> (res: bool)
    ensures
        res == (registered is Ok),
{
    registered.is_ok()
}

/// What a failed start is reported as: with the reason, where there is one.
pub open spec fn start_failure(reason: Option<Seq<char>>) -> Seq<char> {
    match reason {
        Some(r) => "Failed start tbr: "@ + r,
        None => "Failed start tbr"@,
    }
}

/// Why the program could not start: for the reason given, or because its run
/// failed.
pub fn start_error(reason: Option<&str>) -> (res: String)
    ensures
        res@ == start_failure(text::text_of(reason)),
{
    match reason {
        Some(r) => text::join("Failed start tbr: ", r),
        None => "Failed start tbr".to_owned(),
    }
}

/// How the program ended.
#[derive(Debug)]
pub enum StartOutcome {
    /// Without a display, configuration and themes are handed back.
    HandBack,
    /// It has run.
    Ended,
    /// It could not be started.
    Failed(String),
}

impl StartOutcome {
    /// Whether the program could not be started, and this is reported.
    pub open spec fn fails_with(self, message: Seq<char>) -> bool {
        self matches StartOutcome::Failed(shown) && shown@ == message
    }
}

/// How the program ended, given how its preparation went, how its registration
/// went, and whether its run failed. What was not tried has not failed.
pub fn start_outcome(
    prepared: Result<bool, String>,
    registered: Result<(), String>,
    run_failed: bool,
) -> (res: StartOutcome)
    ensures
        match prepared {
            Err(error) => res.fails_with(error@),
            Ok(false) => res is HandBack,
            Ok(true) => match registered {
                Err(reason) => res.fails_with(start_failure(Some(reason@))),
                Ok(_) => if run_failed {
                    res.fails_with(start_failure(None))
                } else {
                    res is Ended
                },
            },
        },
{
    match prepared {
        Err(error) => StartOutcome::Failed(error),
        Ok(display) => {
            if !display {
                return StartOutcome::HandBack;
            }
            match registered {
                Err(reason) => StartOutcome::Failed(start_error(Some(reason.as_str()))),
                Ok(_) => if run_failed {
                    StartOutcome::Failed(start_error(None))
                } else {
                    StartOutcome::Ended
                },
            }
        },
    }
}

/// What happens to the window.
#[derive(Clone, Copy, Debug, PartialEq, Eq, Structural)]
pub enum WindowStep {
    /// It is there and comes to the front.
    Present,
    /// It is built and shown.
    Show,
}

/// The program is activated.
pub fn activated(running: bool) -> (res: WindowStep)
    ensures
        res == (if running {
            WindowStep::Present
        } else {
            WindowStep::Show
        }),
{
    if running {
        WindowStep::Present
    } else {
        WindowStep::Show
    }
}

/// The program is asked to open files; `has_path` tells of each whether it has
/// a path. The answer is whether the first of them is opened, and what happens
/// to the window then. A window that is not there is shown, and comes up with
/// the file that was open last.
pub fn open_requested(running: bool, has_path: &Vec<bool>) -> (res: (bool, WindowStep))
    ensures
        res.0 == (running && has_path@.len() > 0 && has_path@[0]),
        res.1 == (if running {
            WindowStep::Present
        } else {
            WindowStep::Show
        }),
{
    if running {
        (has_path.len() > 0 && has_path[0], WindowStep::Present)
    } else {
        (false, WindowStep::Show)
    }
}

/// What it means that reading is resumed: what is known of the file that was
/// open last is taken out of the history, and nothing else changes.
pub open spec fn resumes(
    before: Configuration,
    current: Seq<char>,
    fresh: ReadingView,
    after: Configuration,
    reading: ReadingView,
) -> bool {
    &&& after == (Configuration { history: after.history, ..before })
    &&& exists|found: bool| #[trigger]
        history::takes_out(
            history::entries(before.history@),
            current,
            fresh,
            history::entries(after.history@),
            found,
            reading,
        )
}

/// The file to come up with, and how far it was read. There is none where no
/// file was open before. `fresh` is how a file is read that is not in the
/// history.
pub fn resume(configuration: &mut Configuration, fresh: ReadingInfo) -> (res: Option<ReadingInfo>)
    ensures
        res is None <==> old(configuration).current is None,
        res is None ==> *final(configuration) == *old(configuration),
        res matches Some(reading) ==> resumes(
            *old(configuration),
            old(configuration).current->0@,
            fresh@,
            *final(configuration),
            reading@,
        ),
{
    let current = match &configuration.current {
        Some(current) => current.clone(),
        None => return None,
    };
    let (found, reading) = history::reading_info(
        &mut configuration.history,
        current.as_str(),
        fresh,
    );
    proof {
        assert(history::takes_out(
            history::entries(old(configuration).history@),
            current@,
            fresh@,
            history::entries(configuration.history@),
            found,
            reading@,
        ));
    }
    Some(reading)
}

/// What is loaded into the page of a new window.
#[derive(Debug)]
pub enum PageStep {
    /// Nothing: the fonts could not be loaded, for this reason, and the window
    /// is not built.
    Fail(String),
    /// A file.
    LoadFile(ReadingInfo),
    /// The introduction. No file is touched.
    LoadIntroduction,
}

/// Decides what is loaded into the page of a new window, once the fonts are
/// loaded, or could not be.
pub fn choose_page(resumed: Option<ReadingInfo>, fonts: &Result<(), String>) -> (res: PageStep)
    ensures
        match fonts {
            Err(error) => res matches PageStep::Fail(message) && message@ == error@,
            Ok(_) => match resumed {
                Some(reading) => res == PageStep::LoadFile(reading),
                None => res is LoadIntroduction,
            },
        },
{
    match fonts {
        Err(error) => PageStep::Fail(error.clone()),
        Ok(_) => match resumed {
            Some(reading) => PageStep::LoadFile(reading),
            None => PageStep::LoadIntroduction,
        },
    }
}

/// How the loading of a file went. The book is looked for once its container is
/// there.
#[derive(Debug)]
pub enum FileLoad {
    /// The container could not be loaded, for this reason.
    NoContainer(String),
    /// The book could not be loaded from its container, for this reason.
    NoBook(String),
    /// Both are there. The file is read like this.
    Loaded(ReadingInfo),
}

impl FileLoad {
    /// Why the file could not be loaded, if it could not.
    pub open spec fn failure(self) -> Option<Seq<char>> {
        match self {
            FileLoad::NoContainer(error) => Some(error@),
            FileLoad::NoBook(error) => Some(error@),
            FileLoad::Loaded(_) => None,
        }
    }

    /// How the file is read, if it could be loaded.
    pub open spec fn reading(self) -> Option<ReadingView> {
        match self {
            FileLoad::Loaded(reading) => Some(reading@),
            _ => None,
        }
    }
}

/// What the window comes up with.
#[derive(Debug)]
pub struct UiPlan {
    /// What the title of the window is about: a file, or the program.
    pub subject: String,
    /// Whether the introduction is shown instead of a file.
    pub introduction: bool,
    /// The colors that the page is drawn with.
    pub colors: Colors,
    /// The buttons of the toolbar, from left to right, each by its icon and
    /// the key of its tooltip.
    pub toolbar: Vec<(&'static str, &'static str)>,
}

/// Why a window could not be built. The configuration is given back.
#[derive(Debug)]
pub struct BuildError {
    pub cfg: Configuration,
    pub message: String,
}

/// What the title is about while the introduction is shown.
pub const INTRODUCTION_TITLE: &'static str = "The e-book reader";

/// What keeps a window from being built: the fonts, or else the file, could
/// not be loaded.
pub open spec fn build_failure(
    fonts: Result<(), String>,
    loaded: Option<FileLoad>,
) -> Option<Seq<char>> {
    match fonts {
        Err(error) => Some(error@),
        Ok(_) => match loaded {
            Some(load) => load.failure(),
            None => None,
        },
    }
}

/// Whether this is how a window comes up with a configuration and the colors of
/// the two themes: for the file that was loaded, or else for the introduction.
pub open spec fn comes_up(
    context: GuiContext,
    plan: UiPlan,
    cfg: Configuration,
    dark_colors: Colors,
    bright_colors: Colors,
    loaded: Option<ReadingView>,
    introduction: ReadingView,
) -> bool {
    &&& context.cfg == cfg
    &&& context.dark_colors == dark_colors
    &&& context.bright_colors == bright_colors
    &&& !context.chapter_syncing
    &&& match loaded {
        Some(reading) => {
            &&& context.reading@ == reading
            &&& plan.subject@ == reading.filename
            &&& !plan.introduction
        },
        None => {
            &&& context.reading@ == (ReadingView {
                filename: readme::README_TEXT_FILENAME@,
                ..introduction
            })
            &&& plan.subject@ == INTRODUCTION_TITLE@
            &&& plan.introduction
        },
    }
    &&& plan.colors == context.theme_colors()
    &&& buttons::faces(plan.toolbar@) == buttons::toolbar_faces(
        cfg.render_han,
        cfg.dark_theme,
        context.reading.custom_color,
    )
}

/// A new window, for the file that was loaded, or else for the introduction;
/// `introduction` is how that is read, under its own name.
pub fn new_window(
    cfg: Configuration,
    dark_colors: Colors,
    bright_colors: Colors,
    loaded: Option<ReadingInfo>,
    introduction: ReadingInfo,
) -> (res: (GuiContext, UiPlan))
    ensures
        comes_up(
            res.0,
            res.1,
            cfg,
            dark_colors,
            bright_colors,
            match loaded {
                Some(reading) => Some(reading@),
                None => None,
            },
            introduction@,
        ),
{
    let (reading, subject, shows_introduction) = match loaded {
        Some(reading) => {
            let subject = reading.filename.clone();
            (reading, subject, false)
        },
        None => {
            let reading = ReadingInfo {
                filename: readme::README_TEXT_FILENAME.to_owned(),
                inner_book: introduction.inner_book,
                position: introduction.position,
                custom_color: introduction.custom_color,
            };
            (reading, INTRODUCTION_TITLE.to_owned(), true)
        },
    };
    let toolbar = buttons::setup_toolbar(cfg.render_han, cfg.dark_theme, reading.custom_color);
    let context = GuiContext::new(cfg, reading, dark_colors, bright_colors);
    let colors = context.colors();
    (context, UiPlan { subject, introduction: shows_introduction, colors, toolbar })
}

/// Sets a window up, given how the fonts and the file that was open before were
/// loaded. There is no file to load where none was open, and none is loaded
/// where the fonts could not be.
pub fn build_ui(
    cfg: Configuration,
    dark_theme: &Theme,
    bright_theme: &Theme,
    fonts: Result<(), String>,
    loaded: Option<FileLoad>,
    introduction: ReadingInfo,
) -> (res: Result<(GuiContext, UiPlan), BuildError>)
    requires
        fonts is Ok ==> (loaded is Some <==> cfg.current is Some),
    ensures
        res is Err <==> fonts is Err || (cfg.current is Some && loaded->0.failure() is Some),
        res matches Err(error) ==> {
            &&& error.cfg == cfg
            &&& build_failure(fonts, loaded) == Some(error.message@)
        },
        res matches Ok(built) ==> comes_up(
            built.0,
            built.1,
            cfg,
            color::page_colors(color::theme_palette(*dark_theme)),
            color::page_colors(color::theme_palette(*bright_theme)),
            match loaded {
                Some(load) => load.reading(),
                None => None,
            },
            introduction@,
        ),
{
    if let Err(message) = fonts {
        return Err(BuildError { cfg, message });
    }
    let opened = match loaded {
        Some(FileLoad::NoContainer(message)) => return Err(BuildError { cfg, message }),
        Some(FileLoad::NoBook(message)) => return Err(BuildError { cfg, message }),
        Some(FileLoad::Loaded(reading)) => Some(reading),
        None => None,
    };
    let dark_colors = color::convert_colors(dark_theme);
    let bright_colors = color::convert_colors(bright_theme);
    Ok(new_window(cfg, dark_colors, bright_colors, opened, introduction))
}

/// The title of the window: the name of the program, and what is shown.
pub fn update_title(package_name: &str, title: &str) -> (res: String)
    ensures
        res@ == package_name@ + " - "@ + title@,
{
    let mut out = text::join(package_name, " - ");
    out.append(title);
    out
}

/// A window that comes up with the file that was open last is consistent, as
/// long as the history has no two entries about one file.
pub proof fn law_window_comes_up_consistent(
    before: Configuration,
    current: Seq<char>,
    fresh: ReadingView,
    after: Configuration,
    reading: ReadingView,
    context: GuiContext,
)
    requires
        history::one_entry_per_file(history::entries(before.history@)),
        resumes(before, current, fresh, after, reading),
        fresh.filename == current,
        context.cfg == after,
        context.reading@ == reading,
    ensures
        context.consistent(),
        reading.filename == current,
{
    let found = choose|found: bool| #[trigger]
        history::takes_out(
            history::entries(before.history@),
            current,
            fresh,
            history::entries(after.history@),
            found,
            reading,
        );
    history::law_taken_out_fits(
        history::entries(before.history@),
        current,
        fresh,
        history::entries(after.history@),
        found,
        reading,
    );
}

/// Closing a window that came up with the introduction remembers nothing: the
/// configuration stays as it was. The window is consistent if its history has
/// no two entries about one file, and none about the introduction.
pub proof fn law_introduction_leaves_no_trace(
    cfg: Configuration,
    context: GuiContext,
    plan: UiPlan,
    dark_colors: Colors,
    bright_colors: Colors,
    introduction: ReadingView,
    closed: GuiContext,
)
    requires
        comes_up(context, plan, cfg, dark_colors, bright_colors, None, introduction),
        GuiContext::closes(context, closed),
    ensures
        closed == context,
        closed.cfg == cfg,
        history::fits(history::entries(cfg.history@), readme::README_TEXT_FILENAME@)
            ==> context.consistent(),
{
}

/// A window that is closed and comes up again shows the same file at the same
/// place, with the same history and the same configuration, in which that file
/// is the one that was open last.
pub proof fn law_closed_window_comes_up_again(
    before: GuiContext,
    closed: GuiContext,
    fresh: ReadingView,
    after: Configuration,
    reading: ReadingView,
)
    requires
        before.consistent(),
        before.reading@.filename != readme::README_TEXT_FILENAME@,
        GuiContext::closes(before, closed),
        resumes(closed.cfg, closed.cfg.current->0@, fresh, after, reading),
    ensures
        reading == before.reading@,
        history::entries(after.history@) == before.history(),
        after.current matches Some(current) && current@ == before.reading@.filename,
        after.render_han == before.cfg.render_han,
        after.dark_theme == before.cfg.dark_theme,
        after.gui == before.cfg.gui,
{
    let current = closed.cfg.current->0@;
    let found = choose|found: bool| #[trigger]
        history::takes_out(
            history::entries(closed.cfg.history@),
            current,
            fresh,
            history::entries(after.history@),
            found,
            reading,
        );
    history::law_closing_then_starting_resumes(
        before.history(),
        before.reading@,
        fresh,
        history::entries(after.history@),
        found,
        reading,
    );
}

/// A window that is closed comes up again as it was: with the same file, at the
/// same book and place, with or without the book's own colors as before, under
/// that file's name, with the same history, and with the rest of what is
/// remembered unchanged.
pub proof fn law_window_comes_up_where_it_was_closed(
    window: &mut GuiContext,
    closed: (),
    cfg: &mut Configuration,
    fresh: ReadingInfo,
    resumed: Option<ReadingInfo>,
    dark_theme: &Theme,
    bright_theme: &Theme,
    introduction: ReadingInfo,
    built: Result<(GuiContext, UiPlan), BuildError>,
)
    requires
        old(window).reading.filename@ != "readme"@,
        forall|i: int|
            0 <= i < old(window).cfg.history@.len() ==> (#[trigger] old(
                window).cfg.history@[i]).filename@ != old(window).reading.filename@,
        call_ensures(GuiContext::close_request, (window,), closed),
        *old(cfg) == final(window).cfg,
        call_ensures(resume, (cfg, fresh), resumed),
        resumed is Some ==> call_ensures(
            build_ui,
            (
                *final(cfg),
                dark_theme,
                bright_theme,
                Ok::<(), String>(()),
                Some(FileLoad::Loaded(resumed->0)),
                introduction,
            ),
            built,
        ),
    ensures
        resumed is Some,
        built is Ok,
        built->Ok_0.0.reading.filename@ == old(window).reading.filename@,
        built->Ok_0.0.reading.inner_book == old(window).reading.inner_book,
        built->Ok_0.0.reading.position.line == old(window).reading.position.line,
        built->Ok_0.0.reading.position.offset == old(window).reading.position.offset,
        built->Ok_0.0.reading.custom_color == old(window).reading.custom_color,
        built->Ok_0.1.subject@ == old(window).reading.filename@,
        !built->Ok_0.1.introduction,
        built->Ok_0.0.cfg.history@.len() == old(window).cfg.history@.len(),
        forall|i: int|
            0 <= i < old(window).cfg.history@.len() ==> (#[trigger] built->Ok_0.0.cfg.history@[i])@
                == old(window).cfg.history@[i]@,
        built->Ok_0.0.cfg.current matches Some(current) && current@ == old(
            window).reading.filename@,
        built->Ok_0.0.cfg.render_han == old(window).cfg.render_han,
        built->Ok_0.0.cfg.dark_theme == old(window).cfg.dark_theme,
        built->Ok_0.0.cfg.gui == old(window).cfg.gui,
{
    let h0 = old(window).history();
    let h1 = history::entries(old(cfg).history@);
    let h2 = history::entries(final(cfg).history@);
    let reading = old(window).reading@;
    history::lemma_entries(old(window).cfg.history@);
    history::lemma_entries(final(cfg).history@);
    assert(h1 == h0.push(reading));
    assert(resumed is Some);
    let current = old(cfg).current->0@;
    assert(h1[h0.len() as int].filename == current);
    assert(history::mentions(h1, current));
    let found = choose|found: bool| #[trigger]
        history::takes_out(h1, current, fresh@, h2, found, resumed->0@);
    let k = history::lemma_taken_at(h1, current, fresh@, h2, found, resumed->0@);
    if k < h0.len() {
        assert(h1[k] == h0[k]);
    }
    assert(h2 =~= h0);
    let loaded = Some(FileLoad::Loaded(resumed->0));
    assert(build_failure(Ok::<(), String>(()), loaded) is None);
    assert(built is Ok);
    assert(built->Ok_0.0.reading@ == resumed->0@);
    assert forall|i: int|
        0 <= i < old(window).cfg.history@.len() implies (#[trigger] built->Ok_0.0.cfg.history@[i])@
        == old(window).cfg.history@[i]@ by {
        assert(h2[i] == h0[i]);
    }
}

/// A window that is built for a file shows that file as it was loaded, in every
/// respect, and with the colors that the themes convert to.
pub proof fn law_window_shows_what_was_loaded(
    cfg: Configuration,
    dark_theme: &Theme,
    bright_theme: &Theme,
    reading: ReadingInfo,
    introduction: ReadingInfo,
    dark_colors: Colors,
    bright_colors: Colors,
    built: Result<(GuiContext, UiPlan), BuildError>,
)
    requires
        cfg.current is Some,
        call_ensures(color::convert_colors, (dark_theme,), dark_colors),
        call_ensures(color::convert_colors, (bright_theme,), bright_colors),
        call_ensures(
            build_ui,
            (
                cfg,
                dark_theme,
                bright_theme,
                Ok::<(), String>(()),
                Some(FileLoad::Loaded(reading)),
                introduction,
            ),
            built,
        ),
    ensures
        built is Ok,
        built->Ok_0.0.reading.filename@ == reading.filename@,
        built->Ok_0.0.reading.inner_book == reading.inner_book,
        built->Ok_0.0.reading.position == reading.position,
        built->Ok_0.0.reading.custom_color == reading.custom_color,
        built->Ok_0.0.cfg == cfg,
        built->Ok_0.0.dark_colors == dark_colors,
        built->Ok_0.0.bright_colors == bright_colors,
        !built->Ok_0.0.chapter_syncing,
        built->Ok_0.1.subject@ == reading.filename@,
        !built->Ok_0.1.introduction,
        built->Ok_0.1.colors == if cfg.dark_theme {
            dark_colors
        } else {
            bright_colors
        },
{
}

/// The same of a window whose colors are known.
pub proof fn law_new_window_shows_what_was_loaded(
    cfg: Configuration,
    dark_colors: Colors,
    bright_colors: Colors,
    loaded: Option<ReadingInfo>,
    introduction: ReadingInfo,
    res: (GuiContext, UiPlan),
)
    requires
        call_ensures(new_window, (cfg, dark_colors, bright_colors, loaded, introduction), res),
    ensures
        res.0.cfg == cfg,
        res.0.dark_colors == dark_colors,
        res.0.bright_colors == bright_colors,
        !res.0.chapter_syncing,
        res.1.colors == if cfg.dark_theme {
            dark_colors
        } else {
            bright_colors
        },
        res.1.introduction <==> loaded is None,
        loaded matches Some(reading) ==> {
            &&& res.0.reading.filename@ == reading.filename@
            &&& res.0.reading.inner_book == reading.inner_book
            &&& res.0.reading.position == reading.position
            &&& res.0.reading.custom_color == reading.custom_color
            &&& res.1.subject@ == reading.filename@
        },
        loaded is None ==> {
            &&& res.0.reading.filename@ == "readme"@
            &&& res.0.reading.inner_book == introduction.inner_book
            &&& res.0.reading.position == introduction.position
            &&& res.0.reading.custom_color == introduction.custom_color
            &&& res.1.subject@ == "The e-book reader"@
        },
{
}

/// The toolbar of a new window has the faces that the switches would give: what
/// a switch shows after a click is what a window comes up with in that state.
pub proof fn law_toolbar_agrees_with_the_switches(
    window: &mut GuiContext,
    render: (&'static str, &'static str),
    themed: &mut GuiContext,
    theme: (&'static str, &'static str, Colors),
    colored: &mut GuiContext,
    custom_color: (&'static str, &'static str),
    introduction: ReadingInfo,
    res: (GuiContext, UiPlan),
)
    requires
        call_ensures(GuiContext::switch_render, (window,), render),
        *old(themed) == *final(window),
        call_ensures(GuiContext::switch_theme, (themed,), theme),
        *old(colored) == *final(themed),
        call_ensures(GuiContext::switch_custom_color, (colored,), custom_color),
        call_ensures(
            new_window,
            (
                final(colored).cfg,
                final(colored).dark_colors,
                final(colored).bright_colors,
                Some(final(colored).reading),
                introduction,
            ),
            res,
        ),
    ensures
        res.1.toolbar@.len() == 7,
        (res.1.toolbar@[3].0@, res.1.toolbar@[3].1@) == (render.0@, render.1@),
        (res.1.toolbar@[4].0@, res.1.toolbar@[4].1@) == (theme.0@, theme.1@),
        (res.1.toolbar@[5].0@, res.1.toolbar@[5].1@) == (custom_color.0@, custom_color.1@),
        res.1.colors == theme.2,
{
    let shown = buttons::faces(res.1.toolbar@);
    assert(shown.len() == 7);
    assert(shown[3] == (res.1.toolbar@[3].0@, res.1.toolbar@[3].1@));
    assert(shown[4] == (res.1.toolbar@[4].0@, res.1.toolbar@[4].1@));
    assert(shown[5] == (res.1.toolbar@[5].0@, res.1.toolbar@[5].1@));
}

/// A window is not built if and only if the fonts could not be loaded, or a file
/// was open before and its container or its book could not. The fonts come
/// first, and what is remembered is handed back unchanged.
pub proof fn law_window_fails_for_a_reason(
    cfg: Configuration,
    dark_theme: &Theme,
    bright_theme: &Theme,
    fonts: Result<(), String>,
    loaded: Option<FileLoad>,
    introduction: ReadingInfo,
    built: Result<(GuiContext, UiPlan), BuildError>,
)
    requires
        fonts is Ok ==> (loaded is Some <==> cfg.current is Some),
        call_ensures(
            build_ui,
            (cfg, dark_theme, bright_theme, fonts, loaded, introduction),
            built,
        ),
    ensures
        match (fonts, loaded) {
            (Err(reason), _) => built matches Err(error) && error.cfg == cfg && error.message@
                == reason@,
            (Ok(_), Some(FileLoad::NoContainer(reason))) => built matches Err(error) && error.cfg
                == cfg && error.message@ == reason@,
            (Ok(_), Some(FileLoad::NoBook(reason))) => built matches Err(error) && error.cfg == cfg
                && error.message@ == reason@,
            (Ok(_), Some(FileLoad::Loaded(_))) => built is Ok,
            (Ok(_), None) => built matches Ok(up) && up.0.reading.filename@ == "readme"@
                && up.1.introduction,
        },
{
}

/// A start resumes the file that was open last: with the oldest entry that the
/// history has about it, in full, or else as a file that was never read. The
/// rest of the history keeps its order, and nothing else changes.
pub proof fn law_start_resumes_the_last_file(
    cfg: &mut Configuration,
    fresh: ReadingInfo,
    res: Option<ReadingInfo>,
)
    requires
        call_ensures(resume, (cfg, fresh), res),
    ensures
        res is None <==> old(cfg).current is None,
        res is None ==> *final(cfg) == *old(cfg),
        final(cfg).current == old(cfg).current,
        final(cfg).render_han == old(cfg).render_han,
        final(cfg).dark_theme == old(cfg).dark_theme,
        final(cfg).gui == old(cfg).gui,
        res is Some && (forall|i: int|
            0 <= i < old(cfg).history@.len() ==> (#[trigger] old(cfg).history@[i]).filename@ != old(
                cfg).current->0@) ==> {
            &&& res->0@ == fresh@
            &&& final(cfg).history@.len() == old(cfg).history@.len()
            &&& forall|i: int|
                0 <= i < old(cfg).history@.len() ==> (#[trigger] final(cfg).history@[i])@ == old(
                    cfg).history@[i]@
        },
        forall|k: int|
            {
                &&& res is Some
                &&& 0 <= k < old(cfg).history@.len()
                &&& (#[trigger] old(cfg).history@[k]).filename@ == old(cfg).current->0@
                &&& forall|i: int|
                    0 <= i < k ==> (#[trigger] old(cfg).history@[i]).filename@ != old(
                        cfg).current->0@
            } ==> {
                &&& res->0.filename@ == old(cfg).history@[k].filename@
                &&& res->0.inner_book == old(cfg).history@[k].inner_book
                &&& res->0.position == old(cfg).history@[k].position
                &&& res->0.custom_color == old(cfg).history@[k].custom_color
                &&& final(cfg).history@.len() == old(cfg).history@.len() - 1
                &&& forall|i: int|
                    0 <= i < k ==> (#[trigger] final(cfg).history@[i])@ == old(cfg).history@[i]@
                &&& forall|i: int|
                    k <= i < final(cfg).history@.len() ==> (#[trigger] final(cfg).history@[i])@
                        == old(cfg).history@[i + 1]@
            },
{
    if let Some(reading) = res {
        let before = history::entries(old(cfg).history@);
        let after = history::entries(final(cfg).history@);
        let current = old(cfg).current->0@;
        history::lemma_entries(old(cfg).history@);
        history::lemma_entries(final(cfg).history@);
        let found = choose|found: bool| #[trigger]
            history::takes_out(before, current, fresh@, after, found, reading@);
        if found {
            let j = history::lemma_taken_at(before, current, fresh@, after, found, reading@);
            assert(old(cfg).history@[j].filename@ == current);
            assert forall|k: int|
                {
                    &&& 0 <= k < old(cfg).history@.len()
                    &&& (#[trigger] old(cfg).history@[k]).filename@ == current
                    &&& forall|i: int|
                        0 <= i < k ==> (#[trigger] old(cfg).history@[i]).filename@ != current
                } implies k == j by {
                if k < j {
                    assert(before[k].filename != current);
                }
            }
            assert forall|i: int| 0 <= i < j implies (#[trigger] final(cfg).history@[i])@ == old(
                cfg).history@[i]@ by {
                assert(after[i] == before[i]);
            }
            assert forall|i: int| j <= i < final(cfg).history@.len() implies (#[trigger] final(
                cfg).history@[i])@ == old(cfg).history@[i + 1]@ by {
                assert(after[i] == before[i + 1]);
            }
        } else {
            assert forall|k: int| 0 <= k < old(cfg).history@.len() implies (#[trigger] old(
                cfg).history@[k]).filename@ != current by {
                assert(before[k].filename != current);
            }
            assert forall|i: int| 0 <= i < old(cfg).history@.len() implies (#[trigger] final(
                cfg).history@[i])@ == old(cfg).history@[i]@ by {
                assert(after[i] == before[i]);
            }
        }
    }
}

/// A file is loaded as it is resumed, and only once the fonts are there. Without
/// a file to resume it is the introduction that is loaded.
pub proof fn law_file_is_loaded_as_resumed(
    resumed: Option<ReadingInfo>,
    fonts: Result<(), String>,
    res: PageStep,
)
    requires
        call_ensures(choose_page, (resumed, &fonts), res),
    ensures
        match res {
            PageStep::Fail(message) => fonts matches Err(reason) && message@ == reason@,
            PageStep::LoadFile(reading) => fonts is Ok && resumed == Some(reading),
            PageStep::LoadIntroduction => fonts is Ok && resumed is None,
        },
{
}

/// A program that does not run has ended already: how it ended then follows
/// from its preparation alone. It hands back what it got exactly where there is
/// no display.
pub proof fn law_stopped_program_has_ended(
    prepared: Result<bool, String>,
    book_to_open: BookToOpen,
    step: StartStep,
    registered: Result<(), String>,
    run_failed: bool,
    outcome: StartOutcome,
)
    requires
        call_ensures(start, (&prepared, book_to_open), step),
        call_ensures(start_outcome, (prepared, registered, run_failed), outcome),
    ensures
        step is Stop <==> prepared is Err || !prepared->Ok_0,
        prepared matches Err(reason) ==> outcome matches StartOutcome::Failed(message) && message@
            == reason@,
        outcome is HandBack <==> prepared is Ok && !prepared->Ok_0,
        outcome is Ended ==> step is Run && registered is Ok && !run_failed,
        step is Run && registered is Ok && !run_failed ==> outcome is Ended,
        step matches StartStep::Run(Some(file)) ==> book_to_open matches BookToOpen::Env(name)
            && name@ == file@,
        step matches StartStep::Run(None) ==> book_to_open is Nothing,
{
}

/// A program that could not be registered is not run, and says why. One whose
/// run failed says only that.
pub proof fn law_failed_start_is_told(
    registered: Result<(), String>,
    runs: bool,
    run_failed: bool,
    outcome: StartOutcome,
    reason: Option<&str>,
    message: String,
)
    requires
        call_ensures(may_run, (&registered,), runs),
        call_ensures(start_outcome, (Ok::<bool, String>(true), registered, run_failed), outcome),
        call_ensures(start_error, (reason,), message),
    ensures
        runs <==> registered is Ok,
        registered matches Err(why) ==> outcome matches StartOutcome::Failed(told) && told@
            == "Failed start tbr: "@ + why@,
        registered is Ok && run_failed ==> (outcome matches StartOutcome::Failed(told) && told@
            == "Failed start tbr"@),
        reason matches Some(why) ==> message@ == "Failed start tbr: "@ + why@,
        reason is None ==> message@ == "Failed start tbr"@,
{
}

/// A window that is there comes to the front and is never built a second time,
/// whether the program is activated or asked to open files. Only the first file
/// is opened, if it has a path, and only in a window that is there.
pub proof fn law_there_is_one_window(
    running: bool,
    step: WindowStep,
    has_path: &Vec<bool>,
    asked: (bool, WindowStep),
)
    requires
        call_ensures(activated, (running,), step),
        call_ensures(open_requested, (running, has_path), asked),
    ensures
        step == asked.1,
        step == WindowStep::Present <==> running,
        asked.0 <==> running && has_path@.len() > 0 && has_path@[0],
{
}

/// The icon is put where it is missing, on a display only, and once it is there
/// nothing is made again.
pub proof fn law_icon_is_made_once(
    wayland_display: bool,
    display: bool,
    folder_present: bool,
    file_present: bool,
    shows: bool,
    first: Option<IconSetup>,
    again: Option<IconSetup>,
)
    requires
        call_ensures(has_display, (wayland_display, display), shows),
        call_ensures(setup_env, (wayland_display, display, folder_present, file_present), first),
        first matches Some(setup) ==> call_ensures(
            setup_env,
            (
                wayland_display,
                display,
                folder_present || setup.create_folder,
                file_present || setup.write_file,
            ),
            again,
        ),
    ensures
        shows <==> wayland_display || display,
        first is Some <==> shows,
        first matches Some(setup) ==> {
            &&& folder_present || setup.create_folder
            &&& file_present || setup.write_file
            &&& !(folder_present && setup.create_folder)
            &&& !(file_present && setup.write_file)
            &&& again matches Some(more) && !more.create_folder && !more.write_file
        },
{
}

/// The title names the program and what is shown, in this order.
pub proof fn law_title_names_program_and_subject(
    package_name: &str,
    title: &str,
    res: String,
)
    requires
        call_ensures(update_title, (package_name, title), res),
    ensures
        res@.len() == package_name@.len() + 3 + title@.len(),
        res@.take(package_name@.len() as int) == package_name@,
        res@.skip(package_name@.len() + 3int) == title@,
        res@.subrange(package_name@.len() as int, package_name@.len() + 3int) == seq![' ', '-', ' '],
{
    reveal_strlit(" - ");
    assert(res@.take(package_name@.len() as int) =~= package_name@);
    assert(res@.skip(package_name@.len() + 3int) =~= title@);
    assert(res@.subrange(package_name@.len() as int, package_name@.len() + 3int)
        =~= seq![' ', '-', ' ']);
}

/// A window that is built is a new window with the colors that the themes convert
/// to, and both have the toolbar of their state.
pub proof fn law_built_window_is_a_new_window(
    cfg: Configuration,
    dark_theme: &Theme,
    bright_theme: &Theme,
    fonts: Result<(), String>,
    loaded: Option<FileLoad>,
    introduction: ReadingInfo,
    opened: Option<ReadingInfo>,
    dark_colors: Colors,
    bright_colors: Colors,
    toolbar: Vec<(&'static str, &'static str)>,
    made: (GuiContext, UiPlan),
    built: Result<(GuiContext, UiPlan), BuildError>,
)
    requires
        loaded is Some <==> cfg.current is Some,
        match loaded {
            Some(FileLoad::Loaded(reading)) => opened == Some(reading),
            _ => opened is None,
        },
        call_ensures(color::convert_colors, (dark_theme,), dark_colors),
        call_ensures(color::convert_colors, (bright_theme,), bright_colors),
        call_ensures(new_window, (cfg, dark_colors, bright_colors, opened, introduction), made),
        call_ensures(
            buttons::setup_toolbar,
            (cfg.render_han, cfg.dark_theme, made.0.reading.custom_color),
            toolbar,
        ),
        call_ensures(
            build_ui,
            (cfg, dark_theme, bright_theme, fonts, loaded, introduction),
            built,
        ),
    ensures
        made.1.toolbar@.len() == toolbar@.len(),
        forall|i: int|
            0 <= i < toolbar@.len() ==> {
                &&& (#[trigger] made.1.toolbar@[i]).0@ == toolbar@[i].0@
                &&& made.1.toolbar@[i].1@ == toolbar@[i].1@
            },
        built matches Ok(up) ==> {
            &&& up.0.cfg == made.0.cfg
            &&& up.0.reading@ == made.0.reading@
            &&& up.0.dark_colors == made.0.dark_colors
            &&& up.0.bright_colors == made.0.bright_colors
            &&& up.0.chapter_syncing == made.0.chapter_syncing
            &&& up.1.subject@ == made.1.subject@
            &&& up.1.introduction == made.1.introduction
            &&& up.1.colors == made.1.colors
            &&& up.1.toolbar@.len() == toolbar@.len()
            &&& forall|i: int|
                0 <= i < toolbar@.len() ==> {
                    &&& (#[trigger] up.1.toolbar@[i]).0@ == toolbar@[i].0@
                    &&& up.1.toolbar@[i].1@ == toolbar@[i].1@
                }
        },
{
    let faces = buttons::faces(toolbar@);
    assert(forall|i: int|
        0 <= i < toolbar@.len() ==> #[trigger] faces[i] == (toolbar@[i].0@, toolbar@[i].1@));
    let shown = buttons::faces(made.1.toolbar@);
    assert(shown == faces && shown.len() == made.1.toolbar@.len() && faces.len() == toolbar@.len());
    assert(forall|i: int|
        0 <= i < shown.len() ==> #[trigger] shown[i] == (
            made.1.toolbar@[i].0@,
            made.1.toolbar@[i].1@,
        ));
    assert forall|i: int| 0 <= i < toolbar@.len() implies {
        &&& (#[trigger] made.1.toolbar@[i]).0@ == toolbar@[i].0@
        &&& made.1.toolbar@[i].1@ == toolbar@[i].1@
    } by {
        assert(shown[i] == faces[i]);
    }
    if let Ok(up) = built {
        let seen = buttons::faces(up.1.toolbar@);
        assert(up.0.reading@ == made.0.reading@);
        assert(seen == faces && seen.len() == up.1.toolbar@.len());
        assert forall|i: int| 0 <= i < toolbar@.len() implies {
            &&& (#[trigger] up.1.toolbar@[i]).0@ == toolbar@[i].0@
            &&& up.1.toolbar@[i].1@ == toolbar@[i].1@
        } by {
            assert(seen[i] == (up.1.toolbar@[i].0@, up.1.toolbar@[i].1@));
            assert(seen[i] == faces[i]);
        }
    }
}

} // verus!
