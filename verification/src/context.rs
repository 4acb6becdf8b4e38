//! The state of the window, and what happens to it.
//!
//! Each method takes what has happened and changes the state. Its answer says
//! what is to be shown or done.

use vstd::prelude::*;

use crate::buttons;
use crate::chapters;
use crate::chapters::ChapterEntry;
use crate::chapters::ChapterListSyncMode;
use crate::chapters::ChapterSync;
use crate::color::Colors;
use crate::config::Configuration;
use crate::config::GuiConfig;
use crate::history;
use crate::history::HistoryEntry;
use crate::history::ReadingInfo;
use crate::history::ReadingView;
use crate::keys;
use crate::readme;
use crate::text;

verus! {

/// What the status bar shows.
#[derive(Debug)]
pub enum Status {
    /// Plain text.
    Text(String),
    /// Text with markup.
    Markup(String),
}

/// How an error looks in the status bar.
pub open spec fn error_markup(msg: Seq<char>) -> Seq<char> {
    "<span foreground='red'>"@ + msg + "</span>"@
}

impl Status {
    /// Whether this is a message with this text.
    pub open spec fn tells(self, msg: Seq<char>) -> bool {
        self matches Status::Text(shown) && shown@ == msg
    }

    /// Whether this is an error with this text.
    pub open spec fn warns(self, msg: Seq<char>) -> bool {
        self matches Status::Markup(shown) && shown@ == error_markup(msg)
    }
}

/// What is shown after something has been done.
#[derive(Debug)]
pub struct Update {
    pub status: Status,
    /// How the chapter list is then brought in step. After an error it is left
    /// alone.
    pub sync: Option<ChapterListSyncMode>,
}

/// How a file is shown that has been opened. The page is drawn anew.
#[derive(Debug)]
pub struct FileShown {
    /// What the title of the window is about.
    pub subject: String,
    /// The files that the history menu looks at, youngest first.
    pub recent_files: Vec<String>,
}

/// A file that is about to be opened.
#[derive(Debug)]
pub struct PendingOpen {
    /// How far it was read.
    pub reading: ReadingInfo,
    /// Whether that was in the history.
    pub from_history: bool,
}

/// The state of the window.
#[derive(Debug)]
pub struct GuiContext {
    pub cfg: Configuration,
    /// The file that is open, and how far it is read.
    pub reading: ReadingInfo,
    pub dark_colors: Colors,
    pub bright_colors: Colors,
    /// Whether the chapter list is being brought in step.
    pub chapter_syncing: bool,
}

impl GuiContext {
    /// The history, oldest entry first.
    pub open spec fn history(&self) -> Seq<ReadingView> {
        history::entries(self.cfg.history@)
    }

    /// The history has no two entries about one file, and none about the file
    /// that is open.
    pub open spec fn consistent(&self) -> bool {
        history::fits(self.history(), self.reading@.filename)
    }

    /// Nothing differs but the history.
    pub open spec fn same_but_history(&self, other: GuiContext) -> bool {
        &&& other.cfg == (Configuration { history: other.cfg.history, ..self.cfg })
        &&& other == (GuiContext { cfg: other.cfg, ..*self })
    }

    /// What it means that opening a file begins: what is known of the file is
    /// taken out of the history.
    pub open spec fn begins_opening(
        before: GuiContext,
        filepath: Seq<char>,
        fresh: ReadingView,
        after: GuiContext,
        pending: PendingOpen,
    ) -> bool {
        &&& before.same_but_history(after)
        &&& history::takes_out(
            before.history(),
            filepath,
            fresh,
            after.history(),
            pending.from_history,
            pending.reading@,
        )
    }

    /// What it means that the file is open: what was read before it has become
    /// the youngest entry of the history.
    pub open spec fn ends_opening(
        before: GuiContext,
        reading: ReadingView,
        after: GuiContext,
    ) -> bool {
        &&& after.history() == before.history().push(before.reading@)
        &&& after.reading@ == reading
        &&& before.same_but_history(GuiContext { reading: before.reading, ..after })
    }

    /// What it means that the file could not be opened: an entry that was
    /// taken out of the history is back, as the youngest one.
    pub open spec fn gives_up_opening(
        before: GuiContext,
        pending: PendingOpen,
        after: GuiContext,
    ) -> bool {
        &&& before.same_but_history(after)
        &&& after.history() == history::put_back(
            before.history(),
            pending.from_history,
            pending.reading@,
        )
    }

    /// What it means that the window closes: the file that is open is
    /// remembered and becomes the youngest entry of the history, unless it is
    /// the introduction.
    pub open spec fn closes(before: GuiContext, after: GuiContext) -> bool {
        if before.reading@.filename == readme::README_TEXT_FILENAME@ {
            after == before
        } else {
            &&& after.cfg.current matches Some(current) && current@ == before.reading@.filename
            &&& after.history() == before.history().push(before.reading@)
            &&& before.same_but_history(
                GuiContext {
                    cfg: Configuration { current: before.cfg.current, ..after.cfg },
                    ..after
                },
            )
        }
    }

    /// The state of a window that has just opened.
    pub fn new(
        cfg: Configuration,
        reading: ReadingInfo,
        dark_colors: Colors,
        bright_colors: Colors,
    ) -> (res: Self)
        ensures
            res.cfg == cfg,
            res.reading == reading,
            res.dark_colors == dark_colors,
            res.bright_colors == bright_colors,
            !res.chapter_syncing,
    {
        GuiContext { cfg, reading, dark_colors, bright_colors, chapter_syncing: false }
    }

    /// Begins to open a file, given by its absolute path. There is nothing to
    /// be done where it is open already. `fresh` is how a file is read that
    /// is not in the history.
    pub fn open_file(&mut self, filepath: &str, fresh: ReadingInfo) -> (res: Option<PendingOpen>)
        ensures
            res is None <==> filepath@ == old(self).reading.filename@,
            res is None ==> *final(self) == *old(self),
            res matches Some(pending) ==> Self::begins_opening(
                *old(self),
                filepath@,
                fresh@,
                *final(self),
                pending,
            ),
    {
        if text::same_text(filepath, self.reading.filename.as_str()) {
            return None;
        }
        let (from_history, reading) = history::reading_info(
            &mut self.cfg.history,
            filepath,
            fresh,
        );
        Some(PendingOpen { reading, from_history })
    }

    /// The file has been opened, or could not be. In the first case `outcome`
    /// holds how it is read now, and a message; in the second, an error. A file
    /// that has been opened is shown, with a new title and a new history menu.
    pub fn file_opened(
        &mut self,
        pending: PendingOpen,
        outcome: Result<(ReadingInfo, String), String>,
    ) -> (res: (Update, Option<FileShown>))
        ensures
            outcome matches Ok(opened) ==> {
                &&& Self::ends_opening(*old(self), opened.0@, *final(self))
                &&& res.0.status.tells(opened.1@)
                &&& res.0.sync == Some(ChapterListSyncMode::Reload)
                &&& res.1 matches Some(shown) && {
                    &&& shown.subject@ == opened.0@.filename
                    &&& history::texts(shown.recent_files@) == history::recent_files(
                        final(self).history(),
                    )
                }
            },
            outcome matches Err(error) ==> {
                &&& Self::gives_up_opening(*old(self), pending, *final(self))
                &&& res.0.status.warns(error@)
                &&& res.0.sync is None
                &&& res.1 is None
            },
    {
        let ghost before = self.history();
        match outcome {
            Ok((reading, msg)) => {
                let reading_now = self.reading.clone();
                self.cfg.history.push(reading_now);
                self.reading = reading;
                proof {
                    assert(self.history() =~= before.push(reading_now@));
                }
                let shown = FileShown {
                    subject: self.reading.filename.clone(),
                    recent_files: self.reload_history(),
                };
                (self.update(msg.as_str(), ChapterListSyncMode::Reload), Some(shown))
            },
            Err(error) => {
                if pending.from_history {
                    self.cfg.history.push(pending.reading);
                    proof {
                        assert(self.history() =~= before.push(pending.reading@));
                    }
                }
                (Update { status: self.error(error.as_str()), sync: None }, None)
            },
        }
    }

    /// The window closes. The file that is open is remembered, unless it is
    /// the introduction.
    pub fn close_request(&mut self)
        ensures
            Self::closes(*old(self), *final(self)),
    {
        if !text::same_text(self.reading.filename.as_str(), readme::README_TEXT_FILENAME) {
            let ghost before = self.history();
            self.cfg.current = Some(self.reading.filename.clone());
            let reading = self.reading.clone();
            self.cfg.history.push(reading);
            proof {
                assert(self.history() =~= before.push(reading@));
            }
        }
    }

    /// Something has been done to the page that cannot fail. `reading` is how
    /// the file is read now.
    pub fn apply(&mut self, reading: ReadingInfo, status_msg: &str) -> (res: Update)
        ensures
            *final(self) == (GuiContext { reading, ..*old(self) }),
            res.status.tells(status_msg@),
            res.sync == Some(
                ChapterListSyncMode::ReloadIfNeeded(old(self).reading.inner_book),
            ),
    {
        let orig_inner_book: usize = self.reading.inner_book;
        self.reading = reading;
        self.update(status_msg, ChapterListSyncMode::ReloadIfNeeded(orig_inner_book))
    }

    /// Something has been done to the page that can fail. `reading` is how the
    /// file is read now. The outcome is what the status bar is to tell, or an
    /// error.
    pub fn handle(&mut self, reading: ReadingInfo, outcome: Result<String, String>) -> (res: Update)
        ensures
            *final(self) == (GuiContext { reading, ..*old(self) }),
            outcome matches Ok(msg) ==> {
                &&& res.status.tells(msg@)
                &&& res.sync == Some(
                    ChapterListSyncMode::ReloadIfNeeded(old(self).reading.inner_book),
                )
            },
            outcome matches Err(error) ==> res.status.warns(error@) && res.sync is None,
    {
        match outcome {
            Ok(msg) => self.apply(reading, msg.as_str()),
            Err(error) => {
                self.reading = reading;
                Update { status: self.error(error.as_str()), sync: None }
            },
        }
    }

    /// The state with the other layout.
    pub open spec fn with_other_render(&self) -> GuiContext {
        GuiContext {
            cfg: Configuration { render_han: !self.cfg.render_han, ..self.cfg },
            ..*self
        }
    }

    /// The state with the other theme.
    pub open spec fn with_other_theme(&self) -> GuiContext {
        GuiContext {
            cfg: Configuration { dark_theme: !self.cfg.dark_theme, ..self.cfg },
            ..*self
        }
    }

    /// The state with the book's own colors on instead of off, or off instead
    /// of on.
    pub open spec fn with_other_custom_color(&self) -> GuiContext {
        GuiContext {
            reading: ReadingInfo {
                custom_color: !self.reading.custom_color,
                ..self.reading
            },
            ..*self
        }
    }

    /// Changes the layout. The answer is the new icon of the button and the
    /// key of its tooltip.
    pub fn switch_render(&mut self) -> (res: (&'static str, &'static str))
        ensures
            *final(self) == old(self).with_other_render(),
            (res.0@, res.1@) == buttons::render_face(final(self).cfg.render_han),
    {
        let render_han = !self.cfg.render_han;
        self.cfg.render_han = render_han;
        buttons::get_render_icon(render_han)
    }

    /// The colors of the theme that is in use.
    pub open spec fn theme_colors(&self) -> Colors {
        if self.cfg.dark_theme {
            self.dark_colors
        } else {
            self.bright_colors
        }
    }

    /// The colors of the theme that is in use.
    pub fn colors(&self) -> (res: Colors)
        ensures
            res == self.theme_colors(),
    {
        if self.cfg.dark_theme {
            self.dark_colors
        } else {
            self.bright_colors
        }
    }

    /// Changes the theme. The answer is the new icon of the button, the key of
    /// its tooltip, and the colors that the page is drawn with from now on.
    pub fn switch_theme(&mut self) -> (res: (&'static str, &'static str, Colors))
        ensures
            *final(self) == old(self).with_other_theme(),
            (res.0@, res.1@) == buttons::theme_face(final(self).cfg.dark_theme),
            res.2 == final(self).theme_colors(),
    {
        let dark_theme = !self.cfg.dark_theme;
        self.cfg.dark_theme = dark_theme;
        let (icon, tooltip) = buttons::get_theme_icon(dark_theme);
        (icon, tooltip, self.colors())
    }

    /// Turns the book's own colors on or off. The answer is the new icon of
    /// the button and the key of its tooltip.
    pub fn switch_custom_color(&mut self) -> (res: (&'static str, &'static str))
        ensures
            *final(self) == old(self).with_other_custom_color(),
            (res.0@, res.1@) == buttons::custom_color_face(final(self).reading.custom_color),
    {
        let custom_color = !self.reading.custom_color;
        self.reading.custom_color = custom_color;
        buttons::get_custom_color_icon(custom_color)
    }

    /// The state with another font size.
    pub open spec fn with_font_size(&self, font_size: u8) -> GuiContext {
        GuiContext {
            cfg: Configuration {
                gui: GuiConfig { font_size, ..self.cfg.gui },
                ..self.cfg
            },
            ..*self
        }
    }

    /// Enlarges the font. The answer is the new size, or nothing where it is
    /// the largest already.
    pub fn increase_font_size(&mut self) -> (res: Option<u8>)
        ensures
            res == keys::larger(old(self).cfg.gui.font_size),
            res matches Some(size) ==> *final(self) == old(self).with_font_size(size),
            res is None ==> *final(self) == *old(self),
    {
        match keys::larger_font_size(self.cfg.gui.font_size) {
            Some(size) => {
                self.cfg.gui.font_size = size;
                Some(size)
            },
            None => None,
        }
    }

    /// Shrinks the font. The answer is the new size, or nothing where it is
    /// the smallest already.
    pub fn decrease_font_size(&mut self) -> (res: Option<u8>)
        ensures
            res == keys::smaller(old(self).cfg.gui.font_size),
            res matches Some(size) ==> *final(self) == old(self).with_font_size(size),
            res is None ==> *final(self) == *old(self),
    {
        match keys::smaller_font_size(self.cfg.gui.font_size) {
            Some(size) => {
                self.cfg.gui.font_size = size;
                Some(size)
            },
            None => None,
        }
    }

    /// The files that the history menu looks at, youngest first.
    pub fn reload_history(&self) -> (res: Vec<String>)
        ensures
            history::texts(res@) == history::recent_files(self.history()),
    {
        history::recent_filenames(&self.cfg.history)
    }

    /// The entry of the history menu for the `idx`-th of these files. There is
    /// one where the path is present and is a file.
    pub fn add_history_entry(
        &self,
        idx: usize,
        path_str: &String,
        present: bool,
        is_file: bool,
    ) -> (res: Option<HistoryEntry>)
        ensures
            res is Some <==> present && is_file,
            res matches Some(entry) ==> entry.is_for(idx, path_str@),
    {
        history::history_entry(idx, path_str, present, is_file)
    }

    /// A message, after which the chapter list is brought in step.
    pub fn update(&self, msg: &str, sync_mode: ChapterListSyncMode) -> (res: Update)
        ensures
            res.status.tells(msg@),
            res.sync == Some(sync_mode),
    {
        Update { status: self.message(msg), sync: Some(sync_mode) }
    }

    /// A message in the status bar.
    pub fn message(&self, msg: &str) -> (res: Status)
        ensures
            res.tells(msg@),
    {
        self.update_status(false, msg)
    }

    /// An error in the status bar.
    pub fn error(&self, msg: &str) -> (res: Status)
        ensures
            res.warns(msg@),
    {
        self.update_status(true, msg)
    }

    /// A message or an error in the status bar.
    pub fn update_status(&self, error: bool, msg: &str) -> (res: Status)
        ensures
            error ==> res.warns(msg@),
            !error ==> res.tells(msg@),
    {
        if error {
            let mut markup = text::join("<span foreground='red'>", msg);
            markup.append("</span>");
            Status::Markup(markup)
        } else {
            Status::Text(msg.to_owned())
        }
    }

    /// Whether the chapter list is being brought in step.
    pub fn is_chapter_syncing(&self) -> (res: bool)
        ensures
            res == self.chapter_syncing,
    {
        self.chapter_syncing
    }

    /// Begins to bring the chapter list in step, and says what is to be done
    /// to it. `chapters` are its rows, `selected_row` the one that is
    /// selected, and `toc_index` the chapter that is read.
    pub fn sync_chapter_list(
        &mut self,
        sync_mode: ChapterListSyncMode,
        toc_index: u64,
        selected_row: Option<i32>,
        chapters: &Vec<ChapterEntry>,
    ) -> (res: ChapterSync)
        ensures
            *final(self) == (GuiContext { chapter_syncing: true, ..*old(self) }),
            res is Reload <==> sync_mode.reloads(old(self).reading.inner_book),
            res is Keep <==> !sync_mode.reloads(old(self).reading.inner_book)
                && chapters::selection_fits(chapters@, selected_row, toc_index),
            res matches ChapterSync::Select(rows) ==> rows@ == chapters::rows_of(
                chapters@,
                toc_index,
                chapters@.len(),
            ),
    {
        self.chapter_syncing = true;
        chapters::do_sync(
            sync_mode,
            self.reading.inner_book,
            toc_index,
            selected_row,
            chapters,
        )
    }

    /// The chapter list is in step.
    pub fn chapter_list_synced(&mut self)
        ensures
            *final(self) == (GuiContext { chapter_syncing: false, ..*old(self) }),
    {
        self.chapter_syncing = false;
    }
}

/// Each of the three switches, used twice, changes nothing.
pub proof fn law_switching_twice_changes_nothing(context: GuiContext)
    ensures
        context.with_other_render().with_other_render() == context,
        context.with_other_theme().with_other_theme() == context,
        context.with_other_custom_color().with_other_custom_color() == context,
{
}

/// The theme switch exchanges the two sets of colors.
pub proof fn law_other_theme_has_the_other_colors(context: GuiContext)
    ensures
        context.theme_colors() == context.dark_colors
            && context.with_other_theme().theme_colors() == context.bright_colors
            || context.theme_colors() == context.bright_colors
            && context.with_other_theme().theme_colors() == context.dark_colors,
{
}

/// What is done to the page, to the switches, to the font size and to the
/// chapter list keeps the state consistent, for none of it changes the history
/// or the file that is open.
pub proof fn law_reading_on_keeps_consistency(
    context: GuiContext,
    reading: ReadingInfo,
    font_size: u8,
    syncing: bool,
)
    requires
        context.consistent(),
        reading@.filename == context.reading@.filename,
    ensures
        (GuiContext { reading, ..context }).consistent(),
        context.with_other_render().consistent(),
        context.with_other_theme().consistent(),
        context.with_other_custom_color().consistent(),
        context.with_font_size(font_size).consistent(),
        (GuiContext { chapter_syncing: syncing, ..context }).consistent(),
{
}

/// Opening another file keeps the state consistent: the file that is opened is
/// not in the history any more, and the one that was open is.
pub proof fn law_open_file_keeps_consistency(
    before: GuiContext,
    filepath: Seq<char>,
    fresh: ReadingView,
    between: GuiContext,
    pending: PendingOpen,
    reading: ReadingView,
    after: GuiContext,
)
    requires
        before.consistent(),
        filepath != before.reading@.filename,
        GuiContext::begins_opening(before, filepath, fresh, between, pending),
        GuiContext::ends_opening(between, reading, after),
        reading.filename == filepath,
    ensures
        after.consistent(),
        history::mentions(after.history(), before.reading@.filename),
{
    history::law_opening_keeps_history(
        before.history(),
        before.reading@,
        filepath,
        fresh,
        between.history(),
        pending.from_history,
        pending.reading@,
    );
}

/// A file that cannot be opened leaves everything as it was, but that its
/// entry in the history may have become the youngest one.
pub proof fn law_failed_open_file_loses_nothing(
    before: GuiContext,
    filepath: Seq<char>,
    fresh: ReadingView,
    between: GuiContext,
    pending: PendingOpen,
    after: GuiContext,
)
    requires
        filepath != before.reading@.filename,
        GuiContext::begins_opening(before, filepath, fresh, between, pending),
        GuiContext::gives_up_opening(between, pending, after),
    ensures
        before.same_but_history(after),
        after.history().to_multiset() == before.history().to_multiset(),
        before.consistent() ==> after.consistent(),
{
    history::law_failed_opening_loses_nothing(
        before.history(),
        before.reading@,
        filepath,
        fresh,
        between.history(),
        pending.from_history,
        pending.reading@,
    );
}

/// A file that was left for another one comes back as it was left: opening a
/// second file, and then the first one again, finds the first one in the
/// history, at the book and the place where reading stopped. The rest of the
/// history is as it was when the second file was opened.
pub proof fn law_file_comes_back_as_it_was_left(
    start: &mut GuiContext,
    second: &str,
    second_fresh: ReadingInfo,
    second_pending: Option<PendingOpen>,
    between: &mut GuiContext,
    second_reading: ReadingInfo,
    msg: String,
    second_shown: (Update, Option<FileShown>),
    back: &mut GuiContext,
    first: &str,
    first_fresh: ReadingInfo,
    first_pending: Option<PendingOpen>,
)
    requires
        second@ != old(start).reading.filename@,
        forall|i: int|
            0 <= i < old(start).cfg.history@.len() ==> (#[trigger] old(start).cfg.history@[i]).filename@ != old(start).reading.filename@,
        call_ensures(GuiContext::open_file, (start, second, second_fresh), second_pending),
        *old(between) == *final(start),
        call_ensures(
            GuiContext::file_opened,
            (between, second_pending->0, Ok((second_reading, msg))),
            second_shown,
        ),
        second_reading.filename@ == second@,
        *old(back) == *final(between),
        first@ == old(start).reading.filename@,
        call_ensures(GuiContext::open_file, (back, first, first_fresh), first_pending),
    ensures
        second_pending is Some,
        first_pending matches Some(pending) && {
            &&& pending.from_history
            &&& pending.reading.filename@ == old(start).reading.filename@
            &&& pending.reading.inner_book == old(start).reading.inner_book
            &&& pending.reading.position == old(start).reading.position
            &&& pending.reading.custom_color == old(start).reading.custom_color
        },
        final(back).cfg.history@.len() == final(start).cfg.history@.len(),
        forall|i: int|
            0 <= i < final(start).cfg.history@.len() ==> (#[trigger] final(back).cfg.history@[i])@ == final(start).cfg.history@[i]@,
{
    let h0 = old(start).history();
    let h1 = final(start).history();
    let h2 = final(between).history();
    let h3 = final(back).history();
    history::lemma_entries(old(start).cfg.history@);
    history::lemma_entries(final(start).cfg.history@);
    history::lemma_entries(final(back).cfg.history@);
    let reading = old(start).reading@;
    let pending = second_pending->0;
    assert forall|i: int| 0 <= i < h1.len() implies (#[trigger] h1[i]).filename
        != reading.filename by {
        if pending.from_history {
            let k = history::lemma_taken_at(
                h0,
                second@,
                second_fresh@,
                h1,
                true,
                pending.reading@,
            );
            if i < k {
                assert(h1[i] == h0[i]);
            } else {
                assert(h1[i] == h0[i + 1]);
            }
        }
    }
    assert(h2 == h1.push(reading));
    assert(h2[h1.len() as int].filename == first@);
    assert(history::mentions(h2, first@));
    let k = history::lemma_taken_at(
        h2,
        first@,
        first_fresh@,
        h3,
        true,
        first_pending->0.reading@,
    );
    if k < h1.len() {
        assert(h2[k] == h1[k]);
    }
    assert(h3 =~= h1);
}

/// A file that is opened leaves everything else as it is: the file that was
/// open becomes the youngest entry of the history with all that is known of it,
/// the older entries stay, and neither the settings nor the colors change. The
/// window tells the message, builds the chapter list anew, is titled after the
/// file and lists the youngest files in its menu, at most twenty.
pub proof fn law_opened_file_joins_the_history(
    window: &mut GuiContext,
    pending: PendingOpen,
    reading: ReadingInfo,
    msg: String,
    res: (Update, Option<FileShown>),
)
    requires
        call_ensures(GuiContext::file_opened, (window, pending, Ok((reading, msg))), res),
    ensures
        final(window).reading.filename@ == reading.filename@,
        final(window).reading.inner_book == reading.inner_book,
        final(window).reading.position == reading.position,
        final(window).reading.custom_color == reading.custom_color,
        final(window).cfg.history@.len() == old(window).cfg.history@.len() + 1,
        final(window).cfg.history@.last().filename@ == old(window).reading.filename@,
        final(window).cfg.history@.last().inner_book == old(window).reading.inner_book,
        final(window).cfg.history@.last().position == old(window).reading.position,
        final(window).cfg.history@.last().custom_color == old(window).reading.custom_color,
        forall|i: int|
            0 <= i < old(window).cfg.history@.len() ==> (#[trigger] final(window).cfg.history@[i])@ == old(window).cfg.history@[i]@,
        final(window).cfg.render_han == old(window).cfg.render_han,
        final(window).cfg.dark_theme == old(window).cfg.dark_theme,
        final(window).cfg.current == old(window).cfg.current,
        final(window).cfg.gui == old(window).cfg.gui,
        final(window).dark_colors == old(window).dark_colors,
        final(window).bright_colors == old(window).bright_colors,
        final(window).chapter_syncing == old(window).chapter_syncing,
        res.0.status matches Status::Text(shown) && shown@ == msg@,
        res.0.sync == Some(ChapterListSyncMode::Reload),
        res.1 matches Some(shown) && {
            &&& shown.subject@ == reading.filename@
            &&& shown.recent_files@.len() == (if old(window).cfg.history@.len() < 19 {
                old(window).cfg.history@.len() + 1
            } else {
                20
            })
            &&& shown.recent_files@[0]@ == old(window).reading.filename@
            &&& forall|k: int|
                1 <= k < shown.recent_files@.len() ==> (#[trigger] shown.recent_files@[k])@
                    == old(window).cfg.history@[old(window).cfg.history@.len() - k].filename@
        },
{
    let h0 = old(window).history();
    let h1 = final(window).history();
    history::lemma_entries(old(window).cfg.history@);
    history::lemma_entries(final(window).cfg.history@);
    assert(h1 == h0.push(old(window).reading@));
    assert(h1.last() == final(window).cfg.history@.last()@);
    assert forall|i: int| 0 <= i < old(window).cfg.history@.len() implies (#[trigger] final(window).cfg.history@[i])@ == old(window).cfg.history@[i]@ by {
        assert(h1[i] == h0[i]);
    }
    let files = res.1->0.recent_files@;
    let texts = history::texts(files);
    assert(texts == history::recent_files(h1));
    assert forall|k: int| 0 <= k < files.len() implies (#[trigger] files[k])@ == h1[h1.len() - 1
        - k].filename by {
        assert(texts[k] == files[k]@);
    }
    assert forall|k: int| 1 <= k < files.len() implies (#[trigger] files[k])@ == old(window).cfg.history@[old(window).cfg.history@.len() - k].filename@ by {
        assert(h1[h1.len() - 1 - k] == h0[h0.len() - k]);
    }
}

/// A file that could not be opened is reported in red, and nothing else shows:
/// the file that was open stays open at its place, the chapter list and the
/// title are left alone, and every entry that the history had before is there
/// again, none more.
pub proof fn law_unopened_file_changes_nothing(
    window: &mut GuiContext,
    filepath: &str,
    fresh: ReadingInfo,
    pending: Option<PendingOpen>,
    between: &mut GuiContext,
    error: String,
    res: (Update, Option<FileShown>),
)
    requires
        filepath@ != old(window).reading.filename@,
        call_ensures(GuiContext::open_file, (window, filepath, fresh), pending),
        *old(between) == *final(window),
        call_ensures(GuiContext::file_opened, (between, pending->0, Err(error)), res),
    ensures
        pending is Some,
        final(between).reading == old(window).reading,
        final(between).cfg.render_han == old(window).cfg.render_han,
        final(between).cfg.dark_theme == old(window).cfg.dark_theme,
        final(between).cfg.current == old(window).cfg.current,
        final(between).cfg.gui == old(window).cfg.gui,
        final(between).dark_colors == old(window).dark_colors,
        final(between).bright_colors == old(window).bright_colors,
        final(between).chapter_syncing == old(window).chapter_syncing,
        final(between).cfg.history@.len() == old(window).cfg.history@.len(),
        (exists|i: int|
            0 <= i < old(window).cfg.history@.len() && (#[trigger] old(
                window).cfg.history@[i]).filename@ == filepath@) || forall|i: int|
            0 <= i < old(window).cfg.history@.len() ==> (#[trigger] final(
                between).cfg.history@[i])@ == old(window).cfg.history@[i]@,
        (exists|i: int|
            0 <= i < old(window).cfg.history@.len() && (#[trigger] old(
                window).cfg.history@[i]).filename@ == filepath@) ==> exists|k: int|
            {
                &&& 0 <= k < old(window).cfg.history@.len()
                &&& (#[trigger] old(window).cfg.history@[k]).filename@ == filepath@
                &&& final(between).cfg.history@.last()@ == old(window).cfg.history@[k]@
                &&& forall|i: int|
                    0 <= i < k ==> (#[trigger] final(between).cfg.history@[i])@ == old(
                        window).cfg.history@[i]@
                &&& forall|i: int|
                    k <= i < old(window).cfg.history@.len() - 1 ==> (#[trigger] final(
                        between).cfg.history@[i])@ == old(window).cfg.history@[i + 1]@
            },
        res.0.status matches Status::Markup(shown) && shown@ == "<span foreground='red'>"@ + error@
            + "</span>"@,
        res.0.sync is None,
        res.1 is None,
{
    let h0 = old(window).history();
    let h1 = final(window).history();
    let h2 = final(between).history();
    let taken = pending->0;
    let before = old(window).cfg.history@;
    let after = final(between).cfg.history@;
    history::lemma_entries(before);
    history::lemma_entries(after);
    if taken.from_history {
        let k = history::lemma_taken_at(h0, filepath@, fresh@, h1, true, taken.reading@);
        assert(before[k].filename@ == filepath@);
        assert(h2 == h1.push(taken.reading@));
        assert(h2.last() == after.last()@);
        assert forall|i: int| 0 <= i < k implies (#[trigger] after[i])@ == before[i]@ by {
            assert(h2[i] == h0[i]);
        }
        assert forall|i: int| k <= i < before.len() - 1 implies (#[trigger] after[i])@ == before[i
            + 1]@ by {
            assert(h2[i] == h1[i]);
            assert(h1[i] == h0[i + 1]);
        }
    } else {
        assert(h2 == h0);
        assert forall|i: int| 0 <= i < before.len() implies (#[trigger] before[i]).filename@
            != filepath@ by {
            assert(h0[i].filename != filepath@);
        }
    }
}

/// Opening a file asks for what is known of it: it is found if and only if some
/// entry of the history is about it, the oldest such entry is taken, and the
/// others stay in their order. A file that is open already is not opened.
pub proof fn law_opening_takes_what_is_known(
    window: &mut GuiContext,
    filepath: &str,
    fresh: ReadingInfo,
    res: Option<PendingOpen>,
)
    requires
        call_ensures(GuiContext::open_file, (window, filepath, fresh), res),
    ensures
        res is None <==> filepath@ == old(window).reading.filename@,
        res is None ==> *final(window) == *old(window),
        final(window).reading == old(window).reading,
        final(window).cfg.render_han == old(window).cfg.render_han,
        final(window).cfg.dark_theme == old(window).cfg.dark_theme,
        final(window).cfg.current == old(window).cfg.current,
        final(window).cfg.gui == old(window).cfg.gui,
        final(window).dark_colors == old(window).dark_colors,
        final(window).bright_colors == old(window).bright_colors,
        final(window).chapter_syncing == old(window).chapter_syncing,
        res matches Some(pending) ==> {
            &&& pending.from_history <==> exists|i: int|
                0 <= i < old(window).cfg.history@.len() && (#[trigger] old(window).cfg.history@[i]).filename@ == filepath@
            &&& !pending.from_history ==> {
                &&& pending.reading@ == fresh@
                &&& final(window).cfg.history@.len() == old(window).cfg.history@.len()
                &&& forall|i: int| 0 <= i < old(window).cfg.history@.len() ==> (#[trigger] final(window).cfg.history@[i])@ == old(window).cfg.history@[i]@
            }
            &&& pending.from_history ==> exists|k: int|
                {
                    &&& 0 <= k < old(window).cfg.history@.len()
                    &&& (#[trigger] old(window).cfg.history@[k]).filename@ == filepath@
                    &&& pending.reading.filename@ == filepath@
                    &&& pending.reading.inner_book == old(window).cfg.history@[k].inner_book
                    &&& pending.reading.position == old(window).cfg.history@[k].position
                    &&& pending.reading.custom_color == old(window).cfg.history@[k].custom_color
                    &&& final(window).cfg.history@.len() == old(window).cfg.history@.len() - 1
                    &&& forall|i: int| 0 <= i < k ==> (#[trigger] old(window).cfg.history@[i]).filename@ != filepath@
                    &&& forall|i: int| 0 <= i < k ==> (#[trigger] final(window).cfg.history@[i])@ == old(window).cfg.history@[i]@
                    &&& forall|i: int| k <= i < final(window).cfg.history@.len() ==> (#[trigger] final(window).cfg.history@[i])@ == old(window).cfg.history@[i
                        + 1]@
                }
        },
{
    if let Some(pending) = res {
        let before = old(window).cfg.history@;
        let after = final(window).cfg.history@;
        let h0 = old(window).history();
        let h1 = final(window).history();
        history::lemma_entries(before);
        history::lemma_entries(after);
        if pending.from_history {
            let k = history::lemma_taken_at(h0, filepath@, fresh@, h1, true, pending.reading@);
            assert(before[k].filename@ == filepath@);
            assert forall|i: int| 0 <= i < k implies (#[trigger] after[i])@ == before[i]@ by {
                assert(h1[i] == h0[i]);
            }
            assert forall|i: int| k <= i < after.len() implies (#[trigger] after[i])@ == before[i
                + 1]@ by {
                assert(h1[i] == h0[i + 1]);
            }
        } else {
            assert forall|i: int| 0 <= i < before.len() implies (#[trigger] before[i]).filename@
                != filepath@ by {
                assert(h0[i].filename != filepath@);
            }
            assert forall|i: int| 0 <= i < before.len() implies (#[trigger] after[i])@
                == before[i]@ by {
                assert(h1[i] == h0[i]);
            }
        }
    }
}

/// Closing a window remembers the file that is open, with all that is known of
/// it, as the youngest entry of the history, and as the file to come up with.
/// The introduction is not remembered, and nothing else changes.
pub proof fn law_closing_remembers_the_open_file(window: &mut GuiContext, res: ())
    requires
        call_ensures(GuiContext::close_request, (window,), res),
    ensures
        old(window).reading.filename@ == "readme"@ ==> *final(window) == *old(window),
        old(window).reading.filename@ != "readme"@ ==> {
            let before = old(window).cfg.history@;
            let after = final(window).cfg.history@;
            &&& final(window).cfg.current matches Some(current) && current@ == old(window).reading.filename@
            &&& after.len() == before.len() + 1
            &&& after.last().filename@ == old(window).reading.filename@
            &&& after.last().inner_book == old(window).reading.inner_book
            &&& after.last().position == old(window).reading.position
            &&& after.last().custom_color == old(window).reading.custom_color
            &&& forall|i: int| 0 <= i < before.len() ==> (#[trigger] after[i])@ == before[i]@
        },
        final(window).reading == old(window).reading,
        final(window).cfg.render_han == old(window).cfg.render_han,
        final(window).cfg.dark_theme == old(window).cfg.dark_theme,
        final(window).cfg.gui == old(window).cfg.gui,
        final(window).dark_colors == old(window).dark_colors,
        final(window).bright_colors == old(window).bright_colors,
        final(window).chapter_syncing == old(window).chapter_syncing,
{
    if old(window).reading.filename@ != "readme"@ {
        let h0 = old(window).history();
        let h1 = final(window).history();
        let before = old(window).cfg.history@;
        let after = final(window).cfg.history@;
        history::lemma_entries(before);
        history::lemma_entries(after);
        assert(h1 == h0.push(old(window).reading@));
        assert(h1.last() == after.last()@);
        assert forall|i: int| 0 <= i < before.len() implies (#[trigger] after[i])@
            == before[i]@ by {
            assert(h1[i] == h0[i]);
        }
    }
}

/// Reading on keeps the chapter list in step: after something was done to the
/// page, the list is built anew if and only if another book of the file is read
/// now; after an error it is not touched. Only the reading changes.
pub proof fn law_reading_on_reloads_for_another_book(
    window: &mut GuiContext,
    reading: ReadingInfo,
    outcome: Result<String, String>,
    told: Update,
    between: &mut GuiContext,
    toc_index: u64,
    selected_row: Option<i32>,
    rows: &Vec<ChapterEntry>,
    res: ChapterSync,
)
    requires
        call_ensures(GuiContext::handle, (window, reading, outcome), told),
        *old(between) == *final(window),
        told.sync is Some ==> call_ensures(
            GuiContext::sync_chapter_list,
            (between, told.sync->0, toc_index, selected_row, rows),
            res,
        ),
    ensures
        final(window).reading == reading,
        final(window).cfg == old(window).cfg,
        final(window).dark_colors == old(window).dark_colors,
        final(window).bright_colors == old(window).bright_colors,
        final(window).chapter_syncing == old(window).chapter_syncing,
        told.sync is Some <==> outcome is Ok,
        outcome matches Ok(msg) ==> {
            &&& told.status matches Status::Text(shown) && shown@ == msg@
            &&& res is Reload <==> old(window).reading.inner_book != reading.inner_book
        },
        outcome matches Err(error) ==> told.status matches Status::Markup(shown) && shown@
            == "<span foreground='red'>"@ + error@ + "</span>"@,
{
}

/// The same for what cannot fail.
pub proof fn law_applied_change_reloads_for_another_book(
    window: &mut GuiContext,
    reading: ReadingInfo,
    status_msg: &str,
    told: Update,
    between: &mut GuiContext,
    toc_index: u64,
    selected_row: Option<i32>,
    rows: &Vec<ChapterEntry>,
    res: ChapterSync,
)
    requires
        call_ensures(GuiContext::apply, (window, reading, status_msg), told),
        *old(between) == *final(window),
        told.sync is Some ==> call_ensures(
            GuiContext::sync_chapter_list,
            (between, told.sync->0, toc_index, selected_row, rows),
            res,
        ),
    ensures
        final(window).reading == reading,
        final(window).cfg == old(window).cfg,
        final(window).dark_colors == old(window).dark_colors,
        final(window).bright_colors == old(window).bright_colors,
        final(window).chapter_syncing == old(window).chapter_syncing,
        told.status matches Status::Text(shown) && shown@ == status_msg@,
        told.sync is Some,
        res is Reload <==> old(window).reading.inner_book != reading.inner_book,
{
}

/// Bringing the chapter list in step is announced while it lasts, and changes
/// nothing else. It does what is decided for the book that is read.
pub proof fn law_syncing_is_announced(
    window: &mut GuiContext,
    sync_mode: ChapterListSyncMode,
    toc_index: u64,
    selected_row: Option<i32>,
    rows: &Vec<ChapterEntry>,
    res: ChapterSync,
    during: bool,
    between: &mut GuiContext,
    end: (),
    afterwards: bool,
)
    requires
        call_ensures(
            GuiContext::sync_chapter_list,
            (window, sync_mode, toc_index, selected_row, rows),
            res,
        ),
        call_ensures(GuiContext::is_chapter_syncing, (final(window),), during),
        *old(between) == *final(window),
        call_ensures(GuiContext::chapter_list_synced, (between,), end),
        call_ensures(GuiContext::is_chapter_syncing, (final(between),), afterwards),
    ensures
        during,
        !afterwards,
        !old(window).chapter_syncing ==> *final(between) == *old(window),
        final(window).reading == old(window).reading,
        final(window).cfg == old(window).cfg,
        final(window).dark_colors == old(window).dark_colors,
        final(window).bright_colors == old(window).bright_colors,
        final(between).reading == old(window).reading,
        final(between).cfg == old(window).cfg,
{
}

/// The switch for the layout changes the layout and nothing else, and shows
/// what the next click leads to. Two clicks lead back.
pub proof fn law_render_switch(
    window: &mut GuiContext,
    face: (&'static str, &'static str),
    between: &mut GuiContext,
    face_back: (&'static str, &'static str),
)
    requires
        call_ensures(GuiContext::switch_render, (window,), face),
        *old(between) == *final(window),
        call_ensures(GuiContext::switch_render, (between,), face_back),
    ensures
        final(window).cfg.render_han != old(window).cfg.render_han,
        final(window).cfg.dark_theme == old(window).cfg.dark_theme,
        final(window).cfg.current == old(window).cfg.current,
        final(window).cfg.history == old(window).cfg.history,
        final(window).cfg.gui == old(window).cfg.gui,
        final(window).reading == old(window).reading,
        final(window).dark_colors == old(window).dark_colors,
        final(window).bright_colors == old(window).bright_colors,
        final(window).chapter_syncing == old(window).chapter_syncing,
        *final(between) == *old(window),
        face.0@ == "render_xi.svg"@ && face.1@ == "render-xi"@ && !old(window).cfg.render_han
            || face.0@ == "render_han.svg"@ && face.1@ == "render-han"@ && old(window).cfg.render_han,
        face.0@ != face_back.0@,
        face.1@ != face_back.1@,
{
    reveal_strlit("render_xi.svg");
    reveal_strlit("render_han.svg");
    reveal_strlit("render-xi");
    reveal_strlit("render-han");
    assert("render_xi.svg"@.len() != "render_han.svg"@.len());
    assert("render-xi"@.len() != "render-han"@.len());
}

/// The switch for the theme changes the theme and nothing else, and shows what
/// the next click leads to. The page is drawn with the colors of the theme that
/// is now in use. Two clicks lead back.
pub proof fn law_theme_switch(
    window: &mut GuiContext,
    res: (&'static str, &'static str, Colors),
    between: &mut GuiContext,
    res_back: (&'static str, &'static str, Colors),
    colors_before: Colors,
)
    requires
        call_ensures(GuiContext::colors, (old(window),), colors_before),
        call_ensures(GuiContext::switch_theme, (window,), res),
        *old(between) == *final(window),
        call_ensures(GuiContext::switch_theme, (between,), res_back),
    ensures
        final(window).cfg.dark_theme != old(window).cfg.dark_theme,
        final(window).cfg.render_han == old(window).cfg.render_han,
        final(window).cfg.current == old(window).cfg.current,
        final(window).cfg.history == old(window).cfg.history,
        final(window).cfg.gui == old(window).cfg.gui,
        final(window).reading == old(window).reading,
        final(window).dark_colors == old(window).dark_colors,
        final(window).bright_colors == old(window).bright_colors,
        final(window).chapter_syncing == old(window).chapter_syncing,
        *final(between) == *old(window),
        old(window).cfg.dark_theme ==> colors_before == old(window).dark_colors && res.2 == old(window).bright_colors,
        !old(window).cfg.dark_theme ==> colors_before == old(window).bright_colors && res.2 == old(window).dark_colors,
        res_back.2 == colors_before,
        res.0@ == "theme_bright.svg"@ && res.1@ == "theme-bright"@ && !old(window).cfg.dark_theme
            || res.0@ == "theme_dark.svg"@ && res.1@ == "theme-dark"@ && old(window).cfg.dark_theme,
        res.0@ != res_back.0@,
        res.1@ != res_back.1@,
{
    reveal_strlit("theme_bright.svg");
    reveal_strlit("theme_dark.svg");
    reveal_strlit("theme-bright");
    reveal_strlit("theme-dark");
    assert("theme_bright.svg"@.len() != "theme_dark.svg"@.len());
    assert("theme-bright"@.len() != "theme-dark"@.len());
}

/// The switch for the book's own colors changes these and nothing else: the
/// file, the book and the place stay. It shows what the next click leads to.
/// Two clicks lead back.
pub proof fn law_custom_color_switch(
    window: &mut GuiContext,
    face: (&'static str, &'static str),
    between: &mut GuiContext,
    face_back: (&'static str, &'static str),
)
    requires
        call_ensures(GuiContext::switch_custom_color, (window,), face),
        *old(between) == *final(window),
        call_ensures(GuiContext::switch_custom_color, (between,), face_back),
    ensures
        final(window).reading.custom_color != old(window).reading.custom_color,
        final(window).reading.filename == old(window).reading.filename,
        final(window).reading.inner_book == old(window).reading.inner_book,
        final(window).reading.position == old(window).reading.position,
        final(window).cfg == old(window).cfg,
        final(window).dark_colors == old(window).dark_colors,
        final(window).bright_colors == old(window).bright_colors,
        final(window).chapter_syncing == old(window).chapter_syncing,
        *final(between) == *old(window),
        face.0@ == "custom_color_off.svg"@ && face.1@ == "no-custom-color"@ && !old(window).reading.custom_color || face.0@ == "custom_color_on.svg"@ && face.1@
            == "with-custom-color"@ && old(window).reading.custom_color,
        face.0@ != face_back.0@,
        face.1@ != face_back.1@,
{
    reveal_strlit("custom_color_off.svg");
    reveal_strlit("custom_color_on.svg");
    reveal_strlit("no-custom-color");
    reveal_strlit("with-custom-color");
    assert("custom_color_off.svg"@.len() != "custom_color_on.svg"@.len());
    assert("no-custom-color"@.len() != "with-custom-color"@.len());
}

/// The font grows by two up to fifty, and nothing but its size changes.
/// Shrinking it then leads back, unless it was below twenty.
pub proof fn law_font_grows(
    window: &mut GuiContext,
    res: Option<u8>,
    between: &mut GuiContext,
    res_back: Option<u8>,
)
    requires
        call_ensures(GuiContext::increase_font_size, (window,), res),
        *old(between) == *final(window),
        call_ensures(GuiContext::decrease_font_size, (between,), res_back),
    ensures
        res is Some <==> old(window).cfg.gui.font_size < 50,
        res is None ==> *final(window) == *old(window),
        res matches Some(size) ==> size == old(window).cfg.gui.font_size + 2 && final(window).cfg.gui.font_size == size,
        final(window).cfg.gui.lang == old(window).cfg.gui.lang,
        final(window).cfg.gui.fonts == old(window).cfg.gui.fonts,
        final(window).cfg.gui.dictionaries == old(window).cfg.gui.dictionaries,
        final(window).cfg.gui.cache_dict == old(window).cfg.gui.cache_dict,
        final(window).cfg.gui.sidebar_size == old(window).cfg.gui.sidebar_size,
        final(window).cfg.render_han == old(window).cfg.render_han,
        final(window).cfg.dark_theme == old(window).cfg.dark_theme,
        final(window).cfg.current == old(window).cfg.current,
        final(window).cfg.history == old(window).cfg.history,
        final(window).reading == old(window).reading,
        final(window).dark_colors == old(window).dark_colors,
        final(window).bright_colors == old(window).bright_colors,
        final(window).chapter_syncing == old(window).chapter_syncing,
        res is Some && old(window).cfg.gui.font_size >= 20 ==> *final(between) == *old(window)
            && res_back == Some(old(window).cfg.gui.font_size),
{
}

/// The font shrinks by two down to twenty, and nothing but its size changes.
/// Enlarging it then leads back, unless it was above fifty.
pub proof fn law_font_shrinks(
    window: &mut GuiContext,
    res: Option<u8>,
    between: &mut GuiContext,
    res_back: Option<u8>,
)
    requires
        call_ensures(GuiContext::decrease_font_size, (window,), res),
        *old(between) == *final(window),
        call_ensures(GuiContext::increase_font_size, (between,), res_back),
    ensures
        res is Some <==> old(window).cfg.gui.font_size > 20,
        res is None ==> *final(window) == *old(window),
        res matches Some(size) ==> size == old(window).cfg.gui.font_size - 2 && final(window).cfg.gui.font_size == size,
        final(window).cfg.gui.lang == old(window).cfg.gui.lang,
        final(window).cfg.gui.fonts == old(window).cfg.gui.fonts,
        final(window).cfg.gui.dictionaries == old(window).cfg.gui.dictionaries,
        final(window).cfg.gui.cache_dict == old(window).cfg.gui.cache_dict,
        final(window).cfg.gui.sidebar_size == old(window).cfg.gui.sidebar_size,
        final(window).cfg.render_han == old(window).cfg.render_han,
        final(window).cfg.dark_theme == old(window).cfg.dark_theme,
        final(window).cfg.current == old(window).cfg.current,
        final(window).cfg.history == old(window).cfg.history,
        final(window).reading == old(window).reading,
        final(window).dark_colors == old(window).dark_colors,
        final(window).bright_colors == old(window).bright_colors,
        final(window).chapter_syncing == old(window).chapter_syncing,
        res is Some && old(window).cfg.gui.font_size <= 50 ==> *final(between) == *old(window)
            && res_back == Some(old(window).cfg.gui.font_size),
{
}

/// The status bar tells a message as it is, and an error in red, so that the
/// two never look the same.
pub proof fn law_errors_show_in_red(
    window: &GuiContext,
    msg: &str,
    told: Status,
    warned: Status,
    by_flag: Status,
    error: bool,
)
    requires
        call_ensures(GuiContext::message, (window, msg), told),
        call_ensures(GuiContext::error, (window, msg), warned),
        call_ensures(GuiContext::update_status, (window, error, msg), by_flag),
    ensures
        told matches Status::Text(shown) && shown@ == msg@,
        warned matches Status::Markup(shown) && shown@ == "<span foreground='red'>"@ + msg@
            + "</span>"@,
        match by_flag {
            Status::Text(shown) => !error && shown@ == msg@,
            Status::Markup(shown) => error && shown@ == "<span foreground='red'>"@ + msg@
                + "</span>"@,
        },
{
}

/// The history menu lists the youngest files, youngest first, at most twenty,
/// each under a number of its own if it is there and is a file.
pub proof fn law_menu_lists_the_youngest(
    window: &GuiContext,
    files: Vec<String>,
    idx: usize,
    path: &String,
    present: bool,
    is_file: bool,
    entry: Option<HistoryEntry>,
)
    requires
        call_ensures(GuiContext::reload_history, (window,), files),
        call_ensures(GuiContext::add_history_entry, (window, idx, path, present, is_file), entry),
    ensures
        files@.len() == (if window.cfg.history@.len() < 20 {
            window.cfg.history@.len()
        } else {
            20
        }),
        forall|k: int|
            0 <= k < files@.len() ==> (#[trigger] files@[k])@
                == window.cfg.history@[window.cfg.history@.len() - 1 - k].filename@,
        entry is Some <==> present && is_file,
        entry matches Some(e) ==> e.label@ == path@ && e.menu_action@ == "popup."@ + e.action@,
{
    let h = window.history();
    history::lemma_entries(window.cfg.history@);
    let texts = history::texts(files@);
    assert(texts == history::recent_files(h));
    assert forall|k: int| 0 <= k < files@.len() implies (#[trigger] files@[k])@
        == window.cfg.history@[window.cfg.history@.len() - 1 - k].filename@ by {
        assert(texts[k] == files@[k]@);
        assert(h[h.len() - 1 - k] == window.cfg.history@[window.cfg.history@.len() - 1 - k]@);
    }
}

/// Two files of the menu never share an action.
pub proof fn law_menu_actions_differ(
    window: &GuiContext,
    i: usize,
    j: usize,
    path_i: &String,
    path_j: &String,
    entry_i: Option<HistoryEntry>,
    entry_j: Option<HistoryEntry>,
)
    requires
        i != j,
        call_ensures(GuiContext::add_history_entry, (window, i, path_i, true, true), entry_i),
        call_ensures(GuiContext::add_history_entry, (window, j, path_j, true, true), entry_j),
    ensures
        entry_i is Some && entry_j is Some,
        entry_i->0.action@ != entry_j->0.action@,
{
    history::law_actions_differ(i, j);
}

/// The window does to its chapter list what is decided for the book that it
/// reads.
pub proof fn law_window_syncs_for_its_book(
    window: &mut GuiContext,
    sync_mode: ChapterListSyncMode,
    toc_index: u64,
    selected_row: Option<i32>,
    rows: &Vec<ChapterEntry>,
    res: ChapterSync,
    decided: ChapterSync,
)
    requires
        call_ensures(
            GuiContext::sync_chapter_list,
            (window, sync_mode, toc_index, selected_row, rows),
            res,
        ),
        call_ensures(
            chapters::do_sync,
            (sync_mode, old(window).reading.inner_book, toc_index, selected_row, rows),
            decided,
        ),
    ensures
        match (res, decided) {
            (ChapterSync::Reload, ChapterSync::Reload) => true,
            (ChapterSync::Keep, ChapterSync::Keep) => true,
            (ChapterSync::Select(a), ChapterSync::Select(b)) => a@ == b@,
            _ => false,
        },
{
}

/// A new state holds what it is made of, and syncs no chapter list.
pub proof fn law_new_state_holds_its_parts(
    cfg: Configuration,
    reading: ReadingInfo,
    dark_colors: Colors,
    bright_colors: Colors,
    res: GuiContext,
)
    requires
        call_ensures(GuiContext::new, (cfg, reading, dark_colors, bright_colors), res),
    ensures
        res.cfg == cfg,
        res.reading == reading,
        res.dark_colors == dark_colors,
        res.bright_colors == bright_colors,
        !res.chapter_syncing,
{
}

/// An update tells its message plainly, and asks for the chapter list to be brought
/// in step as it was told.
pub proof fn law_update_tells_and_syncs(
    window: &GuiContext,
    msg: &str,
    sync_mode: ChapterListSyncMode,
    res: Update,
)
    requires
        call_ensures(GuiContext::update, (window, msg, sync_mode), res),
    ensures
        res.status matches Status::Text(text) && text@ == msg@,
        res.sync == Some(sync_mode),
{
}

} // verus!
