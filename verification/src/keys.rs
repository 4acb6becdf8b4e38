//! What the keys do.

use vstd::prelude::*;

use crate::sidebar;
use crate::sidebar::TabRequest;

verus! {

/// The keys that have a meaning somewhere. Letters are told apart by case.
#[derive(Clone, Copy, Debug, PartialEq, Eq, Structural)]
pub enum Key {
    Space,
    PageUp,
    PageDown,
    Home,
    End,
    Up,
    Down,
    Left,
    Right,
    Tab,
    Return,
    Escape,
    ControlL,
    Equal,
    Minus,
    Slash,
    LowerB,
    LowerC,
    LowerD,
    LowerF,
    LowerN,
    UpperN,
    LowerT,
    LowerX,
    Other,
}

/// The modifiers that are held down together with a key.
#[derive(Clone, Copy, Debug, PartialEq, Eq, Structural)]
pub enum Modifiers {
    Empty,
    /// The shift key and nothing else.
    Shift,
    /// The control key and nothing else.
    Control,
    Other,
}

/// Whether a key press is looked at further after a handler has seen it.
#[derive(Clone, Copy, Debug, PartialEq, Eq, Structural)]
pub enum Propagation {
    Stop,
    Proceed,
}

/// What can be asked of the page.
#[derive(Clone, Copy, Debug, PartialEq, Eq, Structural)]
pub enum ViewCommand {
    NextPage,
    PrevPage,
    GotoStart,
    GotoEnd,
    StepNext,
    StepPrev,
    /// Searches for the last pattern again, forward or backward.
    SearchAgain { forward: bool },
    /// Goes to the next or the previous chapter.
    SwitchChapter { forward: bool },
    /// Goes along the places visited, backward or forward.
    GotoTrace { backward: bool },
    SwitchLinkNext,
    SwitchLinkPrev,
    TryGotoLink,
    IncreaseFontSize,
    DecreaseFontSize,
    CopySelection,
}

/// How a command is followed up.
#[derive(Clone, Copy, Debug, PartialEq, Eq, Structural)]
pub enum FollowUp {
    /// The command can fail; the status bar tells how it went.
    Handle,
    /// The command cannot fail; the status bar is brought up to date.
    Apply,
    /// The page stays as it is, and nothing is told.
    Quiet,
}

impl ViewCommand {
    /// How the command is followed up.
    pub open spec fn follow_up_spec(self) -> FollowUp {
        match self {
            ViewCommand::GotoStart => FollowUp::Apply,
            ViewCommand::GotoEnd => FollowUp::Apply,
            ViewCommand::SwitchLinkNext => FollowUp::Apply,
            ViewCommand::SwitchLinkPrev => FollowUp::Apply,
            ViewCommand::IncreaseFontSize => FollowUp::Apply,
            ViewCommand::DecreaseFontSize => FollowUp::Apply,
            ViewCommand::CopySelection => FollowUp::Quiet,
            _ => FollowUp::Handle,
        }
    }

    /// How the command is followed up.
    pub fn follow_up(&self) -> (res: FollowUp)
        ensures
            res == self.follow_up_spec(),
    {
        match self {
            ViewCommand::NextPage
            | ViewCommand::PrevPage
            | ViewCommand::StepNext
            | ViewCommand::StepPrev
            | ViewCommand::SearchAgain { .. }
            | ViewCommand::SwitchChapter { .. }
            | ViewCommand::GotoTrace { .. }
            | ViewCommand::TryGotoLink => FollowUp::Handle,
            ViewCommand::CopySelection => FollowUp::Quiet,
            _ => FollowUp::Apply,
        }
    }
}

/// The command of a key on the page.
pub open spec fn view_command(key: Key, modifiers: Modifiers) -> Option<ViewCommand> {
    match (key, modifiers) {
        (Key::Space, Modifiers::Empty) => Some(ViewCommand::NextPage),
        (Key::PageDown, Modifiers::Empty) => Some(ViewCommand::NextPage),
        (Key::Space, Modifiers::Shift) => Some(ViewCommand::PrevPage),
        (Key::PageUp, Modifiers::Empty) => Some(ViewCommand::PrevPage),
        (Key::Home, Modifiers::Empty) => Some(ViewCommand::GotoStart),
        (Key::End, Modifiers::Empty) => Some(ViewCommand::GotoEnd),
        (Key::Down, Modifiers::Empty) => Some(ViewCommand::StepNext),
        (Key::Up, Modifiers::Empty) => Some(ViewCommand::StepPrev),
        (Key::LowerN, Modifiers::Empty) => Some(ViewCommand::SearchAgain { forward: true }),
        (Key::UpperN, Modifiers::Shift) => Some(ViewCommand::SearchAgain { forward: false }),
        (Key::LowerD, Modifiers::Control) => Some(ViewCommand::SwitchChapter { forward: true }),
        (Key::LowerB, Modifiers::Control) => Some(ViewCommand::SwitchChapter { forward: false }),
        (Key::Right, Modifiers::Empty) => Some(ViewCommand::GotoTrace { backward: false }),
        (Key::Left, Modifiers::Empty) => Some(ViewCommand::GotoTrace { backward: true }),
        (Key::Tab, Modifiers::Empty) => Some(ViewCommand::SwitchLinkNext),
        (Key::Tab, Modifiers::Shift) => Some(ViewCommand::SwitchLinkPrev),
        (Key::Return, Modifiers::Empty) => Some(ViewCommand::TryGotoLink),
        (Key::Equal, Modifiers::Control) => Some(ViewCommand::IncreaseFontSize),
        (Key::Minus, Modifiers::Control) => Some(ViewCommand::DecreaseFontSize),
        (Key::LowerC, Modifiers::Control) => Some(ViewCommand::CopySelection),
        _ => None,
    }
}

/// A key is pressed while the page has the focus. A key that has a command is
/// not looked at any further.
pub fn view_key_pressed(key: Key, modifiers: Modifiers) -> (res: (Option<ViewCommand>, Propagation))
    ensures
        res.0 == view_command(key, modifiers),
        res.1 == (if view_command(key, modifiers) is Some {
            Propagation::Stop
        } else {
            Propagation::Proceed
        }),
{
    let command = match modifiers {
        Modifiers::Empty => match key {
            Key::Space | Key::PageDown => ViewCommand::NextPage,
            Key::PageUp => ViewCommand::PrevPage,
            Key::Home => ViewCommand::GotoStart,
            Key::End => ViewCommand::GotoEnd,
            Key::Down => ViewCommand::StepNext,
            Key::Up => ViewCommand::StepPrev,
            Key::LowerN => ViewCommand::SearchAgain { forward: true },
            Key::Right => ViewCommand::GotoTrace { backward: false },
            Key::Left => ViewCommand::GotoTrace { backward: true },
            Key::Tab => ViewCommand::SwitchLinkNext,
            Key::Return => ViewCommand::TryGotoLink,
            _ => return (None, Propagation::Proceed),
        },
        Modifiers::Shift => match key {
            Key::Space => ViewCommand::PrevPage,
            Key::UpperN => ViewCommand::SearchAgain { forward: false },
            Key::Tab => ViewCommand::SwitchLinkPrev,
            _ => return (None, Propagation::Proceed),
        },
        Modifiers::Control => match key {
            Key::LowerD => ViewCommand::SwitchChapter { forward: true },
            Key::LowerB => ViewCommand::SwitchChapter { forward: false },
            Key::Equal => ViewCommand::IncreaseFontSize,
            Key::Minus => ViewCommand::DecreaseFontSize,
            Key::LowerC => ViewCommand::CopySelection,
            _ => return (None, Propagation::Proceed),
        },
        Modifiers::Other => return (None, Propagation::Proceed),
    };
    (Some(command), Propagation::Stop)
}

/// The wheel turns over the page: downwards leads on, anything else back.
pub fn scrolled(delta: i32) -> (res: ViewCommand)
    ensures
        delta > 0 ==> res == ViewCommand::StepNext,
        delta <= 0 ==> res == ViewCommand::StepPrev,
{
    if delta > 0 {
        ViewCommand::StepNext
    } else {
        ViewCommand::StepPrev
    }
}

/// What can be asked of the window.
#[derive(Clone, Copy, Debug, PartialEq, Eq, Structural)]
pub enum WindowCommand {
    /// Shows the mouse pointer as it is while the control key is down.
    ControlPointer,
    SwitchToChapters,
    SwitchToDictionary,
    FocusSearchBox,
    /// Shuts the sidebar, where it is open.
    ShutSidebar,
    SwitchRender,
    SwitchTheme,
}

/// The command of a key in the window.
pub open spec fn window_command(key: Key, modifiers: Modifiers) -> Option<WindowCommand> {
    match (key, modifiers) {
        (Key::ControlL, Modifiers::Empty) => Some(WindowCommand::ControlPointer),
        (Key::LowerC, Modifiers::Empty) => Some(WindowCommand::SwitchToChapters),
        (Key::LowerD, Modifiers::Empty) => Some(WindowCommand::SwitchToDictionary),
        (Key::Slash, Modifiers::Empty) => Some(WindowCommand::FocusSearchBox),
        (Key::LowerF, Modifiers::Control) => Some(WindowCommand::FocusSearchBox),
        (Key::Escape, Modifiers::Empty) => Some(WindowCommand::ShutSidebar),
        (Key::LowerX, Modifiers::Control) => Some(WindowCommand::SwitchRender),
        (Key::LowerT, Modifiers::Empty) => Some(WindowCommand::SwitchTheme),
        _ => None,
    }
}

/// A key is pressed in the window, and nothing in it has stopped that. Escape
/// has a command only while the sidebar is open, that is, while the divider
/// does not stand at zero. The control key goes on to others.
pub fn window_key_pressed(key: Key, modifiers: Modifiers, pane_position: i32) -> (res: (
    Option<WindowCommand>,
    Propagation,
))
    ensures
        res.0 == (if window_command(key, modifiers) == Some(WindowCommand::ShutSidebar)
            && pane_position == 0 {
            None
        } else {
            window_command(key, modifiers)
        }),
        res.1 == (if res.0 is None || res.0 == Some(WindowCommand::ControlPointer) {
            Propagation::Proceed
        } else {
            Propagation::Stop
        }),
{
    match modifiers {
        Modifiers::Empty => match key {
            Key::ControlL => (Some(WindowCommand::ControlPointer), Propagation::Proceed),
            Key::LowerC => (Some(WindowCommand::SwitchToChapters), Propagation::Stop),
            Key::LowerD => (Some(WindowCommand::SwitchToDictionary), Propagation::Stop),
            Key::Slash => (Some(WindowCommand::FocusSearchBox), Propagation::Stop),
            Key::Escape => if pane_position != 0 {
                (Some(WindowCommand::ShutSidebar), Propagation::Stop)
            } else {
                (None, Propagation::Proceed)
            },
            Key::LowerT => (Some(WindowCommand::SwitchTheme), Propagation::Stop),
            _ => (None, Propagation::Proceed),
        },
        Modifiers::Control => match key {
            Key::LowerF => (Some(WindowCommand::FocusSearchBox), Propagation::Stop),
            Key::LowerX => (Some(WindowCommand::SwitchRender), Propagation::Stop),
            _ => (None, Propagation::Proceed),
        },
        _ => (None, Propagation::Proceed),
    }
}

/// What is done once a tab of the sidebar shows.
#[derive(Clone, Copy, Debug, PartialEq, Eq, Structural)]
pub enum TabFollowUp {
    /// Scrolls the chapter list to the chapter that is read.
    ScrollToChapter,
    /// Looks the selected text up.
    LookUpSelection,
}

impl WindowCommand {
    /// The tab that a command asks for, if it does. Where that tab shows
    /// already, it is hidden.
    pub fn tab_request(self) -> (res: Option<TabRequest>)
        ensures
            match self {
                WindowCommand::SwitchToChapters => res matches Some(request) && request.tab@
                    == sidebar::SIDEBAR_CHAPTER_LIST_NAME@ && request.toggle,
                WindowCommand::SwitchToDictionary => res matches Some(request) && request.tab@
                    == sidebar::SIDEBAR_DICT_NAME@ && request.toggle,
                _ => res is None,
            },
    {
        match self {
            WindowCommand::SwitchToChapters => Some(
                TabRequest { tab: sidebar::SIDEBAR_CHAPTER_LIST_NAME, toggle: true },
            ),
            WindowCommand::SwitchToDictionary => Some(
                TabRequest { tab: sidebar::SIDEBAR_DICT_NAME, toggle: true },
            ),
            _ => None,
        }
    }

    /// What follows a command once the tab that it asks for shows, or does not.
    pub fn tab_switched(self, shown: bool) -> (res: Option<TabFollowUp>)
        ensures
            res == (if !shown {
                None
            } else {
                match self {
                    WindowCommand::SwitchToChapters => Some(TabFollowUp::ScrollToChapter),
                    WindowCommand::SwitchToDictionary => Some(TabFollowUp::LookUpSelection),
                    _ => None,
                }
            }),
    {
        if !shown {
            return None;
        }
        match self {
            WindowCommand::SwitchToChapters => Some(TabFollowUp::ScrollToChapter),
            WindowCommand::SwitchToDictionary => Some(TabFollowUp::LookUpSelection),
            _ => None,
        }
    }
}

/// A key is let go in the window. Whether the mouse pointer is to be shown
/// again as it is without the control key.
pub fn window_key_released(key: Key) -> (res: bool)
    ensures
        res == (key == Key::ControlL),
{
    match key {
        Key::ControlL => true,
        _ => false,
    }
}

/// No key means one thing on the page and another in the window.
pub proof fn law_page_and_window_share_no_key(key: Key, modifiers: Modifiers)
    ensures
        view_command(key, modifiers) is None || window_command(key, modifiers) is None,
{
}

/// The font size from which on there is no shrinking.
pub const MIN_FONT_SIZE: u8 = 20;

/// The font size from which on there is no enlarging.
pub const MAX_FONT_SIZE: u8 = 50;

/// The next larger font size, if there is one.
pub open spec fn larger(size: u8) -> Option<u8> {
    if size < MAX_FONT_SIZE {
        Some((size + 2) as u8)
    } else {
        None
    }
}

/// The next smaller font size, if there is one.
pub open spec fn smaller(size: u8) -> Option<u8> {
    if size > MIN_FONT_SIZE {
        Some((size - 2) as u8)
    } else {
        None
    }
}

/// The next larger font size, if there is one.
pub fn larger_font_size(size: u8) -> (res: Option<u8>)
    ensures
        res == larger(size),
{
    if size < MAX_FONT_SIZE {
        Some(size + 2)
    } else {
        None
    }
}

/// The next smaller font size, if there is one.
pub fn smaller_font_size(size: u8) -> (res: Option<u8>)
    ensures
        res == smaller(size),
{
    if size > MIN_FONT_SIZE {
        Some(size - 2)
    } else {
        None
    }
}

/// An even font size within the bounds, which are even themselves, stays even
/// and within them. Any font size that is at most one outside stays so.
pub proof fn law_font_size_stays_within_bounds(size: u8, next: u8)
    requires
        MIN_FONT_SIZE - 1 <= size <= MAX_FONT_SIZE + 1,
        larger(size) == Some(next) || smaller(size) == Some(next),
    ensures
        MIN_FONT_SIZE - 1 <= next <= MAX_FONT_SIZE + 1,
        size % 2 == 0 ==> MIN_FONT_SIZE <= next <= MAX_FONT_SIZE && next % 2 == 0,
{
}

/// Enlarging and then shrinking leads back, and so does the reverse.
pub proof fn law_font_size_steps_undo_each_other(size: u8)
    ensures
        MIN_FONT_SIZE <= size && larger(size) is Some ==> smaller(larger(size)->0) == Some(size),
        size <= MAX_FONT_SIZE && smaller(size) is Some ==> larger(smaller(size)->0) == Some(size),
{
}

/// Every command of the page has its keys, and no others: what a command is
/// bound to is told here command by command. Space and shift, page down and up,
/// home and end, the arrows, and the two directions of each search, chapter,
/// trace and link lead opposite ways.
pub proof fn law_page_commands_have_their_keys(
    key: Key,
    modifiers: Modifiers,
    res: (Option<ViewCommand>, Propagation),
)
    requires
        call_ensures(view_key_pressed, (key, modifiers), res),
    ensures
        res.0 == Some(ViewCommand::NextPage) <==> modifiers == Modifiers::Empty && (key
            == Key::Space || key == Key::PageDown),
        res.0 == Some(ViewCommand::PrevPage) <==> (modifiers == Modifiers::Shift && key
            == Key::Space) || (modifiers == Modifiers::Empty && key == Key::PageUp),
        res.0 == Some(ViewCommand::GotoStart) <==> modifiers == Modifiers::Empty && key
            == Key::Home,
        res.0 == Some(ViewCommand::GotoEnd) <==> modifiers == Modifiers::Empty && key == Key::End,
        res.0 == Some(ViewCommand::StepNext) <==> modifiers == Modifiers::Empty && key
            == Key::Down,
        res.0 == Some(ViewCommand::StepPrev) <==> modifiers == Modifiers::Empty && key == Key::Up,
        res.0 == Some(ViewCommand::SearchAgain { forward: true }) <==> modifiers
            == Modifiers::Empty && key == Key::LowerN,
        res.0 == Some(ViewCommand::SearchAgain { forward: false }) <==> modifiers
            == Modifiers::Shift && key == Key::UpperN,
        res.0 == Some(ViewCommand::SwitchChapter { forward: true }) <==> modifiers
            == Modifiers::Control && key == Key::LowerD,
        res.0 == Some(ViewCommand::SwitchChapter { forward: false }) <==> modifiers
            == Modifiers::Control && key == Key::LowerB,
        res.0 == Some(ViewCommand::GotoTrace { backward: true }) <==> modifiers == Modifiers::Empty
            && key == Key::Left,
        res.0 == Some(ViewCommand::GotoTrace { backward: false }) <==> modifiers
            == Modifiers::Empty && key == Key::Right,
        res.0 == Some(ViewCommand::SwitchLinkNext) <==> modifiers == Modifiers::Empty && key
            == Key::Tab,
        res.0 == Some(ViewCommand::SwitchLinkPrev) <==> modifiers == Modifiers::Shift && key
            == Key::Tab,
        res.0 == Some(ViewCommand::TryGotoLink) <==> modifiers == Modifiers::Empty && key
            == Key::Return,
        res.0 == Some(ViewCommand::IncreaseFontSize) <==> modifiers == Modifiers::Control && key
            == Key::Equal,
        res.0 == Some(ViewCommand::DecreaseFontSize) <==> modifiers == Modifiers::Control && key
            == Key::Minus,
        res.0 == Some(ViewCommand::CopySelection) <==> modifiers == Modifiers::Control && key
            == Key::LowerC,
        res.1 == Propagation::Stop <==> res.0 is Some,
{
}

/// Every command of the window has its keys, and no others. Escape is the
/// window's own only while there is a sidebar to shut, and the control key is
/// left for others to see.
pub proof fn law_window_commands_have_their_keys(
    key: Key,
    modifiers: Modifiers,
    pane_position: i32,
    res: (Option<WindowCommand>, Propagation),
)
    requires
        call_ensures(window_key_pressed, (key, modifiers, pane_position), res),
    ensures
        res.0 == Some(WindowCommand::ControlPointer) <==> modifiers == Modifiers::Empty && key
            == Key::ControlL,
        res.0 == Some(WindowCommand::SwitchToChapters) <==> modifiers == Modifiers::Empty && key
            == Key::LowerC,
        res.0 == Some(WindowCommand::SwitchToDictionary) <==> modifiers == Modifiers::Empty && key
            == Key::LowerD,
        res.0 == Some(WindowCommand::FocusSearchBox) <==> (modifiers == Modifiers::Empty && key
            == Key::Slash) || (modifiers == Modifiers::Control && key == Key::LowerF),
        res.0 == Some(WindowCommand::ShutSidebar) <==> modifiers == Modifiers::Empty && key
            == Key::Escape && pane_position != 0,
        res.0 == Some(WindowCommand::SwitchRender) <==> modifiers == Modifiers::Control && key
            == Key::LowerX,
        res.0 == Some(WindowCommand::SwitchTheme) <==> modifiers == Modifiers::Empty && key
            == Key::LowerT,
        res.1 == Propagation::Stop <==> res.0 is Some && key != Key::ControlL,
{
}

/// A key that the page stops is not the window's: no key that the page has a
/// command for has one in the window too, so none is lost.
pub proof fn law_page_hides_no_key_of_the_window(
    key: Key,
    modifiers: Modifiers,
    pane_position: i32,
    page: (Option<ViewCommand>, Propagation),
    window: (Option<WindowCommand>, Propagation),
)
    requires
        call_ensures(view_key_pressed, (key, modifiers), page),
        call_ensures(window_key_pressed, (key, modifiers, pane_position), window),
    ensures
        page.0 is None || window.0 is None,
        page.1 == Propagation::Stop ==> window.1 == Propagation::Proceed,
{
}

/// The pointer is shown anew both when the control key goes down and when it
/// goes up, and for no other key.
pub proof fn law_pointer_follows_the_control_key(
    key: Key,
    pane_position: i32,
    down: (Option<WindowCommand>, Propagation),
    up: bool,
)
    requires
        call_ensures(window_key_pressed, (key, Modifiers::Empty, pane_position), down),
        call_ensures(window_key_released, (key,), up),
    ensures
        up <==> key == Key::ControlL,
        up <==> down.0 == Some(WindowCommand::ControlPointer),
{
}

/// A tab that a command asks for is put to use once it shows: the chapter list
/// is scrolled to the chapter, the dictionary looks the selection up. Nothing
/// follows where it was hidden, nor a command that asks for no tab. The key that
/// shows a tab hides it too.
pub proof fn law_shown_tab_is_put_to_use(
    command: WindowCommand,
    shown: bool,
    request: Option<TabRequest>,
    follows: Option<TabFollowUp>,
)
    requires
        call_ensures(WindowCommand::tab_request, (command,), request),
        call_ensures(WindowCommand::tab_switched, (command, shown), follows),
    ensures
        follows is Some <==> request is Some && shown,
        follows == Some(TabFollowUp::ScrollToChapter) ==> request->0.tab@ == "chapter_list"@,
        follows == Some(TabFollowUp::LookUpSelection) ==> request->0.tab@ == "dictionary_list"@,
        request is Some <==> command == WindowCommand::SwitchToChapters || command
            == WindowCommand::SwitchToDictionary,
        command == WindowCommand::SwitchToChapters ==> request->0.tab@ == "chapter_list"@,
        command == WindowCommand::SwitchToDictionary ==> request->0.tab@ == "dictionary_list"@,
        request matches Some(asked) ==> asked.toggle,
{
}

/// The wheel does what the arrow keys do: downwards leads on, any other turn
/// leads back.
pub proof fn law_wheel_does_what_the_arrows_do(
    delta: i32,
    res: ViewCommand,
    down: (Option<ViewCommand>, Propagation),
    up: (Option<ViewCommand>, Propagation),
)
    requires
        call_ensures(scrolled, (delta,), res),
        call_ensures(view_key_pressed, (Key::Down, Modifiers::Empty), down),
        call_ensures(view_key_pressed, (Key::Up, Modifiers::Empty), up),
    ensures
        delta > 0 ==> Some(res) == down.0 && res == ViewCommand::StepNext,
        delta <= 0 ==> Some(res) == up.0 && res == ViewCommand::StepPrev,
{
}

/// Copying leaves the page alone. Going to an end, changing links and changing
/// the font size cannot fail. Everything else can, and tells how it went.
pub proof fn law_commands_are_followed_up(command: ViewCommand, res: FollowUp)
    requires
        call_ensures(ViewCommand::follow_up, (&command,), res),
    ensures
        res == FollowUp::Quiet <==> command == ViewCommand::CopySelection,
        res == FollowUp::Apply <==> command == ViewCommand::GotoStart || command
            == ViewCommand::GotoEnd || command == ViewCommand::SwitchLinkNext || command
            == ViewCommand::SwitchLinkPrev || command == ViewCommand::IncreaseFontSize || command
            == ViewCommand::DecreaseFontSize,
{
}

/// Font sizes go from twenty to fifty in steps of two: there is a larger one
/// below fifty and a smaller one above twenty, and each step undoes the other.
pub proof fn law_font_sizes_go_by_two(
    size: u8,
    up: Option<u8>,
    down: Option<u8>,
    up_down: Option<u8>,
    down_up: Option<u8>,
)
    requires
        call_ensures(larger_font_size, (size,), up),
        call_ensures(smaller_font_size, (size,), down),
        up is Some ==> call_ensures(smaller_font_size, (up->0,), up_down),
        down is Some ==> call_ensures(larger_font_size, (down->0,), down_up),
    ensures
        up is Some <==> size < 50,
        up matches Some(next) ==> next == size + 2,
        down is Some <==> size > 20,
        down matches Some(next) ==> next == size - 2,
        up is Some && size >= 20 ==> up_down == Some(size),
        down is Some && size <= 50 ==> down_up == Some(size),
{
}

} // verus!
