//! The sidebar beside the page, with the chapter list and the dictionary.
//!
//! The sidebar and the page are the two sides of a divider. While the divider
//! stands at zero the sidebar is shut.

use vstd::prelude::*;

use crate::config::GuiConfig;
use crate::text;

verus! {

/// The tab of the chapter list.
pub const SIDEBAR_CHAPTER_LIST_NAME: &'static str = "chapter_list";

/// The tab of the dictionary.
pub const SIDEBAR_DICT_NAME: &'static str = "dictionary_list";

/// A tab that is asked for.
#[derive(Clone, Copy, Debug)]
pub struct TabRequest {
    pub tab: &'static str,
    /// Whether it is hidden again where it shows already.
    pub toggle: bool,
}

/// How the sidebar is set up.
#[derive(Debug)]
pub struct SidebarSetup {
    /// The tabs, each by its name and the key of its title.
    pub tabs: Vec<(&'static str, &'static str)>,
    /// Which of them shows first.
    pub visible: usize,
    /// Where the divider stands.
    pub position: i32,
}

/// The sidebar at the start: shut, with the chapter list in front.
pub fn setup_sidebar() -> (res: SidebarSetup)
    ensures
        res.tabs@.len() == 2,
        res.tabs@[0].0@ == SIDEBAR_CHAPTER_LIST_NAME@,
        res.tabs@[0].1@ == "tab-chapter"@,
        res.tabs@[1].0@ == SIDEBAR_DICT_NAME@,
        res.tabs@[1].1@ == "tab-dictionary"@,
        res.visible == 0,
        res.position == 0,
{
    let mut tabs: Vec<(&'static str, &'static str)> = Vec::new();
    tabs.push((SIDEBAR_CHAPTER_LIST_NAME, "tab-chapter"));
    tabs.push((SIDEBAR_DICT_NAME, "tab-dictionary"));
    SidebarSetup { tabs, visible: 0, position: 0 }
}

/// The divider was moved, by hand or by the program. While the sidebar is
/// open, its size is remembered. The answer is the width that the dictionary
/// has to take, if any.
pub fn pane_moved(gui: &mut GuiConfig, position: i32) -> (res: Option<i32>)
    ensures
        position > 0 ==> res == Some(position) && *final(gui) == (GuiConfig {
            sidebar_size: position as u32,
            ..*old(gui)
        }),
        position <= 0 ==> res is None && *final(gui) == *old(gui),
{
    if position > 0 {
        gui.sidebar_size = position as u32;
        Some(position)
    } else {
        None
    }
}

/// What opening or shutting the sidebar amounts to.
#[derive(Debug)]
pub struct SidebarToggle {
    /// Whether the page gets the focus.
    pub focus_page: bool,
    /// The new icon of the sidebar button, and the key of its tooltip.
    pub icon: &'static str,
    pub tooltip: &'static str,
    /// Where the divider goes.
    pub position: i32,
}

/// Where the divider goes when the sidebar is opened or shut.
pub open spec fn toggled(position: i32, sidebar_size: u32) -> i32 {
    if position == 0 {
        sidebar_size as i32
    } else {
        0
    }
}

/// Opens the sidebar where it is shut, and shuts it where it is open. It opens
/// in the size that is remembered.
pub fn toggle_sidebar(position: i32, sidebar_size: u32) -> (res: SidebarToggle)
    ensures
        res.position == toggled(position, sidebar_size),
        res.focus_page == (position != 0),
        position == 0 ==> res.icon@ == "sidebar_off.svg"@ && res.tooltip@ == "sidebar-off"@,
        position != 0 ==> res.icon@ == "sidebar_on.svg"@ && res.tooltip@ == "sidebar-on"@,
{
    if position == 0 {
        SidebarToggle {
            focus_page: false,
            icon: "sidebar_off.svg",
            tooltip: "sidebar-off",
            position: sidebar_size as i32,
        }
    } else {
        SidebarToggle {
            focus_page: true,
            icon: "sidebar_on.svg",
            tooltip: "sidebar-on",
            position: 0,
        }
    }
}

/// What showing a tab amounts to.
#[derive(Clone, Copy, Debug, PartialEq, Eq, Structural)]
pub struct StackSwitch {
    /// Whether the tab is brought to the front.
    pub bring: bool,
    /// Whether the sidebar is then opened or shut.
    pub toggle: bool,
    /// Whether the tab shows in the end.
    pub shown: bool,
}

/// What is to be done to show a tab. It is brought to the front unless it is
/// there, and the sidebar is opened if it is shut. If the tab shows already,
/// `toggle` tells whether the sidebar is shut instead.
pub open spec fn stack_switch(
    tab: Seq<char>,
    visible: Option<Seq<char>>,
    position: i32,
    toggle: bool,
) -> StackSwitch {
    if position == 0 {
        StackSwitch { bring: true, toggle: true, shown: true }
    } else if visible != Some(tab) {
        StackSwitch { bring: true, toggle: false, shown: true }
    } else {
        StackSwitch { bring: false, toggle, shown: !toggle }
    }
}

/// Decides what is to be done to show a tab, or to hide it again.
pub fn switch_stack(tab_name: &str, visible: Option<&str>, position: i32, toggle: bool) -> (res:
    StackSwitch)
    ensures
        res == stack_switch(tab_name@, text::text_of(visible), position, toggle),
{
    if position == 0 {
        StackSwitch { bring: true, toggle: true, shown: true }
    } else {
        match visible {
            Some(current_tab_name) => {
                if text::same_text(current_tab_name, tab_name) {
                    if toggle {
                        StackSwitch { bring: false, toggle: true, shown: false }
                    } else {
                        StackSwitch { bring: false, toggle: false, shown: true }
                    }
                } else {
                    StackSwitch { bring: true, toggle: false, shown: true }
                }
            },
            None => StackSwitch { bring: true, toggle: false, shown: true },
        }
    }
}

/// The divider and the tab in front.
pub struct SidebarView {
    pub position: i32,
    pub visible: Option<Seq<char>>,
}

/// The sidebar after a switch has been carried out.
pub open spec fn after_switch(
    sidebar: SidebarView,
    tab: Seq<char>,
    toggle: bool,
    sidebar_size: u32,
) -> SidebarView {
    let switch = stack_switch(tab, sidebar.visible, sidebar.position, toggle);
    SidebarView {
        position: if switch.toggle {
            toggled(sidebar.position, sidebar_size)
        } else {
            sidebar.position
        },
        visible: if switch.bring {
            Some(tab)
        } else {
            sidebar.visible
        },
    }
}

/// A size other than zero makes the divider stand elsewhere than at zero.
proof fn lemma_size_opens(sidebar_size: u32)
    requires
        sidebar_size != 0,
    ensures
        sidebar_size as i32 != 0,
{
    assert(sidebar_size as i32 != 0) by (bit_vector)
        requires
            sidebar_size != 0,
    ;
}

/// The answer of a switch is right: the tab is in front of an open sidebar if
/// the answer says so, and otherwise the sidebar is shut. The size that is
/// remembered must not be zero.
pub proof fn law_switch_tells_what_shows(
    sidebar: SidebarView,
    tab: Seq<char>,
    toggle: bool,
    sidebar_size: u32,
)
    requires
        sidebar_size != 0,
    ensures
        stack_switch(tab, sidebar.visible, sidebar.position, toggle).shown <==> {
            let after = after_switch(sidebar, tab, toggle, sidebar_size);
            after.position != 0 && after.visible == Some(tab)
        },
        !stack_switch(tab, sidebar.visible, sidebar.position, toggle).shown ==> after_switch(
            sidebar,
            tab,
            toggle,
            sidebar_size,
        ).position == 0,
{
    lemma_size_opens(sidebar_size);
}

/// Asking for a tab without leave to hide it always shows it, never shuts the
/// sidebar nor moves its divider while it is open, and asking again changes
/// nothing.
pub proof fn law_showing_a_tab_is_stable(sidebar: SidebarView, tab: Seq<char>, sidebar_size: u32)
    requires
        sidebar_size != 0,
    ensures
        stack_switch(tab, sidebar.visible, sidebar.position, false).shown,
        after_switch(sidebar, tab, false, sidebar_size).visible == Some(tab),
        after_switch(sidebar, tab, false, sidebar_size).position != 0,
        sidebar.position != 0 ==> after_switch(sidebar, tab, false, sidebar_size).position
            == sidebar.position,
        after_switch(
            after_switch(sidebar, tab, false, sidebar_size),
            tab,
            false,
            sidebar_size,
        ) == after_switch(sidebar, tab, false, sidebar_size),
{
    lemma_size_opens(sidebar_size);
}

/// Asking twice for a tab that does not show, with leave to hide it, shows it
/// and then shuts the sidebar.
pub proof fn law_asking_twice_shuts_again(sidebar: SidebarView, tab: Seq<char>, sidebar_size: u32)
    requires
        sidebar_size != 0,
        sidebar.position == 0 || sidebar.visible != Some(tab),
    ensures
        stack_switch(tab, sidebar.visible, sidebar.position, true).shown,
        after_switch(
            after_switch(sidebar, tab, true, sidebar_size),
            tab,
            true,
            sidebar_size,
        ).position == 0,
{
    lemma_size_opens(sidebar_size);
}

/// A sidebar that is shut and opened again has the size it had. The size is
/// remembered whenever the divider is moved.
pub proof fn law_sidebar_reopens_in_its_size(position: i32)
    requires
        position > 0,
    ensures
        toggled(toggled(position, position as u32), position as u32) == position,
{
}

/// The sidebar comes up shut, with the chapter list in front of the dictionary.
pub proof fn law_sidebar_comes_up_shut(res: SidebarSetup)
    requires
        call_ensures(setup_sidebar, (), res),
    ensures
        res.position == 0,
        res.tabs@.len() == 2,
        res.tabs@[res.visible as int].0@ == "chapter_list"@,
        res.tabs@[0].0@ == "chapter_list"@ && res.tabs@[0].1@ == "tab-chapter"@,
        res.tabs@[1].0@ == "dictionary_list"@ && res.tabs@[1].1@ == "tab-dictionary"@,
{
}

/// Carrying out what is decided shows the tab if and only if that is the
/// answer. It is hidden only where it showed already and that was allowed; the
/// sidebar is then shut. An open sidebar is not moved to show a tab.
pub proof fn law_switch_does_what_it_tells(
    tab: &str,
    visible: Option<&str>,
    position: i32,
    toggle: bool,
    sidebar_size: u32,
    switch: StackSwitch,
    toggled_to: SidebarToggle,
)
    requires
        sidebar_size != 0,
        call_ensures(switch_stack, (tab, visible, position, toggle), switch),
        call_ensures(toggle_sidebar, (position, sidebar_size), toggled_to),
    ensures
        ({
            let shows_before = position != 0 && visible is Some && visible->0@ == tab@;
            let in_front = switch.bring || (visible is Some && visible->0@ == tab@);
            let divider = if switch.toggle {
                toggled_to.position
            } else {
                position
            };
            &&& switch.shown <==> divider != 0 && in_front
            &&& switch.shown <==> !(shows_before && toggle)
            &&& !switch.shown ==> divider == 0 && !switch.bring
            &&& switch.shown && position != 0 ==> divider == position
            &&& switch.shown && !shows_before ==> switch.bring
            &&& shows_before ==> !switch.bring
        }),
{
    lemma_size_opens(sidebar_size);
}

/// Opening and shutting the sidebar take turns. It opens in the size that was
/// remembered, which is the size that it was shut in; shutting it gives the
/// focus to the page. The button shows what the next click leads to.
pub proof fn law_sidebar_opens_and_shuts_in_turn(
    gui: &mut GuiConfig,
    position: i32,
    moved: Option<i32>,
    shut: SidebarToggle,
    opened: SidebarToggle,
)
    requires
        position > 0,
        call_ensures(pane_moved, (gui, position), moved),
        call_ensures(toggle_sidebar, (position, final(gui).sidebar_size), shut),
        call_ensures(toggle_sidebar, (shut.position, final(gui).sidebar_size), opened),
    ensures
        moved == Some(position),
        shut.position == 0,
        opened.position == position,
        shut.focus_page && !opened.focus_page,
        shut.icon@ == "sidebar_on.svg"@ && shut.tooltip@ == "sidebar-on"@,
        opened.icon@ == "sidebar_off.svg"@ && opened.tooltip@ == "sidebar-off"@,
{
}

/// Moving the divider remembers the size of an open sidebar and nothing else.
/// Shutting the sidebar forgets nothing.
pub proof fn law_divider_remembers_the_size(
    gui: &mut GuiConfig,
    position: i32,
    res: Option<i32>,
)
    requires
        call_ensures(pane_moved, (gui, position), res),
    ensures
        res == if position > 0 {
            Some(position)
        } else {
            None
        },
        position > 0 ==> final(gui).sidebar_size == position,
        position <= 0 ==> final(gui).sidebar_size == old(gui).sidebar_size,
        final(gui).lang == old(gui).lang,
        final(gui).fonts == old(gui).fonts,
        final(gui).dictionaries == old(gui).dictionaries,
        final(gui).cache_dict == old(gui).cache_dict,
        final(gui).font_size == old(gui).font_size,
{
}

/// The button and where the divider goes belong together: a shut sidebar opens
/// in the size given, whatever is open is shut.
pub proof fn law_toggle_shows_the_way_back(
    position: i32,
    sidebar_size: u32,
    res: SidebarToggle,
)
    requires
        call_ensures(toggle_sidebar, (position, sidebar_size), res),
    ensures
        position != 0 ==> res.position == 0,
        position == 0 && sidebar_size <= i32::MAX ==> res.position == sidebar_size,
        res.focus_page <==> position != 0,
        res.icon@ == (if position == 0 {
            "sidebar_off.svg"@
        } else {
            "sidebar_on.svg"@
        }),
        res.tooltip@ == (if position == 0 {
            "sidebar-off"@
        } else {
            "sidebar-on"@
        }),
{
}

} // verus!
