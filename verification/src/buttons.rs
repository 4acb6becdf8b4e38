//! The buttons of the toolbar and the entries of the popup menu.
//!
//! Tooltips and titles are given by the keys under which the translations
//! list them.

use vstd::prelude::*;

use crate::history;
use crate::icons;
use crate::icons::Icon;
use crate::sidebar;
use crate::sidebar::TabRequest;
use crate::text;

verus! {

/// The icon of the layout button and the key of its tooltip.
pub open spec fn render_face(render_han: bool) -> (Seq<char>, Seq<char>) {
    if render_han {
        ("render_xi.svg"@, "render-xi"@)
    } else {
        ("render_han.svg"@, "render-han"@)
    }
}

/// The icon of the theme button and the key of its tooltip.
pub open spec fn theme_face(dark_theme: bool) -> (Seq<char>, Seq<char>) {
    if dark_theme {
        ("theme_bright.svg"@, "theme-bright"@)
    } else {
        ("theme_dark.svg"@, "theme-dark"@)
    }
}

/// The icon of the button for the book's own colors and the key of its tooltip.
pub open spec fn custom_color_face(custom_color: bool) -> (Seq<char>, Seq<char>) {
    if custom_color {
        ("custom_color_off.svg"@, "no-custom-color"@)
    } else {
        ("custom_color_on.svg"@, "with-custom-color"@)
    }
}

/// The icon of the button that changes the layout, and its tooltip. It shows
/// what a click leads to.
pub fn get_render_icon(render_han: bool) -> (res: (&'static str, &'static str))
    ensures
        (res.0@, res.1@) == render_face(render_han),
{
    if render_han {
        ("render_xi.svg", "render-xi")
    } else {
        ("render_han.svg", "render-han")
    }
}

/// The icon of the button that changes the theme, and its tooltip. It shows
/// what a click leads to.
pub fn get_theme_icon(dark_theme: bool) -> (res: (&'static str, &'static str))
    ensures
        (res.0@, res.1@) == theme_face(dark_theme),
{
    if dark_theme {
        ("theme_bright.svg", "theme-bright")
    } else {
        ("theme_dark.svg", "theme-dark")
    }
}

/// The icon of the button that turns the book's own colors on or off, and its
/// tooltip. It shows what a click leads to.
pub fn get_custom_color_icon(custom_color: bool) -> (res: (&'static str, &'static str))
    ensures
        (res.0@, res.1@) == custom_color_face(custom_color),
{
    if custom_color {
        ("custom_color_off.svg", "no-custom-color")
    } else {
        ("custom_color_on.svg", "with-custom-color")
    }
}

/// How a button looks.
#[derive(Debug)]
pub struct ButtonLook {
    /// Which of the icons it shows.
    pub icon: usize,
    /// The width and height of the icon.
    pub size: i32,
    pub tooltip: String,
    /// Whether it stands within a line, and is styled for that.
    pub inline: bool,
}

/// Whether `i` is the place of the icon with this name. Of several, the last
/// one counts.
pub open spec fn icon_at(icons: Seq<Icon>, name: Seq<char>, i: int) -> bool {
    &&& 0 <= i < icons.len()
    &&& icons[i].name@ == name
    &&& forall|j: int| i < j < icons.len() ==> (#[trigger] icons[j]).name@ != name
}

/// Whether there is an icon with this name.
pub open spec fn has_icon(icons: Seq<Icon>, name: Seq<char>) -> bool {
    exists|i: int| 0 <= i < icons.len() && (#[trigger] icons[i]).name@ == name
}

/// The place of the icon with this name.
fn find_icon(icons: &Vec<Icon>, name: &str) -> (res: Option<usize>)
    ensures
        res is Some <==> has_icon(icons@, name@),
        res matches Some(i) ==> icon_at(icons@, name@, i as int),
{
    let mut i: usize = icons.len();
    while i > 0
        invariant
            i <= icons@.len(),
            forall|j: int| i <= j < icons@.len() ==> (#[trigger] icons@[j]).name@ != name@,
        decreases i,
    {
        i = i - 1;
        if text::same_text(icons[i].name.as_str(), name) {
            return Some(i);
        }
    }
    None
}

/// A new button. There is none where the icon is missing.
pub fn create_button(name: &str, tooltip: &str, icons: &Vec<Icon>, inline: bool) -> (res: Option<
    ButtonLook,
>)
    ensures
        res is Some <==> has_icon(icons@, name@),
        res matches Some(look) ==> {
            &&& icon_at(icons@, name@, look.icon as int)
            &&& look.size == (if inline {
                icons::INLINE_ICON_SIZE
            } else {
                icons::ICON_SIZE
            })
            &&& look.tooltip@ == tooltip@
            &&& look.inline == inline
        },
{
    match find_icon(icons, name) {
        Some(icon) => {
            let size: i32 = if inline {
                icons::INLINE_ICON_SIZE
            } else {
                icons::ICON_SIZE
            };
            Some(ButtonLook { icon, size, tooltip: tooltip.to_owned(), inline })
        },
        None => None,
    }
}

/// Another icon and tooltip for a button of the toolbar. There is none where
/// the icon is missing.
pub fn update_button(name: &str, tooltip: &str, icons: &Vec<Icon>) -> (res: Option<ButtonLook>)
    ensures
        res is Some <==> has_icon(icons@, name@),
        res matches Some(look) ==> {
            &&& icon_at(icons@, name@, look.icon as int)
            &&& look.size == icons::ICON_SIZE
            &&& look.tooltip@ == tooltip@
            &&& !look.inline
        },
{
    create_button(name, tooltip, icons, false)
}

/// A button's icon and tooltip.
pub open spec fn faces(list: Seq<(&'static str, &'static str)>) -> Seq<(Seq<char>, Seq<char>)> {
    list.map_values(|face: (&'static str, &'static str)| (face.0@, face.1@))
}

/// The faces of the toolbar's buttons, from left to right.
pub open spec fn toolbar_faces(
    render_han: bool,
    dark_theme: bool,
    custom_color: bool,
) -> Seq<(Seq<char>, Seq<char>)> {
    seq![
        ("sidebar_on.svg"@, "sidebar-on"@),
        ("file_open.svg"@, "file-open"@),
        ("history.svg"@, "history"@),
        render_face(render_han),
        theme_face(dark_theme),
        custom_color_face(custom_color),
        ("setting.svg"@, "settings-dialog"@),
    ]
}

/// The icons and tooltips of the toolbar's buttons, from left to right: the
/// sidebar, opening a file, the history, the layout, the theme, the book's own
/// colors, the settings.
pub fn setup_toolbar(render_han: bool, dark_theme: bool, custom_color: bool) -> (res: Vec<
    (&'static str, &'static str),
>)
    ensures
        faces(res@) == toolbar_faces(render_han, dark_theme, custom_color),
{
    let mut list: Vec<(&'static str, &'static str)> = Vec::new();
    list.push(("sidebar_on.svg", "sidebar-on"));
    list.push(("file_open.svg", "file-open"));
    list.push(("history.svg", "history"));
    list.push(get_render_icon(render_han));
    list.push(get_theme_icon(dark_theme));
    list.push(get_custom_color_icon(custom_color));
    list.push(("setting.svg", "settings-dialog"));
    proof {
        assert(faces(list@) =~= toolbar_faces(render_han, dark_theme, custom_color));
    }
    list
}

/// What the file dialog filters by: each extension without its dot.
pub open spec fn suffixes(extensions: Seq<Seq<char>>) -> Seq<Seq<char>> {
    extensions.map_values(|extension: Seq<char>| extension.skip(1))
}

/// The file suffixes of a list of extensions, each of which starts with a dot
/// or another character of one byte.
pub fn file_suffixes(extensions: &Vec<String>) -> (res: Vec<String>)
    requires
        forall|i: int|
            0 <= i < extensions@.len() ==> {
                let extension = (#[trigger] extensions@[i])@;
                extension.len() > 0 && (extension[0] as u32) < 128
            },
    ensures
        history::texts(res@) == suffixes(history::texts(extensions@)),
{
    let mut list: Vec<String> = Vec::new();
    let mut i: usize = 0;
    while i < extensions.len()
        invariant
            forall|i: int|
                0 <= i < extensions@.len() ==> {
                    let extension = (#[trigger] extensions@[i])@;
                    extension.len() > 0 && (extension[0] as u32) < 128
                },
            i <= extensions@.len(),
            list@.len() == i,
            forall|k: int| 0 <= k < i ==> (#[trigger] list@[k])@ == extensions@[k]@.skip(1),
        decreases extensions@.len() - i,
    {
        let extension = extensions[i].as_str();
        let n: usize = extension.unicode_len();
        list.push(extension.substring_char(1, n).to_owned());
        proof {
            assert(list@[i as int]@ =~= extensions@[i as int]@.skip(1));
        }
        i = i + 1;
    }
    proof {
        assert(history::texts(list@) =~= suffixes(history::texts(extensions@)));
    }
    list
}

/// The action that copies the selected text.
pub const COPY_CONTENT_KEY: &'static str = "copy-content";

/// The action that looks the selected text up.
pub const DICT_LOOKUP_KEY: &'static str = "lookup-dictionary";

/// One entry of the popup menu.
#[derive(Debug)]
pub struct PopupEntry {
    /// The name of the action, under which the translations list its title too.
    pub action: &'static str,
    /// The same action, as the menu refers to it.
    pub menu_action: String,
}

/// The entries of the popup menu, from top to bottom.
pub fn setup_popup_menu() -> (res: Vec<PopupEntry>)
    ensures
        res@.len() == 2,
        res@[0].action@ == COPY_CONTENT_KEY@,
        res@[0].menu_action@ == "popup."@ + COPY_CONTENT_KEY@,
        res@[1].action@ == DICT_LOOKUP_KEY@,
        res@[1].menu_action@ == "popup."@ + DICT_LOOKUP_KEY@,
{
    let mut list: Vec<PopupEntry> = Vec::new();
    list.push(
        PopupEntry {
            action: COPY_CONTENT_KEY,
            menu_action: text::join("popup.", COPY_CONTENT_KEY),
        },
    );
    list.push(
        PopupEntry {
            action: DICT_LOOKUP_KEY,
            menu_action: text::join("popup.", DICT_LOOKUP_KEY),
        },
    );
    list
}

/// What an entry of the popup menu does.
#[derive(Clone, Copy, Debug, PartialEq, Eq, Structural)]
pub enum PopupCommand {
    /// Copies the selected text.
    Copy,
    /// Shows the dictionary, and then looks the selected text up.
    ShowDictionaryAndLookUp,
}

impl PopupCommand {
    /// The tab that is shown first, if one is. It is not hidden where it shows
    /// already.
    pub fn tab_request(self) -> (res: Option<TabRequest>)
        ensures
            match self {
                PopupCommand::Copy => res is None,
                PopupCommand::ShowDictionaryAndLookUp => res matches Some(request) && request.tab@
                    == sidebar::SIDEBAR_DICT_NAME@ && !request.toggle,
            },
    {
        match self {
            PopupCommand::Copy => None,
            PopupCommand::ShowDictionaryAndLookUp => Some(
                TabRequest { tab: sidebar::SIDEBAR_DICT_NAME, toggle: false },
            ),
        }
    }
}

/// An action of the popup menu is activated.
pub fn popup_activated(action: &str) -> (res: Option<PopupCommand>)
    ensures
        action@ == COPY_CONTENT_KEY@ ==> res == Some(PopupCommand::Copy),
        action@ == DICT_LOOKUP_KEY@ ==> res == Some(PopupCommand::ShowDictionaryAndLookUp),
        action@ != COPY_CONTENT_KEY@ && action@ != DICT_LOOKUP_KEY@ ==> res is None,
{
    proof {
        reveal_strlit("copy-content");
        reveal_strlit("lookup-dictionary");
        assert(COPY_CONTENT_KEY@.len() != DICT_LOOKUP_KEY@.len());
    }
    if text::same_text(action, COPY_CONTENT_KEY) {
        Some(PopupCommand::Copy)
    } else if text::same_text(action, DICT_LOOKUP_KEY) {
        Some(PopupCommand::ShowDictionaryAndLookUp)
    } else {
        None
    }
}

/// Half of a length, rounded towards zero.
pub open spec fn half(length: i32) -> int {
    if length >= 0 {
        length as int / 2
    } else {
        -((-length) / 2)
    }
}

/// A click with the right button. Where text is selected the popup menu comes
/// up, and the answer is where it points to: half its width to the right of
/// the click, so that its left edge is there.
pub fn right_click(has_selection: bool, x: i32, width: i32) -> (res: Option<i32>)
    requires
        has_selection ==> i32::MIN <= x + half(width) <= i32::MAX,
    ensures
        res is Some <==> has_selection,
        res matches Some(to) ==> to == x + half(width),
{
    if has_selection {
        Some(x + width / 2)
    } else {
        None
    }
}

/// The faces of the three switches show what a click leads to, each in two
/// shapes.
pub proof fn law_switches_show_what_they_lead_to(
    on: bool,
    render: (&'static str, &'static str),
    theme: (&'static str, &'static str),
    custom_color: (&'static str, &'static str),
)
    requires
        call_ensures(get_render_icon, (on,), render),
        call_ensures(get_theme_icon, (on,), theme),
        call_ensures(get_custom_color_icon, (on,), custom_color),
    ensures
        on ==> render.0@ == "render_xi.svg"@ && render.1@ == "render-xi"@,
        !on ==> render.0@ == "render_han.svg"@ && render.1@ == "render-han"@,
        on ==> theme.0@ == "theme_bright.svg"@ && theme.1@ == "theme-bright"@,
        !on ==> theme.0@ == "theme_dark.svg"@ && theme.1@ == "theme-dark"@,
        on ==> custom_color.0@ == "custom_color_off.svg"@ && custom_color.1@
            == "no-custom-color"@,
        !on ==> custom_color.0@ == "custom_color_on.svg"@ && custom_color.1@
            == "with-custom-color"@,
{
}

/// The toolbar has seven buttons: the sidebar, opening a file, the history, the
/// three switches in their state, and the settings.
pub proof fn law_toolbar_has_its_buttons(
    render_han: bool,
    dark_theme: bool,
    custom_color: bool,
    render: (&'static str, &'static str),
    theme: (&'static str, &'static str),
    color: (&'static str, &'static str),
    res: Vec<(&'static str, &'static str)>,
)
    requires
        call_ensures(get_render_icon, (render_han,), render),
        call_ensures(get_theme_icon, (dark_theme,), theme),
        call_ensures(get_custom_color_icon, (custom_color,), color),
        call_ensures(setup_toolbar, (render_han, dark_theme, custom_color), res),
    ensures
        res@.len() == 7,
        res@[0].0@ == "sidebar_on.svg"@ && res@[0].1@ == "sidebar-on"@,
        res@[1].0@ == "file_open.svg"@ && res@[1].1@ == "file-open"@,
        res@[2].0@ == "history.svg"@ && res@[2].1@ == "history"@,
        res@[3].0@ == render.0@ && res@[3].1@ == render.1@,
        res@[4].0@ == theme.0@ && res@[4].1@ == theme.1@,
        res@[5].0@ == color.0@ && res@[5].1@ == color.1@,
        res@[6].0@ == "setting.svg"@ && res@[6].1@ == "settings-dialog"@,
{
    let shown = faces(res@);
    assert(shown.len() == 7);
    assert(forall|i: int| 0 <= i < 7 ==> #[trigger] shown[i] == (res@[i].0@, res@[i].1@));
    assert(shown[0] == (res@[0].0@, res@[0].1@));
    assert(shown[1] == (res@[1].0@, res@[1].1@));
    assert(shown[2] == (res@[2].0@, res@[2].1@));
    assert(shown[3] == (res@[3].0@, res@[3].1@));
    assert(shown[4] == (res@[4].0@, res@[4].1@));
    assert(shown[5] == (res@[5].0@, res@[5].1@));
    assert(shown[6] == (res@[6].0@, res@[6].1@));
}

/// A button shows the icon of its name: there is one if and only if some icon
/// has that name, and of several the last one counts. A button within a line has
/// half the size of one in the toolbar. A button that gets another face looks
/// like a new one of the toolbar.
pub proof fn law_button_shows_its_icon(
    name: &str,
    tooltip: &str,
    icons: &Vec<Icon>,
    inline: bool,
    res: Option<ButtonLook>,
    updated: Option<ButtonLook>,
)
    requires
        call_ensures(create_button, (name, tooltip, icons, inline), res),
        call_ensures(update_button, (name, tooltip, icons), updated),
    ensures
        res is Some <==> exists|i: int| 0 <= i < icons@.len() && (#[trigger] icons@[i]).name@ == name@,
        res matches Some(look) ==> {
            &&& look.icon < icons@.len()
            &&& icons@[look.icon as int].name@ == name@
            &&& forall|j: int| look.icon < j < icons@.len() ==> (#[trigger] icons@[j]).name@
                != name@
            &&& look.tooltip@ == tooltip@
            &&& look.inline == inline
            &&& look.size == if inline {
                16i32
            } else {
                32i32
            }
        },
        updated is Some <==> res is Some,
        updated matches Some(look) ==> {
            &&& look.icon == res->0.icon
            &&& look.tooltip@ == tooltip@
            &&& !look.inline
            &&& look.size == 32
        },
{
    if let (Some(a), Some(b)) = (res, updated) {
        if a.icon < b.icon {
            assert(icons@[b.icon as int].name@ != name@);
        } else if b.icon < a.icon {
            assert(icons@[a.icon as int].name@ != name@);
        }
    }
}

/// The file dialog filters by each extension, in their order, without the
/// character that it starts with.
pub proof fn law_suffixes_are_extensions_without_dot(
    extensions: &Vec<String>,
    res: Vec<String>,
)
    requires
        forall|i: int|
            0 <= i < extensions@.len() ==> {
                let extension = (#[trigger] extensions@[i])@;
                extension.len() > 0 && (extension[0] as u32) < 128
            },
        call_ensures(file_suffixes, (extensions,), res),
    ensures
        res@.len() == extensions@.len(),
        forall|i: int|
            0 <= i < extensions@.len() ==> extensions@[i]@ == seq![extensions@[i]@[0]] + (
            #[trigger] res@[i])@,
{
    let all = history::texts(extensions@);
    let cut = history::texts(res@);
    assert(cut == suffixes(all));
    assert(cut.len() == all.len());
    assert forall|i: int| 0 <= i < extensions@.len() implies extensions@[i]@
        == seq![extensions@[i]@[0]] + (#[trigger] res@[i])@ by {
        assert(cut[i] == res@[i]@);
        assert(all[i] == extensions@[i]@);
        assert(extensions@[i]@ =~= seq![extensions@[i]@[0]] + all[i].skip(1));
    }
}

/// The popup menu has two entries. The first copies the selection; the second
/// shows the dictionary, without ever hiding it, and looks the selection up.
/// Each is found again under the name of its action, and nothing else is.
pub proof fn law_popup_entries_do_what_they_say(
    entries: Vec<PopupEntry>,
    first: Option<PopupCommand>,
    second: Option<PopupCommand>,
    first_tab: Option<TabRequest>,
    second_tab: Option<TabRequest>,
    other: &str,
    unknown: Option<PopupCommand>,
)
    requires
        call_ensures(setup_popup_menu, (), entries),
        call_ensures(popup_activated, (entries@[0].action,), first),
        call_ensures(popup_activated, (entries@[1].action,), second),
        first is Some ==> call_ensures(PopupCommand::tab_request, (first->0,), first_tab),
        second is Some ==> call_ensures(PopupCommand::tab_request, (second->0,), second_tab),
        other@ != entries@[0].action@,
        other@ != entries@[1].action@,
        call_ensures(popup_activated, (other,), unknown),
    ensures
        entries@.len() == 2,
        entries@[0].action@ == "copy-content"@,
        entries@[1].action@ == "lookup-dictionary"@,
        entries@[0].menu_action@ == "popup."@ + entries@[0].action@,
        entries@[1].menu_action@ == "popup."@ + entries@[1].action@,
        first == Some(PopupCommand::Copy),
        second == Some(PopupCommand::ShowDictionaryAndLookUp),
        first_tab is None,
        second_tab matches Some(request) && request.tab@ == "dictionary_list"@ && !request.toggle,
        unknown is None,
{
}

/// The popup menu comes up exactly where text is selected, with its middle half
/// its width beside the click, so that it starts at the click.
pub proof fn law_popup_starts_at_the_click(
    has_selection: bool,
    x: i32,
    width: i32,
    res: Option<i32>,
)
    requires
        call_ensures(right_click, (has_selection, x, width), res),
    ensures
        res is Some <==> has_selection,
        res matches Some(to) ==> {
            &&& width >= 0 ==> width - 1 <= 2 * (to - x) <= width
            &&& width <= 0 ==> width <= 2 * (to - x) <= width + 1
        },
{
}

} // verus!
