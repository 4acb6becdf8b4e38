//! What is done with the text that is selected on the page.

use vstd::prelude::*;

use crate::history::Position;
use crate::sidebar;
use crate::text;

verus! {

/// The places between which text is selected, as the page reports them.
pub fn select_text(from_line: u64, from_offset: u64, to_line: u64, to_offset: u64) -> (res: (
    Position,
    Position,
))
    ensures
        res.0 == (Position { line: from_line as usize, offset: from_offset as usize }),
        res.1 == (Position { line: to_line as usize, offset: to_offset as usize }),
{
    (
        Position::new(from_line as usize, from_offset as usize),
        Position::new(to_line as usize, to_offset as usize),
    )
}

/// What is looked up in the dictionary when text has been selected: the text,
/// while the dictionary is in front.
pub fn text_selected(selected: Option<&str>, visible: Option<&str>) -> (res: Option<String>)
    ensures
        res is Some <==> selected is Some && text::text_of(visible) == Some(
            sidebar::SIDEBAR_DICT_NAME@,
        ),
        res matches Some(lookup) ==> text::text_of(selected) == Some(lookup@),
{
    match selected {
        Some(selected_text) => match visible {
            Some(current_tab) => if text::same_text(current_tab, sidebar::SIDEBAR_DICT_NAME) {
                Some(selected_text.to_owned())
            } else {
                None
            },
            None => None,
        },
        None => None,
    }
}

/// What is looked up in the dictionary on request: the selected text, if any.
pub fn lookup_selection(selected: Option<&str>) -> (res: Option<String>)
    ensures
        res is Some <==> selected is Some,
        res matches Some(lookup) ==> text::text_of(selected) == Some(lookup@),
{
    match selected {
        Some(selected_text) => Some(selected_text.to_owned()),
        None => None,
    }
}

/// What goes to the clipboard on request: the selected text, if any.
pub fn copy_selection(selected: Option<&str>) -> (res: Option<String>)
    ensures
        res is Some <==> selected is Some,
        res matches Some(copied) ==> text::text_of(selected) == Some(copied@),
{
    match selected {
        Some(selected_text) => Some(selected_text.to_owned()),
        None => None,
    }
}

/// The text that is selected goes to the clipboard and to the dictionary as it
/// is. Without a selection nothing does. A selection is looked up by itself
/// exactly while the dictionary is in front.
pub proof fn law_selection_goes_where_it_is_wanted(
    selected: Option<&str>,
    visible: Option<&str>,
    copied: Option<String>,
    looked_up: Option<String>,
    by_itself: Option<String>,
)
    requires
        call_ensures(copy_selection, (selected,), copied),
        call_ensures(lookup_selection, (selected,), looked_up),
        call_ensures(text_selected, (selected, visible), by_itself),
    ensures
        match selected {
            Some(chosen) => {
                &&& copied matches Some(t) && t@ == chosen@
                &&& looked_up matches Some(t) && t@ == chosen@
                &&& by_itself is Some <==> visible is Some && visible->0@ == "dictionary_list"@
                &&& by_itself matches Some(t) ==> t@ == chosen@
            },
            None => copied is None && looked_up is None && by_itself is None,
        },
{
}

/// A selection runs from the first place to the second, each with its line and
/// its offset, as far as they can be told.
pub proof fn law_selection_runs_as_reported(
    from_line: u64,
    from_offset: u64,
    to_line: u64,
    to_offset: u64,
    res: (Position, Position),
)
    requires
        from_line <= usize::MAX,
        from_offset <= usize::MAX,
        to_line <= usize::MAX,
        to_offset <= usize::MAX,
        call_ensures(select_text, (from_line, from_offset, to_line, to_offset), res),
    ensures
        res.0.line == from_line,
        res.0.offset == from_offset,
        res.1.line == to_line,
        res.1.offset == to_offset,
{
}

} // verus!
