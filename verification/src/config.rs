//! What the reader remembers between two runs.

use vstd::prelude::*;

use crate::history::ReadingInfo;

verus! {

/// A file that is used while it is enabled.
#[derive(Debug)]
pub struct PathConfig {
    pub enabled: bool,
    pub path: String,
}

/// What a `PathConfig` says.
pub struct PathView {
    pub enabled: bool,
    pub path: Seq<char>,
}

impl View for PathConfig {
    type V = PathView;

    open spec fn view(&self) -> PathView {
        PathView { enabled: self.enabled, path: self.path@ }
    }
}

/// What a list of files says.
pub open spec fn paths(list: Seq<PathConfig>) -> Seq<PathView> {
    list.map_values(|config: PathConfig| config@)
}

/// What concerns the window alone.
#[derive(Debug)]
pub struct GuiConfig {
    pub lang: String,
    pub fonts: Vec<PathConfig>,
    pub dictionaries: Vec<PathConfig>,
    pub cache_dict: bool,
    pub font_size: u8,
    pub sidebar_size: u32,
}

/// All that is remembered.
#[derive(Debug)]
pub struct Configuration {
    /// Whether text runs from top to bottom in the Han manner.
    pub render_han: bool,
    pub dark_theme: bool,
    /// The file that was open last.
    pub current: Option<String>,
    /// The files that were read before, oldest first.
    pub history: Vec<ReadingInfo>,
    pub gui: GuiConfig,
}

/// What is compared of two files in a list is everything: the path, and whether
/// the file is enabled.
pub proof fn law_path_is_compared_in_full(a: PathConfig, b: PathConfig)
    ensures
        a@ == b@ <==> a.enabled == b.enabled && a.path@ == b.path@,
{
}

/// What a list of files says, it says file by file.
pub proof fn law_list_is_compared_in_full(list: Seq<PathConfig>)
    ensures
        paths(list).len() == list.len(),
        forall|i: int|
            0 <= i < list.len() ==> (#[trigger] paths(list)[i]).enabled == list[i].enabled
                && paths(list)[i].path == list[i].path@,
{
}

} // verus!
