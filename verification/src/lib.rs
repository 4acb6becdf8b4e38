//! The decisions behind the window of a graphical e-book reader.
//!
//! Everything here works on plain values: what a key press asks for, which
//! book is read and which ones stand in the history, how the sidebar opens
//! and closes, which row of the chapter list is selected, what new settings
//! change, which fonts and icons are loaded. The toolkit around it shows
//! windows, reads files and reports back.

pub mod buttons;
pub mod chapters;
pub mod color;
pub mod config;
pub mod context;
pub mod fontbounds;
pub mod fontfile;
pub mod fonts;
pub mod history;
pub mod icons;
pub mod keys;
pub mod readme;
pub mod selection;
pub mod settings;
pub mod sidebar;
pub mod startup;
pub mod text;
