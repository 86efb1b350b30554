//! Editor settings: the colour theme, display options and key bindings.

pub mod key_bindings;

pub use key_bindings::{KeyBinding, KeyBindings, CommandMap};

use vstd::prelude::*;

verus! {

/// The editor's settings.
pub struct Config {
    pub theme: Theme,
    pub tab_size: usize,
    pub line_numbers: bool,
    pub wrap_text: bool,
    pub key_bindings: KeyBindings,
}

/// The colours of the interface, as `#rrggbb` strings.
pub struct Theme {
    pub background: String,
    pub foreground: String,
    pub selection: String,
    pub cursor: String,
    pub status_line_bg: String,
    pub status_line_fg: String,
}

pub fn default_tab_size() -> (r: usize)
    ensures
        r == 4,
{
    4
}

pub fn default_line_numbers() -> (r: bool)
    ensures
        r,
{
    true
}

pub fn default_wrap_text() -> (r: bool)
    ensures
        r,
{
    true
}

pub fn default_background() -> (r: String)
    ensures
        r@ == "#282c34"@,
{
    "#282c34".to_owned()
}

pub fn default_foreground() -> (r: String)
    ensures
        r@ == "#abb2bf"@,
{
    "#abb2bf".to_owned()
}

pub fn default_selection() -> (r: String)
    ensures
        r@ == "#3e4451"@,
{
    "#3e4451".to_owned()
}

pub fn default_cursor() -> (r: String)
    ensures
        r@ == "#528bff"@,
{
    "#528bff".to_owned()
}

pub fn default_status_line_bg() -> (r: String)
    ensures
        r@ == "#4b5263"@,
{
    "#4b5263".to_owned()
}

pub fn default_status_line_fg() -> (r: String)
    ensures
        r@ == "#abb2bf"@,
{
    "#abb2bf".to_owned()
}

impl Default for Theme {
    fn default() -> (t: Self)
        ensures
            t.background@ == "#282c34"@,
            t.foreground@ == "#abb2bf"@,
            t.selection@ == "#3e4451"@,
            t.cursor@ == "#528bff"@,
            t.status_line_bg@ == "#4b5263"@,
            t.status_line_fg@ == "#abb2bf"@,
    {
        Theme {
            background: default_background(),
            foreground: default_foreground(),
            selection: default_selection(),
            cursor: default_cursor(),
            status_line_bg: default_status_line_bg(),
            status_line_fg: default_status_line_fg(),
        }
    }
}

impl Default for Config {
    fn default() -> (c: Self)
        ensures
            c.theme.background@ == "#282c34"@,
            c.theme.foreground@ == "#abb2bf"@,
            c.theme.selection@ == "#3e4451"@,
            c.theme.cursor@ == "#528bff"@,
            c.theme.status_line_bg@ == "#4b5263"@,
            c.theme.status_line_fg@ == "#abb2bf"@,
            c.tab_size == 4,
            c.line_numbers,
            c.wrap_text,
            c.key_bindings.wf(),
            c.key_bindings.normal_mode.as_map() == key_bindings::default_normal_mode(),
            c.key_bindings.insert_mode.as_map() == key_bindings::default_insert_mode(),
            c.key_bindings.command_mode.as_map() == key_bindings::default_command_mode(),
            c.key_bindings.file_finder_mode.as_map() == key_bindings::default_file_finder_mode(),
            c.key_bindings.token_search_mode.as_map() == key_bindings::default_token_search_mode(),
            c.key_bindings.help_mode.as_map() == key_bindings::default_help_mode(),
    {
        Config {
            theme: Theme::default(),
            tab_size: default_tab_size(),
            line_numbers: default_line_numbers(),
            wrap_text: default_wrap_text(),
            key_bindings: KeyBindings::default(),
        }
    }
}

} // verus!
