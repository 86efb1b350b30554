//! What the terminal shows, as plain values: which screen a mode draws, and
//! the pieces of styled text of each part of it. Drawing them is left to the
//! terminal front end.

pub mod panes;
pub mod text_area;

use vstd::prelude::*;
use crate::editor::Mode;

verus! {

/// The size of the text area, handed back to the editor after drawing so
/// that scrolling can follow it.
#[derive(Clone, Copy, Debug, PartialEq, Eq, Structural)]
pub struct ViewportUpdate {
    pub width: usize,
    pub height: usize,
}

/// A terminal colour.
#[derive(Clone, Copy, Debug, PartialEq, Eq)]
pub enum Colour {
    /// The terminal's own colour.
    Reset,
    Black,
    Red,
    Green,
    Yellow,
    Blue,
    Cyan,
    Gray,
    DarkGray,
    LightBlue,
    LightCyan,
    White,
    Rgb(u8, u8, u8),
}

/// How a piece of text is drawn: the colours it sets (none leaves the
/// terminal's) and its font style.
#[derive(Clone, Copy, Debug, PartialEq, Eq)]
pub struct Look {
    pub fg: Option<Colour>,
    pub bg: Option<Colour>,
    pub bold: bool,
    pub italic: bool,
    pub underline: bool,
}

/// No colour and no font style.
pub open spec fn plain_look() -> Look {
    Look { fg: None, bg: None, bold: false, italic: false, underline: false }
}

/// The foreground colour `c`, nothing else.
pub open spec fn fg_look(c: Colour) -> Look {
    Look { fg: Some(c), bg: None, bold: false, italic: false, underline: false }
}

/// The foreground colour `c`, in bold.
pub open spec fn bold_look(c: Colour) -> Look {
    Look { fg: Some(c), bg: None, bold: true, italic: false, underline: false }
}

/// The foreground colour `c`, in italics.
pub open spec fn italic_look(c: Colour) -> Look {
    Look { fg: Some(c), bg: None, bold: false, italic: true, underline: false }
}

/// `top` drawn over `base`: the colours that `top` sets replace those of
/// `base`, and the font styles add up.
pub open spec fn patched(base: Look, top: Look) -> Look {
    Look {
        fg: if top.fg is Some { top.fg } else { base.fg },
        bg: if top.bg is Some { top.bg } else { base.bg },
        bold: base.bold || top.bold,
        italic: base.italic || top.italic,
        underline: base.underline || top.underline,
    }
}

impl Look {
    pub fn plain() -> (l: Self)
        ensures
            l == plain_look(),
    {
        Look { fg: None, bg: None, bold: false, italic: false, underline: false }
    }

    pub fn fg(c: Colour) -> (l: Self)
        ensures
            l == fg_look(c),
    {
        Look { fg: Some(c), bg: None, bold: false, italic: false, underline: false }
    }

    pub fn bold(c: Colour) -> (l: Self)
        ensures
            l == bold_look(c),
    {
        Look { fg: Some(c), bg: None, bold: true, italic: false, underline: false }
    }

    pub fn italic(c: Colour) -> (l: Self)
        ensures
            l == italic_look(c),
    {
        Look { fg: Some(c), bg: None, bold: false, italic: true, underline: false }
    }

    /// `top` drawn over `self` (see [`patched`]).
    pub fn patch(&self, top: &Look) -> (l: Self)
        ensures
            l == patched(*self, *top),
    {
        Look {
            fg: if top.fg.is_some() { top.fg } else { self.fg },
            bg: if top.bg.is_some() { top.bg } else { self.bg },
            bold: self.bold || top.bold,
            italic: self.italic || top.italic,
            underline: self.underline || top.underline,
        }
    }
}

/// A piece of text and how it is drawn.
#[derive(Clone, Debug)]
pub struct Piece {
    pub text: String,
    pub look: Look,
}

/// A piece as its text and look.
pub open spec fn piece_of(p: Piece) -> (Seq<char>, Look) {
    (p.text@, p.look)
}

/// Pieces as texts and looks.
pub open spec fn pieces_of(v: Seq<Piece>) -> Seq<(Seq<char>, Look)> {
    v.map_values(|p: Piece| piece_of(p))
}

impl Piece {
    pub fn new(text: String, look: Look) -> (p: Self)
        ensures
            piece_of(p) == (text@, look),
    {
        Piece { text, look }
    }
}

/// What the screen shows below the tab bar and above the status line.
#[derive(Clone, Copy, Debug, PartialEq, Eq, Structural)]
pub enum Screen {
    FileFinder,
    Help,
    FilenamePrompt,
    /// The text of the current tab; `highlight_changes` marks changed lines,
    /// the lines that differ from the file on disk where `against_disk`, else
    /// the modified ones.
    Text { highlight_changes: bool, against_disk: bool },
    /// The text of the current tab with the selection marked.
    Selection,
}

/// The screen that `mode` shows.
pub open spec fn screen_of(mode: Mode) -> Screen {
    match mode {
        Mode::FileFinder => Screen::FileFinder,
        Mode::Help => Screen::Help,
        Mode::WriteConfirm => Screen::Text { highlight_changes: true, against_disk: false },
        Mode::ReloadConfirm => Screen::Text { highlight_changes: true, against_disk: true },
        Mode::FilenamePrompt => Screen::FilenamePrompt,
        Mode::Visual => Screen::Selection,
        Mode::VisualLine => Screen::Selection,
        _ => Screen::Text { highlight_changes: false, against_disk: false },
    }
}

/// The screen that `mode` shows (see [`screen_of`]).
pub fn screen_for(mode: Mode) -> (s: Screen)
    ensures
        s == screen_of(mode),
{
    match mode {
        Mode::FileFinder => Screen::FileFinder,
        Mode::Help => Screen::Help,
        Mode::WriteConfirm => Screen::Text { highlight_changes: true, against_disk: false },
        Mode::ReloadConfirm => Screen::Text { highlight_changes: true, against_disk: true },
        Mode::FilenamePrompt => Screen::FilenamePrompt,
        Mode::Visual => Screen::Selection,
        Mode::VisualLine => Screen::Selection,
        _ => Screen::Text { highlight_changes: false, against_disk: false },
    }
}

} // verus!
