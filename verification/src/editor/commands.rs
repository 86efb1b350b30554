//! What a key means in normal mode: first the bindings of the configuration,
//! then the editor's built-in keys.

use vstd::prelude::*;
use crate::config::key_bindings::{CommandMap, BindingModel, first_bound};
use crate::keys::{KeyCode, KeyEvent};
use crate::text::same_text;

verus! {

/// An editor operation, as a command that key bindings can name.
#[derive(Debug, Clone, Copy, PartialEq, Eq, Structural)]
pub enum EditorCommand {
    SaveFile,
    ReloadFile,
    SaveAndQuit,
    Quit,
    EnterNormalMode,
    EnterInsertMode,
    EnterCommandMode,
    EnterFileFinder,
    EnterTokenSearch,
    ShowHelp,
    MoveLeft,
    MoveRight,
    MoveUp,
    MoveDown,
    MoveToLineStart,
    MoveToLineEnd,
    MoveToFileStart,
    MoveToFileEnd,
    PageUp,
    PageDown,
    NewTab,
    CloseTab,
    NextTab,
    PrevTab,
    GotoTab(usize),
    RunCargoCheck,
    RunCargoClippy,
    Undo,
    Redo,
    Noop,
}

/// A command of normal mode.
#[derive(Debug, Clone, Copy, PartialEq, Eq, Structural)]
pub enum NormalCommand {
    Quit,
    InsertMode,
    CommandMode,
    /// Ask whether to write the buffer.
    SaveFile,
    /// Ask whether to write the buffer, then quit.
    SaveAndQuit,
    /// Reload the file from disk.
    ReloadFile,
    /// Compare the buffer with the file on disk and offer to reload it.
    CompareWithDisk,
    SnakeGame,
    MoveLeft,
    MoveDown,
    MoveUp,
    MoveRight,
    MoveToLineStart,
    MoveToLineEnd,
    MoveToFileStart,
    MoveToFileEnd,
    PageUp,
    PageDown,
    RunCargoCheck,
    RunCargoClippy,
    NewTab,
    CloseTab,
    NextTab,
    PrevTab,
    /// Go to the tab with this index (from 0).
    GotoTab(usize),
    ShowHelp,
    FindFile,
    TokenSearch,
    DeleteLine,
    /// Wait for the motion of a delete command.
    DeleteMode,
    /// Delete the character at the cursor and start inserting.
    DeleteCharAndInsert,
    Undo,
    Redo,
    OpenLineBelow,
    OpenLineAbove,
    Visual,
    VisualLine,
    ToggleDiagnostics,
    NextDiagnostic,
    PrevDiagnostic,
    PasteAfter,
    PasteBefore,
    /// The key means nothing.
    Nothing,
}

/// The command that a binding named `name` runs (unknown names run nothing).
pub open spec fn named_command(name: Seq<char>) -> NormalCommand {
    if name == "quit"@ { NormalCommand::Quit }
    else if name == "insert_mode"@ { NormalCommand::InsertMode }
    else if name == "save_file"@ { NormalCommand::SaveFile }
    else if name == "snake_game"@ { NormalCommand::SnakeGame }
    else if name == "reload_file"@ { NormalCommand::ReloadFile }
    else if name == "move_left"@ { NormalCommand::MoveLeft }
    else if name == "move_down"@ { NormalCommand::MoveDown }
    else if name == "move_up"@ { NormalCommand::MoveUp }
    else if name == "move_right"@ { NormalCommand::MoveRight }
    else if name == "move_to_line_start"@ { NormalCommand::MoveToLineStart }
    else if name == "move_to_line_end"@ { NormalCommand::MoveToLineEnd }
    else if name == "move_to_file_start"@ { NormalCommand::MoveToFileStart }
    else if name == "move_to_file_end"@ { NormalCommand::MoveToFileEnd }
    else if name == "page_up"@ { NormalCommand::PageUp }
    else if name == "page_down"@ { NormalCommand::PageDown }
    else if name == "run_cargo_check"@ { NormalCommand::RunCargoCheck }
    else if name == "run_cargo_clippy"@ { NormalCommand::RunCargoClippy }
    else if name == "new_tab"@ { NormalCommand::NewTab }
    else if name == "close_tab"@ { NormalCommand::CloseTab }
    else if name == "save_and_quit"@ { NormalCommand::SaveAndQuit }
    else if name == "next_tab"@ { NormalCommand::NextTab }
    else if name == "prev_tab"@ { NormalCommand::PrevTab }
    else if name == "goto_tab_1"@ { NormalCommand::GotoTab(0) }
    else if name == "goto_tab_2"@ { NormalCommand::GotoTab(1) }
    else if name == "goto_tab_3"@ { NormalCommand::GotoTab(2) }
    else if name == "goto_tab_4"@ { NormalCommand::GotoTab(3) }
    else if name == "goto_tab_5"@ { NormalCommand::GotoTab(4) }
    else if name == "goto_tab_6"@ { NormalCommand::GotoTab(5) }
    else if name == "goto_tab_7"@ { NormalCommand::GotoTab(6) }
    else if name == "goto_tab_8"@ { NormalCommand::GotoTab(7) }
    else if name == "goto_tab_9"@ { NormalCommand::GotoTab(8) }
    else if name == "goto_tab_10"@ { NormalCommand::GotoTab(9) }
    else if name == "goto_tab_11"@ { NormalCommand::GotoTab(10) }
    else if name == "goto_tab_12"@ { NormalCommand::GotoTab(11) }
    else if name == "show_help"@ { NormalCommand::ShowHelp }
    else if name == "find_file"@ { NormalCommand::FindFile }
    else if name == "token_search"@ { NormalCommand::TokenSearch }
    else if name == "delete_line"@ { NormalCommand::DeleteLine }
    else if name == "delete_char"@ { NormalCommand::DeleteCharAndInsert }
    else if name == "undo"@ { NormalCommand::Undo }
    else if name == "redo"@ { NormalCommand::Redo }
    else if name == "open_line_below"@ { NormalCommand::OpenLineBelow }
    else if name == "open_line_above"@ { NormalCommand::OpenLineAbove }
    else { NormalCommand::Nothing }
}

/// The built-in meaning of a key that no binding matched. The keys are tried
/// in this order; "plain" means with neither control, alt nor shift.
pub open spec fn builtin_command(e: KeyEvent) -> NormalCommand {
    let ctrl = e.modifiers.control;
    let alt = e.modifiers.alt;
    let shift = e.modifiers.shift;
    let plain = !ctrl && !alt && !shift;
    match e.code {
        KeyCode::Char(c) => {
            if c == 'q' { NormalCommand::Quit }
            else if c == 'i' { NormalCommand::InsertMode }
            else if c == ':' { NormalCommand::CommandMode }
            else if c == 's' { NormalCommand::SnakeGame }
            else if c == 'w' && !ctrl { NormalCommand::SaveFile }
            else if c == 'e' && plain { NormalCommand::CompareWithDisk }
            else if c == 'X' && !ctrl && !alt { NormalCommand::SaveAndQuit }
            else if c == 'd' && plain { NormalCommand::DeleteMode }
            else if c == 'o' && plain { NormalCommand::OpenLineBelow }
            else if c == 'O' && !ctrl && !alt { NormalCommand::OpenLineAbove }
            else if c == 'v' && plain { NormalCommand::Visual }
            else if c == 'V' && !ctrl && !alt { NormalCommand::VisualLine }
            else if c == 'x' && plain { NormalCommand::DeleteCharAndInsert }
            else if c == 'h' && !ctrl { NormalCommand::MoveLeft }
            else if c == 'j' { NormalCommand::MoveDown }
            else if c == 'k' { NormalCommand::MoveUp }
            else if c == 'l' { NormalCommand::MoveRight }
            else if c == 'o' && ctrl { NormalCommand::FindFile }
            else if c == 't' && ctrl { NormalCommand::TokenSearch }
            else if c == 'e' && ctrl { NormalCommand::ToggleDiagnostics }
            else if c == 'n' && ctrl && shift { NormalCommand::NextDiagnostic }
            else if c == 'p' && ctrl && shift { NormalCommand::PrevDiagnostic }
            else if c == 'p' && plain { NormalCommand::PasteAfter }
            else if c == 'P' && !ctrl && !alt { NormalCommand::PasteBefore }
            else if c == '^' { NormalCommand::MoveToLineStart }
            else if c == '$' { NormalCommand::MoveToLineEnd }
            else if c == 'g' { NormalCommand::MoveToFileStart }
            else if c == 'G' { NormalCommand::MoveToFileEnd }
            else if c == 'b' && ctrl { NormalCommand::PageUp }
            else if c == 'f' && ctrl { NormalCommand::PageDown }
            else if c == 'd' && ctrl { NormalCommand::RunCargoCheck }
            else if c == 'y' && ctrl { NormalCommand::RunCargoClippy }
            else if c == 'h' && ctrl { NormalCommand::ShowHelp }
            else if c == 'u' { NormalCommand::Undo }
            else if c == 'r' && ctrl { NormalCommand::Redo }
            else if c == 'n' && ctrl { NormalCommand::NewTab }
            else if c == 'w' && ctrl { NormalCommand::CloseTab }
            else { NormalCommand::Nothing }
        },
        KeyCode::Right => if ctrl { NormalCommand::NextTab } else { NormalCommand::Nothing },
        KeyCode::Left => if ctrl { NormalCommand::PrevTab } else { NormalCommand::Nothing },
        KeyCode::F(n) => if 1 <= n <= 12 {
            NormalCommand::GotoTab((n - 1) as usize)
        } else {
            NormalCommand::Nothing
        },
        _ => NormalCommand::Nothing,
    }
}

/// What key `e` means in normal mode, given the bindings `entries`: a plain
/// `d` always starts a delete command; otherwise the first binding that
/// matches decides, and with none the built-in meaning.
pub open spec fn normal_command(entries: Seq<(Seq<char>, BindingModel)>, e: KeyEvent) -> NormalCommand {
    if e.code == KeyCode::Char('d') && !e.modifiers.control && !e.modifiers.alt && !e.modifiers.shift {
        NormalCommand::DeleteMode
    } else {
        match first_bound(entries, e) {
            Some(name) => named_command(name),
            None => builtin_command(e),
        }
    }
}

/// The command that a binding named `name` runs.
fn command_named(name: &str) -> (c: NormalCommand)
    ensures
        c == named_command(name@),
{
    if same_text(name, "quit") { NormalCommand::Quit }
    else if same_text(name, "insert_mode") { NormalCommand::InsertMode }
    else if same_text(name, "save_file") { NormalCommand::SaveFile }
    else if same_text(name, "snake_game") { NormalCommand::SnakeGame }
    else if same_text(name, "reload_file") { NormalCommand::ReloadFile }
    else if same_text(name, "move_left") { NormalCommand::MoveLeft }
    else if same_text(name, "move_down") { NormalCommand::MoveDown }
    else if same_text(name, "move_up") { NormalCommand::MoveUp }
    else if same_text(name, "move_right") { NormalCommand::MoveRight }
    else if same_text(name, "move_to_line_start") { NormalCommand::MoveToLineStart }
    else if same_text(name, "move_to_line_end") { NormalCommand::MoveToLineEnd }
    else if same_text(name, "move_to_file_start") { NormalCommand::MoveToFileStart }
    else if same_text(name, "move_to_file_end") { NormalCommand::MoveToFileEnd }
    else if same_text(name, "page_up") { NormalCommand::PageUp }
    else if same_text(name, "page_down") { NormalCommand::PageDown }
    else if same_text(name, "run_cargo_check") { NormalCommand::RunCargoCheck }
    else if same_text(name, "run_cargo_clippy") { NormalCommand::RunCargoClippy }
    else if same_text(name, "new_tab") { NormalCommand::NewTab }
    else if same_text(name, "close_tab") { NormalCommand::CloseTab }
    else if same_text(name, "save_and_quit") { NormalCommand::SaveAndQuit }
    else if same_text(name, "next_tab") { NormalCommand::NextTab }
    else if same_text(name, "prev_tab") { NormalCommand::PrevTab }
    else if same_text(name, "goto_tab_1") { NormalCommand::GotoTab(0) }
    else if same_text(name, "goto_tab_2") { NormalCommand::GotoTab(1) }
    else if same_text(name, "goto_tab_3") { NormalCommand::GotoTab(2) }
    else if same_text(name, "goto_tab_4") { NormalCommand::GotoTab(3) }
    else if same_text(name, "goto_tab_5") { NormalCommand::GotoTab(4) }
    else if same_text(name, "goto_tab_6") { NormalCommand::GotoTab(5) }
    else if same_text(name, "goto_tab_7") { NormalCommand::GotoTab(6) }
    else if same_text(name, "goto_tab_8") { NormalCommand::GotoTab(7) }
    else if same_text(name, "goto_tab_9") { NormalCommand::GotoTab(8) }
    else if same_text(name, "goto_tab_10") { NormalCommand::GotoTab(9) }
    else if same_text(name, "goto_tab_11") { NormalCommand::GotoTab(10) }
    else if same_text(name, "goto_tab_12") { NormalCommand::GotoTab(11) }
    else if same_text(name, "show_help") { NormalCommand::ShowHelp }
    else if same_text(name, "find_file") { NormalCommand::FindFile }
    else if same_text(name, "token_search") { NormalCommand::TokenSearch }
    else if same_text(name, "delete_line") { NormalCommand::DeleteLine }
    else if same_text(name, "delete_char") { NormalCommand::DeleteCharAndInsert }
    else if same_text(name, "undo") { NormalCommand::Undo }
    else if same_text(name, "redo") { NormalCommand::Redo }
    else if same_text(name, "open_line_below") { NormalCommand::OpenLineBelow }
    else if same_text(name, "open_line_above") { NormalCommand::OpenLineAbove }
    else { NormalCommand::Nothing }
}

/// The built-in meaning of `e` (see [`builtin_command`]).
fn builtin(e: &KeyEvent) -> (c: NormalCommand)
    ensures
        c == builtin_command(*e),
{
    let ctrl = e.modifiers.control;
    let alt = e.modifiers.alt;
    let shift = e.modifiers.shift;
    let plain = !ctrl && !alt && !shift;
    match e.code {
        KeyCode::Char(c) => {
            if c == 'q' { NormalCommand::Quit }
            else if c == 'i' { NormalCommand::InsertMode }
            else if c == ':' { NormalCommand::CommandMode }
            else if c == 's' { NormalCommand::SnakeGame }
            else if c == 'w' && !ctrl { NormalCommand::SaveFile }
            else if c == 'e' && plain { NormalCommand::CompareWithDisk }
            else if c == 'X' && !ctrl && !alt { NormalCommand::SaveAndQuit }
            else if c == 'd' && plain { NormalCommand::DeleteMode }
            else if c == 'o' && plain { NormalCommand::OpenLineBelow }
            else if c == 'O' && !ctrl && !alt { NormalCommand::OpenLineAbove }
            else if c == 'v' && plain { NormalCommand::Visual }
            else if c == 'V' && !ctrl && !alt { NormalCommand::VisualLine }
            else if c == 'x' && plain { NormalCommand::DeleteCharAndInsert }
            else if c == 'h' && !ctrl { NormalCommand::MoveLeft }
            else if c == 'j' { NormalCommand::MoveDown }
            else if c == 'k' { NormalCommand::MoveUp }
            else if c == 'l' { NormalCommand::MoveRight }
            else if c == 'o' && ctrl { NormalCommand::FindFile }
            else if c == 't' && ctrl { NormalCommand::TokenSearch }
            else if c == 'e' && ctrl { NormalCommand::ToggleDiagnostics }
            else if c == 'n' && ctrl && shift { NormalCommand::NextDiagnostic }
            else if c == 'p' && ctrl && shift { NormalCommand::PrevDiagnostic }
            else if c == 'p' && plain { NormalCommand::PasteAfter }
            else if c == 'P' && !ctrl && !alt { NormalCommand::PasteBefore }
            else if c == '^' { NormalCommand::MoveToLineStart }
            else if c == '$' { NormalCommand::MoveToLineEnd }
            else if c == 'g' { NormalCommand::MoveToFileStart }
            else if c == 'G' { NormalCommand::MoveToFileEnd }
            else if c == 'b' && ctrl { NormalCommand::PageUp }
            else if c == 'f' && ctrl { NormalCommand::PageDown }
            else if c == 'd' && ctrl { NormalCommand::RunCargoCheck }
            else if c == 'y' && ctrl { NormalCommand::RunCargoClippy }
            else if c == 'h' && ctrl { NormalCommand::ShowHelp }
            else if c == 'u' { NormalCommand::Undo }
            else if c == 'r' && ctrl { NormalCommand::Redo }
            else if c == 'n' && ctrl { NormalCommand::NewTab }
            else if c == 'w' && ctrl { NormalCommand::CloseTab }
            else { NormalCommand::Nothing }
        },
        KeyCode::Right => if ctrl { NormalCommand::NextTab } else { NormalCommand::Nothing },
        KeyCode::Left => if ctrl { NormalCommand::PrevTab } else { NormalCommand::Nothing },
        KeyCode::F(n) => if 1 <= n && n <= 12 {
            NormalCommand::GotoTab((n - 1) as usize)
        } else {
            NormalCommand::Nothing
        },
        _ => NormalCommand::Nothing,
    }
}

/// What key `e` means in normal mode under `bindings` (see [`normal_command`]).
pub fn decide_normal(bindings: &CommandMap, e: &KeyEvent) -> (c: NormalCommand)
    ensures
        c == normal_command(bindings.entries(), *e),
{
    if e.code == KeyCode::Char('d') && !e.modifiers.control && !e.modifiers.alt && !e.modifiers.shift {
        return NormalCommand::DeleteMode;
    }
    match bindings.matching(e) {
        Some(name) => command_named(name.as_str()),
        None => builtin(e),
    }
}

} // verus!
