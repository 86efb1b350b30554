use vstd::prelude::*;

verus! {

/// Editor modes.
#[derive(Debug, Clone, Copy, PartialEq, Eq, Structural)]
pub enum Mode {
    /// Navigation (the default).
    Normal,
    /// Typing text.
    Insert,
    /// Typing a command after `:`.
    Command,
    /// Finding and opening files.
    FileFinder,
    /// The help page.
    Help,
    /// Asking whether to write the buffer.
    WriteConfirm,
    /// Asking for a file name to write to.
    FilenamePrompt,
    /// Asking whether to reload the file from disk.
    ReloadConfirm,
    /// Searching for a token across files.
    TokenSearch,
    /// The diagnostics panel.
    DiagnosticsPanel,
    /// The snake game.
    Snake,
    /// Character-wise selection.
    Visual,
    /// Line-wise selection.
    VisualLine,
    /// Waiting for the motion of a delete command.
    Delete,
}

} // verus!
