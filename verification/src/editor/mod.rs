//! Buffers, cursors, viewports and the rest of the editor's state.

pub mod buffer;
pub mod cargo_output;
pub mod commands;
pub mod cursor;
pub mod diagnostics;
pub mod disk_diff;
pub mod file_finder;
pub mod flow;
pub mod history;
pub mod input_modes;
pub mod key_laws;
pub mod laws;
pub mod limits;
pub mod mode;
pub mod modes;
pub mod normal_mode;
pub mod panels;
pub mod session;
pub mod snake;
pub mod syntax;
pub mod tab;
pub mod token_search;
pub mod viewport;
pub mod wrap;

pub use buffer::Buffer;
pub use commands::EditorCommand;
pub use cursor::Cursor;
pub use diagnostics::{Diagnostic, DiagnosticCollection, DiagnosticFilter, DiagnosticSeverity, TextSpan};
pub use history::{ActionType, EditorAction, History};
pub use file_finder::FileFinder;
pub use mode::Mode;
pub use session::{After, CargoDir, CargoReport, Editor, IoOutcome, IoRequest, SaveKind, Step, Then};
pub use snake::{Direction, GameState, Position, Snake};
pub use syntax::{HighlightedLine, SyntaxHighlighter, TextStyle};
pub use tab::Tab;
pub use token_search::{TokenSearch, TokenSearchResult};
pub use viewport::Viewport;
