//! The editor: its tabs, mode and the state of its prompts, and what each key
//! does in each mode.
//!
//! Keys are handled without doing any input or output. Where a key needs
//! work outside (reading or writing a file, listing or searching files,
//! running cargo), the handler returns [`Step::Io`] with the request and what
//! to do after it; the caller does the work and hands the outcome to
//! [`Editor::resume`], which may ask for more.

use vstd::prelude::*;
use std::collections::HashSet;
use crate::config::Config;
use crate::config::key_bindings::CommandMap;
use crate::keys::{KeyCode, KeyEvent, MouseEventKind};
use crate::text::{chars_of, concat, decimal, decimal_string, push_char_to, same_text, substring, trim, trim_string};
use super::buffer::Buffer;
use super::cargo_output::cargo_diagnostics;
use super::commands::{NormalCommand, decide_normal, normal_command};
use super::cursor::Cursor;
use super::diagnostics::{DiagnosticCollection, DiagnosticFilter, models_by_line};
use super::file_finder::FileFinder;
use super::mode::Mode;
use super::snake::{Direction, Snake, room};
use super::syntax::SyntaxHighlighter;
use super::wrap::{wrap_next, wrap_prev};
use super::viewport::scroll_to_show;
use super::tab::{Tab, is_untitled, untitled, starts_with};
use super::token_search::{TokenSearch, TokenSearchResult};

verus! {

/// Where cargo runs.
#[derive(Debug, Clone, Copy, PartialEq, Eq, Structural)]
pub enum CargoDir {
    /// The nearest directory above the current file that holds a
    /// `Cargo.toml`, else the working directory; cargo does not run when
    /// neither can be found.
    ProjectRoot,
    /// The working directory, or `.` when it cannot be read.
    WorkingDir,
}

/// Work outside the editor that a key needs done.
#[derive(Debug)]
pub enum IoRequest {
    /// Read the file at `path`.
    ReadFile { path: String },
    /// Write `content` to the file at `path`.
    WriteFile { path: String, content: String },
    /// List the files under the working directory.
    ListFiles,
    /// Search the files under the working directory for the regular expression `pattern`.
    SearchTokens { pattern: String },
    /// Run `cargo {command}` for the file `current_file`.
    RunCargo { dir: CargoDir, command: String, current_file: String },
}

/// What cargo printed, with what telling the current file apart needs.
pub struct CargoReport {
    /// The standard output, a newline, and the standard error.
    pub output: String,
    /// The file name of the current file's canonical path (of the path as
    /// given when it has none).
    pub current_file_name: String,
    /// For each path reported in the output, whether it names the same file
    /// as the current file (both canonicalised).
    pub same_file: Vec<(String, bool)>,
}

/// The outcome of an [`IoRequest`].
pub enum IoOutcome {
    /// The content read, or why reading failed.
    Read(Result<String, String>),
    /// Whether writing succeeded.
    Written(Result<(), String>),
    /// The files found (paths relative to the working directory), or why listing failed.
    Files(Result<Vec<String>, String>),
    /// The places found (none when the search failed).
    Found(Vec<TokenSearchResult>),
    /// What cargo printed; none when it did not run.
    Cargo(Option<CargoReport>),
}

/// What is left to do once diagnostics have been checked.
#[derive(Debug, Clone, Copy, PartialEq, Eq, Structural)]
pub enum Then {
    Nothing,
    /// Return to normal mode.
    Normal,
    /// Put the cursor at (`column`, `line`), shown a third of the way down,
    /// and return to normal mode.
    GoTo { line: usize, column: usize },
    /// A write was confirmed: quit if asked to, else return to normal mode.
    Finish { should_quit: bool },
    /// A write under a new name was confirmed: quit if asked to, else clear
    /// the prompt and return to normal mode.
    PromptFinish { should_quit: bool },
    /// Go on writing all tabs from tab `next`.
    SaveAll { next: usize, original: usize, all_saved: bool, should_quit: bool },
}

/// Why a buffer is being written.
#[derive(Debug, Clone, Copy, PartialEq, Eq, Structural)]
pub enum SaveKind {
    /// Confirmed in the write prompt.
    Confirm { should_quit: bool },
    /// Under a name typed in the file name prompt.
    Prompt { should_quit: bool },
    /// By the `:w` or `:x` command (`quit` for `:x`).
    Command { quit: bool },
    /// As part of writing all tabs.
    All { next: usize, original: usize, all_saved: bool, should_quit: bool },
}

/// What to do with the outcome of an [`IoRequest`].
#[derive(Debug)]
pub enum After {
    /// Reload the current buffer from what was read; then check it with
    /// cargo if `check`.
    Reloaded { check: bool },
    /// Compare the current buffer with what was read.
    Compared,
    /// Load what was read into the current tab as the file `path`, check it
    /// with cargo, then go on with `then`.
    Loaded { path: String, then: Then },
    /// The current buffer was written to `path` (becoming its name if `named`).
    Saved { path: String, named: bool, kind: SaveKind },
    /// Take the diagnostics cargo reported for the current tab, then go on with `then`.
    Checked { then: Then },
    /// Take the files found as the file finder's candidates; a failure is
    /// reported unless `quiet`.
    Listed { quiet: bool },
    /// Take the places found as the token search's results.
    Searched,
}

/// What handling a key or an outcome leads to.
#[derive(Debug)]
pub enum Step {
    /// Go on reading keys.
    Continue,
    /// Quit the editor.
    Quit,
    /// Stop with this error.
    Failed(String),
    /// Do this work, then hand its outcome to [`Editor::resume`] with the continuation.
    Io(IoRequest, After),
}

/// The editor: tabs, mode, and the state of its prompts and panels.
pub struct Editor {
    pub tabs: Vec<Tab>,
    pub current_tab: usize,
    pub mode: Mode,
    pub file_finder: FileFinder,
    pub token_search: TokenSearch,
    pub config: Config,
    /// Whether confirming a write should also quit.
    pub save_and_quit: bool,
    pub command_text: String,
    pub filename_prompt_text: String,
    /// The lines of the current buffer that differ from the file on disk.
    pub diff_lines: HashSet<usize>,
    pub syntax_highlighter: SyntaxHighlighter,
    /// Whether text changed since the highlighting was last computed.
    pub highlight_stale: bool,
    /// Text yanked for pasting.
    pub clipboard: String,
    pub selected_diagnostic_index: usize,
    pub diagnostics_filter: DiagnosticFilter,
    pub snake_game: Option<Snake>,
}

/// The name of the `n`-th new tab.
pub open spec fn untitled_name(n: nat) -> Seq<char> {
    "untitled-"@ + decimal(n)
}

/// Whether `step` asks to read `path`, then to go on with `after`.
pub open spec fn reads(step: Step, path: Seq<char>) -> bool {
    step matches Step::Io(IoRequest::ReadFile { path: p }, _) && p@ == path
}

/// What closing the current tab does (see [`Editor::close_tab`]): only the
/// tabs and the current tab change; with more than one tab the current one
/// goes, and the tab after it becomes current (the new last one when it was
/// last); a single tab stays.
pub open spec fn closed_tab(o: Editor, n: Editor) -> bool {
    &&& n == Editor { tabs: n.tabs, current_tab: n.current_tab, ..o }
    &&& o.tabs@.len() <= 1 ==> n == o
    &&& o.tabs@.len() > 1 ==> {
        &&& n.tabs@ == o.tabs@.remove(o.current_tab as int)
        &&& n.current_tab == (if o.current_tab < n.tabs@.len() {
            o.current_tab as int
        } else {
            n.tabs@.len() - 1
        })
    }
}

/// What adding a tab does (see [`Editor::add_tab`]): only the tabs and the
/// current tab change; a tab named `untitled-N`, N being the new number of
/// tabs, with one empty line and the cursor at its start, is added at the end
/// and made current. With `usize::MAX` tabs nothing changes.
pub open spec fn added_tab(o: Editor, n: Editor) -> bool {
    &&& n == Editor { tabs: n.tabs, current_tab: n.current_tab, ..o }
    &&& o.tabs@.len() == usize::MAX ==> n == o
    &&& o.tabs@.len() < usize::MAX ==> {
        &&& n.tabs@.len() == o.tabs@.len() + 1
        &&& n.tabs@.subrange(0, o.tabs@.len() as int) == o.tabs@
        &&& n.current_tab == o.tabs@.len()
        &&& n.tab().buffer.file_path matches Some(p) && p@ == untitled_name(n.tabs@.len() as nat)
        &&& n.tab().buffer.text() == seq![Seq::<char>::empty()]
        &&& !n.tab().buffer.is_modified
        &&& n.tab().cursor.x == 0 && n.tab().cursor.y == 0
    }
}

impl Editor {
    /// The editor's invariant: the current tab exists, every tab is
    /// well formed, and so is a running game.
    pub open spec fn wf(&self) -> bool {
        &&& self.current_tab < self.tabs@.len()
        &&& forall|i: int| 0 <= i < self.tabs@.len() ==> (#[trigger] self.tabs@[i]).wf()
        &&& self.snake_game matches Some(s) ==> s.wf()
    }

    /// The current tab.
    pub open spec fn tab(&self) -> Tab {
        self.tabs@[self.current_tab as int]
    }

    /// Whether `self` differs from `old` at most in the current tab.
    pub open spec fn only_tab_changed(&self, old: &Editor) -> bool {
        &&& self.tabs@.len() == old.tabs@.len()
        &&& self.current_tab == old.current_tab
        &&& forall|i: int| 0 <= i < self.tabs@.len() && i != self.current_tab ==> self.tabs@[i] == old.tabs@[i]
        &&& self.mode == old.mode
        &&& self.save_and_quit == old.save_and_quit
        &&& self.command_text == old.command_text
        &&& self.filename_prompt_text == old.filename_prompt_text
        &&& self.clipboard == old.clipboard
        &&& self.selected_diagnostic_index == old.selected_diagnostic_index
        &&& self.diagnostics_filter == old.diagnostics_filter
        &&& self.snake_game == old.snake_game
        &&& self.file_finder == old.file_finder
        &&& self.token_search == old.token_search
        &&& self.config == old.config
        &&& self.diff_lines == old.diff_lines
        &&& self.syntax_highlighter == old.syntax_highlighter
    }

    /// An editor with one empty tab named `untitled-1`, showing the file finder.
    pub fn new_with_config(config: Config) -> (e: Self)
        ensures
            e.wf(),
            e.tabs@.len() == 1,
            e.current_tab == 0,
            e.tab().buffer.file_path matches Some(p) && p@ == "untitled-1"@,
            e.tab().buffer.text() == seq![Seq::<char>::empty()],
            !e.tab().buffer.is_modified,
            e.tab().buffer.selection_start is None,
            e.tab().viewport.top_line == 0,
            e.mode == Mode::FileFinder,
            !e.save_and_quit,
            e.command_text@.len() == 0,
            e.filename_prompt_text@.len() == 0,
            e.diff_lines@.len() == 0,
            e.clipboard@.len() == 0,
            e.selected_diagnostic_index == 0,
            e.diagnostics_filter == DiagnosticFilter::All,
            e.snake_game is None,
            e.config == config,
    {
        let mut tabs: Vec<Tab> = Vec::new();
        tabs.push(Tab::new_with_name("untitled-1"));
        Editor {
            tabs,
            current_tab: 0,
            mode: Mode::FileFinder,
            file_finder: FileFinder::new(),
            token_search: TokenSearch::new(),
            config,
            save_and_quit: false,
            command_text: String::new(),
            filename_prompt_text: String::new(),
            diff_lines: HashSet::new(),
            syntax_highlighter: SyntaxHighlighter::new(),
            highlight_stale: false,
            clipboard: String::new(),
            selected_diagnostic_index: 0,
            diagnostics_filter: DiagnosticFilter::All,
            snake_game: None,
        }
    }

    /// An editor with the default configuration.
    pub fn new() -> (e: Self)
        ensures
            e.wf(),
            e.tabs@.len() == 1,
            e.current_tab == 0,
            e.mode == Mode::FileFinder,
    {
        Self::new_with_config(Config::default())
    }

    /// What the editor asks for when it starts: the files for its file
    /// finder (a failure is not reported).
    pub fn startup_step(&self) -> (s: Step)
        ensures
            s matches Step::Io(IoRequest::ListFiles, After::Listed { quiet }) && quiet,
    {
        Step::Io(IoRequest::ListFiles, After::Listed { quiet: true })
    }

    /// Records that the text changed, so highlighting must be computed again.
    pub fn invalidate_highlight_cache(&mut self)
        ensures
            final(self).highlight_stale,
            final(self).tabs == old(self).tabs,
            final(self).current_tab == old(self).current_tab,
            final(self).mode == old(self).mode,
    {
        self.highlight_stale = true;
    }

    /// Whether highlighting must be computed again; the record is cleared.
    pub fn take_highlight_invalidation(&mut self) -> (r: bool)
        ensures
            r == old(self).highlight_stale,
            !final(self).highlight_stale,
            final(self).tabs == old(self).tabs,
            final(self).current_tab == old(self).current_tab,
            final(self).mode == old(self).mode,
    {
        let r = self.highlight_stale;
        self.highlight_stale = false;
        r
    }

    /// The current tab.
    pub fn current_tab(&self) -> (r: &Tab)
        requires
            self.current_tab < self.tabs@.len(),
        ensures
            *r == self.tab(),
    {
        &self.tabs[self.current_tab]
    }

    /// The current tab, to change.
    pub fn current_tab_mut(&mut self) -> (r: &mut Tab)
        requires
            old(self).current_tab < old(self).tabs@.len(),
        ensures
            *r == old(self).tab(),
            final(self).tabs@ == old(self).tabs@.update(old(self).current_tab as int, *final(r)),
            *final(self) == (Editor { tabs: final(self).tabs, ..*old(self) }),
    {
        &mut self.tabs[self.current_tab]
    }

    /// Adds a tab named `untitled-N`, N being the new number of tabs, and
    /// makes it current. (With `usize::MAX` tabs, which memory cannot hold,
    /// nothing happens.)
    pub fn add_tab(&mut self)
        requires
            old(self).wf(),
        ensures
            final(self).wf(),
            added_tab(*old(self), *final(self)),
    {
        if self.tabs.len() == usize::MAX {
            return;
        }
        let number = decimal_string(self.tabs.len() + 1);
        proof {
            reveal_strlit("untitled-");
        }
        let name = concat("untitled-", number.as_str());
        let ghost before = self.tabs@;
        self.tabs.push(Tab::new_with_name(name.as_str()));
        self.current_tab = self.tabs.len() - 1;
        assert(self.tabs@.subrange(0, before.len() as int) =~= before);
    }

    /// The next tab, wrapping to the first.
    pub fn next_tab(&mut self)
        requires
            old(self).wf(),
        ensures
            final(self).wf(),
            final(self).tabs == old(self).tabs,
            final(self).current_tab == wrap_next(old(self).current_tab as int, old(self).tabs@.len() as int),
            final(self).mode == old(self).mode,
    {
        let n = self.tabs.len();
        self.current_tab = if self.current_tab + 1 < n {
            self.current_tab + 1
        } else {
            0
        };
        proof {
            let c = old(self).current_tab as int;
            if c + 1 < n {
                vstd::arithmetic::div_mod::lemma_small_mod((c + 1) as nat, n as nat);
            } else {
                vstd::arithmetic::div_mod::lemma_mod_self_0(n as int);
            }
        }
    }

    /// The previous tab, wrapping to the last.
    pub fn prev_tab(&mut self)
        requires
            old(self).wf(),
        ensures
            final(self).wf(),
            final(self).tabs == old(self).tabs,
            final(self).current_tab == wrap_prev(old(self).current_tab as int, old(self).tabs@.len() as int),
            final(self).mode == old(self).mode,
    {
        self.current_tab = if self.current_tab == 0 {
            self.tabs.len() - 1
        } else {
            self.current_tab - 1
        };
    }

    /// Tab `index` (from 0), if it exists; otherwise nothing changes.
    pub fn go_to_tab(&mut self, index: usize)
        requires
            old(self).wf(),
        ensures
            final(self).wf(),
            final(self).tabs == old(self).tabs,
            final(self).current_tab == (if index < old(self).tabs@.len() {
                index
            } else {
                old(self).current_tab
            }),
            final(self).mode == old(self).mode,
    {
        if index < self.tabs.len() {
            self.current_tab = index;
        }
    }

    /// Closes the current tab, unless it is the last one; the tab after it
    /// becomes current (the new last one when it was last).
    pub fn close_tab(&mut self)
        requires
            old(self).wf(),
        ensures
            final(self).wf(),
            closed_tab(*old(self), *final(self)),
    {
        if self.tabs.len() > 1 {
            self.tabs.remove(self.current_tab);
            if self.current_tab >= self.tabs.len() {
                self.current_tab = self.tabs.len() - 1;
            }
        }
    }

    /// Scrolls the current tab's viewport to show its cursor (see [`Tab::update_viewport`]).
    pub fn update_viewport(&mut self)
        requires
            old(self).wf(),
        ensures
            final(self).wf(),
            final(self).only_tab_changed(old(self)),
            final(self).tab().buffer == old(self).tab().buffer,
            final(self).tab().cursor == old(self).tab().cursor,
            final(self).tab().diagnostics == old(self).tab().diagnostics,
            final(self).tab().viewport.height == old(self).tab().viewport.height,
            final(self).tab().viewport.width == old(self).tab().viewport.width,
            old(self).tab().cursor.y < usize::MAX && old(self).tab().cursor.x < usize::MAX ==> {
                &&& final(self).tab().viewport.top_line == scroll_to_show(
                    old(self).tab().viewport.top_line as int,
                    old(self).tab().viewport.height as int,
                    old(self).tab().cursor.y as int,
                )
                &&& final(self).tab().viewport.left_column == scroll_to_show(
                    old(self).tab().viewport.left_column as int,
                    old(self).tab().viewport.width as int,
                    old(self).tab().cursor.x as int,
                )
            },
    {
        let i = self.current_tab;
        self.tabs[i].update_viewport();
    }

    /// Sets the size of the current tab's viewport, as the screen has room
    /// for it. (A size whose far edge would pass `usize::MAX` is not taken.)
    pub fn resize_viewport(&mut self, width: usize, height: usize)
        requires
            old(self).wf(),
        ensures
            final(self).wf(),
            final(self).only_tab_changed(old(self)),
            final(self).tab().buffer == old(self).tab().buffer,
            final(self).tab().cursor == old(self).tab().cursor,
            ({
                let v = old(self).tab().viewport;
                v.top_line + height <= usize::MAX && v.left_column + width <= usize::MAX ==> {
                    &&& final(self).tab().viewport.width == width
                    &&& final(self).tab().viewport.height == height
                }
            }),
    {
        let i = self.current_tab;
        let v = &self.tabs[i].viewport;
        if v.top_line <= usize::MAX - height && v.left_column <= usize::MAX - width {
            self.tabs[i].viewport.update_dimensions(width, height);
        }
    }

    /// Scrolls the current tab's viewport with the mouse wheel: three lines
    /// down (no further than the last line allows) or up (no further than
    /// the top). Other mouse events, or an editor without a current tab,
    /// change nothing.
    pub fn handle_mouse(&mut self, kind: MouseEventKind) -> (s: Step)
        requires
            forall|i: int| 0 <= i < old(self).tabs@.len() ==> (#[trigger] old(self).tabs@[i]).wf(),
        ensures
            s is Continue,
            forall|i: int| 0 <= i < final(self).tabs@.len() ==> (#[trigger] final(self).tabs@[i]).wf(),
            final(self).tabs@.len() == old(self).tabs@.len(),
            final(self).current_tab == old(self).current_tab,
            final(self).mode == old(self).mode,
            old(self).current_tab < old(self).tabs@.len() ==> {
                let v = old(self).tab().viewport;
                let lines = old(self).tab().buffer.text().len() as int;
                &&& final(self).tab().buffer == old(self).tab().buffer
                &&& final(self).tab().cursor == old(self).tab().cursor
                &&& kind == MouseEventKind::ScrollUp ==> final(self).tab().viewport.top_line == (if v.top_line > 3 {
                    v.top_line - 3
                } else {
                    0
                })
                &&& kind == MouseEventKind::ScrollDown && lines < usize::MAX ==> final(self).tab().viewport.top_line == (if v.top_line + 3
                    <= super::viewport::max_top_line(lines, v.height as int) {
                    v.top_line + 3
                } else {
                    super::viewport::max_top_line(lines, v.height as int)
                })
                &&& kind == MouseEventKind::Other ==> final(self).tab() == old(self).tab()
            },
    {
        if self.tabs.len() == 0 || self.current_tab >= self.tabs.len() {
            return Step::Continue;
        }
        let i = self.current_tab;
        match kind {
            MouseEventKind::ScrollDown => {
                let max_line = self.tabs[i].buffer.lines.len();
                if max_line < usize::MAX {
                    self.tabs[i].viewport.scroll_down(3, max_line);
                }
            },
            MouseEventKind::ScrollUp => {
                self.tabs[i].viewport.scroll_up(3);
            },
            MouseEventKind::Other => {},
        }
        Step::Continue
    }

    /// Moves to the next line with diagnostics (see [`Tab::goto_diagnostic`]).
    pub fn goto_next_diagnostic(&mut self)
        requires
            old(self).wf(),
        ensures
            final(self).wf(),
            final(self).only_tab_changed(old(self)),
            super::tab::went_to_diagnostic(old(self).tab(), final(self).tab(), true),
    {
        let i = self.current_tab;
        self.tabs[i].goto_diagnostic(true);
    }

    /// Moves to the previous line with diagnostics (see [`Tab::goto_diagnostic`]).
    pub fn goto_prev_diagnostic(&mut self)
        requires
            old(self).wf(),
        ensures
            final(self).wf(),
            final(self).only_tab_changed(old(self)),
            super::tab::went_to_diagnostic(old(self).tab(), final(self).tab(), false),
    {
        let i = self.current_tab;
        self.tabs[i].goto_diagnostic(false);
    }

    /// Whether the current viewport has room for a snake board (see
    /// [`Editor::start_snake_game`]).
    pub fn snake_fits(&self) -> (r: bool)
        requires
            self.wf(),
        ensures
            r == board_fits(self.tab().viewport.width, self.tab().viewport.height),
    {
        let (w, h) = board_size(self.tabs[self.current_tab].viewport.width, self.tabs[self.current_tab].viewport.height);
        8 <= w && 3 <= h && room_exec(w, h)
    }

    /// Starts the snake game on a board of a quarter of the viewport's width
    /// and a third of its height, at most 20 by 15.
    pub fn start_snake_game(&mut self)
        requires
            old(self).wf(),
            board_fits(old(self).tab().viewport.width, old(self).tab().viewport.height),
        ensures
            final(self).wf(),
            final(self).tabs == old(self).tabs,
            final(self).current_tab == old(self).current_tab,
            final(self).mode == Mode::Snake,
            final(self).snake_game matches Some(s) && {
                let (w, h) = board_dims(old(self).tab().viewport.width, old(self).tab().viewport.height);
                s@.width == w && s@.height == h && s@.score == 0
            },
    {
        let (w, h) = board_size(self.tabs[self.current_tab].viewport.width, self.tabs[self.current_tab].viewport.height);
        assert(w * h <= 300) by (nonlinear_arith)
            requires
                w <= 20,
                h <= 15,
        ;
        self.snake_game = Some(Snake::new(w, h));
        self.mode = Mode::Snake;
    }
}

/// The board of the snake game for a viewport of `width` × `height`.
pub open spec fn board_dims(width: usize, height: usize) -> (usize, usize) {
    (
        if width / 4 < 20 { (width / 4) as usize } else { 20 },
        if height / 3 < 15 { (height / 3) as usize } else { 15 },
    )
}

/// Whether a viewport of `width` × `height` gives a board the game can be
/// played on (see [`Snake::new`]): at least 8 by 3, which the snake's start
/// needs, and with room inside the border for food until the game is won
/// (see [`room`]); on a smaller board, placing food could find no free cell
/// and never end, so no game starts there.
pub open spec fn board_fits(width: usize, height: usize) -> bool {
    let (w, h) = board_dims(width, height);
    8 <= w && 3 <= h && room(w as int, h as int)
}

fn board_size(width: usize, height: usize) -> (r: (usize, usize))
    ensures
        r == board_dims(width, height),
{
    (if width / 4 < 20 { width / 4 } else { 20 }, if height / 3 < 15 { height / 3 } else { 15 })
}

fn room_exec(w: usize, h: usize) -> (r: bool)
    requires
        8 <= w <= 20,
        3 <= h <= 15,
    ensures
        r == room(w as int, h as int),
{
    assert((w - 2) * (h - 2) <= 18 * 13) by (nonlinear_arith)
        requires
            8 <= w <= 20,
            3 <= h <= 15,
    ;
    assert(w * h <= 300) by (nonlinear_arith)
        requires
            w <= 20,
            h <= 15,
    ;
    (w - 2) * (h - 2) > 2 + w * h / 4
}

} // verus!
