//! What keys do in the modes other than normal mode, and how the editor goes
//! on once outside work is done.

use vstd::prelude::*;
use super::buffer::{Buffer, join_lines, extended_to, insert_padded};
use super::commands::NormalCommand;
use super::cursor::Cursor;
use super::diagnostics::{DiagnosticCollection, DiagnosticFilter};
use super::mode::Mode;
use super::normal_mode::{normal_effect, in_mode};
use super::session::{After, CargoDir, CargoReport, Editor, IoOutcome, IoRequest, SaveKind, Step, Then};
use super::snake::Direction;
use super::tab::{Tab, is_untitled, untitled, starts_with};
use super::token_search::TokenSearchResult;
use crate::config::key_bindings::{CommandMap, first_bound};
use crate::keys::{KeyCode, KeyEvent};
use crate::text::{chars_of, concat, push_char_to, same_text, substring, trim, trim_string, char_len};

verus! {

/// The number of bytes of `s` in UTF-8.
pub open spec fn utf8_len(s: Seq<char>) -> nat
    decreases s.len(),
{
    if s.len() == 0 {
        0
    } else {
        let c = s.last() as u32;
        utf8_len(s.drop_last()) + if c < 0x80 {
            1nat
        } else if c < 0x800 {
            2nat
        } else if c < 0x10000 {
            3nat
        } else {
            4nat
        }
    }
}

/// `str::len`: the number of bytes of `s` in UTF-8.
#[verifier::external_body]
pub(crate) fn byte_len(s: &str) -> (n: usize)
    ensures
        n == utf8_len(s@),
{
    s.len()
}

/// The first of `entries` whose binding matches `e` and whose command is one
/// of `names`.
pub open spec fn first_bound_among(
    entries: Seq<(Seq<char>, crate::config::key_bindings::BindingModel)>,
    e: KeyEvent,
    names: Set<Seq<char>>,
) -> Option<Seq<char>>
    decreases entries.len(),
{
    if entries.len() == 0 {
        None
    } else if crate::config::key_bindings::binding_matches(entries[0].1, e) && names.contains(entries[0].0) {
        Some(entries[0].0)
    } else {
        first_bound_among(entries.drop_first(), e, names)
    }
}

/// The commands of token search mode.
pub open spec fn search_commands() -> Set<Seq<char>> {
    set!["cancel"@, "select"@, "next"@, "previous"@]
}

/// `s` without its last character, if it has one.
pub open spec fn without_last(s: Seq<char>) -> Seq<char> {
    if s.len() > 0 {
        s.drop_last()
    } else {
        s
    }
}

/// `s` without its last character, if it has one.
fn pop_char(s: &String) -> (r: String)
    ensures
        r@ == without_last(s@),
{
    let n = char_len(s.as_str());
    if n > 0 {
        let r = substring(s.as_str(), 0, n - 1);
        assert(r@ =~= s@.drop_last());
        r
    } else {
        let r = s.clone();
        r
    }
}

/// Whether tab `t` can be written under its own name: it has one, and it
/// does not start with `untitled-`.
pub open spec fn savable(t: Tab) -> bool {
    t.buffer.file_path matches Some(p) && !untitled(p@)
}

/// The name of tab `t`'s buffer (empty without one).
pub open spec fn name_of(t: Tab) -> Seq<char> {
    match t.buffer.file_path {
        Some(p) => p@,
        None => Seq::empty(),
    }
}

/// The first savable tab from index `from` on, or the number of tabs when
/// there is none.
pub open spec fn first_savable_from(tabs: Seq<Tab>, from: int) -> int
    decreases tabs.len() - from,
{
    if from >= tabs.len() {
        tabs.len() as int
    } else if savable(tabs[from]) {
        from
    } else {
        first_savable_from(tabs, from + 1)
    }
}

/// The first savable tab from `from` on lies at or after `from`, and is
/// savable when it is a tab.
proof fn lemma_first_savable(tabs: Seq<Tab>, from: int)
    requires
        0 <= from,
    ensures
        from <= first_savable_from(tabs, from) <= tabs.len() || from > tabs.len(),
        first_savable_from(tabs, from) < tabs.len() ==> savable(tabs[first_savable_from(tabs, from)]),
    decreases tabs.len() - from,
{
    if from < tabs.len() && !savable(tabs[from]) {
        lemma_first_savable(tabs, from + 1);
    }
}

/// What saving the current buffer at `path` is to be followed by.
pub open spec fn writes(s: Step, path: Seq<char>, content: Seq<char>, named: bool, kind: SaveKind) -> bool {
    s matches Step::Io(IoRequest::WriteFile { path: p, content: c }, After::Saved { path: q, named: m, kind: k })
        && p@ == path && c@ == content && q@ == path && m == named && k == kind
}

/// What the command line `cmd` of command mode does: `w`/`write` writes the
/// buffer, `w NAME`/`write NAME` writes it to `NAME`, `q`/`quit` and
/// `q!`/`quit!` quit, `x` writes and quits, `x NAME` writes to `NAME` and
/// quits, and `e`/`edit` reloads the file. A buffer named `untitled-` is not
/// written or reloaded under its name. The editor returns to normal mode
/// unless it quits.
pub open spec fn command_effect(o: Editor, n: Editor, cmd: Seq<char>, s: Step) -> bool {
    let file = o.tab().buffer.file_path;
    let content = join_lines(o.tab().buffer.text());
    let normal = n == Editor { mode: Mode::Normal, command_text: n.command_text, ..o } && n.command_text@.len() == 0;
    if cmd == "q"@ || cmd == "quit"@ || cmd == "q!"@ || cmd == "quit!"@ {
        s is Quit && n == Editor { command_text: n.command_text, ..o } && n.command_text@.len() == 0
    } else if cmd == "w"@ || cmd == "write"@ || cmd == "x"@ {
        normal && match file {
            Some(p) => if untitled(p@) {
                s is Continue
            } else {
                writes(s, p@, content, false, SaveKind::Command { quit: cmd == "x"@ })
            },
            None => s is Continue,
        }
    } else if "w "@.is_prefix_of(cmd) || "write "@.is_prefix_of(cmd) || "x "@.is_prefix_of(cmd) {
        let name = trim(if "write "@.is_prefix_of(cmd) {
            cmd.subrange(6, cmd.len() as int)
        } else {
            cmd.subrange(2, cmd.len() as int)
        });
        normal && if name.len() > 0 {
            writes(s, name, content, true, SaveKind::Command { quit: "x "@.is_prefix_of(cmd) })
        } else {
            s is Continue
        }
    } else if cmd == "e"@ || cmd == "edit"@ {
        normal && match file {
            Some(p) => if untitled(p@) {
                s is Continue
            } else {
                s matches Step::Io(IoRequest::ReadFile { path }, After::Reloaded { check }) && path@ == p@
                    && !check
            },
            None => s is Continue,
        }
    } else {
        normal && s is Continue
    }
}

/// What a key does in command mode (see [`Editor::handle_command_mode`]).
pub open spec fn command_key_effect(o: Editor, n: Editor, key: KeyEvent, s: Step) -> bool {
    &&& match first_bound(o.config.key_bindings.command_mode.entries(), key) {
                    Some(name) => s is Continue && if name == "normal_mode"@ {
                        n == Editor { mode: Mode::Normal, command_text: n.command_text, ..o }
                            && n.command_text@.len() == 0
                    } else {
                        n == o
                    },
                    None => match key.code {
                        KeyCode::Esc => s is Continue && n == Editor {
                            mode: Mode::Normal,
                            command_text: n.command_text,
                            ..o
                        } && n.command_text@.len() == 0,
                        KeyCode::Char(c) => s is Continue && n == Editor {
                            command_text: n.command_text,
                            ..o
                        } && n.command_text@ == o.command_text@.push(c),
                        KeyCode::Backspace => s is Continue && n == Editor {
                            command_text: n.command_text,
                            ..o
                        } && n.command_text@ == without_last(o.command_text@),
                        KeyCode::Enter => command_effect(
                            Editor { command_text: n.command_text, ..o },
                            n,
                            o.command_text@,
                            s,
                        ) && n.command_text@.len() == 0,
                        _ => s is Continue && n == o,
                    },
                }
}

/// What a key does on the help page (see [`Editor::handle_help_mode`]).
pub open spec fn help_key_effect(o: Editor, n: Editor, key: KeyEvent, s: Step) -> bool {
    &&& s is Continue
    &&& match first_bound(o.config.key_bindings.help_mode.entries(), key) {
                    Some(name) => if name == "normal_mode"@ {
                        in_mode(n, o, Mode::Normal)
                    } else {
                        n == o
                    },
                    None => if key.code == KeyCode::Esc || key.code == KeyCode::Char('q') {
                        in_mode(n, o, Mode::Normal)
                    } else {
                        n == o
                    },
                }
}

/// What a key does when asked whether to reload (see [`Editor::handle_reload_confirm_mode`]).
pub open spec fn reload_key_effect(o: Editor, n: Editor, key: KeyEvent, s: Step) -> bool {
    &&& ({
                    let c = key.code;
                    if c == KeyCode::Char('y') || c == KeyCode::Char('Y') || c == KeyCode::Char('n') || c
                        == KeyCode::Char('N') || c == KeyCode::Esc {
                        &&& n == Editor { mode: Mode::Normal, diff_lines: n.diff_lines, ..o }
                        &&& n.diff_lines@.len() == 0
                        &&& (c == KeyCode::Char('y') || c == KeyCode::Char('Y')) ==> match o.tab().buffer.file_path {
                            Some(p) => if untitled(p@) {
                                s is Continue
                            } else {
                                s matches Step::Io(IoRequest::ReadFile { path }, After::Reloaded { check })
                                    && path@ == p@ && !check
                            },
                            None => s is Continue,
                        }
                        &&& !(c == KeyCode::Char('y') || c == KeyCode::Char('Y')) ==> s is Continue
                    } else {
                        s is Continue && n == o
                    }
                })
}

/// What a key does when asked whether to write (see [`Editor::handle_write_confirm_mode`]).
pub open spec fn write_key_effect(o: Editor, n: Editor, key: KeyEvent, s: Step) -> bool {
    &&& ({
                    let c = key.code;
                    let file = o.tab().buffer.file_path;
                    if c == KeyCode::Char('y') || c == KeyCode::Char('Y') {
                        match file {
                            Some(p) => if untitled(p@) {
                                &&& s is Continue
                                &&& n == Editor {
                                    mode: Mode::FilenamePrompt,
                                    filename_prompt_text: n.filename_prompt_text,
                                    ..o
                                }
                                &&& n.filename_prompt_text@.len() == 0
                            } else {
                                n == o && writes(
                                    s,
                                    p@,
                                    join_lines(o.tab().buffer.text()),
                                    false,
                                    SaveKind::Confirm { should_quit: o.save_and_quit },
                                )
                            },
                            None => {
                                &&& s is Continue
                                &&& n == Editor {
                                    mode: Mode::FilenamePrompt,
                                    filename_prompt_text: n.filename_prompt_text,
                                    ..o
                                }
                                &&& n.filename_prompt_text@.len() == 0
                            },
                        }
                    } else if c == KeyCode::Char('n') || c == KeyCode::Char('N') || c == KeyCode::Esc {
                        s is Continue && n == Editor {
                            mode: Mode::Normal,
                            save_and_quit: false,
                            ..o
                        }
                    } else if c == KeyCode::Char('q') {
                        s is Quit && n == Editor { save_and_quit: false, ..o }
                    } else if c == KeyCode::Char('a') || c == KeyCode::Char('A') {
                        n.tabs == o.tabs
                    } else {
                        s is Continue && n == o
                    }
                })
}

/// What a key does in the file-name prompt (see [`Editor::handle_filename_prompt_mode`]).
pub open spec fn prompt_key_effect(o: Editor, n: Editor, key: KeyEvent, s: Step) -> bool {
    &&& match key.code {
                    KeyCode::Esc => s is Continue && n == Editor {
                        mode: Mode::Normal,
                        save_and_quit: false,
                        filename_prompt_text: n.filename_prompt_text,
                        ..o
                    } && n.filename_prompt_text@.len() == 0,
                    KeyCode::Enter => {
                        let name = trim(o.filename_prompt_text@);
                        if name.len() > 0 {
                            n == o && writes(
                                s,
                                name,
                                join_lines(o.tab().buffer.text()),
                                true,
                                SaveKind::Prompt { should_quit: o.save_and_quit },
                            )
                        } else {
                            s is Continue && n == Editor {
                                mode: Mode::Normal,
                                filename_prompt_text: n.filename_prompt_text,
                                ..o
                            } && n.filename_prompt_text@.len() == 0
                        }
                    },
                    KeyCode::Char(c) => s is Continue && n == Editor {
                        filename_prompt_text: n.filename_prompt_text,
                        ..o
                    } && n.filename_prompt_text@ == o.filename_prompt_text@.push(c),
                    KeyCode::Backspace => s is Continue && n == Editor {
                        filename_prompt_text: n.filename_prompt_text,
                        ..o
                    } && n.filename_prompt_text@ == without_last(o.filename_prompt_text@),
                    _ => s is Continue && n == o,
                }
}

/// What a key does in the snake game (see [`Editor::handle_snake_mode`]).
pub open spec fn snake_key_effect(o: Editor, n: Editor, key: KeyEvent, s: Step) -> bool {
    &&& s is Continue
    &&& n.tabs == o.tabs
    &&& n.current_tab == o.current_tab
    &&& o.snake_game is None ==> n == o
    &&& o.snake_game is Some && (key.code == KeyCode::Esc || key.code == KeyCode::Char('q'))
                    ==> n == (Editor { snake_game: None, mode: Mode::Normal, ..o })
}

impl Editor {
    /// Writes the current buffer to `path`, for `kind`.
    fn write_current(&self, path: &str, named: bool, kind: SaveKind) -> (s: Step)
        requires
            self.wf(),
        ensures
            writes(s, path@, join_lines(self.tab().buffer.text()), named, kind),
    {
        let content = self.tabs[self.current_tab].buffer.get_content();
        Step::Io(
            IoRequest::WriteFile { path: path.to_owned(), content },
            After::Saved { path: path.to_owned(), named, kind },
        )
    }

    /// Runs the command line `cmd` of command mode (see [`command_effect`]).
    fn run_command_line(&mut self, cmd: &str) -> (s: Step)
        requires
            old(self).wf(),
            old(self).command_text@.len() == 0,
        ensures
            final(self).wf(),
            command_effect(*old(self), *final(self), cmd@, s),
    {
        proof {
            reveal_strlit("q");
            reveal_strlit("quit");
            reveal_strlit("q!");
            reveal_strlit("quit!");
            reveal_strlit("w");
            reveal_strlit("write");
            reveal_strlit("x");
            reveal_strlit("w ");
            reveal_strlit("write ");
            reveal_strlit("x ");
            reveal_strlit("e");
            reveal_strlit("edit");
        }
        if same_text(cmd, "q") || same_text(cmd, "quit") || same_text(cmd, "q!") || same_text(cmd, "quit!") {
            return Step::Quit;
        }
        self.mode = Mode::Normal;
        let i = self.current_tab;
        if same_text(cmd, "w") || same_text(cmd, "write") || same_text(cmd, "x") {
            let quit = same_text(cmd, "x");
            match &self.tabs[i].buffer.file_path {
                Some(p) => {
                    if is_untitled(p.as_str()) {
                        Step::Continue
                    } else {
                        self.write_current(p.as_str(), false, SaveKind::Command { quit })
                    }
                },
                None => Step::Continue,
            }
        } else if starts_with(cmd, "w ") || starts_with(cmd, "write ") || starts_with(cmd, "x ") {
            let n = char_len(cmd);
            let rest = if starts_with(cmd, "write ") {
                substring(cmd, 6, n)
            } else {
                substring(cmd, 2, n)
            };
            let name = trim_string(rest.as_str());
            if char_len(name.as_str()) > 0 {
                let quit = starts_with(cmd, "x ");
                self.write_current(name.as_str(), true, SaveKind::Command { quit })
            } else {
                Step::Continue
            }
        } else if same_text(cmd, "e") || same_text(cmd, "edit") {
            match &self.tabs[i].buffer.file_path {
                Some(p) => {
                    if is_untitled(p.as_str()) {
                        Step::Continue
                    } else {
                        Step::Io(IoRequest::ReadFile { path: p.clone() }, After::Reloaded { check: false })
                    }
                },
                None => Step::Continue,
            }
        } else {
            Step::Continue
        }
    }

    /// Handles `key` in command mode: a bound `normal_mode` command or `Esc`
    /// leaves it (clearing the command line); characters are typed,
    /// `Backspace` deletes the last one, and `Enter` runs the command line
    /// (see [`command_effect`]).
    pub fn handle_command_mode(&mut self, key: KeyEvent) -> (s: Step)
        requires
            old(self).wf(),
        ensures
            final(self).wf(),
            command_key_effect(*old(self), *final(self), key, s),
    {
        proof {
            reveal_strlit("normal_mode");
        }
        match self.config.key_bindings.command_mode.matching(&key) {
            Some(name) => {
                if same_text(name.as_str(), "normal_mode") {
                    self.command_text = String::new();
                    self.mode = Mode::Normal;
                }
                return Step::Continue;
            },
            None => {},
        }
        match key.code {
            KeyCode::Esc => {
                self.command_text = String::new();
                self.mode = Mode::Normal;
                Step::Continue
            },
            KeyCode::Char(c) => {
                self.command_text = push_char_to(&self.command_text, c);
                Step::Continue
            },
            KeyCode::Backspace => {
                self.command_text = pop_char(&self.command_text);
                Step::Continue
            },
            KeyCode::Enter => {
                let mut cmd = String::new();
                std::mem::swap(&mut cmd, &mut self.command_text);
                self.run_command_line(cmd.as_str())
            },
            _ => Step::Continue,
        }
    }

    /// Handles `key` in the help page: a bound `normal_mode` command, `Esc`
    /// or `q` return to normal mode; other keys do nothing.
    pub fn handle_help_mode(&mut self, key: KeyEvent) -> (s: Step)
        requires
            old(self).wf(),
        ensures
            final(self).wf(),
            help_key_effect(*old(self), *final(self), key, s),
    {
        proof {
            reveal_strlit("normal_mode");
        }
        match self.config.key_bindings.help_mode.matching(&key) {
            Some(name) => {
                if same_text(name.as_str(), "normal_mode") {
                    self.mode = Mode::Normal;
                }
                return Step::Continue;
            },
            None => {},
        }
        match key.code {
            KeyCode::Esc => self.mode = Mode::Normal,
            KeyCode::Char('q') => self.mode = Mode::Normal,
            _ => {},
        }
        Step::Continue
    }

    /// Handles `key` when asked whether to reload the file: `y` reloads it
    /// (unless it is named `untitled-`); `y`, `n` and `Esc` clear the marked
    /// differences and return to normal mode; other keys do nothing.
    pub fn handle_reload_confirm_mode(&mut self, key: KeyEvent) -> (s: Step)
        requires
            old(self).wf(),
        ensures
            final(self).wf(),
            reload_key_effect(*old(self), *final(self), key, s),
    {
        match key.code {
            KeyCode::Char('y') | KeyCode::Char('Y') => {
                self.diff_lines = std::collections::HashSet::new();
                self.mode = Mode::Normal;
                let i = self.current_tab;
                match &self.tabs[i].buffer.file_path {
                    Some(p) => {
                        if is_untitled(p.as_str()) {
                            Step::Continue
                        } else {
                            Step::Io(IoRequest::ReadFile { path: p.clone() }, After::Reloaded { check: false })
                        }
                    },
                    None => Step::Continue,
                }
            },
            KeyCode::Char('n') | KeyCode::Char('N') | KeyCode::Esc => {
                self.diff_lines = std::collections::HashSet::new();
                self.mode = Mode::Normal;
                Step::Continue
            },
            _ => Step::Continue,
        }
    }

    /// Handles `key` when asked whether to write the buffer: `y` writes it
    /// under its name, or asks for a name when it has none or is named
    /// `untitled-`; `n` and `Esc` cancel; `q` quits without writing; `a`
    /// writes every tab. Each clears the wish to quit after writing, except
    /// `y` and `a`, which keep it for when the writing is done.
    pub fn handle_write_confirm_mode(&mut self, key: KeyEvent) -> (s: Step)
        requires
            old(self).wf(),
        ensures
            final(self).wf(),
            write_key_effect(*old(self), *final(self), key, s),
    {
        let should_quit = self.save_and_quit;
        match key.code {
            KeyCode::Char('y') | KeyCode::Char('Y') => {
                let i = self.current_tab;
                match &self.tabs[i].buffer.file_path {
                    Some(p) => {
                        if is_untitled(p.as_str()) {
                            self.filename_prompt_text = String::new();
                            self.mode = Mode::FilenamePrompt;
                            Step::Continue
                        } else {
                            self.write_current(p.as_str(), false, SaveKind::Confirm { should_quit })
                        }
                    },
                    None => {
                        self.filename_prompt_text = String::new();
                        self.mode = Mode::FilenamePrompt;
                        Step::Continue
                    },
                }
            },
            KeyCode::Char('n') | KeyCode::Char('N') | KeyCode::Esc => {
                self.save_and_quit = false;
                self.mode = Mode::Normal;
                Step::Continue
            },
            KeyCode::Char('q') => {
                self.save_and_quit = false;
                Step::Quit
            },
            KeyCode::Char('a') | KeyCode::Char('A') => {
                let original = self.current_tab;
                self.save_all_from(0, original, true, should_quit)
            },
            _ => Step::Continue,
        }
    }

    /// Goes on writing every tab, from tab `next`: the first tab from there
    /// with a name not starting with `untitled-` is made current and written;
    /// tabs without such a name count as not saved. When no tab is left, the
    /// editor quits if it should and all were saved, else returns to normal
    /// mode; tab `original` is current again.
    pub(crate) fn save_all_from(&mut self, next: usize, original: usize, all_saved: bool, should_quit: bool) -> (s: Step)
        requires
            old(self).wf(),
            original < old(self).tabs@.len(),
        ensures
            final(self).wf(),
            final(self).tabs == old(self).tabs,
            ({
                let i = first_savable_from(old(self).tabs@, next as int);
                let t = old(self).tabs@[i];
                i < old(self).tabs@.len() ==> {
                    &&& *final(self) == (Editor { current_tab: i as usize, ..*old(self) })
                    &&& writes(
                        s,
                        name_of(t),
                        join_lines(t.buffer.text()),
                        false,
                        SaveKind::All { next: (i + 1) as usize, original, all_saved: all_saved && i == next, should_quit },
                    )
                }
            }),
            ({
                let saved = all_saved && next >= old(self).tabs@.len();
                first_savable_from(old(self).tabs@, next as int) >= old(self).tabs@.len() ==> if should_quit && saved {
                    s is Quit && *final(self) == (Editor { current_tab: original, save_and_quit: false, ..*old(self) })
                } else {
                    s is Continue && *final(self) == (Editor { current_tab: original, mode: Mode::Normal, ..*old(self) })
                }
            }),
    {
        let mut idx = next;
        let mut saved = all_saved;
        proof {
            lemma_first_savable(self.tabs@, next as int);
        }
        while idx < self.tabs.len()
            invariant
                self.wf(),
                *self == *old(self),
                original < self.tabs@.len(),
                next <= idx,
                first_savable_from(self.tabs@, next as int) == first_savable_from(self.tabs@, idx as int),
                saved == (all_saved && idx == next),
                idx > next ==> next < self.tabs@.len(),
            decreases self.tabs.len() - idx,
        {
            let can_write = match &self.tabs[idx].buffer.file_path {
                Some(p) => !is_untitled(p.as_str()),
                None => false,
            };
            if can_write {
                self.current_tab = idx;
                let path = match &self.tabs[idx].buffer.file_path {
                    Some(p) => p.clone(),
                    None => String::new(),
                };
                let s = self.write_current(
                    path.as_str(),
                    false,
                    SaveKind::All { next: idx + 1, original, all_saved: saved, should_quit },
                );
                return s;
            }
            saved = false;
            idx += 1;
        }
        self.current_tab = original;
        if should_quit && saved {
            self.save_and_quit = false;
            return Step::Quit;
        }
        self.mode = Mode::Normal;
        Step::Continue
    }

    /// Handles `key` in the file name prompt: `Esc` cancels (clearing the
    /// name and the wish to quit after writing); `Enter` writes the buffer
    /// under the typed name without surrounding whitespace, or cancels when
    /// that is empty; characters are typed and `Backspace` deletes the last one.
    pub fn handle_filename_prompt_mode(&mut self, key: KeyEvent) -> (s: Step)
        requires
            old(self).wf(),
        ensures
            final(self).wf(),
            prompt_key_effect(*old(self), *final(self), key, s),
    {
        let should_quit = self.save_and_quit;
        match key.code {
            KeyCode::Esc => {
                self.filename_prompt_text = String::new();
                self.save_and_quit = false;
                self.mode = Mode::Normal;
                Step::Continue
            },
            KeyCode::Enter => {
                let name = trim_string(self.filename_prompt_text.as_str());
                if char_len(name.as_str()) > 0 {
                    self.write_current(name.as_str(), true, SaveKind::Prompt { should_quit })
                } else {
                    self.filename_prompt_text = String::new();
                    self.mode = Mode::Normal;
                    Step::Continue
                }
            },
            KeyCode::Char(c) => {
                self.filename_prompt_text = push_char_to(&self.filename_prompt_text, c);
                Step::Continue
            },
            KeyCode::Backspace => {
                self.filename_prompt_text = pop_char(&self.filename_prompt_text);
                Step::Continue
            },
            _ => Step::Continue,
        }
    }

    /// Handles `key` in the snake game: `Esc` and `q` end it and return to
    /// normal mode, `r` starts a new game, and the arrows or `h`, `j`, `k`,
    /// `l` turn the snake. Without a game, keys do nothing.
    pub fn handle_snake_mode(&mut self, key: KeyEvent) -> (s: Step)
        requires
            old(self).wf(),
        ensures
            final(self).wf(),
            snake_key_effect(*old(self), *final(self), key, s),
    {
        let mut game = self.snake_game.take();
        match &mut game {
            Some(snake) => {
                match key.code {
                    KeyCode::Esc | KeyCode::Char('q') => {
                        self.mode = Mode::Normal;
                        return Step::Continue;
                    },
                    KeyCode::Char('r') => snake.reset(),
                    KeyCode::Up | KeyCode::Char('k') => snake.change_direction(Direction::Up),
                    KeyCode::Down | KeyCode::Char('j') => snake.change_direction(Direction::Down),
                    KeyCode::Left | KeyCode::Char('h') => snake.change_direction(Direction::Left),
                    KeyCode::Right | KeyCode::Char('l') => snake.change_direction(Direction::Right),
                    _ => {},
                }
            },
            None => {},
        }
        self.snake_game = game;
        Step::Continue
    }
}

} // verus!
