//! What keys do in the token search and the diagnostics panel, and which
//! handler a key goes to.

use vstd::prelude::*;
use super::commands::normal_command;
use super::diagnostics::{DiagnosticFilter, diagnostics_in_order, enumerates, passes};
use super::mode::Mode;
use super::modes::{
    byte_len, command_key_effect, first_bound_among, help_key_effect, prompt_key_effect, reload_key_effect,
    search_commands, snake_key_effect, utf8_len, without_last, write_key_effect,
};
use super::normal_mode::{in_mode, normal_effect};
use super::session::{After, Editor, IoRequest, Step, Then};
use super::flow::{finished, holds_file, opened_file};
use super::input_modes::{
    delete_key_effect, finder_key_effect, insert_key_effect, matching_among, visual_key_effect,
};
use crate::keys::{KeyCode, KeyEvent};
use crate::text::same_text;

verus! {

/// What a key does in the token search (see [`Editor::handle_token_search_mode`]).
pub open spec fn token_search_key_effect(o: Editor, n: Editor, key: KeyEvent, s: Step) -> bool {
    &&& ({
                    let bound = first_bound_among(
                        o.config.key_bindings.token_search_mode.entries(),
                        key,
                        search_commands(),
                    );
                    let cancel = bound == Some("cancel"@) || (bound is None && key.code == KeyCode::Esc);
                    &&& cancel ==> s is Continue && in_mode(n, o, Mode::Normal)
                    &&& bound is None ==> match key.code {
                        KeyCode::Char(c) => {
                            let q = o.token_search.query@.push(c);
                            &&& n.token_search.query@ == q
                            &&& n.tabs == o.tabs
                            &&& utf8_len(q) > 2 ==> (s matches Step::Io(IoRequest::SearchTokens { pattern }, After::Searched)
                                && pattern@ == seq!['(', '?', 'i', ')'] + super::token_search::escaped(q))
                            &&& utf8_len(q) <= 2 ==> s is Continue
                        },
                        KeyCode::Backspace => {
                            let q = without_last(o.token_search.query@);
                            &&& n.token_search.query@ == q
                            &&& n.tabs == o.tabs
                            &&& q.len() > 0 && utf8_len(q) > 2 ==> (s matches Step::Io(
                                IoRequest::SearchTokens { pattern },
                                After::Searched,
                            ) && pattern@ == seq!['(', '?', 'i', ')'] + super::token_search::escaped(q))
                            &&& !(q.len() > 0 && utf8_len(q) > 2) ==> s is Continue
                        },
                        _ => true,
                    }
                })
}

/// What a key does in the diagnostics panel (see [`Editor::handle_diagnostics_panel_mode`]).
pub open spec fn diagnostics_key_effect(o: Editor, n: Editor, key: KeyEvent, s: Step) -> bool {
    &&& ({
                    let ctrl = key.modifiers.control;
                    let to_filter = |f: DiagnosticFilter| s is Continue && n == (Editor {
                        diagnostics_filter: f,
                        selected_diagnostic_index: 0,
                        ..o
                    });
                    match key.code {
                        KeyCode::Esc => s is Continue && in_mode(n, o, Mode::Normal),
                        KeyCode::Char(c) => if c == 'q' {
                            s is Continue && in_mode(n, o, Mode::Normal)
                        } else if c == 'a' || c == 'A' {
                            to_filter(DiagnosticFilter::All)
                        } else if (c == 'e' || c == 'E') && !ctrl {
                            to_filter(DiagnosticFilter::Errors)
                        } else if c == 'w' || c == 'W' {
                            to_filter(DiagnosticFilter::Warnings)
                        } else if c == 'i' || c == 'I' {
                            to_filter(DiagnosticFilter::Info)
                        } else if c == 'n' || c == 'j' || c == 'p' || c == 'k' {
                            s is Continue && n.tabs == o.tabs && n.mode == o.mode
                        } else if c == 'e' && ctrl {
                            s is Continue && in_mode(n, o, Mode::Normal)
                        } else {
                            normal_effect(
                                o,
                                n,
                                normal_command(o.config.key_bindings.normal_mode.entries(), key),
                                s,
                            )
                        },
                        KeyCode::Down | KeyCode::Up => s is Continue && n.tabs == o.tabs
                            && n.mode == o.mode,
                        KeyCode::Enter => s is Continue && n.tabs@.len() == o.tabs@.len(),
                        _ => normal_effect(
                            o,
                            n,
                            normal_command(o.config.key_bindings.normal_mode.entries(), key),
                            s,
                        ),
                    }
                })
}

/// What `key` does in the editor's current mode: from editor `o` to
/// editor `n`, with step `s` (see each mode's effect).
pub open spec fn key_effect(o: Editor, n: Editor, key: KeyEvent, s: Step) -> bool {
    match o.mode {
        Mode::Normal => normal_effect(o, n, normal_command(o.config.key_bindings.normal_mode.entries(), key), s),
        Mode::Insert => insert_key_effect(o, n, key, s),
        Mode::Command => command_key_effect(o, n, key, s),
        Mode::FileFinder => finder_key_effect(o, n, key, s),
        Mode::Help => help_key_effect(o, n, key, s),
        Mode::WriteConfirm => write_key_effect(o, n, key, s),
        Mode::FilenamePrompt => prompt_key_effect(o, n, key, s),
        Mode::ReloadConfirm => reload_key_effect(o, n, key, s),
        Mode::TokenSearch => token_search_key_effect(o, n, key, s),
        Mode::DiagnosticsPanel => diagnostics_key_effect(o, n, key, s),
        Mode::Snake => snake_key_effect(o, n, key, s),
        Mode::Visual => visual_key_effect(o, n, key, false, s),
        Mode::VisualLine => visual_key_effect(o, n, key, true, s),
        Mode::Delete => delete_key_effect(o, n, key, s),
    }
}

impl Editor {
    /// Searches for the token search's query, when it is not empty.
    fn search_now(&mut self) -> (s: Step)
        requires
            old(self).wf(),
        ensures
            final(self).wf(),
            final(self).tabs == old(self).tabs,
            final(self).current_tab == old(self).current_tab,
            final(self).mode == old(self).mode,
            final(self).token_search.query == old(self).token_search.query,
            final(self).token_search.results@.len() == 0,
            final(self).token_search.selected_index == 0,
            old(self).token_search.query@.len() > 0 ==> (s matches Step::Io(
                IoRequest::SearchTokens { pattern },
                After::Searched,
            ) && pattern@ == seq!['(', '?', 'i', ')'] + super::token_search::escaped(
                old(self).token_search.query@,
            )),
            old(self).token_search.query@.len() == 0 ==> s is Continue,
    {
        if self.token_search.begin_search() {
            let pattern = self.token_search.search_pattern();
            Step::Io(IoRequest::SearchTokens { pattern }, After::Searched)
        } else {
            Step::Continue
        }
    }

    /// Goes to the selected place of the token search: its file is opened
    /// (see [`Editor::load_file_in_new_tab`]) unless it is the current one,
    /// the cursor goes to the line number and column found, and the editor
    /// returns to normal mode. Without a selection, nothing happens.
    fn select_result(&mut self) -> (s: Step)
        requires
            old(self).wf(),
        ensures
            final(self).wf(),
            old(self).token_search.selected_index >= old(self).token_search.results@.len() ==> s is Continue
                && *final(self) == *old(self),
            old(self).token_search.selected_index < old(self).token_search.results@.len() ==> {
                let r = old(self).token_search.results@[old(self).token_search.selected_index as int];
                let then = Then::GoTo { line: r.line_number, column: r.column };
                if holds_file(old(self).tab(), r.file_path@) {
                    finished(*old(self), *final(self), then, s)
                } else {
                    opened_file(*old(self), *final(self), r.file_path@, then, s)
                }
            },
    {
        match self.token_search.get_selected_cloned() {
            Some(result) => {
                let then = Then::GoTo { line: result.line_number, column: result.column };
                let same_file = match &self.tabs[self.current_tab].buffer.file_path {
                    Some(p) => same_text(p.as_str(), result.file_path.as_str()),
                    None => false,
                };
                if same_file {
                    self.finish(then)
                } else {
                    self.load_file_in_new_tab(result.file_path.as_str(), then)
                }
            },
            None => Step::Continue,
        }
    }

    /// Handles `key` in the token search: the bound `cancel`, `select`,
    /// `next` and `previous` commands (a binding of another command is passed
    /// over), or `Esc`, `Enter`, `Down` and `Up`, leave, go to the selected
    /// place, and move the selection; characters and `Backspace` edit the
    /// query, searching again once it is longer than two bytes.
    pub fn handle_token_search_mode(&mut self, key: KeyEvent) -> (s: Step)
        requires
            old(self).wf(),
        ensures
            final(self).wf(),
            token_search_key_effect(*old(self), *final(self), key, s),
    {
        proof {
            reveal_strlit("cancel");
            reveal_strlit("select");
            reveal_strlit("next");
            reveal_strlit("previous");
            assert("cancel"@[0] != "select"@[0] && "cancel"@ != "select"@);
            assert("cancel"@.len() != "next"@.len() && "cancel"@ != "next"@);
            assert("cancel"@.len() != "previous"@.len() && "cancel"@ != "previous"@);
        }
        let list: Vec<&str> = vec!["cancel", "select", "next", "previous"];
        proof {
            assert forall|n: Seq<char>| search_commands().contains(n) <==> exists|k: int|
                0 <= k < list@.len() && (#[trigger] list@[k])@ == n by {
                if search_commands().contains(n) {
                    if n == "cancel"@ {
                        assert(list@[0]@ == n);
                    } else if n == "select"@ {
                        assert(list@[1]@ == n);
                    } else if n == "next"@ {
                        assert(list@[2]@ == n);
                    } else {
                        assert(list@[3]@ == n);
                    }
                }
            }
        }
        match matching_among(&self.config.key_bindings.token_search_mode, &key, Ghost(search_commands()), &list) {
            Some(name) => {
                if same_text(name.as_str(), "cancel") {
                    self.mode = Mode::Normal;
                    return Step::Continue;
                } else if same_text(name.as_str(), "select") {
                    return self.select_result();
                } else if same_text(name.as_str(), "next") {
                    self.token_search.next();
                    return Step::Continue;
                } else {
                    self.token_search.previous();
                    return Step::Continue;
                }
            },
            None => {},
        }
        match key.code {
            KeyCode::Esc => {
                self.mode = Mode::Normal;
                Step::Continue
            },
            KeyCode::Enter => self.select_result(),
            KeyCode::Char(c) => {
                self.token_search.add_char(c);
                if byte_len(self.token_search.query.as_str()) > 2 {
                    self.search_now()
                } else {
                    Step::Continue
                }
            },
            KeyCode::Backspace => {
                self.token_search.remove_char();
                let n = crate::text::char_len(self.token_search.query.as_str());
                if n > 0 && byte_len(self.token_search.query.as_str()) > 2 {
                    self.search_now()
                } else {
                    Step::Continue
                }
            },
            KeyCode::Down => {
                self.token_search.next();
                Step::Continue
            },
            KeyCode::Up => {
                self.token_search.previous();
                Step::Continue
            },
            _ => Step::Continue,
        }
    }

    /// Handles `key` in the diagnostics panel: `Esc`, `q` and control-`e`
    /// return to normal mode; `a`, `e` (without control), `w` and `i` show
    /// all diagnostics, errors, warnings or information only, selecting the
    /// first; `n`, `Down` and `j` select the next of the diagnostics shown
    /// (wrapping), `p`, `Up` and `k` the previous; `Enter` goes to the
    /// selected diagnostic and returns to normal mode. Other keys are handled
    /// as in normal mode.
    pub fn handle_diagnostics_panel_mode(&mut self, key: KeyEvent) -> (s: Step)
        requires
            old(self).wf(),
        ensures
            final(self).wf(),
            diagnostics_key_effect(*old(self), *final(self), key, s),
    {
        let ctrl = key.modifiers.control;
        match key.code {
            KeyCode::Esc | KeyCode::Char('q') => {
                self.mode = Mode::Normal;
                Step::Continue
            },
            KeyCode::Char('a') | KeyCode::Char('A') => {
                self.diagnostics_filter = DiagnosticFilter::All;
                self.selected_diagnostic_index = 0;
                Step::Continue
            },
            KeyCode::Char('e') if !ctrl => {
                self.diagnostics_filter = DiagnosticFilter::Errors;
                self.selected_diagnostic_index = 0;
                Step::Continue
            },
            KeyCode::Char('E') if !ctrl => {
                self.diagnostics_filter = DiagnosticFilter::Errors;
                self.selected_diagnostic_index = 0;
                Step::Continue
            },
            KeyCode::Char('w') | KeyCode::Char('W') => {
                self.diagnostics_filter = DiagnosticFilter::Warnings;
                self.selected_diagnostic_index = 0;
                Step::Continue
            },
            KeyCode::Char('i') | KeyCode::Char('I') => {
                self.diagnostics_filter = DiagnosticFilter::Info;
                self.selected_diagnostic_index = 0;
                Step::Continue
            },
            KeyCode::Char('n') | KeyCode::Down | KeyCode::Char('j') => {
                let n = self.tabs[self.current_tab].diagnostics.get_filtered_diagnostics(&self.diagnostics_filter).len();
                if n > 0 {
                    self.selected_diagnostic_index = if self.selected_diagnostic_index < n - 1 {
                        self.selected_diagnostic_index + 1
                    } else {
                        (self.selected_diagnostic_index - (n - 1)) % n
                    };
                }
                Step::Continue
            },
            KeyCode::Char('p') | KeyCode::Up | KeyCode::Char('k') => {
                let n = self.tabs[self.current_tab].diagnostics.get_filtered_diagnostics(&self.diagnostics_filter).len();
                if n > 0 {
                    self.selected_diagnostic_index = if self.selected_diagnostic_index == 0 {
                        n - 1
                    } else {
                        self.selected_diagnostic_index - 1
                    };
                }
                Step::Continue
            },
            KeyCode::Enter => {
                let i = self.current_tab;
                let filtered = self.tabs[i].diagnostics.get_filtered_diagnostics(&self.diagnostics_filter);
                let index = self.selected_diagnostic_index;
                if filtered.len() > 0 && index < filtered.len() {
                    let line = filtered[index].span.line;
                    let column = filtered[index].span.start_column;
                    self.tabs[i].center_on(line, column);
                    self.mode = Mode::Normal;
                }
                Step::Continue
            },
            KeyCode::Char('e') if ctrl => {
                self.mode = Mode::Normal;
                Step::Continue
            },
            _ => self.handle_normal_mode(key),
        }
    }

    /// Handles `key` in the current mode, with that mode's handler
    /// (characters select and delete in the two visual modes).
    pub fn handle_key(&mut self, key: KeyEvent) -> (s: Step)
        requires
            old(self).wf(),
        ensures
            final(self).wf(),
            key_effect(*old(self), *final(self), key, s),
    {
        match self.mode {
            Mode::Normal => self.handle_normal_mode(key),
            Mode::Insert => self.handle_insert_mode(key),
            Mode::Command => self.handle_command_mode(key),
            Mode::FileFinder => self.handle_file_finder_mode(key),
            Mode::Help => self.handle_help_mode(key),
            Mode::WriteConfirm => self.handle_write_confirm_mode(key),
            Mode::FilenamePrompt => self.handle_filename_prompt_mode(key),
            Mode::ReloadConfirm => self.handle_reload_confirm_mode(key),
            Mode::TokenSearch => self.handle_token_search_mode(key),
            Mode::DiagnosticsPanel => self.handle_diagnostics_panel_mode(key),
            Mode::Snake => self.handle_snake_mode(key),
            Mode::Visual => self.handle_visual_mode(key, false),
            Mode::VisualLine => self.handle_visual_mode(key, true),
            Mode::Delete => self.handle_delete_mode(key),
        }
    }
}

} // verus!
