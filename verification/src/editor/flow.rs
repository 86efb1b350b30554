//! Loading files into tabs, and going on once outside work is done.

use vstd::prelude::*;
use super::buffer::{Buffer, loaded_lines};
use super::cargo_output::cargo_diagnostics;
use super::diagnostics::{DiagnosticCollection, models_by_line};
use super::mode::Mode;
use super::session::{added_tab, After, CargoDir, CargoReport, Editor, IoOutcome, IoRequest, SaveKind, Step, Then};
use super::tab::{Tab, is_untitled, untitled};
use crate::text::same_text;

verus! {

/// Whether `s` runs `cargo check` for the current file from its project, then
/// goes on with `then`.
pub open spec fn checks(s: Step, file: Seq<char>, then: Then) -> bool {
    s matches Step::Io(IoRequest::RunCargo { dir, command, current_file }, After::Checked { then: t })
        && dir == CargoDir::ProjectRoot && command@ == "check"@ && current_file@ == file && t == then
}

/// Whether tab `t` holds the file `path`.
pub open spec fn holds_file(t: Tab, path: Seq<char>) -> bool {
    t.buffer.file_path matches Some(p) && p@ == path
}

/// The index of the first tab whose buffer is the file `path`.
pub open spec fn tab_of(tabs: Seq<Tab>, path: Seq<char>) -> Option<int> {
    if exists|i: int| 0 <= i < tabs.len() && #[trigger] holds_file(tabs[i], path) {
        Some(
            choose|i: int|
                0 <= i < tabs.len() && #[trigger] holds_file(tabs[i], path) && forall|j: int|
                    0 <= j < i ==> !#[trigger] holds_file(tabs[j], path),
        )
    } else {
        None
    }
}

/// Whether `s` reads the file `path` into the current tab, then goes on with `then`.
pub open spec fn reads_into(s: Step, path: Seq<char>, then: Then) -> bool {
    s matches Step::Io(IoRequest::ReadFile { path: p }, After::Loaded { path: q, then: t }) && p@ == path && q@
        == path && t == then
}

/// What going on with `then` does, from editor `o` to editor `n` with step
/// `s` (see [`Editor::finish`]).
pub open spec fn finished(o: Editor, n: Editor, then: Then, s: Step) -> bool {
    &&& n.tabs@.len() == o.tabs@.len()
    &&& !(then is SaveAll) ==> n.current_tab == o.current_tab
    &&& !(then is GoTo) ==> n.tabs == o.tabs
    &&& match then {
        Then::Nothing => s is Continue && n == o,
        Then::Normal => s is Continue && n == (Editor { mode: Mode::Normal, ..o }),
        Then::GoTo { line, column } => {
            &&& s is Continue
            &&& n.mode == Mode::Normal
            &&& n.tab().cursor.y == line
            &&& n.tab().cursor.x == column
            &&& n.tab().buffer == o.tab().buffer
            &&& n.tab().diagnostics == o.tab().diagnostics
        },
        Then::Finish { should_quit } => if should_quit {
            s is Quit && n == (Editor { save_and_quit: false, ..o })
        } else {
            s is Continue && n == (Editor { mode: Mode::Normal, ..o })
        },
        Then::PromptFinish { should_quit } => if should_quit {
            s is Quit && n == (Editor { save_and_quit: false, ..o })
        } else {
            &&& s is Continue
            &&& n == (Editor { mode: Mode::Normal, filename_prompt_text: n.filename_prompt_text, ..o })
            &&& n.filename_prompt_text@.len() == 0
        },
        Then::SaveAll { .. } => n.tabs == o.tabs,
    }
}

/// What opening the file `path` does (see [`Editor::load_file_in_new_tab`]):
/// when a tab holds it, that tab becomes current and the editor goes on with
/// `then`; otherwise a tab is added (see [`added_tab`]) and the file is read
/// into the current tab.
pub open spec fn opened_file(o: Editor, n: Editor, path: Seq<char>, then: Then, s: Step) -> bool {
    match tab_of(o.tabs@, path) {
        Some(i) => finished(Editor { current_tab: i as usize, ..o }, n, then, s),
        None => added_tab(o, n) && reads_into(s, path, then),
    }
}

impl Editor {
    /// Asks to read the file `path` into the current tab, then to go on with `then`.
    pub fn load_file(&mut self, path: &str, then: Then) -> (s: Step)
        requires
            old(self).wf(),
        ensures
            *final(self) == *old(self),
            reads_into(s, path@, then),
    {
        Step::Io(IoRequest::ReadFile { path: path.to_owned() }, After::Loaded { path: path.to_owned(), then })
    }

    /// Opens the file `path`: when a tab already holds it, that tab becomes
    /// current and the editor goes on with `then` at once; otherwise a new tab
    /// is added and the file is read into it.
    pub fn load_file_in_new_tab(&mut self, path: &str, then: Then) -> (s: Step)
        requires
            old(self).wf(),
            !(then is SaveAll),
        ensures
            final(self).wf(),
            opened_file(*old(self), *final(self), path@, then, s),
    {
        let mut i: usize = 0;
        while i < self.tabs.len()
            invariant
                i <= self.tabs@.len(),
                self.wf(),
                *self == *old(self),
                !(then is SaveAll),
                forall|j: int| 0 <= j < i ==> !#[trigger] holds_file(self.tabs@[j], path@),
            decreases self.tabs.len() - i,
        {
            let found = match &self.tabs[i].buffer.file_path {
                Some(p) => same_text(p.as_str(), path),
                None => false,
            };
            if found {
                proof {
                    assert(holds_file(self.tabs@[i as int], path@));
                    let w = choose|k: int|
                        0 <= k < self.tabs@.len() && #[trigger] holds_file(self.tabs@[k], path@) && forall|j: int|
                            0 <= j < k ==> !#[trigger] holds_file(self.tabs@[j], path@);
                    if w < i {
                    } else if w > i {
                    }
                }
                self.current_tab = i;
                return self.finish(then);
            }
            i += 1;
        }
        self.add_tab();
        if self.tabs.len() == 0 {
            return Step::Continue;
        }
        self.load_file(path, then)
    }

    /// Goes on with `then` (see [`Then`]).
    pub fn finish(&mut self, then: Then) -> (s: Step)
        requires
            old(self).wf(),
        ensures
            final(self).wf(),
            finished(*old(self), *final(self), then, s),
    {
        match then {
            Then::Nothing => Step::Continue,
            Then::Normal => {
                self.mode = Mode::Normal;
                Step::Continue
            },
            Then::GoTo { line, column } => {
                let i = self.current_tab;
                self.tabs[i].center_on(line, column);
                self.mode = Mode::Normal;
                Step::Continue
            },
            Then::Finish { should_quit } => {
                if should_quit {
                    self.save_and_quit = false;
                    Step::Quit
                } else {
                    self.mode = Mode::Normal;
                    Step::Continue
                }
            },
            Then::PromptFinish { should_quit } => {
                if should_quit {
                    self.save_and_quit = false;
                    Step::Quit
                } else {
                    self.filename_prompt_text = String::new();
                    self.mode = Mode::Normal;
                    Step::Continue
                }
            },
            Then::SaveAll { next, original, all_saved, should_quit } => {
                let back = if original < self.tabs.len() {
                    original
                } else {
                    self.current_tab
                };
                self.current_tab = back;
                self.save_all_from(next, back, all_saved, should_quit)
            },
        }
    }

    /// Checks the current file with cargo from its project, then goes on
    /// with `then`; without a file name it goes on at once.
    fn check_then(&mut self, then: Then) -> (s: Step)
        requires
            old(self).wf(),
        ensures
            final(self).wf(),
            final(self).tabs@.len() == old(self).tabs@.len(),
            !(then is GoTo) ==> final(self).tabs == old(self).tabs,
            match old(self).tab().buffer.file_path {
                Some(p) => *final(self) == *old(self) && checks(s, p@, then),
                None => !(then is SaveAll) ==> final(self).current_tab == old(self).current_tab,
            },
    {
        match &self.tabs[self.current_tab].buffer.file_path {
            Some(p) => Step::Io(
                IoRequest::RunCargo {
                    dir: CargoDir::ProjectRoot,
                    command: "check".to_owned(),
                    current_file: p.clone(),
                },
                After::Checked { then },
            ),
            None => self.finish(then),
        }
    }

    /// Goes on from what `after` was waiting for, now that `outcome` came.
    /// A read reloads the current buffer (and may check it), compares it with
    /// the file, or loads a file into the current tab (a failure to read is
    /// then an error); a write records that the buffer was saved and goes on
    /// as the save asked; cargo's report becomes the current tab's
    /// diagnostics, and, when it holds an error or a warning, the diagnostics
    /// panel opens on the first; the files found become the file finder's;
    /// the places found become the token search's results. An outcome that
    /// does not answer `after` changes nothing.
    pub fn resume(&mut self, after: After, outcome: IoOutcome) -> (s: Step)
        requires
            old(self).wf(),
        ensures
            final(self).wf(),
            match (after, outcome) {
                (After::Loaded { path, then }, IoOutcome::Read(Ok(content))) => {
                    &&& final(self).tab().buffer.text() == loaded_lines(content@)
                    &&& final(self).tab().buffer.file_path matches Some(p) && p@ == path@
                    &&& !final(self).tab().buffer.is_modified
                    &&& final(self).tab().cursor.x == 0 && final(self).tab().cursor.y == 0
                    &&& final(self).current_tab == old(self).current_tab
                    &&& checks(s, path@, then)
                },
                (After::Loaded { .. }, IoOutcome::Read(Err(e))) => s matches Step::Failed(m) && m@ == e@,
                (After::Reloaded { check }, IoOutcome::Read(Ok(content))) => old(self).tab().buffer.file_path is Some
                    ==> final(self).tab().buffer.text() == loaded_lines(content@) && !final(self).tab().buffer.is_modified,
                (After::Checked { then }, IoOutcome::Cargo(Some(report))) => old(self).tab().buffer.file_path matches Some(
                    f,
                ) ==> models_by_line(final(self).tabs@[old(self).current_tab as int].diagnostics.by_line())
                    == cargo_diagnostics(
                    report.output@,
                    f@,
                    report.current_file_name@,
                    super::cargo_output::same_table(report.same_file@),
                ),
                (After::Listed { quiet }, IoOutcome::Files(Err(e))) => if quiet {
                    s is Continue
                } else {
                    s matches Step::Failed(m) && m@ == e@
                },
                (After::Searched, IoOutcome::Found(results)) => final(self).token_search.results == results
                    && s is Continue,
                _ => true,
            },
    {
        match after {
            After::Loaded { path, then } => match outcome {
                IoOutcome::Read(result) => {
                    let i = self.current_tab;
                    self.tabs[i].reset_position();
                    match result {
                        Ok(content) => {
                            self.tabs[i].buffer.load_content(path.as_str(), content.as_str());
                            let first = self.tabs[i].buffer.get_line(0).to_owned();
                            let syntax = self.syntax_highlighter.determine_syntax(Some(path.as_str()), first.as_str());
                            self.tabs[i].buffer.set_syntax(syntax);
                            Step::Io(
                                IoRequest::RunCargo {
                                    dir: CargoDir::ProjectRoot,
                                    command: "check".to_owned(),
                                    current_file: path,
                                },
                                After::Checked { then },
                            )
                        },
                        Err(e) => Step::Failed(e),
                    }
                },
                _ => Step::Continue,
            },
            After::Reloaded { check } => match outcome {
                IoOutcome::Read(Ok(content)) => {
                    let i = self.current_tab;
                    let path = match &self.tabs[i].buffer.file_path {
                        Some(p) => p.clone(),
                        None => return Step::Continue,
                    };
                    self.tabs[i].buffer.load_content(path.as_str(), content.as_str());
                    if check {
                        self.check_then(Then::Nothing)
                    } else {
                        Step::Continue
                    }
                },
                _ => Step::Continue,
            },
            After::Compared => match outcome {
                IoOutcome::Read(Ok(content)) => {
                    let i = self.current_tab;
                    let diff = self.tabs[i].buffer.diff_with_content(content.as_str());
                    if diff.len() > 0 {
                        self.diff_lines = diff;
                        self.mode = Mode::ReloadConfirm;
                    }
                    Step::Continue
                },
                _ => Step::Continue,
            },
            After::Saved { path, named, kind } => match outcome {
                IoOutcome::Written(result) => self.saved(path.as_str(), named, kind, result.is_ok()),
                _ => Step::Continue,
            },
            After::Checked { then } => match outcome {
                IoOutcome::Cargo(report) => {
                    match report {
                        Some(r) => self.take_report(r),
                        None => {},
                    }
                    self.finish(then)
                },
                _ => Step::Continue,
            },
            After::Listed { quiet } => match outcome {
                IoOutcome::Files(Ok(files)) => {
                    self.file_finder.refresh_with(files);
                    Step::Continue
                },
                IoOutcome::Files(Err(e)) => {
                    self.file_finder.refresh_with(Vec::new());
                    if quiet {
                        Step::Continue
                    } else {
                        Step::Failed(e)
                    }
                },
                _ => Step::Continue,
            },
            After::Searched => match outcome {
                IoOutcome::Found(results) => {
                    self.token_search.set_results(results);
                    Step::Continue
                },
                _ => Step::Continue,
            },
        }
    }

    /// Goes on after the current buffer was written to `path` (when `ok`) or
    /// could not be: a write records the save (`path` becoming the buffer's
    /// name if `named`). After `:w`/`:x` the editor goes on (quitting after a
    /// successful `:x`); after a confirmed write or one under a typed name,
    /// the file is checked with cargo and the editor quits if it should, else
    /// returns to normal mode (a failed write returns to normal mode at once);
    /// when writing all tabs, the next tab follows, the original tab becoming
    /// current again.
    fn saved(&mut self, path: &str, named: bool, kind: SaveKind, ok: bool) -> (s: Step)
        requires
            old(self).wf(),
        ensures
            final(self).wf(),
            final(self).tabs@.len() == old(self).tabs@.len(),
            ok ==> final(self).tabs@[old(self).current_tab as int].buffer.modified_lines@.len() == 0
                && !final(self).tabs@[old(self).current_tab as int].buffer.is_modified,
            ok && named ==> (final(self).tabs@[old(self).current_tab as int].buffer.file_path matches Some(f)
                && f@ == path@),
            match kind {
                SaveKind::Command { quit } => (ok && quit ==> s is Quit) && (!(ok && quit) ==> s is Continue),
                SaveKind::Confirm { should_quit } => !ok ==> s is Continue && final(self).mode == Mode::Normal
                    && !final(self).save_and_quit,
                SaveKind::Prompt { should_quit } => !ok ==> s is Continue && final(self).mode == Mode::Normal
                    && final(self).filename_prompt_text@.len() == 0,
                SaveKind::All { .. } => true,
            },
    {
        let i = self.current_tab;
        if ok {
            if named {
                self.tabs[i].buffer.finish_save(Some(path), path);
            } else {
                self.tabs[i].buffer.finish_save(None, path);
            }
        }
        match kind {
            SaveKind::Command { quit } => {
                if ok && quit {
                    Step::Quit
                } else {
                    Step::Continue
                }
            },
            SaveKind::Confirm { should_quit } => {
                if ok {
                    self.check_then(Then::Finish { should_quit })
                } else {
                    self.mode = Mode::Normal;
                    self.save_and_quit = false;
                    Step::Continue
                }
            },
            SaveKind::Prompt { should_quit } => {
                if ok {
                    self.check_then(Then::PromptFinish { should_quit })
                } else {
                    self.filename_prompt_text = String::new();
                    self.mode = Mode::Normal;
                    Step::Continue
                }
            },
            SaveKind::All { next, original, all_saved, should_quit } => {
                if ok {
                    self.check_then(Then::SaveAll { next, original, all_saved, should_quit })
                } else {
                    let back = if original < self.tabs.len() {
                        original
                    } else {
                        self.current_tab
                    };
                    self.current_tab = back;
                    self.save_all_from(next, back, false, should_quit)
                }
            },
        }
    }

    /// Takes cargo's report as the current tab's diagnostics (see
    /// [`DiagnosticCollection::parse_cargo_output`]); when they hold an error
    /// or a warning, the diagnostics panel opens with its first entry selected.
    pub fn take_report(&mut self, report: CargoReport)
        requires
            old(self).wf(),
        ensures
            final(self).wf(),
            final(self).tabs@.len() == old(self).tabs@.len(),
            final(self).current_tab == old(self).current_tab,
            old(self).tab().buffer.file_path matches Some(f) ==> models_by_line(
                final(self).tab().diagnostics.by_line(),
            ) == cargo_diagnostics(
                report.output@,
                f@,
                report.current_file_name@,
                super::cargo_output::same_table(report.same_file@),
            ),
            old(self).tab().buffer.file_path is None ==> *final(self) == *old(self),
    {
        let i = self.current_tab;
        let file = match &self.tabs[i].buffer.file_path {
            Some(p) => p.clone(),
            None => return,
        };
        let parsed = DiagnosticCollection::new().parse_cargo_output(
            report.output.as_str(),
            file.as_str(),
            report.current_file_name.as_str(),
            &report.same_file,
        );
        let problems = self.tabs[i].take_diagnostics(parsed);
        if problems {
            self.mode = Mode::DiagnosticsPanel;
            self.selected_diagnostic_index = 0;
        }
    }
}

} // verus!
