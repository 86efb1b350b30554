//! Whether undoing or redoing the next action stays within `usize`; an
//! editor checks this before it replays an action.

use vstd::prelude::*;
use super::buffer::{Buffer, insert_fits, undo_fits, redo_fits, std_lines, std_lines_of, inserted_lines};
use super::cursor::Cursor;
use super::history::ActionType;
use crate::text::{char_len, text_of};

verus! {

/// Whether inserting `s` at `c` keeps the cursor within `usize` (see [`insert_fits`]).
fn insert_fits_now(c: Cursor, s: &str) -> (r: bool)
    ensures
        r == insert_fits(c, s@),
{
    let ls = std_lines_of(s);
    assert(text_of(ls@).len() == ls@.len());
    let n = if ls.len() == 0 { 1 } else { ls.len() };
    let first_len = if ls.len() == 0 {
        char_len(s)
    } else {
        assert(text_of(ls@)[0] == ls@[0]@);
        char_len(ls[0].as_str())
    };
    (n != 1 || c.x <= usize::MAX - first_len) && c.y <= usize::MAX - n
}

impl Buffer {
    /// Whether undoing the last done action, if any, stays within `usize`.
    pub fn undo_fits_now(&self) -> (r: bool)
        requires
            self.wf(),
        ensures
            r == (self.history.index() > 0 ==> undo_fits(
                self.history.actions()[self.history.index() - 1],
            )),
    {
        let idx = self.history.current_index();
        if idx == 0 {
            return true;
        }
        let actions = self.history.actions_list();
        let a = &actions[idx - 1];
        assert(a@ == self.history.actions()[idx - 1]);
        match &a.action_type {
            ActionType::OpenLineBelow { y } => *y < usize::MAX,
            ActionType::ReplaceSelection { old_text, new_text, selection_start, .. } => insert_fits_now(
                Cursor { x: selection_start.1, y: selection_start.0 },
                old_text.as_str(),
            ) && insert_fits_now(Cursor { x: selection_start.1, y: selection_start.0 }, new_text.as_str()),
            _ => true,
        }
    }

    /// Whether redoing the next undone action, if any, stays within `usize`.
    pub fn redo_fits_now(&self) -> (r: bool)
        requires
            self.wf(),
        ensures
            r == (self.history.index() < self.history.actions().len() ==> redo_fits(
                self.history.actions()[self.history.index() as int],
            )),
    {
        let idx = self.history.current_index();
        let actions = self.history.actions_list();
        if idx >= actions.len() {
            return true;
        }
        let a = &actions[idx];
        assert(a@ == self.history.actions()[idx as int]);
        match &a.action_type {
            ActionType::InsertChar { x, .. } => *x < usize::MAX,
            ActionType::DeleteWord { position, deleted_text } => position.1 <= usize::MAX - char_len(
                deleted_text.as_str(),
            ),
            ActionType::ReplaceSelection { new_text, selection_start, .. } => insert_fits_now(
                Cursor { x: selection_start.1, y: selection_start.0 },
                new_text.as_str(),
            ),
            _ => true,
        }
    }
}

} // verus!
