use vstd::prelude::*;
use super::cursor::Cursor;
use crate::text::{copy_strings, text_of};

verus! {

/// An undoable change to a buffer, with what is needed to revert or replay it.
#[derive(Debug)]
pub enum ActionType {
    InsertChar { x: usize, y: usize, c: char },
    DeleteChar { x: usize, y: usize, c: char },
    InsertNewline { x: usize, y: usize, remaining_text: String },
    DeleteLine { y: usize, content: String },
    JoinLines { y: usize, column_pos: usize },
    ReplaceSelection {
        old_text: String,
        new_text: String,
        selection_start: (usize, usize),
        selection_end: (usize, usize),
    },
    SetContent { old_lines: Vec<String>, new_lines: Vec<String> },
    OpenLineBelow { y: usize },
    OpenLineAbove { y: usize },
    /// `position` is (line, column).
    DeleteWord { position: (usize, usize), deleted_text: String },
    /// `position` is (line, column).
    DeleteToEndOfLine { position: (usize, usize), deleted_text: String },
    /// `position` is (line, column).
    DeleteToStartOfLine { position: (usize, usize), deleted_text: String },
}

/// A recorded action together with the cursor before and after it.
#[derive(Debug, Clone)]
pub struct EditorAction {
    pub action_type: ActionType,
    pub cursor_before: Cursor,
    pub cursor_after: Cursor,
}

/// The mathematical content of an [`ActionType`]: texts as character sequences.
pub enum ActionModel {
    InsertChar { x: usize, y: usize, c: char },
    DeleteChar { x: usize, y: usize, c: char },
    InsertNewline { x: usize, y: usize, remaining_text: Seq<char> },
    DeleteLine { y: usize, content: Seq<char> },
    JoinLines { y: usize, column_pos: usize },
    ReplaceSelection {
        old_text: Seq<char>,
        new_text: Seq<char>,
        selection_start: (usize, usize),
        selection_end: (usize, usize),
    },
    SetContent { old_lines: Seq<Seq<char>>, new_lines: Seq<Seq<char>> },
    OpenLineBelow { y: usize },
    OpenLineAbove { y: usize },
    DeleteWord { position: (usize, usize), deleted_text: Seq<char> },
    DeleteToEndOfLine { position: (usize, usize), deleted_text: Seq<char> },
    DeleteToStartOfLine { position: (usize, usize), deleted_text: Seq<char> },
}

/// The mathematical content of an [`EditorAction`].
pub struct EditorActionModel {
    pub action_type: ActionModel,
    pub cursor_before: Cursor,
    pub cursor_after: Cursor,
}

impl View for ActionType {
    type V = ActionModel;

    open spec fn view(&self) -> ActionModel {
        match self {
            ActionType::InsertChar { x, y, c } => ActionModel::InsertChar { x: *x, y: *y, c: *c },
            ActionType::DeleteChar { x, y, c } => ActionModel::DeleteChar { x: *x, y: *y, c: *c },
            ActionType::InsertNewline { x, y, remaining_text } => ActionModel::InsertNewline {
                x: *x,
                y: *y,
                remaining_text: remaining_text@,
            },
            ActionType::DeleteLine { y, content } => ActionModel::DeleteLine {
                y: *y,
                content: content@,
            },
            ActionType::JoinLines { y, column_pos } => ActionModel::JoinLines {
                y: *y,
                column_pos: *column_pos,
            },
            ActionType::ReplaceSelection { old_text, new_text, selection_start, selection_end } =>
                ActionModel::ReplaceSelection {
                old_text: old_text@,
                new_text: new_text@,
                selection_start: *selection_start,
                selection_end: *selection_end,
            },
            ActionType::SetContent { old_lines, new_lines } => ActionModel::SetContent {
                old_lines: text_of(old_lines@),
                new_lines: text_of(new_lines@),
            },
            ActionType::OpenLineBelow { y } => ActionModel::OpenLineBelow { y: *y },
            ActionType::OpenLineAbove { y } => ActionModel::OpenLineAbove { y: *y },
            ActionType::DeleteWord { position, deleted_text } => ActionModel::DeleteWord {
                position: *position,
                deleted_text: deleted_text@,
            },
            ActionType::DeleteToEndOfLine { position, deleted_text } =>
                ActionModel::DeleteToEndOfLine {
                position: *position,
                deleted_text: deleted_text@,
            },
            ActionType::DeleteToStartOfLine { position, deleted_text } =>
                ActionModel::DeleteToStartOfLine {
                position: *position,
                deleted_text: deleted_text@,
            },
        }
    }
}

impl View for EditorAction {
    type V = EditorActionModel;

    open spec fn view(&self) -> EditorActionModel {
        EditorActionModel {
            action_type: self.action_type@,
            cursor_before: self.cursor_before,
            cursor_after: self.cursor_after,
        }
    }
}

impl ActionType {
    /// A copy of this action with the same content.
    pub fn duplicate(&self) -> (r: Self)
        ensures
            r@ == self@,
    {
        match self {
            ActionType::InsertChar { x, y, c } => ActionType::InsertChar { x: *x, y: *y, c: *c },
            ActionType::DeleteChar { x, y, c } => ActionType::DeleteChar { x: *x, y: *y, c: *c },
            ActionType::InsertNewline { x, y, remaining_text } => ActionType::InsertNewline {
                x: *x,
                y: *y,
                remaining_text: remaining_text.clone(),
            },
            ActionType::DeleteLine { y, content } => ActionType::DeleteLine {
                y: *y,
                content: content.clone(),
            },
            ActionType::JoinLines { y, column_pos } => ActionType::JoinLines {
                y: *y,
                column_pos: *column_pos,
            },
            ActionType::ReplaceSelection { old_text, new_text, selection_start, selection_end } =>
                ActionType::ReplaceSelection {
                old_text: old_text.clone(),
                new_text: new_text.clone(),
                selection_start: *selection_start,
                selection_end: *selection_end,
            },
            ActionType::SetContent { old_lines, new_lines } => ActionType::SetContent {
                old_lines: copy_strings(old_lines),
                new_lines: copy_strings(new_lines),
            },
            ActionType::OpenLineBelow { y } => ActionType::OpenLineBelow { y: *y },
            ActionType::OpenLineAbove { y } => ActionType::OpenLineAbove { y: *y },
            ActionType::DeleteWord { position, deleted_text } => ActionType::DeleteWord {
                position: *position,
                deleted_text: deleted_text.clone(),
            },
            ActionType::DeleteToEndOfLine { position, deleted_text } =>
                ActionType::DeleteToEndOfLine {
                position: *position,
                deleted_text: deleted_text.clone(),
            },
            ActionType::DeleteToStartOfLine { position, deleted_text } =>
                ActionType::DeleteToStartOfLine {
                position: *position,
                deleted_text: deleted_text.clone(),
            },
        }
    }
}

impl Clone for ActionType {
    fn clone(&self) -> (r: Self)
        ensures
            r@ == self@,
    {
        self.duplicate()
    }
}

impl EditorAction {
    /// A copy of this action with the same content.
    pub fn duplicate(&self) -> (r: Self)
        ensures
            r@ == self@,
    {
        EditorAction {
            action_type: self.action_type.duplicate(),
            cursor_before: self.cursor_before,
            cursor_after: self.cursor_after,
        }
    }
}

/// The number of actions that a new history keeps at most.
pub const MAX_HISTORY: usize = 1000;

/// The recorded actions after `a` is recorded at `index`: the actions after
/// `index` are dropped, `a` is appended, and the oldest actions are dropped
/// beyond `max` of them.
pub open spec fn pushed_actions(
    actions: Seq<EditorActionModel>,
    index: int,
    a: EditorActionModel,
    max: int,
) -> Seq<EditorActionModel> {
    let t = actions.take(index).push(a);
    if t.len() > max {
        t.skip(t.len() - max)
    } else {
        t
    }
}

/// Undo/redo history: a list of actions and a position in it. The actions
/// before the position can be undone, those after it redone.
pub struct History {
    actions: Vec<EditorAction>,
    current_index: usize,
    max_history: usize,
    in_undo_or_redo: bool,
}

impl History {
    /// The recorded actions, oldest first.
    pub closed spec fn actions(&self) -> Seq<EditorActionModel> {
        self.actions@.map_values(|a: EditorAction| a@)
    }

    /// How many of the recorded actions are done (can be undone).
    pub closed spec fn index(&self) -> nat {
        self.current_index as nat
    }

    /// The most actions kept.
    pub closed spec fn max(&self) -> nat {
        self.max_history as nat
    }

    /// Whether an undo or redo is running (actions are then not recorded).
    pub closed spec fn replaying(&self) -> bool {
        self.in_undo_or_redo
    }

    /// The history's invariant: the position lies within the actions, and
    /// there are at most `max()` of them, `max()` being positive.
    pub open spec fn wf(&self) -> bool {
        &&& self.index() <= self.actions().len()
        &&& self.actions().len() <= self.max()
        &&& 0 < self.max() < usize::MAX
    }

    pub fn new() -> (h: Self)
        ensures
            h.wf(),
            h.actions() == Seq::<EditorActionModel>::empty(),
            h.index() == 0,
            h.max() == MAX_HISTORY,
            !h.replaying(),
    {
        History {
            actions: Vec::new(),
            current_index: 0,
            max_history: MAX_HISTORY,
            in_undo_or_redo: false,
        }
    }

    /// Position in the history (number of actions that can be undone).
    pub fn current_index(&self) -> (r: usize)
        ensures
            r == self.index(),
    {
        self.current_index
    }

    /// The recorded actions, oldest first.
    pub fn actions_list(&self) -> (r: &Vec<EditorAction>)
        ensures
            r@.map_values(|a: EditorAction| a@) == self.actions(),
    {
        &self.actions
    }

    /// Records `action`, unless an undo or redo is running. Actions that
    /// were undone are discarded, and beyond `max()` actions the oldest go.
    pub fn push(&mut self, action: EditorAction)
        requires
            old(self).wf(),
        ensures
            final(self).wf(),
            final(self).max() == old(self).max(),
            final(self).replaying() == old(self).replaying(),
            old(self).replaying() ==> final(self).actions() == old(self).actions()
                && final(self).index() == old(self).index(),
            !old(self).replaying() ==> final(self).actions() == pushed_actions(
                old(self).actions(),
                old(self).index() as int,
                action@,
                old(self).max() as int,
            ) && final(self).index() == final(self).actions().len(),
    {
        if self.in_undo_or_redo {
            return;
        }
        if self.current_index < self.actions.len() {
            self.actions.truncate(self.current_index);
        }
        self.actions.push(action);
        self.current_index = self.actions.len();
        if self.actions.len() > self.max_history {
            let remove_count = self.actions.len() - self.max_history;
            let ghost t = self.actions@;
            let mut k: usize = 0;
            while k < remove_count
                invariant
                    k <= remove_count,
                    remove_count == t.len() - self.max_history,
                    self.actions@ == t.skip(k as int),
                    self.current_index == t.len(),
                    self.max_history == old(self).max_history,
                    self.in_undo_or_redo == old(self).in_undo_or_redo,
                    0 < self.max_history < t.len(),
                decreases remove_count - k,
            {
                self.actions.remove(0);
                k += 1;
            }
            self.current_index -= remove_count;
        }
        assert(self.actions() =~= pushed_actions(
            old(self).actions(),
            old(self).index() as int,
            action@,
            old(self).max() as int,
        ));
    }

    /// Can an action be undone?
    pub fn can_undo(&self) -> (r: bool)
        ensures
            r == (self.index() > 0),
    {
        self.current_index > 0
    }

    /// Can an action be redone?
    pub fn can_redo(&self) -> (r: bool)
        ensures
            r == (self.index() < self.actions().len()),
    {
        self.current_index < self.actions.len()
    }

    /// Steps back one action and returns it, if there is one.
    pub fn undo_action(&mut self) -> (r: Option<EditorAction>)
        requires
            old(self).wf(),
        ensures
            final(self).wf(),
            final(self).actions() == old(self).actions(),
            final(self).max() == old(self).max(),
            final(self).replaying() == old(self).replaying(),
            old(self).index() == 0 ==> r is None && final(self).index() == 0,
            old(self).index() > 0 ==> final(self).index() == old(self).index() - 1 && r is Some && r->0@ == old(self).actions()[old(self).index() - 1],
    {
        if !self.can_undo() {
            return None;
        }
        self.current_index -= 1;
        let action = self.actions[self.current_index].duplicate();
        Some(action)
    }

    /// Steps forward one action and returns it, if there is one.
    pub fn redo_action(&mut self) -> (r: Option<EditorAction>)
        requires
            old(self).wf(),
        ensures
            final(self).wf(),
            final(self).actions() == old(self).actions(),
            final(self).max() == old(self).max(),
            final(self).replaying() == old(self).replaying(),
            old(self).index() == old(self).actions().len() ==> r is None && final(self).index()
                == old(self).index(),
            old(self).index() < old(self).actions().len() ==> final(self).index() == old(self).index() + 1 && r is Some && r->0@ == old(self).actions()[old(self).index() as int],
    {
        if !self.can_redo() {
            return None;
        }
        let action = self.actions[self.current_index].duplicate();
        self.current_index += 1;
        Some(action)
    }

    /// Forgets every action.
    pub fn clear(&mut self)
        requires
            old(self).wf(),
        ensures
            final(self).wf(),
            final(self).actions() == Seq::<EditorActionModel>::empty(),
            final(self).index() == 0,
            final(self).max() == old(self).max(),
            final(self).replaying() == old(self).replaying(),
    {
        self.actions.clear();
        self.current_index = 0;
    }

    /// Marks the start of an undo or redo: actions are not recorded until its end.
    pub fn start_undo_or_redo(&mut self)
        requires
            old(self).wf(),
        ensures
            final(self).wf(),
            final(self).replaying(),
            final(self).actions() == old(self).actions(),
            final(self).index() == old(self).index(),
            final(self).max() == old(self).max(),
    {
        self.in_undo_or_redo = true;
    }

    /// Marks the end of an undo or redo.
    pub fn end_undo_or_redo(&mut self)
        requires
            old(self).wf(),
        ensures
            final(self).wf(),
            !final(self).replaying(),
            final(self).actions() == old(self).actions(),
            final(self).index() == old(self).index(),
            final(self).max() == old(self).max(),
    {
        self.in_undo_or_redo = false;
    }
}

} // verus!
