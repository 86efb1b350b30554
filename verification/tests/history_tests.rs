use zim::editor::{ActionType, Cursor, EditorAction, History};

#[test]
fn test_history_push() {
    let mut history = History::new();
    let action = EditorAction {
        action_type: ActionType::InsertChar { x: 0, y: 0, c: 'a' },
        cursor_before: Cursor { x: 0, y: 0 },
        cursor_after: Cursor { x: 1, y: 0 },
    };
    history.push(action);
    assert!(history.can_undo());
    assert!(!history.can_redo());
    assert_eq!(history.current_index(), 1);
}

#[test]
fn test_history_undo_redo() {
    let mut history = History::new();
    let action1 = EditorAction {
        action_type: ActionType::InsertChar { x: 0, y: 0, c: 'a' },
        cursor_before: Cursor { x: 0, y: 0 },
        cursor_after: Cursor { x: 1, y: 0 },
    };
    let action2 = EditorAction {
        action_type: ActionType::InsertChar { x: 1, y: 0, c: 'b' },
        cursor_before: Cursor { x: 1, y: 0 },
        cursor_after: Cursor { x: 2, y: 0 },
    };
    history.push(action1.clone());
    history.push(action2.clone());
    assert!(history.can_undo());
    assert!(!history.can_redo());
    let undo_action = history.undo_action().unwrap();
    match undo_action.action_type {
        ActionType::InsertChar { x, y, c } => {
            assert_eq!(x, 1);
            assert_eq!(y, 0);
            assert_eq!(c, 'b');
        }
        _ => panic!("Unexpected action type"),
    }
    assert!(history.can_undo());
    assert!(history.can_redo());
    let redo_action = history.redo_action().unwrap();
    match redo_action.action_type {
        ActionType::InsertChar { x, y, c } => {
            assert_eq!(x, 1);
            assert_eq!(y, 0);
            assert_eq!(c, 'b');
        }
        _ => panic!("Unexpected action type"),
    }
    assert!(history.can_undo());
    assert!(!history.can_redo());
}

#[test]
fn test_history_truncation() {
    let mut history = History::new();
    for i in 0..3 {
        let action = EditorAction {
            action_type: ActionType::InsertChar { x: i, y: 0, c: (b'a' + i as u8) as char },
            cursor_before: Cursor { x: i, y: 0 },
            cursor_after: Cursor { x: i + 1, y: 0 },
        };
        history.push(action);
    }
    history.undo_action();
    history.undo_action();
    assert_eq!(history.current_index(), 1);
    let new_action = EditorAction {
        action_type: ActionType::InsertChar { x: 1, y: 0, c: 'x' },
        cursor_before: Cursor { x: 1, y: 0 },
        cursor_after: Cursor { x: 2, y: 0 },
    };
    history.push(new_action);
    assert_eq!(history.actions_list().len(), 2);
    assert!(!history.can_redo());
}

#[test]
fn history_keeps_at_most_a_thousand_actions() {
    let mut history = History::new();
    for i in 0..1005 {
        history.push(EditorAction {
            action_type: ActionType::InsertChar { x: i, y: 0, c: 'z' },
            cursor_before: Cursor { x: i, y: 0 },
            cursor_after: Cursor { x: i + 1, y: 0 },
        });
    }
    assert_eq!(history.actions_list().len(), 1000);
    assert_eq!(history.current_index(), 1000);
    match &history.actions_list()[0].action_type {
        ActionType::InsertChar { x, .. } => assert_eq!(*x, 5),
        _ => panic!("Unexpected action type"),
    }
}

#[test]
fn history_ignores_pushes_while_replaying() {
    let mut history = History::new();
    history.start_undo_or_redo();
    history.push(EditorAction {
        action_type: ActionType::OpenLineAbove { y: 0 },
        cursor_before: Cursor { x: 0, y: 0 },
        cursor_after: Cursor { x: 0, y: 0 },
    });
    assert!(!history.can_undo());
    history.end_undo_or_redo();
    history.clear();
    assert_eq!(history.current_index(), 0);
}
