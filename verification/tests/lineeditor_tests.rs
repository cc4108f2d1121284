use pipr::lineeditor::{EditorEvent, EditorState};

#[test]
pub fn test_movement_simple() {
    let mut le = EditorState::new();
    assert_eq!(le.content_str(), "");

    le.set_content(vec!["hello".into(), "foo".into(), "bar".into()]);
    le.cursor_line = 0;
    le.cursor_col = 0;
    le.apply_event(EditorEvent::GoRight);
    assert_eq!((le.cursor_col, le.cursor_line), (1, 0));

    le.apply_event(EditorEvent::GoLeft);
    assert_eq!((le.cursor_col, le.cursor_line), (0, 0));

    le.apply_event(EditorEvent::GoLeft);
    assert_eq!((le.cursor_col, le.cursor_line), (0, 0));

    le.apply_event(EditorEvent::GoDown);
    assert_eq!((le.cursor_col, le.cursor_line), (0, 1));

    le.apply_event(EditorEvent::GoUp);
    assert_eq!((le.cursor_col, le.cursor_line), (0, 0));

    le.apply_event(EditorEvent::GoUp);
    assert_eq!((le.cursor_col, le.cursor_line), (0, 0));

    le.cursor_line = 1;
    le.cursor_col = 0;
    le.apply_event(EditorEvent::GoLeft);
    assert_eq!((le.cursor_col, le.cursor_line), (5, 0));

    le.apply_event(EditorEvent::GoRight);
    assert_eq!((le.cursor_col, le.cursor_line), (0, 1));
}

#[test]
pub fn test_lineeditor_ascii() {
    let mut le = EditorState::new();
    assert_eq!(le.content_str(), "");

    le.apply_event(EditorEvent::NewCharacter('a'));
    assert_eq!(le.content_str(), "a");

    le.apply_event(EditorEvent::NewCharacter('a'));
    assert_eq!(le.content_str(), "aa");
    assert_eq!(le.displayed_cursor_column(), 2);

    le.apply_event(EditorEvent::Backspace);
    assert_eq!(le.content_str(), "a");
    assert_eq!(le.displayed_cursor_column(), 1);

    le.apply_event(EditorEvent::Backspace);
    assert_eq!(le.content_str(), "");
    assert_eq!(le.displayed_cursor_column(), 0);

    le.apply_event(EditorEvent::Backspace);
    assert_eq!(le.content_str(), "");
    assert_eq!(le.displayed_cursor_column(), 0);

    le.apply_event(EditorEvent::NewCharacter('a'));
    assert_eq!(le.content_str(), "a");
    assert_eq!(le.displayed_cursor_column(), 1);

    le.apply_event(EditorEvent::GoLeft);
    assert_eq!(le.displayed_cursor_column(), 0);

    le.apply_event(EditorEvent::Delete);
    assert_eq!(le.content_str(), "");
    assert_eq!(le.displayed_cursor_column(), 0);

    le.apply_event(EditorEvent::Delete);
    assert_eq!(le.content_str(), "");
    assert_eq!(le.displayed_cursor_column(), 0);
}

#[test]
pub fn test_advanced() {
    let mut le = EditorState::new();
    le.set_content(vec!["as".to_string()]);
    assert_eq!(le.content_str(), "as");
    assert_eq!(le.displayed_cursor_column(), 2 as usize);

    le.apply_event(EditorEvent::KillWordBack);
    assert_eq!(le.content_str(), "");
    assert_eq!(le.displayed_cursor_column(), 0 as usize);

    le.set_content(vec!["as as as".to_string()]);
    assert_eq!(le.content_str(), "as as as");
    assert_eq!(le.displayed_cursor_column(), 8 as usize);

    le.apply_event(EditorEvent::KillWordBack);
    assert_eq!(le.content_str(), "as as");
    assert_eq!(le.displayed_cursor_column(), 5 as usize);
}

#[test]
pub fn test_lineeditor_umlaut() {
    let mut le = EditorState::new();
    assert_eq!(le.content_str(), "");

    le.apply_event(EditorEvent::NewCharacter('ä'));
    assert_eq!(le.content_str(), "ä");
    assert_eq!(le.displayed_cursor_column(), 1);
    le.apply_event(EditorEvent::NewCharacter('ä'));
    assert_eq!(le.content_str(), "ää");
    assert_eq!(le.displayed_cursor_column(), 2);

    le.apply_event(EditorEvent::GoLeft);
    assert_eq!(le.displayed_cursor_column(), 1);
}

#[test]
pub fn test_multiline() {
    let mut le = EditorState::new();

    le.apply_event(EditorEvent::NewLine);
    assert_eq!(*le.content_lines(), vec!["", ""]);
    assert_eq!(le.cursor_line, 1);

    le.apply_event(EditorEvent::NewCharacter('a'));
    assert_eq!(*le.content_lines(), vec!["", "a"]);
    assert_eq!(le.cursor_line, 1);

    le.apply_event(EditorEvent::GoUp);
    assert_eq!(*le.content_lines(), vec!["", "a"]);
    assert_eq!(le.cursor_line, 0);

    le.apply_event(EditorEvent::GoDown);
    assert_eq!(*le.content_lines(), vec!["", "a"]);
    assert_eq!(le.cursor_line, 1);

    le.set_content(vec!["a".into(), "b".into()]);
    assert_eq!(*le.content_lines(), vec!["a", "b"]);
    assert_eq!(le.cursor_line, 1);
    le.apply_event(EditorEvent::Home);
    le.apply_event(EditorEvent::Backspace);
    assert_eq!(le.cursor_line, 0);
    assert_eq!(*le.content_lines(), vec!["ab"]);
}

#[test]
fn test_insert_backspace_round_trip() {
    // inserts followed by the same number of backspaces restore content
    // and cursor
    let mut le = EditorState::new();
    le.set_content(vec!["start".to_string(), "mid".to_string()]);
    le.cursor_line = 1;
    le.cursor_col = 1;
    for c in ['x', 'ä', 'y'] {
        le.apply_event(EditorEvent::NewCharacter(c));
    }
    assert_eq!(*le.content_lines(), vec!["start", "mxäyid"]);
    for _ in 0..3 {
        le.apply_event(EditorEvent::Backspace);
    }
    assert_eq!(*le.content_lines(), vec!["start", "mid"]);
    assert_eq!((le.cursor_line, le.cursor_col), (1, 1));
}

#[test]
fn test_empty_buffer_backspace_example() {
    // start empty, type two characters, then backspace past the start
    let mut le = EditorState::new();
    le.apply_event(EditorEvent::NewCharacter('a'));
    le.apply_event(EditorEvent::NewCharacter('a'));
    assert_eq!(le.content_str(), "aa");
    le.apply_event(EditorEvent::Backspace);
    assert_eq!(le.content_str(), "a");
    le.apply_event(EditorEvent::Backspace);
    assert_eq!(le.content_str(), "");
    le.apply_event(EditorEvent::Backspace);
    assert_eq!(le.content_str(), "");
}

#[test]
fn test_kill_word_back_delimiters() {
    let mut le = EditorState::new();
    le.set_content(vec!["a/b_c-d".to_string()]);
    le.apply_event(EditorEvent::KillWordBack);
    assert_eq!(le.content_str(), "a/b_c");
    le.apply_event(EditorEvent::KillWordBack);
    assert_eq!(le.content_str(), "a/b");
    le.apply_event(EditorEvent::KillWordBack);
    assert_eq!(le.content_str(), "a");
}

#[test]
fn test_hovered_char_and_indices() {
    let mut le = EditorState::new();
    le.set_content(vec!["aä".to_string()]);
    le.cursor_col = 0;
    assert_eq!(le.hovered_char(), Some("a".to_string()));
    le.cursor_col = 1;
    assert_eq!(le.hovered_char(), Some("ä".to_string()));
    le.cursor_col = 2;
    assert_eq!(le.hovered_char(), None);
    assert_eq!(le.next_char_index(), 2);
    le.cursor_col = 1;
    assert_eq!(le.next_char_index(), 2);
}

#[test]
fn test_remove_until() {
    let mut le = EditorState::new();
    le.set_content(vec!["abc".to_string(), "defg".to_string(), "hi".to_string()]);
    le.remove_until(1, 2);
    assert_eq!(*le.content_lines(), vec!["fg", "hi"]);
    assert_eq!((le.cursor_line, le.cursor_col), (1, 0));
}

#[test]
fn test_kill_word_back_at_line_start_is_a_no_op() {
    // a backward kill has nothing to remove at column 0
    let mut le = EditorState::new();
    le.set_content(vec!["abc".to_string()]);
    le.cursor_col = 0;
    le.apply_event(EditorEvent::KillWordBack);
    assert_eq!(le.content_str(), "abc");
    assert_eq!(le.cursor_col, 0);
}
