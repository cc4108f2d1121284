use pipr::app::command_list_window::CommandListState;
use pipr::bookmark::{Bookmark, BookmarkList};
use pipr::commandlist::{CommandEntry, CommandList};
use pipr::lineeditor::Key;

fn entry(lines: &[&str]) -> CommandEntry {
    CommandEntry::new(&lines.iter().map(|s| s.to_string()).collect::<Vec<String>>())
}

#[test]
fn test_push_deduplicates_consecutive() {
    // pushing the same snapshot twice leaves the length unchanged
    let mut list = CommandList::new(None, None);
    list.push(entry(&["echo a"]));
    assert_eq!(list.len(), 1);
    list.push(entry(&["echo a"]));
    assert_eq!(list.len(), 1);
    list.push(entry(&["echo b"]));
    assert_eq!(list.len(), 2);
    list.push(entry(&["echo b"]));
    assert_eq!(list.len(), 2);
}

#[test]
fn test_push_skips_empty_and_evicts_oldest() {
    let mut list = CommandList::new(None, Some(2));
    list.push(entry(&[]));
    list.push(entry(&[""]));
    assert_eq!(list.len(), 0);
    list.push(entry(&["one"]));
    list.push(entry(&["two"]));
    list.push(entry(&["three"]));
    assert_eq!(list.len(), 2);
    assert_eq!(list.get_at(0).unwrap().as_string(), "two");
    assert_eq!(list.get_at(1).unwrap().as_string(), "three");
}

#[test]
fn test_toggle_entry_round_trip() {
    // toggling twice restores membership; toggling an empty snapshot
    // never mutates the list
    let mut list = CommandList::new(None, None);
    list.push(entry(&["keep"]));
    let x = entry(&["cat x"]);
    assert!(!list.contains_entry(&x));
    list.toggle_entry(x.duplicate());
    assert!(list.contains_entry(&x));
    list.toggle_entry(x.duplicate());
    assert!(!list.contains_entry(&x));
    assert_eq!(list.len(), 1);

    list.toggle_entry(entry(&[]));
    assert_eq!(list.len(), 1);
}

#[test]
fn test_serialize_deserialize_round_trip() {
    let mut list = CommandList::new(None, None);
    list.push(entry(&["echo a"]));
    list.push(entry(&["cat x", "grep y"]));
    let text = list.serialize();
    assert_eq!(text, "echo a\n---\ncat x\ngrep y");
    let parsed = CommandList::deserialize(None, None, &text);
    assert_eq!(parsed.len(), 2);
    assert_eq!(parsed.get_at(0).unwrap().as_string(), "echo a");
    assert_eq!(parsed.get_at(1).unwrap().as_string(), "cat x\ngrep y");
}

#[test]
fn test_deserialize_trims_to_max_size() {
    let text = "a\n---\nb\n---\nc";
    let parsed = CommandList::deserialize(None, Some(2), text);
    assert_eq!(parsed.len(), 2);
    assert_eq!(parsed.get_at(0).unwrap().as_string(), "b");
    assert_eq!(parsed.get_at(1).unwrap().as_string(), "c");
}

#[test]
fn test_deserialize_skips_blank_lines() {
    let text = "a\n\n---\n\nb\nc\n";
    let parsed = CommandList::deserialize(None, None, text);
    assert_eq!(parsed.len(), 2);
    assert_eq!(parsed.get_at(0).unwrap().as_string(), "a");
    assert_eq!(parsed.get_at(1).unwrap().as_string(), "b\nc");
}

#[test]
fn test_bookmark_toggle_idempotent() {
    let mut list = BookmarkList::new();
    let lines: Vec<String> = vec!["du -sh".to_string()];
    list.toggle_bookmark(Bookmark::new(&lines));
    assert_eq!(list.len(), 1);
    assert_eq!(list.bookmark_at(0).unwrap().first_line(), "du -sh");
    list.toggle_bookmark(Bookmark::new(&lines));
    assert_eq!(list.len(), 0);

    let empty: Vec<String> = Vec::new();
    list.toggle_bookmark(Bookmark::new(&empty));
    assert_eq!(list.len(), 0);
}

#[test]
fn test_list_window_selection_and_undo() {
    let entries = vec![entry(&["a"]), entry(&["b"]), entry(&["c"])];
    let mut st = CommandListState::new(entries, None);
    assert_eq!(st.selected_idx, Some(2));
    st.apply_event(Key::Up);
    assert_eq!(st.selected_idx, Some(1));
    st.apply_event(Key::PageUp);
    assert_eq!(st.selected_idx, Some(0));
    st.apply_event(Key::PageDown);
    assert_eq!(st.selected_idx, Some(2));

    st.apply_event(Key::Delete);
    assert_eq!(st.list.len(), 2);
    assert_eq!(st.selected_idx, Some(1));
    // undo restores the deleted entry at the end and selects it
    st.apply_event(Key::Char('u'));
    assert_eq!(st.list.len(), 3);
    assert_eq!(st.selected_idx, Some(2));
    assert_eq!(st.selected_entry().unwrap().as_string(), "c");
}

#[test]
fn test_list_window_delete_last_entry() {
    let entries = vec![entry(&["only"])];
    let mut st = CommandListState::new(entries, None);
    st.apply_event(Key::Backspace);
    assert_eq!(st.list.len(), 0);
    assert_eq!(st.selected_idx, None);
    // with nothing selected further keys are ignored
    st.apply_event(Key::Down);
    assert_eq!(st.selected_idx, None);
}

#[test]
fn test_key_select_menu_option_lines() {
    let menu =
        pipr::app::key_select_menu::KeySelectMenu::new(vec![('m', "man page".to_string())], ());
    assert_eq!(menu.option_list_strings(), vec!["m: man page"]);
}

#[test]
fn test_command_list_window_page_clamps() {
    let entries: Vec<CommandEntry> = (0..12).map(|i| entry(&[&format!("cmd{}", i)])).collect();
    let mut st = CommandListState::new(entries, Some(0));
    st.apply_event(Key::PageDown);
    assert_eq!(st.selected_idx, Some(5));
    st.apply_event(Key::PageDown);
    assert_eq!(st.selected_idx, Some(10));
    st.apply_event(Key::PageDown);
    assert_eq!(st.selected_idx, Some(11));
    st.apply_event(Key::PageUp);
    assert_eq!(st.selected_idx, Some(6));
}

#[test]
fn test_list_window_out_of_range_selection_falls_back() {
    let entries = vec![entry(&["a"]), entry(&["b"])];
    let st = CommandListState::new(entries, Some(9));
    assert_eq!(st.selected_idx, Some(1));
    let st = CommandListState::new(Vec::new(), Some(3));
    assert_eq!(st.selected_idx, None);
}

#[test]
fn test_remove_at_past_end_is_a_no_op() {
    let mut list = CommandList::new(None, None);
    list.push(entry(&["keep"]));
    list.remove_at(5);
    assert_eq!(list.len(), 1);
}
