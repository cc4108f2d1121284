use pipr::app::{App, AppAction, CachedCommandPart, WindowState};
use pipr::command_evaluation::{CmdOutput, CommandExecutionHandler, ExecutionMode};
use pipr::commandlist::CommandList;
use pipr::lineeditor::{Key, Modifiers};
use pipr::pipr_config::PiprConfig;

fn make_app() -> App {
    let engine = CommandExecutionHandler::start(
        2000,
        ExecutionMode::UNSAFE,
        vec!["bash".to_string(), "-c".to_string()],
    );
    App::new(
        engine,
        false,
        PiprConfig::default_values(),
        CommandList::new(None, None),
        CommandList::new(None, Some(500)),
    )
}

fn no_mods() -> Modifiers {
    Modifiers::none()
}

fn ctrl() -> Modifiers {
    Modifiers { control: true, alt: false }
}

#[test]
fn test_cache_invalidation_by_prefix_edits() {
    // cache a prefix anchored at (line 0, column 5); an edit strictly
    // after the anchor keeps it, an edit at or before it clears it
    let mut app = make_app();
    app.input_state.set_content(vec!["abc | def".to_string()]);
    app.cached_command_part = Some(CachedCommandPart::new(0, 5, vec!["out".to_string()]));

    // cursor sits at the end of the line: typing is strictly after col 5
    app.on_tui_event(Key::Char('x'), no_mods());
    assert!(app.cached_command_part.is_some());

    // navigation alone never touches the cache
    app.on_tui_event(Key::Home, no_mods());
    assert!(app.cached_command_part.is_some());

    // an edit at column 0 changes the anchored prefix
    app.on_tui_event(Key::Char('q'), no_mods());
    assert!(app.cached_command_part.is_none());
}

#[test]
fn test_cache_result_sets_and_failure_reports() {
    let mut app = make_app();
    app.input_state.set_content(vec!["abc | def".to_string()]);
    app.input_state.cursor_col = 4;
    app.on_cache_result(Ok(vec!["line1".to_string()]));
    let cached = app.cached_command_part.as_ref().unwrap();
    assert_eq!((cached.end_line, cached.end_col), (0, 5));
    assert_eq!(cached.cached_output, vec!["line1"]);

    let mut app = make_app();
    app.input_state.set_content(vec!["abc | def".to_string()]);
    app.input_state.cursor_col = 4;
    app.on_cache_result(Err("nope".to_string()));
    assert!(app.cached_command_part.is_none());
    assert_eq!(app.command_error, "could not run command to cache: nope");
    assert_eq!(app.input_state.cursor_col, 3);
}

#[test]
fn test_cache_prefix_request() {
    let mut app = make_app();
    app.input_state.set_content(vec!["abc | def".to_string()]);
    app.input_state.cursor_col = 4;
    match app.on_tui_event(Key::F(7), no_mods()) {
        Some(AppAction::RunCachePrefix(argv)) => {
            assert_eq!(argv, vec!["bash", "-c", "abc "]);
        }
        _ => panic!("the cache key on a pipe should request a blocking run"),
    }
    // away from a pipe nothing happens
    app.input_state.cursor_col = 0;
    assert!(app.on_tui_event(Key::F(7), no_mods()).is_none());
}

#[test]
fn test_commit_enter_pushes_history_and_spawns() {
    let mut app = make_app();
    app.input_state.set_content(vec!["echo hi".to_string()]);
    match app.on_tui_event(Key::Enter, no_mods()) {
        Some(AppAction::Spawn(action)) => {
            assert_eq!(action.argv, vec!["bash", "-c", "echo hi"]);
            assert_eq!(action.stdin, None);
        }
        _ => panic!("enter should commit and spawn"),
    }
    assert_eq!(app.history.len(), 1);
    assert_eq!(app.history.get_at(0).unwrap().as_string(), "echo hi");
    assert_eq!(app.last_executed_cmd, "echo hi");
    // the same content committed again is not duplicated
    app.on_tui_event(Key::Enter, no_mods());
    assert_eq!(app.history.len(), 1);
}

#[test]
fn test_commented_lines_are_excluded() {
    let mut app = make_app();
    app.input_state.set_content(vec!["#note".to_string(), "echo hi".to_string()]);
    match app.on_tui_event(Key::Enter, no_mods()) {
        Some(AppAction::Spawn(action)) => {
            assert_eq!(action.argv, vec!["bash", "-c", "echo hi"]);
        }
        _ => panic!("enter should spawn"),
    }
}

#[test]
fn test_autoeval_reexecutes_on_change_only() {
    let mut app = make_app();
    app.autoeval_mode = true;
    // a content-changing key triggers execution
    match app.on_tui_event(Key::Char('a'), no_mods()) {
        Some(AppAction::Spawn(action)) => {
            assert_eq!(action.argv, vec!["bash", "-c", "a"]);
        }
        _ => panic!("autoeval should execute after an edit"),
    }
    // navigation does not
    assert!(app.on_tui_event(Key::Left, no_mods()).is_none());
    // a no-op edit (backspace at the start) does not
    assert!(app.on_tui_event(Key::Left, no_mods()).is_none());
    assert!(app.on_tui_event(Key::Backspace, no_mods()).is_none());
}

#[test]
fn test_bookmark_toggle_key() {
    let mut app = make_app();
    app.input_state.set_content(vec!["du -sh".to_string()]);
    app.on_tui_event(Key::Char('s'), ctrl());
    assert_eq!(app.bookmarks.len(), 1);
    app.on_tui_event(Key::Char('s'), ctrl());
    assert_eq!(app.bookmarks.len(), 0);
}

#[test]
fn test_history_walk() {
    let mut app = make_app();
    app.input_state.set_content(vec!["first".to_string()]);
    app.on_tui_event(Key::Enter, no_mods());
    app.input_state.set_content(vec!["second".to_string()]);
    app.on_tui_event(Key::Enter, no_mods());
    app.input_state.set_content(vec!["draft".to_string()]);

    // the first step stashes the draft and shows the newest entry
    app.on_tui_event(Key::Char('p'), ctrl());
    assert_eq!(app.input_state.content_str(), "second");
    app.on_tui_event(Key::Char('p'), ctrl());
    assert_eq!(app.input_state.content_str(), "first");
    // forward again
    app.on_tui_event(Key::Char('n'), ctrl());
    assert_eq!(app.input_state.content_str(), "second");
    // past the newest stored entry the buffer clears
    app.on_tui_event(Key::Char('n'), ctrl());
    assert_eq!(app.input_state.content_str(), "");
    assert_eq!(app.history_idx, None);
}

#[test]
fn test_help_window_toggle() {
    let mut app = make_app();
    app.on_tui_event(Key::F(1), no_mods());
    match &app.window_state {
        WindowState::TextView(title, body) => {
            assert_eq!(title, "Help");
            assert!(!body.is_empty());
        }
        _ => panic!("the help view should be open"),
    }
    app.on_tui_event(Key::F(1), no_mods());
    assert!(matches!(app.window_state, WindowState::Main));
}

#[test]
fn test_autocomplete_request_and_single_completion() {
    let mut app = make_app();
    app.input_state.set_content(vec!["git sta".to_string()]);
    match app.on_tui_event(Key::Tab, no_mods()) {
        Some(AppAction::RequestCompletions(word)) => assert_eq!(word, "sta"),
        _ => panic!("tab at the end of a word should ask for completions"),
    }
    // a single match is inserted at once, its prompt prefix stripped
    app.on_completions("sta".to_string(), vec!["status".to_string()]);
    assert_eq!(app.input_state.content_str(), "git status");
    assert!(app.autocomplete_state.is_none());
}

#[test]
fn test_autocomplete_overlay_cycling() {
    let mut app = make_app();
    app.input_state.set_content(vec!["git s".to_string()]);
    app.on_completions(
        "s".to_string(),
        vec!["stash".to_string(), "status".to_string()],
    );
    assert_eq!(app.autocomplete_state.as_ref().unwrap().current_idx, 0);
    app.on_tui_event(Key::Tab, no_mods());
    assert_eq!(app.autocomplete_state.as_ref().unwrap().current_idx, 1);
    app.on_tui_event(Key::Tab, no_mods());
    assert_eq!(app.autocomplete_state.as_ref().unwrap().current_idx, 0);
    app.on_tui_event(Key::BackTab, no_mods());
    assert_eq!(app.autocomplete_state.as_ref().unwrap().current_idx, 1);
    // enter inserts the highlighted candidate's suffix and closes
    app.on_tui_event(Key::Enter, no_mods());
    assert_eq!(app.input_state.content_str(), "git status");
    assert!(app.autocomplete_state.is_none());
}

#[test]
fn test_snippet_menu_inserts_at_cursor() {
    let mut app = make_app();
    app.on_tui_event(Key::Char('v'), ctrl());
    assert!(app.opened_key_select_menu.is_some());
    // the configured sample snippet is keyed 's'
    app.on_tui_event(Key::Char('s'), no_mods());
    assert!(app.opened_key_select_menu.is_none());
    assert_eq!(app.input_state.content_str(), " | sed -r 's///g'");
    // the cursor lands at the snippet's marker position
    assert_eq!(app.input_state.cursor_col, 13);
}

#[test]
fn test_quit_key_stashes_history() {
    let mut app = make_app();
    app.input_state.set_content(vec!["almost done".to_string()]);
    app.on_tui_event(Key::Esc, no_mods());
    assert!(app.should_quit);
    assert_eq!(app.history.len(), 1);
}

#[test]
fn test_command_output_delivery() {
    let mut app = make_app();
    app.on_cmd_output(CmdOutput::Okay("lines\n".to_string()));
    assert_eq!(app.command_output, "lines\n");
    assert_eq!(app.command_error, "");
    app.on_cmd_output(CmdOutput::NotOk("oops".to_string()));
    assert_eq!(app.command_error, "oops");
    assert_eq!(app.command_output, "lines\n");
}

#[test]
fn test_empty_commit_leaves_history_empty() {
    let mut app = make_app();
    app.on_tui_event(Key::Enter, no_mods());
    assert_eq!(app.history.len(), 0);
}

#[test]
fn test_cached_output_becomes_stdin() {
    let mut app = make_app();
    app.input_state.set_content(vec!["abc | wc -l".to_string()]);
    app.cached_command_part =
        Some(CachedCommandPart::new(0, 5, vec!["one".to_string(), "two".to_string()]));
    match app.on_tui_event(Key::Enter, no_mods()) {
        Some(AppAction::Spawn(action)) => {
            // only the part after the anchor is re-run
            assert_eq!(action.argv, vec!["bash", "-c", " wc -l"]);
            assert_eq!(action.stdin, Some(vec!["one".to_string(), "two".to_string()]));
        }
        _ => panic!("enter should spawn the cache-adjusted command"),
    }
}

#[test]
fn test_mode_toggle_keys() {
    let mut app = make_app();
    assert!(!app.autoeval_mode);
    app.on_tui_event(Key::F(2), no_mods());
    assert!(app.autoeval_mode);
    assert!(!app.paranoid_history_mode);
    app.on_tui_event(Key::F(3), no_mods());
    assert!(app.paranoid_history_mode);
}

#[test]
fn test_paranoid_history_records_successful_runs() {
    let mut app = make_app();
    app.paranoid_history_mode = true;
    app.input_state.set_content(vec!["pwd".to_string()]);
    app.on_cmd_output(CmdOutput::Okay("/tmp\n".to_string()));
    assert_eq!(app.history.len(), 1);
    assert_eq!(app.history.get_at(0).unwrap().as_string(), "pwd");
}

#[test]
fn test_rejected_autoeval_abandons_previous_run() {
    let mut app = make_app();
    app.autoeval_mode = true;
    app.input_state.set_content(vec!["echo a".to_string()]);
    match app.on_tui_event(Key::Enter, no_mods()) {
        Some(AppAction::Spawn(_)) => {}
        _ => panic!("the first command should spawn"),
    }
    // editing the command into a rejected one cancels the running child
    app.input_state.set_content(vec!["rm ".to_string()]);
    match app.on_tui_event(Key::Char('x'), no_mods()) {
        Some(AppAction::KillRunning) => {}
        _ => panic!("a rejected submission should still replace the run"),
    }
    assert_eq!(
        app.command_error,
        "Will not run this command, it's for your own good. Believe me."
    );
}
