//! The application controller: routes key events to the right window or
//! overlay, decides when the composed command is (re-)executed, manages
//! history and bookmark lists, and owns the cached-prefix invalidation
//! logic. All outside work (spawning, file listing, the blocking prefix
//! run) is returned to the caller as an action or left in a field to be
//! taken.

pub mod command_list_window;
pub mod key_select_menu;
pub mod main_window;

use vstd::prelude::*;

use crate::app::command_list_window::CommandListState;
use crate::app::key_select_menu::KeySelectMenu;
use crate::app::main_window::AutocompleteState;
use crate::command_evaluation::{
    output_view, CmdOutput, CommandExecutionHandler, CommandExecutionRequest, SpawnAction,
    spec_bwrap_prefix, spec_guard_rejects,
};
use crate::commandlist::{spec_push, CommandList};
use crate::lineeditor::{
    spec_apply_event, spec_convert_key, EditorState, Key, Modifiers,
};
use crate::pipr_config::PiprConfig;
use crate::strings::{clone_lines, join_lines};
use crate::util::{spec_split_at_offset, VecStringExt};

verus! {

/// The text shown by the built-in help view.
pub fn help_text() -> (r: String)
    ensures
        r@.len() > 0,
    {
    let r: String =
        "F1         Show/hide help\nF2         Toggle autoeval\nF3         Toggle Paranoid history (fills up history in autoeval)\nF4         Show/hide history\nCtrl+B     Show/hide bookmarks\nF5         Open helpviewer\nF6         Open outputviewer\nF7         When the cursor is on a `|` symbol, cache the output of everything before that |\nCtrl+S     Save bookmark\nAlt+Return Newline\nCtrl+X     Clear Command\nCtrl+P     Previous in history\nCtrl+N     Next in history\nCtrl+V     Insert snippet (press corresponding key to choose)\n\ndisable a line by starting it with a #\nthis will simply exclude the line from the executed command.\n\nConfig file is in\n~/.config/pipr/pipr.toml".to_owned();
    proof {
        reveal_strlit(
            "F1         Show/hide help\nF2         Toggle autoeval\nF3         Toggle Paranoid history (fills up history in autoeval)\nF4         Show/hide history\nCtrl+B     Show/hide bookmarks\nF5         Open helpviewer\nF6         Open outputviewer\nF7         When the cursor is on a `|` symbol, cache the output of everything before that |\nCtrl+S     Save bookmark\nAlt+Return Newline\nCtrl+X     Clear Command\nCtrl+P     Previous in history\nCtrl+N     Next in history\nCtrl+V     Insert snippet (press corresponding key to choose)\n\ndisable a line by starting it with a #\nthis will simply exclude the line from the executed command.\n\nConfig file is in\n~/.config/pipr/pipr.toml",
        );
    }
    r
}

/// Which window fills the screen: the editor, a read-only text view, or
/// one of the two list views.
pub enum WindowState {
    Main,
    TextView(String, String),
    BookmarkList(CommandListState),
    HistoryList(CommandListState),
}

/// What choosing an option of an open key-select menu means: insert a
/// snippet, open a word in a help viewer, or pipe the current output
/// into an output viewer.
pub enum KeySelectMenuType {
    Snippets,
    OpenWordIn(String),
    OpenOutputIn(String),
}

/// A frozen prefix of the command: everything up to and including the
/// anchor `(end_line, end_col)` has been executed once, and its output
/// is replayed as stdin instead of being re-run — valid only while the
/// buffer content at and before the anchor is unchanged.
pub struct CachedCommandPart {
    pub end_line: usize,
    pub end_col: usize,
    pub cached_output: Vec<String>,
}

impl CachedCommandPart {
    /// A cached prefix anchored at `(end_line, end_col)` with the given
    /// frozen output.
    pub fn new(end_line: usize, end_col: usize, cached_output: Vec<String>) -> (r:
        CachedCommandPart)
        ensures
            r.end_line == end_line,
            r.end_col == end_col,
            r.cached_output == cached_output,
    {
        CachedCommandPart { end_line, end_col, cached_output }
    }
}

/// Outside work the caller must perform after an event was handled.
pub enum AppAction {
    /// Kill any live child, then spawn this; feed what happens back in
    /// as engine events.
    Spawn(SpawnAction),
    /// Run this argument list to completion, then hand the captured
    /// stdout (or the failure) to `on_cache_result`.
    RunCachePrefix(Vec<String>),
    /// List the filesystem completions of this word, then hand them to
    /// `on_completions`.
    RequestCompletions(String),
    /// Kill any live child and stop reading its streams: its run was
    /// abandoned because a rejected submission replaced it.
    KillRunning,
}

/// The lines that take part in execution: those not starting with `#`.
pub open spec fn filter_hash_lines(lines: Seq<Seq<char>>) -> Seq<Seq<char>> {
    lines.filter(|l: Seq<char>| !(l.len() > 0 && l[0] == '#'))
}

/// The command text a buffer resolves to: the part after the cached
/// anchor (everything, without a cache), commented lines dropped, lines
/// joined by line breaks in raw mode and by spaces otherwise.
pub open spec fn spec_command_text(
    lines: Seq<Seq<char>>,
    cached: Option<(int, int)>,
    raw: bool,
) -> Seq<char> {
    let rest = match cached {
        Some((l, c)) => spec_split_at_offset(lines, l, c).1,
        None => lines,
    };
    join_lines(filter_hash_lines(rest), if raw { seq!['\n'] } else { seq![' '] })
}

/// Whether a cached anchor still lies inside the buffer.
pub open spec fn anchor_in_bounds(lines: Seq<Seq<char>>, end_line: int, end_col: int) -> bool {
    0 <= end_line < lines.len() && 0 <= end_col <= lines[end_line].len()
}

/// Whether a cached prefix survives an edit: the anchor still lies
/// inside the buffer and the content at and before the anchor is
/// unchanged.
pub open spec fn cache_survives(
    prev: Seq<Seq<char>>,
    new: Seq<Seq<char>>,
    end_line: int,
    end_col: int,
) -> bool {
    &&& anchor_in_bounds(new, end_line, end_col)
    &&& spec_split_at_offset(prev, end_line, end_col).0 == spec_split_at_offset(
        new,
        end_line,
        end_col,
    ).0
}

/// The whole interactive application state.
pub struct App {
    pub input_state: EditorState,
    pub command_output: String,
    pub command_error: String,
    pub autoeval_mode: bool,
    pub last_executed_cmd: String,
    pub paranoid_history_mode: bool,
    pub window_state: WindowState,
    pub bookmarks: CommandList,
    pub history: CommandList,
    pub history_idx: Option<usize>,
    pub execution_handler: CommandExecutionHandler,
    pub config: PiprConfig,
    pub should_quit: bool,
    pub opened_key_select_menu: Option<KeySelectMenu<KeySelectMenuType>>,
    pub raw_mode: bool,
    pub autocomplete_state: Option<AutocompleteState>,
    pub cached_command_part: Option<CachedCommandPart>,
    pub is_processing_state: Option<u8>,
    pub should_jump_to_other_cmd: Option<(Option<String>, Vec<String>)>,
}

impl App {
    /// The application invariant: the editor and engine are well formed,
    /// an open list view is well formed, a history-walk index points
    /// into the history, and a cached anchor lies inside the buffer.
    pub open spec fn wf(&self) -> bool {
        &&& self.input_state.wf()
        &&& self.execution_handler.wf()
        &&& match &self.window_state {
            WindowState::BookmarkList(st) => st.wf(),
            WindowState::HistoryList(st) => st.wf(),
            _ => true,
        }
        &&& match &self.autocomplete_state {
            Some(ac) => ac.wf(),
            None => true,
        }
        &&& match self.history_idx {
            Some(i) => i < self.history.entries_view().len(),
            None => true,
        }
        &&& match &self.cached_command_part {
            Some(c) => anchor_in_bounds(
                self.input_state.lines_view(),
                c.end_line as int,
                c.end_col as int,
            ),
            None => true,
        }
    }

    /// A fresh application over the given collaborators: empty buffer,
    /// main window, no overlay, no cache, the mode defaults taken from
    /// the configuration.
    pub fn new(
        execution_handler: CommandExecutionHandler,
        raw_mode: bool,
        config: PiprConfig,
        bookmarks: CommandList,
        history: CommandList,
    ) -> (r: App)
        requires
            execution_handler.wf(),
        ensures
            r.wf(),
            r.input_state.lines_view() =~= seq![Seq::<char>::empty()],
            r.autoeval_mode == config.autoeval_mode_default,
            r.paranoid_history_mode == config.paranoid_history_mode_default,
            !r.should_quit,
            r.window_state is Main,
            r.history_idx is None,
            r.cached_command_part is None,
            r.opened_key_select_menu is None,
            r.autocomplete_state is None,
            r.is_processing_state is None,
            r.should_jump_to_other_cmd is None,
            r.bookmarks == bookmarks,
            r.history == history,
            r.raw_mode == raw_mode,
            r.execution_handler == execution_handler,
            r.command_output@ == Seq::<char>::empty(),
            r.command_error@ == Seq::<char>::empty(),
            r.last_executed_cmd@ == Seq::<char>::empty(),
    {
        let autoeval_mode = config.autoeval_mode_default;
        let paranoid_history_mode = config.paranoid_history_mode_default;
        App {
            autocomplete_state: None,
            window_state: WindowState::Main,
            input_state: EditorState::new(),
            command_output: String::new(),
            command_error: String::new(),
            last_executed_cmd: String::new(),
            autoeval_mode,
            paranoid_history_mode,
            should_quit: false,
            is_processing_state: None,
            history_idx: None,
            cached_command_part: None,
            opened_key_select_menu: None,
            should_jump_to_other_cmd: None,
            execution_handler,
            raw_mode,
            config,
            bookmarks,
            history,
        }
    }

    /// Takes a delivered command result: success shows the output
    /// (appending the snapshot to the history first in paranoid mode),
    /// failure shows the message; either way the processing animation
    /// stops.
    pub fn on_cmd_output(&mut self, process_result: CmdOutput)
        requires
            old(self).wf(),
        ensures
            final(self).wf(),
            final(self).is_processing_state is None,
            match output_view(&process_result) {
                Ok(stdout) => {
                    &&& final(self).command_output@ == stdout
                    &&& final(self).command_error@ == Seq::<char>::empty()
                    &&& final(self).history.entries_view() == if old(self).paranoid_history_mode {
                        spec_push(
                            old(self).history.entries_view(),
                            old(self).input_state.lines_view(),
                            old(self).history.max_size,
                        )
                    } else {
                        old(self).history.entries_view()
                    }
                    &&& final(self).command_error@.len() == 0
                },
                Err(stderr) => {
                    &&& final(self).command_error@ == stderr
                    &&& final(self).command_output == old(self).command_output
                    &&& final(self).history == old(self).history
                },
            },
            final(self).input_state == old(self).input_state,
            final(self).cached_command_part == old(self).cached_command_part,
            final(self).window_state == old(self).window_state,
            final(self).history_idx == old(self).history_idx,
            final(self).execution_handler == old(self).execution_handler,
            final(self).should_quit == old(self).should_quit,
            final(self).bookmarks == old(self).bookmarks,
    {
        self.is_processing_state = None;
        match process_result {
            CmdOutput::Okay(stdout) => {
                if self.paranoid_history_mode {
                    let entry = self.input_state.content_to_commandentry();
                    let ghost hlen0 = self.history.entries_view().len();
                    self.history.push(entry);
                    proof {
                        lemma_push_len(
                            old(self).history.entries_view(),
                            old(self).input_state.lines_view(),
                            old(self).history.max_size,
                        );
                    }
                }
                self.command_output = stdout;
                self.command_error = String::new();
            }
            CmdOutput::NotOk(stderr) => {
                self.command_error = stderr;
            }
        }
    }

    /// Marks the session as ending and appends the in-progress buffer to
    /// the history.
    pub fn set_should_quit(&mut self)
        requires
            old(self).wf(),
        ensures
            final(self).wf(),
            final(self).should_quit,
            final(self).history.entries_view() == spec_push(
                old(self).history.entries_view(),
                old(self).input_state.lines_view(),
                old(self).history.max_size,
            ),
            final(self).input_state == old(self).input_state,
            final(self).window_state == old(self).window_state,
            final(self).execution_handler == old(self).execution_handler,
            final(self).bookmarks == old(self).bookmarks,
            final(self).cached_command_part == old(self).cached_command_part,
            final(self).history_idx == old(self).history_idx,
    {
        self.should_quit = true;
        let entry = self.input_state.content_to_commandentry();
        self.history.push(entry);
        proof {
            lemma_push_len(
                old(self).history.entries_view(),
                old(self).input_state.lines_view(),
                old(self).history.max_size,
            );
        }
    }

    /// Advances the processing animation, if one is running.
    pub fn on_tick(&mut self)
        ensures
            final(self).is_processing_state == match old(self).is_processing_state {
                Some(x) => Some((((x as int + 1) % 6) as u8)),
                None => None::<u8>,
            },
            final(self).input_state == old(self).input_state,
            final(self).history == old(self).history,
            final(self).bookmarks == old(self).bookmarks,
            final(self).window_state == old(self).window_state,
            final(self).execution_handler == old(self).execution_handler,
            final(self).cached_command_part == old(self).cached_command_part,
            old(self).wf() ==> final(self).wf(),
    {
        self.is_processing_state = match self.is_processing_state {
            Some(x) => Some(((x as u16 + 1) % 6) as u8),
            None => None,
        };
    }

    /// Submits the current buffer for execution: the command text is the
    /// part after the cached anchor with commented lines dropped, the
    /// cached output (if any) becomes the child's stdin, and the engine
    /// is asked to run it. On acceptance the spawn action is returned
    /// and the processing animation starts; a rejected command is
    /// reported like any failed run. Either way any previous run is
    /// abandoned — the caller kills its child.
    pub fn execute_content(&mut self) -> (r: Option<AppAction>)
        requires
            old(self).wf(),
        ensures
            final(self).wf(),
            final(self).last_executed_cmd@ == join_lines(
                old(self).input_state.lines_view(),
                seq![' '],
            ),
            final(self).input_state == old(self).input_state,
            final(self).history == old(self).history,
            final(self).bookmarks == old(self).bookmarks,
            final(self).window_state == old(self).window_state,
            final(self).cached_command_part == old(self).cached_command_part,
            final(self).history_idx == old(self).history_idx,
            final(self).should_quit == old(self).should_quit,
            spec_executed(old(self), final(self), r),
    {
        let lines = self.input_state.content_lines();
        let lines = match &self.cached_command_part {
            Some(c) => {
                proof {
                    assert(lines.deep_view().len() > 0);
                }
                let (_, right) = lines.split_strings_at_offset(c.end_line, c.end_col);
                right
            }
            None => clone_lines(lines),
        };
        let command = filter_hash_lines_exec(&lines);
        let command = if self.raw_mode {
            crate::strings::join_with(&command, "\n")
        } else {
            crate::strings::join_with(&command, " ")
        };
        proof {
            reveal_strlit("\n");
            reveal_strlit(" ");
            assert("\n"@ =~= seq!['\n']);
            assert(" "@ =~= seq![' ']);
        }
        let ghost cached_ghost = match &old(self).cached_command_part {
            Some(c) => Some((c.end_line as int, c.end_col as int)),
            None => None::<(int, int)>,
        };
        proof {
            assert(command@ == spec_command_text(
                old(self).input_state.lines_view(),
                cached_ghost,
                old(self).raw_mode,
            ));
        }
        let stdin = match &self.cached_command_part {
            Some(c) => Some(clone_lines(&c.cached_output)),
            None => None,
        };
        let request = CommandExecutionRequest::new(command, stdin);
        let accepted = self.execution_handler.on_request(request);
        self.last_executed_cmd = self.input_state.content_str();
        match accepted {
            Ok(action) => {
                self.is_processing_state = Some(0);
                Some(AppAction::Spawn(action))
            }
            Err(out) => {
                self.is_processing_state = None;
                self.command_error = match out {
                    CmdOutput::NotOk(m) => m,
                    CmdOutput::Okay(m) => m,
                };
                Some(AppAction::KillRunning)
            }
        }
    }
}

/// How an execution request leaves the application: either the engine
/// accepted it — the run slot holds fresh empty buffers, the processing
/// animation runs, and the returned spawn action carries the command
/// text that `spec_command_text` gives for the buffer, the cache and the
/// raw-mode flag, with the cached output as stdin — or the heuristic
/// guard rejected it, the rejection message is shown as the command
/// error, and the run slot is idle. Either way any previous run is
/// abandoned, so a superseded command's output can never be delivered.
pub open spec fn spec_executed(pre: &App, post: &App, r: Option<AppAction>) -> bool {
    let cached = match &pre.cached_command_part {
        Some(c) => Some((c.end_line as int, c.end_col as int)),
        None => None,
    };
    let cmd = spec_command_text(pre.input_state.lines_view(), cached, pre.raw_mode);
    match r {
        Some(a) => match a {
            AppAction::Spawn(action) => {
                &&& post.execution_handler.state_view() == Some(
                    (Seq::<char>::empty(), Seq::<char>::empty()),
                )
                &&& post.is_processing_state == Some(0u8)
                &&& action.argv.deep_view() == if pre.execution_handler.execution_mode is ISOLATED {
                    spec_bwrap_prefix() + pre.execution_handler.eval_environment.deep_view()
                        + seq![cmd]
                } else {
                    pre.execution_handler.eval_environment.deep_view() + seq![cmd]
                }
                &&& !(pre.execution_handler.execution_mode is UNSAFE && spec_guard_rejects(cmd))
                &&& match (&action.stdin, &pre.cached_command_part) {
                    (Some(lines), Some(c)) => lines.deep_view() == c.cached_output.deep_view(),
                    (None, None) => true,
                    _ => false,
                }
                &&& post.command_error == pre.command_error
            },
            AppAction::KillRunning => {
                &&& pre.execution_handler.execution_mode is UNSAFE
                &&& spec_guard_rejects(cmd)
                &&& post.command_error@
                    == "Will not run this command, it's for your own good. Believe me."@
                &&& post.is_processing_state is None
                &&& post.execution_handler.state_view() is None
            },
            _ => false,
        },
        None => false,
    }
}

/// A push never shrinks a list.
pub proof fn lemma_push_len(
    entries: Seq<Seq<Seq<char>>>,
    c: Seq<Seq<char>>,
    max_size: Option<usize>,
)
    ensures
        spec_push(entries, c, max_size).len() >= entries.len(),
{
}

/// The lines not starting with `#`.
fn filter_hash_lines_exec(lines: &Vec<String>) -> (r: Vec<String>)
    ensures
        r.deep_view() == filter_hash_lines(lines.deep_view()),
{
    let mut r: Vec<String> = Vec::new();
    let mut i: usize = 0;
    proof {
        reveal(Seq::filter);
        assert(lines.deep_view().subrange(0, 0) =~= Seq::<Seq<char>>::empty());
        assert(filter_hash_lines(Seq::<Seq<char>>::empty()) =~= Seq::<Seq<char>>::empty());
        assert(r.deep_view() =~= Seq::<Seq<char>>::empty());
    }
    while i < lines.len()
        invariant
            i <= lines.len(),
            r.deep_view() == filter_hash_lines(lines.deep_view().subrange(0, i as int)),
        decreases lines.len() - i,
    {
        let line = &lines[i];
        let n = crate::strings::char_len(line);
        let commented = n > 0 && crate::strings::char_at(line, 0) == '#';
        proof {
            assert(lines.deep_view().subrange(0, i + 1).drop_last() =~= lines.deep_view().subrange(
                0,
                i as int,
            ));
            assert(lines.deep_view().subrange(0, i + 1).last() == lines.deep_view()[i as int]);
        }
        if !commented {
            let ghost prev = r.deep_view();
            r.push(line.clone());
            proof {
                assert(r.deep_view() =~= prev.push(lines.deep_view()[i as int]));
            }
        }
        proof {
            lemma_filter_snoc(
                lines.deep_view().subrange(0, i as int),
                lines.deep_view()[i as int],
            );
            assert(lines.deep_view().subrange(0, i as int).push(
                lines.deep_view()[i as int],
            ) =~= lines.deep_view().subrange(0, i + 1));
        }
        i += 1;
    }
    proof {
        assert(lines.deep_view().subrange(0, lines.deep_view().len() as int) =~= lines.deep_view());
    }
    r
}

/// Filtering one more line keeps it exactly when it is not commented.
proof fn lemma_filter_snoc(s: Seq<Seq<char>>, x: Seq<char>)
    ensures
        filter_hash_lines(s.push(x)) == if !(x.len() > 0 && x[0] == '#') {
            filter_hash_lines(s).push(x)
        } else {
            filter_hash_lines(s)
        },
{
    reveal(Seq::filter);
    assert(s.push(x).drop_last() =~= s);
    assert(s.push(x).last() == x);
}


/// The help view toggled: an open text view closes back to the main
/// window, anything else opens the help text.
pub open spec fn spec_help_toggled(pre: &App, post: &App) -> bool {
    &&& match &pre.window_state {
        WindowState::TextView(_, _) => post.window_state is Main,
        _ => match &post.window_state {
            WindowState::TextView(title, body) => title@ == "Help"@ && body@.len() > 0,
            _ => false,
        },
    }
    &&& post.input_state == pre.input_state
    &&& post.history == pre.history
    &&& post.bookmarks == pre.bookmarks
    &&& post.cached_command_part == pre.cached_command_part
    &&& post.execution_handler == pre.execution_handler
    &&& post.history_idx == pre.history_idx
    &&& post.should_quit == pre.should_quit
}

/// The history view toggled: an open history view closes, anything else
/// stashes the buffer in the history and opens a view of the stored
/// entries with the current walk position selected.
pub open spec fn spec_history_list_toggled(pre: &App, post: &App) -> bool {
    &&& match &pre.window_state {
        WindowState::HistoryList(_) => post.window_state is Main && post.history == pre.history,
        _ => {
            let pushed = spec_push(
                pre.history.entries_view(),
                pre.input_state.lines_view(),
                pre.history.max_size,
            );
            &&& post.history.entries_view() == pushed
            &&& match &post.window_state {
                WindowState::HistoryList(st) => {
                    &&& st.list_view() == pushed
                    &&& st.deleted_view().len() == 0
                    &&& st.selected_idx == match pre.history_idx {
                        Some(i) => Some(i),
                        None => if pushed.len() == 0 {
                            None::<usize>
                        } else {
                            Some((pushed.len() - 1) as usize)
                        },
                    }
                },
                _ => false,
            }
        },
    }
    &&& post.input_state == pre.input_state
    &&& post.bookmarks == pre.bookmarks
    &&& post.cached_command_part == pre.cached_command_part
    &&& post.execution_handler == pre.execution_handler
    &&& post.history_idx == pre.history_idx
}

/// The bookmark view toggled: an open bookmark view closes, anything
/// else stashes the buffer in the history and opens a view of the
/// bookmarks with the last one selected.
pub open spec fn spec_bookmark_list_toggled(pre: &App, post: &App) -> bool {
    &&& match &pre.window_state {
        WindowState::BookmarkList(_) => post.window_state is Main && post.history == pre.history,
        _ => {
            &&& post.history.entries_view() == spec_push(
                pre.history.entries_view(),
                pre.input_state.lines_view(),
                pre.history.max_size,
            )
            &&& match &post.window_state {
                WindowState::BookmarkList(st) => {
                    &&& st.list_view() == pre.bookmarks.entries_view()
                    &&& st.deleted_view().len() == 0
                    &&& st.selected_idx == if pre.bookmarks.entries_view().len() == 0 {
                        None::<usize>
                    } else {
                        Some((pre.bookmarks.entries_view().len() - 1) as usize)
                    }
                },
                _ => false,
            }
        },
    }
    &&& post.input_state == pre.input_state
    &&& post.bookmarks == pre.bookmarks
    &&& post.cached_command_part == pre.cached_command_part
    &&& post.execution_handler == pre.execution_handler
    &&& post.history_idx == pre.history_idx
}

/// What one key does in the currently open window: the main window
/// handles it fully; a text view closes; a list view moves its
/// selection, edits its working list, or — on leaving — commits the
/// edited list back to the backing list (and on Enter also loads the
/// selected entry into the editor, dropping the cached prefix).
pub open spec fn spec_window_event(
    pre: &App,
    post: &App,
    r: Option<AppAction>,
    code: Key,
    m: Modifiers,
) -> bool {
    match &pre.window_state {
        WindowState::Main => crate::app::main_window::spec_main_event(pre, post, r, code, m),
        WindowState::TextView(_, _) => {
            &&& post.window_state is Main
            &&& r is None
            &&& post.input_state == pre.input_state
            &&& post.history == pre.history
            &&& post.bookmarks == pre.bookmarks
            &&& post.cached_command_part == pre.cached_command_part
            &&& post.execution_handler == pre.execution_handler
        },
        WindowState::BookmarkList(st) => {
            &&& r is None
            &&& post.history == pre.history
            &&& post.execution_handler == pre.execution_handler
            &&& match code {
                Key::Esc => {
                    &&& post.bookmarks.entries_view() == st.list_view()
                    &&& post.bookmarks.file == pre.bookmarks.file
                    &&& post.bookmarks.max_size == pre.bookmarks.max_size
                    &&& post.window_state is Main
                    &&& post.input_state == pre.input_state
                    &&& post.cached_command_part == pre.cached_command_part
                },
                Key::Enter => {
                    &&& match st.selected_idx {
                        Some(i) => {
                            &&& post.input_state.lines_view()
                                == crate::app::main_window::loaded_lines(st.list_view()[i as int])
                            &&& post.cached_command_part is None
                        },
                        None => post.input_state == pre.input_state && post.cached_command_part
                            == pre.cached_command_part,
                    }
                    &&& post.bookmarks.entries_view() == st.list_view()
                    &&& post.bookmarks.file == pre.bookmarks.file
                    &&& post.bookmarks.max_size == pre.bookmarks.max_size
                    &&& post.window_state is Main
                },
                _ => {
                    &&& match &post.window_state {
                        WindowState::BookmarkList(st2) => (
                            st2.list_view(),
                            st2.deleted_view(),
                            match st2.selected_idx {
                                Some(i) => Some(i as int),
                                None => None,
                            },
                        ) == crate::app::command_list_window::spec_list_apply(
                            st.list_view(),
                            st.deleted_view(),
                            match st.selected_idx {
                                Some(i) => Some(i as int),
                                None => None,
                            },
                            code,
                        ),
                        _ => false,
                    }
                    &&& post.bookmarks == pre.bookmarks
                    &&& post.input_state == pre.input_state
                    &&& post.cached_command_part == pre.cached_command_part
                },
            }
        },
        WindowState::HistoryList(st) => {
            &&& r is None
            &&& post.bookmarks == pre.bookmarks
            &&& post.execution_handler == pre.execution_handler
            &&& match code {
                Key::Esc => {
                    &&& post.history.entries_view() == st.list_view()
                    &&& post.history.file == pre.history.file
                    &&& post.history.max_size == pre.history.max_size
                    &&& post.window_state is Main
                    &&& post.input_state == pre.input_state
                    &&& post.cached_command_part == pre.cached_command_part
                    &&& post.history_idx == match pre.history_idx {
                        Some(i) => if i < st.list_view().len() {
                            Some(i)
                        } else {
                            None::<usize>
                        },
                        None => None::<usize>,
                    }
                },
                Key::Enter => {
                    &&& match st.selected_idx {
                        Some(i) => {
                            &&& post.input_state.lines_view()
                                == crate::app::main_window::loaded_lines(st.list_view()[i as int])
                            &&& post.cached_command_part is None
                        },
                        None => post.input_state == pre.input_state && post.cached_command_part
                            == pre.cached_command_part,
                    }
                    &&& post.history.entries_view() == st.list_view()
                    &&& post.history.file == pre.history.file
                    &&& post.history.max_size == pre.history.max_size
                    &&& post.history_idx == st.selected_idx
                    &&& post.window_state is Main
                },
                _ => {
                    &&& match &post.window_state {
                        WindowState::HistoryList(st2) => (
                            st2.list_view(),
                            st2.deleted_view(),
                            match st2.selected_idx {
                                Some(i) => Some(i as int),
                                None => None,
                            },
                        ) == crate::app::command_list_window::spec_list_apply(
                            st.list_view(),
                            st.deleted_view(),
                            match st.selected_idx {
                                Some(i) => Some(i as int),
                                None => None,
                            },
                            code,
                        ),
                        _ => false,
                    }
                    &&& post.history == pre.history
                    &&& post.input_state == pre.input_state
                    &&& post.cached_command_part == pre.cached_command_part
                    &&& post.history_idx == pre.history_idx
                },
            }
        },
    }
}

impl App {
    /// Shows the help text, or closes an open text view.
    fn toggle_help_window(&mut self)
        requires
            old(self).wf(),
        ensures
            final(self).wf(),
            spec_help_toggled(old(self), final(self)),
    {
        let is_text_view = match &self.window_state {
            WindowState::TextView(_, _) => true,
            _ => false,
        };
        if is_text_view {
            self.window_state = WindowState::Main;
        } else {
            let title: String = "Help".to_owned();
            self.window_state = WindowState::TextView(title, help_text());
        }
    }

    /// Shows the stored history in a list view, or closes an open one.
    fn toggle_history_list(&mut self)
        requires
            old(self).wf(),
        ensures
            final(self).wf(),
            spec_history_list_toggled(old(self), final(self)),
    {
        let is_history = match &self.window_state {
            WindowState::HistoryList(_) => true,
            _ => false,
        };
        if is_history {
            self.window_state = WindowState::Main;
        } else {
            let entry = self.input_state.content_to_commandentry();
            self.history.push(entry);
            proof {
                lemma_push_len(
                    old(self).history.entries_view(),
                    old(self).input_state.lines_view(),
                    old(self).history.max_size,
                );
            }
            let entries = crate::commandlist::clone_entries(&self.history.entries);
            proof {
                assert(entries.deep_view() == self.history.entries_view());
            }
            let st = CommandListState::new(entries, self.history_idx);
            self.window_state = WindowState::HistoryList(st);
        }
    }

    /// Shows the bookmarks in a list view, or closes an open one.
    fn toggle_bookmark_list(&mut self)
        requires
            old(self).wf(),
        ensures
            final(self).wf(),
            spec_bookmark_list_toggled(old(self), final(self)),
    {
        let is_bookmarks = match &self.window_state {
            WindowState::BookmarkList(_) => true,
            _ => false,
        };
        if is_bookmarks {
            self.window_state = WindowState::Main;
        } else {
            let entry = self.input_state.content_to_commandentry();
            self.history.push(entry);
            let entries = crate::commandlist::clone_entries(&self.bookmarks.entries);
            let st = CommandListState::new(entries, None);
            self.window_state = WindowState::BookmarkList(st);
        }
    }

    /// Routes one key to the window that is open.
    pub fn handle_window_specific_event(&mut self, code: Key, modifiers: Modifiers) -> (r: Option<
        AppAction,
    >)
        requires
            old(self).wf(),
        ensures
            final(self).wf(),
            spec_window_event(old(self), final(self), r, code, modifiers),
    {
        let is_main = match &self.window_state {
            WindowState::Main => true,
            _ => false,
        };
        if is_main {
            return self.handle_main_window_tui_event(code, modifiers);
        }
        let mut ws = WindowState::Main;
        core::mem::swap(&mut ws, &mut self.window_state);
        match ws {
            WindowState::Main => {
                proof {
                    assert(false);
                }
                None
            }
            WindowState::TextView(_, _) => None,
            WindowState::BookmarkList(mut st) => {
                match code {
                    Key::Esc => {
                        self.bookmarks.entries = st.list;
                        None
                    }
                    Key::Enter => {
                        match st.selected_entry() {
                            Some(entry) => {
                                let copy = entry.duplicate();
                                self.input_state.load_commandentry(&copy);
                                self.cached_command_part = None;
                            }
                            None => {}
                        }
                        self.bookmarks.entries = st.list;
                        None
                    }
                    _ => {
                        st.apply_event(code);
                        self.window_state = WindowState::BookmarkList(st);
                        None
                    }
                }
            }
            WindowState::HistoryList(mut st) => {
                match code {
                    Key::Esc => {
                        // a walk index past the edited list would dangle
                        let list_len = st.list.len();
                        self.history_idx = match self.history_idx {
                            Some(i) => if i < list_len {
                                Some(i)
                            } else {
                                None
                            },
                            None => None,
                        };
                        proof {
                            assert(st.list@.len() == st.list_view().len());
                        }
                        self.history.entries = st.list;
                        None
                    }
                    Key::Enter => {
                        match st.selected_entry() {
                            Some(entry) => {
                                let copy = entry.duplicate();
                                self.input_state.load_commandentry(&copy);
                                self.cached_command_part = None;
                            }
                            None => {}
                        }
                        self.history_idx = st.selected_idx;
                        self.history.entries = st.list;
                        None
                    }
                    _ => {
                        st.apply_event(code);
                        self.window_state = WindowState::HistoryList(st);
                        None
                    }
                }
            }
        }
    }

    /// Routes one key event: the global window toggles come first, every
    /// other key goes to the open window.
    pub fn on_tui_event(&mut self, code: Key, modifiers: Modifiers) -> (r: Option<AppAction>)
        requires
            old(self).wf(),
        ensures
            final(self).wf(),
            match code {
                Key::F(f) => if f == 1 {
                    spec_help_toggled(old(self), final(self)) && r is None
                } else if f == 4 {
                    spec_history_list_toggled(old(self), final(self)) && r is None
                } else {
                    spec_window_event(old(self), final(self), r, code, modifiers)
                },
                Key::Char(c) => if c == 'b' && modifiers.control {
                    spec_bookmark_list_toggled(old(self), final(self)) && r is None
                } else {
                    spec_window_event(old(self), final(self), r, code, modifiers)
                },
                _ => spec_window_event(old(self), final(self), r, code, modifiers),
            },
    {
        let control_pressed = modifiers.control;
        match code {
            Key::F(f) => {
                if f == 1 {
                    self.toggle_help_window();
                    None
                } else if f == 4 {
                    self.toggle_history_list();
                    None
                } else {
                    self.handle_window_specific_event(code, modifiers)
                }
            }
            Key::Char(c) => {
                if c == 'b' && control_pressed {
                    self.toggle_bookmark_list();
                    None
                } else {
                    self.handle_window_specific_event(code, modifiers)
                }
            }
            _ => self.handle_window_specific_event(code, modifiers),
        }
    }
}


/// Cache invalidation, kept side: typing a character at or after the
/// cached anchor — on the anchor line at or past the anchor column, or
/// on any later line — leaves the content at and before the anchor
/// unchanged, so the cached prefix survives the edit.
pub proof fn lemma_edit_after_anchor_keeps_cache(
    lines: Seq<Seq<char>>,
    end_line: int,
    end_col: int,
    cl: int,
    cc: int,
    ch: char,
)
    requires
        0 <= end_line < lines.len(),
        0 <= end_col <= lines[end_line].len(),
        0 <= cl < lines.len(),
        0 <= cc <= lines[cl].len(),
        cl > end_line || (cl == end_line && cc >= end_col),
    ensures
        cache_survives(
            lines,
            spec_apply_event(lines, cl, cc, crate::lineeditor::EditorEvent::NewCharacter(ch)).0,
            end_line,
            end_col,
        ),
{
    let new = spec_apply_event(lines, cl, cc, crate::lineeditor::EditorEvent::NewCharacter(ch)).0;
    assert(new == lines.update(cl, lines[cl].insert(cc, ch)));
    assert(new.len() == lines.len());
    assert(anchor_in_bounds(new, end_line, end_col));
    let old_split = spec_split_at_offset(lines, end_line, end_col).0;
    let new_split = spec_split_at_offset(new, end_line, end_col).0;
    if end_line == 0 && end_col == 0 {
        assert(old_split =~= new_split);
    } else if end_line >= lines.len() - 1 && end_col >= lines.last().len() {
        // the anchor sits at the very end of the old buffer
        assert(end_line == lines.len() - 1);
        assert(end_col == lines[end_line].len());
        assert(cl == end_line && cc == end_col);
        assert(old_split == lines);
        assert(new.last().len() == lines.last().len() + 1);
        assert(!(end_line >= new.len() - 1 && end_col >= new.last().len()));
        assert(new_split == new.subrange(0, end_line).push(
            new[end_line].subrange(0, end_col),
        ));
        assert(new[end_line].subrange(0, end_col) =~= lines[end_line]);
        assert(new.subrange(0, end_line) =~= lines.subrange(0, end_line));
        assert(new_split =~= lines);
    } else {
        assert(old_split == lines.subrange(0, end_line).push(
            lines[end_line].subrange(0, end_col),
        ));
        assert(new.last().len() >= lines.last().len());
        assert(!(end_line >= new.len() - 1 && end_col >= new.last().len()));
        assert(new_split == new.subrange(0, end_line).push(new[end_line].subrange(0, end_col)));
        assert(new.subrange(0, end_line) =~= lines.subrange(0, end_line));
        if cl == end_line {
            assert(new[end_line].subrange(0, end_col) =~= lines[end_line].subrange(0, end_col));
        } else {
            assert(new[end_line] == lines[end_line]);
        }
        assert(new_split =~= old_split);
    }
}

/// Cache invalidation, cleared side: typing a character strictly before
/// the cached anchor on the anchor line, where the character differs
/// from the one already there, changes the content before the anchor,
/// so the cached prefix does not survive the edit.
pub proof fn lemma_edit_before_anchor_clears_cache(
    lines: Seq<Seq<char>>,
    end_line: int,
    end_col: int,
    cc: int,
    ch: char,
)
    requires
        0 <= end_line < lines.len(),
        0 <= end_col <= lines[end_line].len(),
        0 <= cc < end_col,
        ch != lines[end_line][cc],
    ensures
        !cache_survives(
            lines,
            spec_apply_event(
                lines,
                end_line,
                cc,
                crate::lineeditor::EditorEvent::NewCharacter(ch),
            ).0,
            end_line,
            end_col,
        ),
{
    let new = spec_apply_event(
        lines,
        end_line,
        cc,
        crate::lineeditor::EditorEvent::NewCharacter(ch),
    ).0;
    assert(new == lines.update(end_line, lines[end_line].insert(cc, ch)));
    if anchor_in_bounds(new, end_line, end_col) {
        let old_split = spec_split_at_offset(lines, end_line, end_col).0;
        let new_split = spec_split_at_offset(new, end_line, end_col).0;
        assert(end_col >= 1);
        assert(new[end_line].len() == lines[end_line].len() + 1);
        assert(!(end_line >= new.len() - 1 && end_col >= new.last().len()));
        assert(new_split == new.subrange(0, end_line).push(new[end_line].subrange(0, end_col)));
        assert(new[end_line].subrange(0, end_col)[cc] == ch);
        if end_line >= lines.len() - 1 && end_col >= lines.last().len() {
            assert(old_split == lines);
            assert(old_split.len() == new_split.len());
            assert(old_split[end_line][cc] == lines[end_line][cc]);
            assert(new_split[end_line][cc] == ch);
            assert(old_split != new_split);
        } else {
            assert(old_split == lines.subrange(0, end_line).push(
                lines[end_line].subrange(0, end_col),
            ));
            assert(old_split[end_line][cc] == lines[end_line][cc]);
            assert(new_split[end_line][cc] == ch);
            assert(old_split != new_split);
        }
    }
}

} // verus!
