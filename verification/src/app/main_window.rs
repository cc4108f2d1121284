//! The main (editor) window: its key handling, the autocomplete overlay,
//! the key-select menus, history walking and prefix caching.

use vstd::prelude::*;

use crate::app::key_select_menu::KeySelectMenu;
use crate::app::{App, AppAction, CachedCommandPart, KeySelectMenuType, spec_executed};
use crate::command_evaluation::{CmdOutput, spec_guard_rejects};
use crate::commandlist::spec_push;
use crate::lineeditor::Key;
use crate::pipr_config::assoc_first;
use crate::strings::{char_len, clone_lines, join_lines, string_eq, substring};
use crate::util::{spec_split_at_offset, spec_word_at, StringExt, VecStringExt};

verus! {

/// The autocomplete overlay: the prompt the completions were computed
/// for, the candidate list, and the cyclic index of the highlighted
/// candidate.
pub struct AutocompleteState {
    pub original_prompt: String,
    pub options: Vec<String>,
    pub current_idx: usize,
}

impl AutocompleteState {
    /// The overlay invariant: at least one candidate, and the index
    /// points at one of them.
    pub open spec fn wf(&self) -> bool {
        self.options@.len() > 0 && self.current_idx < self.options@.len()
    }

    /// An overlay over the candidates, highlighting the first; no
    /// overlay at all when there are no candidates.
    pub fn from_options(original_prompt: String, options: Vec<String>) -> (r: Option<
        AutocompleteState,
    >)
        ensures
            match r {
                Some(st) => {
                    &&& st.wf()
                    &&& options.deep_view().len() > 0
                    &&& st.original_prompt == original_prompt
                    &&& st.options == options
                    &&& st.current_idx == 0
                },
                None => options.deep_view().len() == 0,
            },
    {
        proof {
            assert(options@.len() == options.deep_view().len());
        }
        if options.is_empty() {
            None
        } else {
            Some(AutocompleteState { current_idx: 0, original_prompt, options })
        }
    }

    /// Highlights the next candidate, wrapping around at the end.
    pub fn cycle_selected(&mut self)
        requires
            old(self).wf(),
        ensures
            final(self).wf(),
            final(self).options == old(self).options,
            final(self).original_prompt == old(self).original_prompt,
            final(self).current_idx as int == if old(self).current_idx + 1 < old(
                self,
            ).options@.len() {
                old(self).current_idx + 1
            } else {
                0
            },
    {
        let len = self.options.len();
        self.current_idx = if self.current_idx + 1 < len {
            self.current_idx + 1
        } else {
            0
        };
    }

    /// Highlights the previous candidate, wrapping around at the start.
    pub fn cycle_selected_backwards(&mut self)
        requires
            old(self).wf(),
        ensures
            final(self).wf(),
            final(self).options == old(self).options,
            final(self).original_prompt == old(self).original_prompt,
            final(self).current_idx as int == if old(self).current_idx == 0 {
                old(self).options@.len() - 1
            } else {
                old(self).current_idx - 1
            },
    {
        if self.current_idx == 0 {
            self.current_idx = self.options.len() - 1;
        } else {
            self.current_idx = self.current_idx - 1;
        }
    }

    /// The highlighted candidate.
    pub fn selected(&self) -> (r: &String)
        requires
            self.wf(),
        ensures
            r@ == self.options.deep_view()[self.current_idx as int],
    {
        &self.options[self.current_idx]
    }
}


/// `s` with every leading repetition of `p` removed (nothing is removed
/// for an empty `p`).
pub open spec fn strip_prefix_all(s: Seq<char>, p: Seq<char>) -> Seq<char>
    decreases s.len(),
{
    if p.len() > 0 && p.len() <= s.len() && s.subrange(0, p.len() as int) == p {
        strip_prefix_all(s.skip(p.len() as int), p)
    } else {
        s
    }
}

/// A copy of `s` with every leading repetition of `p` removed.
fn strip_prefix_all_exec(s: &String, p: &String) -> (r: String)
    ensures
        r@ == strip_prefix_all(s@, p@),
    decreases s@.len(),
{
    let n = char_len(s);
    let m = char_len(p);
    if m > 0 && m <= n {
        let head = substring(s, 0, m);
        if string_eq(&head, p) {
            let rest = substring(s, m, n);
            let r = strip_prefix_all_exec(&rest, p);
            proof {
                assert(rest@ =~= s@.skip(m as int));
            }
            return r;
        }
    }
    s.clone()
}

/// The command text of the prefix that ends on the pipe under the
/// cursor: everything up to and including the cursor column, the pipe
/// character itself removed, a then-empty last line dropped, the lines
/// joined by spaces.
pub open spec fn spec_cache_prefix_cmd(lines: Seq<Seq<char>>, cl: int, cc: int) -> Seq<char> {
    let left = spec_split_at_offset(lines, cl, cc + 1).0;
    let popped = if left.len() > 0 && left.last().len() > 0 {
        left.update(left.len() - 1, left.last().drop_last())
    } else {
        left
    };
    let trimmed = if popped.len() > 0 && popped.last().len() == 0 {
        popped.drop_last()
    } else {
        popped
    };
    join_lines(trimmed, seq![' '])
}

impl App {
    /// Chooses an option of an open key-select menu: the matching
    /// snippet is inserted at the cursor, or the word or output is
    /// marked to be opened in the matching viewer; a key that matches
    /// no option does nothing.
    pub fn handle_key_select_menu_event(
        &mut self,
        key_select_menu: KeySelectMenu<KeySelectMenuType>,
        c: char,
    )
        requires
            old(self).wf(),
        ensures
            final(self).wf(),
            final(self).history == old(self).history,
            final(self).bookmarks == old(self).bookmarks,
            final(self).window_state == old(self).window_state,
            final(self).execution_handler == old(self).execution_handler,
            final(self).cached_command_part == old(self).cached_command_part,
            final(self).history_idx == old(self).history_idx,
            final(self).opened_key_select_menu == old(self).opened_key_select_menu,
            final(self).autocomplete_state == old(self).autocomplete_state,
            spec_menu_choice(old(self), final(self), &key_select_menu.menu_type, c),
    {
        match key_select_menu.menu_type {
            KeySelectMenuType::Snippets => {
                match crate::pipr_config::assoc_get(&self.config.snippets, c) {
                    Some(snippet) => {
                        let text = snippet.text.clone();
                        let offset = snippet.cursor_offset;
                        self.input_state.insert_at_cursor(&text);
                        let line_len = char_len(
                            self.input_state.current_line(),
                        );
                        let moved = if offset <= line_len && self.input_state.cursor_col
                            <= line_len - offset {
                            self.input_state.cursor_col + offset
                        } else {
                            line_len
                        };
                        self.input_state.cursor_col = moved;
                    }
                    None => {}
                }
            }
            KeySelectMenuType::OpenWordIn(word) => {
                match crate::pipr_config::assoc_get(&self.config.help_viewers, c) {
                    Some(help_viewer) => {
                        let argv = help_viewer.resolve_to_command(&word);
                        self.should_jump_to_other_cmd = Some((None, argv));
                    }
                    None => {}
                }
            }
            KeySelectMenuType::OpenOutputIn(output) => {
                match crate::pipr_config::assoc_get(&self.config.output_viewers, c) {
                    Some(output_viewer) => {
                        let mut argv: Vec<String> = Vec::new();
                        argv.push(output_viewer.clone());
                        proof {
                            assert(argv.deep_view() =~= seq![argv@[0]@]);
                        }
                        self.should_jump_to_other_cmd = Some((Some(output), argv));
                    }
                    None => {}
                }
            }
        }
    }

    /// Walks one step back in the history: on the first step the
    /// in-progress buffer is stashed as a history entry and the newest
    /// stored entry is shown; later steps show ever older entries. The
    /// cached prefix is dropped.
    pub fn apply_history_prev(&mut self)
        requires
            old(self).wf(),
        ensures
            final(self).wf(),
            final(self).cached_command_part is None,
            final(self).bookmarks == old(self).bookmarks,
            final(self).window_state == old(self).window_state,
            final(self).execution_handler == old(self).execution_handler,
            spec_history_prev(old(self), final(self)),
    {
        self.cached_command_part = None;
        match self.history_idx {
            Some(idx) => {
                if idx > 0 {
                    self.history_idx = Some(idx - 1);
                    let entry = match self.history.get_at(idx - 1) {
                        Some(e) => e.duplicate(),
                        None => {
                            proof {
                                assert(false);
                            }
                            crate::commandlist::CommandEntry { command: Vec::new() }
                        }
                    };
                    self.input_state.load_commandentry(&entry);
                }
            }
            None => {
                if self.history.len() > 0 {
                    let new_idx = self.history.len() - 1;
                    self.history_idx = Some(new_idx);
                    let snapshot = self.input_state.content_to_commandentry();
                    self.history.push(snapshot);
                    proof {
                        crate::app::lemma_push_len(
                            old(self).history.entries_view(),
                            old(self).input_state.lines_view(),
                            old(self).history.max_size,
                        );
                    }
                    let entry = match self.history.get_at(new_idx) {
                        Some(e) => e.duplicate(),
                        None => {
                            proof {
                                assert(false);
                            }
                            crate::commandlist::CommandEntry { command: Vec::new() }
                        }
                    };
                    self.input_state.load_commandentry(&entry);
                }
            }
        }
    }

    /// Walks one step forward in the history, toward the stashed buffer;
    /// stepping past the newest stored entry clears the buffer and ends
    /// the walk. The cached prefix is dropped.
    pub fn apply_history_next(&mut self)
        requires
            old(self).wf(),
        ensures
            final(self).wf(),
            final(self).cached_command_part is None,
            final(self).history == old(self).history,
            final(self).bookmarks == old(self).bookmarks,
            final(self).window_state == old(self).window_state,
            final(self).execution_handler == old(self).execution_handler,
            spec_history_next(old(self), final(self)),
    {
        self.cached_command_part = None;
        match self.history_idx {
            Some(idx) => {
                let hist_len = self.history.len();
                let new_idx = idx + 1;
                if hist_len >= 1 && new_idx < hist_len - 1 {
                    self.history_idx = Some(new_idx);
                    let entry = match self.history.get_at(new_idx) {
                        Some(e) => e.duplicate(),
                        None => {
                            proof {
                                assert(false);
                            }
                            crate::commandlist::CommandEntry { command: Vec::new() }
                        }
                    };
                    self.input_state.load_commandentry(&entry);
                } else {
                    self.history_idx = None;
                    let mut cleared: Vec<String> = Vec::new();
                    cleared.push(String::new());
                    self.input_state.set_content(cleared);
                }
            }
            None => {}
        }
    }
}

/// The buffer content after loading an entry: the entry's lines, or one
/// empty line for an entry without lines.
pub open spec fn loaded_lines(entry: Seq<Seq<char>>) -> Seq<Seq<char>> {
    if entry.len() == 0 {
        seq![Seq::<char>::empty()]
    } else {
        entry
    }
}

/// What one backward history step does: the first step stashes the
/// buffer and shows the newest stored entry, later steps show ever
/// older entries; at the oldest entry nothing moves.
pub open spec fn spec_history_prev(pre: &App, post: &App) -> bool {
    match pre.history_idx {
        Some(idx) => {
            &&& post.history == pre.history
            &&& if idx > 0 {
                &&& post.history_idx == Some((idx - 1) as usize)
                &&& post.input_state.lines_view() == loaded_lines(
                    pre.history.entries_view()[idx - 1],
                )
            } else {
                &&& post.history_idx == pre.history_idx
                &&& post.input_state == pre.input_state
            }
        },
        None => if pre.history.entries_view().len() > 0 {
            let new_idx = pre.history.entries_view().len() - 1;
            let pushed = spec_push(
                pre.history.entries_view(),
                pre.input_state.lines_view(),
                pre.history.max_size,
            );
            &&& post.history_idx == Some(new_idx as usize)
            &&& post.history.entries_view() == pushed
            &&& post.input_state.lines_view() == loaded_lines(pushed[new_idx])
        } else {
            &&& post.history_idx is None
            &&& post.history == pre.history
            &&& post.input_state == pre.input_state
        },
    }
}

/// What one forward history step does: walking toward the stash, and
/// past the newest stored entry clearing the buffer and ending the walk.
pub open spec fn spec_history_next(pre: &App, post: &App) -> bool {
    match pre.history_idx {
        Some(idx) => if idx + 1 < pre.history.entries_view().len() - 1 {
            &&& post.history_idx == Some((idx + 1) as usize)
            &&& post.input_state.lines_view() == loaded_lines(
                pre.history.entries_view()[idx + 1],
            )
        } else {
            &&& post.history_idx is None
            &&& post.input_state.lines_view() =~= seq![Seq::<char>::empty()]
        },
        None => {
            &&& post.history_idx is None
            &&& post.input_state == pre.input_state
        },
    }
}

/// What choosing a key-select option does, by menu kind.
pub open spec fn spec_menu_choice(
    pre: &App,
    post: &App,
    menu_type: &KeySelectMenuType,
    c: char,
) -> bool {
    match menu_type {
        KeySelectMenuType::Snippets => match assoc_first(pre.config.snippets@, c) {
            Some(snippet) => {
                let lines = pre.input_state.lines_view();
                let cl = pre.input_state.cursor_line as int;
                let cc = pre.input_state.cursor_col as int;
                let new_line = lines[cl].subrange(0, cc) + snippet.text@ + lines[cl].subrange(
                    cc,
                    lines[cl].len() as int,
                );
                &&& post.input_state.lines_view() == lines.update(cl, new_line)
                &&& post.input_state.cursor_line == pre.input_state.cursor_line
                &&& post.input_state.cursor_col as int == if cc + snippet.cursor_offset
                    <= new_line.len() && snippet.cursor_offset <= new_line.len() {
                    cc + snippet.cursor_offset
                } else {
                    new_line.len() as int
                }
                &&& post.should_jump_to_other_cmd == pre.should_jump_to_other_cmd
            },
            None => post.input_state == pre.input_state && post.should_jump_to_other_cmd
                == pre.should_jump_to_other_cmd,
        },
        KeySelectMenuType::OpenWordIn(word) => match assoc_first(pre.config.help_viewers@, c) {
            Some(t) => match &post.should_jump_to_other_cmd {
                Some((stdin, argv)) => {
                    &&& stdin is None
                    &&& argv.deep_view().len() == 3
                    &&& argv.deep_view()[0] == "bash"@
                    &&& argv.deep_view()[1] == "-c"@
                    &&& argv.deep_view()[2] == crate::strings::replace_pair(
                        t.0@,
                        '?',
                        '?',
                        word@,
                    )
                    &&& post.input_state == pre.input_state
                },
                None => false,
            },
            None => post.should_jump_to_other_cmd == pre.should_jump_to_other_cmd
                && post.input_state == pre.input_state,
        },
        KeySelectMenuType::OpenOutputIn(output) => match assoc_first(
            pre.config.output_viewers@,
            c,
        ) {
            Some(v) => match &post.should_jump_to_other_cmd {
                Some((stdin, argv)) => {
                    &&& match stdin {
                        Some(s) => s@ == output@,
                        None => false,
                    }
                    &&& argv.deep_view() == seq![v@]
                    &&& post.input_state == pre.input_state
                },
                None => false,
            },
            None => post.should_jump_to_other_cmd == pre.should_jump_to_other_cmd
                && post.input_state == pre.input_state,
        },
    }
}


/// What pressing the cache key does: with the cursor on a pipe, the
/// prefix command up to that pipe is handed back to be run (unless the
/// direct-mode guard rejects it, which moves the cursor back onto the
/// pipe and reports the rejection); anywhere else nothing happens.
pub open spec fn spec_cache_step(pre: &App, post: &App, r: Option<AppAction>) -> bool {
    let lines = pre.input_state.lines_view();
    let cl = pre.input_state.cursor_line as int;
    let cc = pre.input_state.cursor_col as int;
    let hovering_pipe = cc < lines[cl].len() && lines[cl][cc] == '|';
    if !hovering_pipe {
        &&& r is None
        &&& post.input_state == pre.input_state
        &&& post.cached_command_part == pre.cached_command_part
        &&& post.command_error == pre.command_error
        &&& post.execution_handler == pre.execution_handler
    } else {
        let cmd = spec_cache_prefix_cmd(lines, cl, cc);
        if !(pre.execution_handler.execution_mode is UNSAFE && spec_guard_rejects(cmd)) {
            &&& match r {
                Some(a) => match a {
                    AppAction::RunCachePrefix(argv) => argv.deep_view() == if pre
                        .execution_handler.execution_mode is ISOLATED {
                        crate::command_evaluation::spec_bwrap_prefix()
                            + pre.execution_handler.eval_environment.deep_view() + seq![cmd]
                    } else {
                        pre.execution_handler.eval_environment.deep_view() + seq![cmd]
                    },
                    _ => false,
                },
                None => false,
            }
            &&& post.input_state == pre.input_state
            &&& post.cached_command_part == pre.cached_command_part
            &&& post.command_error == pre.command_error
        } else {
            &&& r is None
            &&& post.input_state.lines_view() == lines
            &&& post.input_state.cursor_line as int == cl
            &&& post.input_state.cursor_col as int == if cc == 0 {
                0int
            } else {
                cc - 1
            }
            &&& post.command_error@ == "could not run command to cache: "@
                + "Will not run this command, it's for your own good. Believe me."@
            &&& post.is_processing_state is None
            &&& post.cached_command_part == pre.cached_command_part
        }
    }
}

impl App {
    /// With the cursor on a pipe character, resolves the prefix that
    /// ends on that pipe into an argument list for a blocking run; the
    /// caller runs it and reports back through `on_cache_result`.
    pub fn do_cache_command_part(&mut self) -> (r: Option<AppAction>)
        requires
            old(self).wf(),
        ensures
            final(self).wf(),
            final(self).history == old(self).history,
            final(self).bookmarks == old(self).bookmarks,
            final(self).window_state == old(self).window_state,
            final(self).history_idx == old(self).history_idx,
            final(self).should_quit == old(self).should_quit,
            final(self).execution_handler == old(self).execution_handler,
            spec_cache_step(old(self), final(self), r),
    {
        let hovered = self.input_state.hovered_char();
        let pipe: String = "|".to_owned();
        proof {
            reveal_strlit("|");
            assert("|"@ =~= seq!['|']);
        }
        let is_pipe = match &hovered {
            Some(s) => string_eq(s, &pipe),
            None => false,
        };
        proof {
            let linesv = old(self).input_state.lines_view();
            let cl0 = old(self).input_state.cursor_line as int;
            let cc0 = old(self).input_state.cursor_col as int;
            match &hovered {
                Some(s) => {
                    if linesv[cl0][cc0] == '|' {
                        assert(s@ =~= seq!['|']);
                    }
                    if s@ == seq!['|'] {
                        assert(seq![linesv[cl0][cc0]][0] == seq!['|'][0]);
                    }
                }
                None => {}
            }
        }
        if !is_pipe {
            return None;
        }
        let cl = self.input_state.cursor_line;
        let cc = self.input_state.cursor_col;
        let line_n = char_len(self.input_state.current_line());
        proof {
            assert(cc < line_n);
        }
        let lines = self.input_state.content_lines();
        let (mut left, _) = lines.split_strings_at_offset(cl, cc + 1);
        if left.len() > 0 {
            let last_i = left.len() - 1;
            let ll = char_len(&left[last_i]);
            if ll > 0 {
                let shortened = substring(&left[last_i], 0, ll - 1);
                proof {
                    assert(shortened@ =~= left.deep_view().last().drop_last());
                }
                let ghost before = left.deep_view();
                left[last_i] = shortened;
                proof {
                    assert(left.deep_view() =~= before.update(
                        before.len() - 1,
                        before.last().drop_last(),
                    ));
                }
            }
        }
        if left.len() > 0 && char_len(&left[left.len() - 1]) == 0 {
            let ghost before = left.deep_view();
            left.pop();
            proof {
                assert(left.deep_view() =~= before.drop_last());
            }
        }
        let cmd = crate::strings::join_with(&left, " ");
        proof {
            reveal_strlit(" ");
            assert(" "@ =~= seq![' ']);
        }
        let mode = self.execution_handler.execution_mode;
        match mode.spawn_invocation(&self.execution_handler.eval_environment, &cmd) {
            Ok(argv) => Some(AppAction::RunCachePrefix(argv)),
            Err(e) => {
                let prev = if self.input_state.cursor_col == 0 {
                    0
                } else {
                    self.input_state.cursor_col - 1
                };
                self.input_state.cursor_col = prev;
                let mut msg: String = "could not run command to cache: ".to_owned();
                msg.append(e.as_str());
                self.on_cmd_output(CmdOutput::NotOk(msg));
                None
            }
        }
    }

    /// Takes the result of the blocking prefix run: its captured stdout
    /// is frozen as the cached prefix anchored just past the pipe under
    /// the cursor; a failure moves the cursor back onto the pipe and is
    /// reported like any failed run.
    pub fn on_cache_result(&mut self, result: Result<Vec<String>, String>)
        requires
            old(self).wf(),
            old(self).input_state.cursor_col < old(self).input_state.lines_view()[
                old(self).input_state.cursor_line as int
            ].len(),
        ensures
            final(self).wf(),
            final(self).history == old(self).history,
            final(self).bookmarks == old(self).bookmarks,
            final(self).window_state == old(self).window_state,
            final(self).execution_handler == old(self).execution_handler,
            match result {
                Ok(output) => {
                    &&& match &final(self).cached_command_part {
                        Some(c) => {
                            &&& c.end_line == old(self).input_state.cursor_line
                            &&& c.end_col == old(self).input_state.cursor_col + 1
                            &&& c.cached_output == output
                        },
                        None => false,
                    }
                    &&& final(self).input_state == old(self).input_state
                    &&& final(self).command_error == old(self).command_error
                },
                Err(err) => {
                    &&& final(self).cached_command_part == old(self).cached_command_part
                    &&& final(self).input_state.lines_view() == old(self).input_state.lines_view()
                    &&& final(self).input_state.cursor_col as int == if old(
                        self,
                    ).input_state.cursor_col == 0 {
                        0int
                    } else {
                        old(self).input_state.cursor_col - 1
                    }
                    &&& final(self).command_error@ == "could not run command to cache: "@ + err@
                    &&& final(self).is_processing_state is None
                },
            },
    {
        match result {
            Ok(output) => {
                let cl = self.input_state.cursor_line;
                let cc = self.input_state.cursor_col;
                let line_n = char_len(self.input_state.current_line());
                proof {
                    assert(cc < line_n);
                }
                self.cached_command_part = Some(CachedCommandPart::new(cl, cc + 1, output));
            }
            Err(err) => {
                let prev = if self.input_state.cursor_col == 0 {
                    0
                } else {
                    self.input_state.cursor_col - 1
                };
                self.input_state.cursor_col = prev;
                let mut msg: String = "could not run command to cache: ".to_owned();
                msg.append(err.as_str());
                self.on_cmd_output(CmdOutput::NotOk(msg));
            }
        }
    }

    /// With the cursor on a space or past the line end, asks for the
    /// filesystem completions of the word under the cursor; the caller
    /// lists them and reports back through `on_completions`.
    pub fn open_autocomplete_menu(&mut self) -> (r: Option<AppAction>)
        requires
            old(self).wf(),
        ensures
            final(self).wf(),
            *final(self) == *old(self),
            spec_autocomplete_query(old(self), r),
    {
        let hovered = self.input_state.hovered_char();
        let space: String = " ".to_owned();
        proof {
            reveal_strlit(" ");
            assert(" "@ =~= seq![' ']);
        }
        let eligible = match &hovered {
            Some(s) => string_eq(s, &space),
            None => true,
        };
        proof {
            let linesv = old(self).input_state.lines_view();
            let cl0 = old(self).input_state.cursor_line as int;
            let cc0 = old(self).input_state.cursor_col as int;
            match &hovered {
                Some(s) => {
                    if s@ == seq![' '] {
                        assert(seq![linesv[cl0][cc0]][0] == seq![' '][0]);
                    }
                }
                None => {}
            }
        }
        if !eligible {
            return None;
        }
        let line = self.input_state.current_line().clone();
        let word = match line.as_str().word_at_idx(self.input_state.cursor_col) {
            Some(w) => w,
            None => String::new(),
        };
        Some(AppAction::RequestCompletions(word))
    }

    /// Takes the filesystem completions of the autocomplete prompt: a
    /// single match is inserted at once (its repeated-prompt prefix
    /// stripped), several matches open the overlay, none do nothing.
    pub fn on_completions(&mut self, prompt: String, completions: Vec<String>)
        requires
            old(self).wf(),
        ensures
            final(self).wf(),
            final(self).history == old(self).history,
            final(self).bookmarks == old(self).bookmarks,
            final(self).window_state == old(self).window_state,
            final(self).cached_command_part == old(self).cached_command_part,
            final(self).execution_handler == old(self).execution_handler,
            ({
                let lines = old(self).input_state.lines_view();
                let cl = old(self).input_state.cursor_line as int;
                let cc = old(self).input_state.cursor_col as int;
                if completions.deep_view().len() == 1 {
                    let completed = strip_prefix_all(completions.deep_view()[0], prompt@);
                    let new_line = lines[cl].subrange(0, cc) + completed + lines[cl].subrange(
                        cc,
                        lines[cl].len() as int,
                    );
                    &&& final(self).input_state.lines_view() == lines.update(cl, new_line)
                    &&& final(self).input_state.cursor_line as int == cl
                    &&& final(self).input_state.cursor_col as int == cc + completed.len()
                    &&& final(self).autocomplete_state == old(self).autocomplete_state
                } else if completions.deep_view().len() > 1 {
                    &&& final(self).input_state == old(self).input_state
                    &&& match &final(self).autocomplete_state {
                        Some(st) => {
                            &&& st.original_prompt@ == prompt@
                            &&& st.options == completions
                            &&& st.current_idx == 0
                        },
                        None => false,
                    }
                } else {
                    &&& final(self).input_state == old(self).input_state
                    &&& final(self).autocomplete_state == old(self).autocomplete_state
                }
            }),
    {
        proof {
            assert(completions@.len() == completions.deep_view().len());
        }
        if completions.len() == 1 {
            let completed = strip_prefix_all_exec(&completions[0], &prompt);
            let k = char_len(&completed);
            self.input_state.insert_at_cursor(&completed);
            let nl = char_len(self.input_state.current_line());
            proof {
                assert(self.input_state.cursor_col + k <= nl);
            }
            self.input_state.cursor_col = self.input_state.cursor_col + k;
        } else if completions.len() > 1 {
            self.autocomplete_state = AutocompleteState::from_options(prompt, completions);
        }
    }

    /// Opens the help-viewer menu for the word under the cursor: one
    /// keyed option per configured viewer, each label the viewer command
    /// with the word substituted in.
    pub fn open_helpviewer(&mut self)
        requires
            old(self).wf(),
        ensures
            final(self).wf(),
            final(self).input_state == old(self).input_state,
            final(self).history == old(self).history,
            final(self).bookmarks == old(self).bookmarks,
            final(self).window_state == old(self).window_state,
            final(self).cached_command_part == old(self).cached_command_part,
            final(self).execution_handler == old(self).execution_handler,
            spec_helpviewer_opened(old(self), final(self)),
    {
        let line = self.input_state.current_line().clone();
        let hovered_word = line.as_str().word_at_idx(self.input_state.cursor_col);
        match hovered_word {
            Some(word) => {
                let mut options: Vec<(char, String)> = Vec::new();
                let mut i: usize = 0;
                while i < self.config.help_viewers.len()
                    invariant
                        i <= self.config.help_viewers.len(),
                        options@.len() == i,
                        forall|j: int| 0 <= j < i ==> (#[trigger] options@[j]).0
                            == self.config.help_viewers@[j].0 && options@[j].1@
                            == crate::strings::replace_pair(
                            self.config.help_viewers@[j].1.0@,
                            '?',
                            '?',
                            word@,
                        ),
                        self == old(self),
                    decreases self.config.help_viewers.len() - i,
                {
                    let k = self.config.help_viewers[i].0;
                    let label = self.config.help_viewers[i].1.resolve(&word);
                    let ghost prev = options@;
                    options.push((k, label));
                    proof {
                        assert(options@ =~= prev.push((k, label)));
                        assert(forall|j: int| 0 <= j < prev.len() ==> options@[j] == prev[j]);
                    }
                    i += 1;
                }
                let menu = KeySelectMenu::new(options, KeySelectMenuType::OpenWordIn(word));
                self.opened_key_select_menu = Some(menu);
            }
            None => {}
        }
    }

    /// Opens the output-viewer menu for the current output: one keyed
    /// option per configured viewer.
    pub fn open_outputviewer(&mut self)
        requires
            old(self).wf(),
        ensures
            final(self).wf(),
            final(self).input_state == old(self).input_state,
            final(self).history == old(self).history,
            final(self).bookmarks == old(self).bookmarks,
            final(self).window_state == old(self).window_state,
            final(self).cached_command_part == old(self).cached_command_part,
            final(self).execution_handler == old(self).execution_handler,
            spec_outputviewer_opened(old(self), final(self)),
    {
        let current_output = self.command_output.clone();
        let mut options: Vec<(char, String)> = Vec::new();
        let mut i: usize = 0;
        while i < self.config.output_viewers.len()
            invariant
                i <= self.config.output_viewers.len(),
                options@.len() == i,
                forall|j: int| 0 <= j < i ==> (#[trigger] options@[j]).0
                    == self.config.output_viewers@[j].0 && options@[j].1@
                    == self.config.output_viewers@[j].1@,
                self == old(self),
            decreases self.config.output_viewers.len() - i,
        {
            let k = self.config.output_viewers[i].0;
            let label = self.config.output_viewers[i].1.clone();
            let ghost prev = options@;
            options.push((k, label));
            proof {
                assert(options@ =~= prev.push((k, label)));
                assert(forall|j: int| 0 <= j < prev.len() ==> options@[j] == prev[j]);
            }
            i += 1;
        }
        let menu = KeySelectMenu::new(options, KeySelectMenuType::OpenOutputIn(current_output));
        self.opened_key_select_menu = Some(menu);
    }
}


/// What asking for completions returns: with the cursor on a space or
/// past the line end, the word under the cursor (empty if none) is
/// handed back for completion; elsewhere nothing happens.
pub open spec fn spec_autocomplete_query(pre: &App, r: Option<AppAction>) -> bool {
    let lines = pre.input_state.lines_view();
    let line = lines[pre.input_state.cursor_line as int];
    let cc = pre.input_state.cursor_col as int;
    let eligible = cc >= line.len() || line[cc] == ' ';
    match r {
        Some(a) => match a {
            AppAction::RequestCompletions(word) => eligible && word@ == match spec_word_at(
                line,
                cc,
            ) {
                Some(w) => w,
                None => Seq::<char>::empty(),
            },
            _ => false,
        },
        None => !eligible,
    }
}

/// The help-viewer menu opened for the word under the cursor, one keyed
/// option per configured viewer with the word substituted in; nothing
/// happens with no word under the cursor.
pub open spec fn spec_helpviewer_opened(pre: &App, post: &App) -> bool {
    let line = pre.input_state.lines_view()[pre.input_state.cursor_line as int];
    match spec_word_at(line, pre.input_state.cursor_col as int) {
        Some(w) => match &post.opened_key_select_menu {
            Some(menu) => {
                &&& menu.options@.len() == pre.config.help_viewers@.len()
                &&& forall|i: int| 0 <= i < menu.options@.len() ==> (#[trigger] menu.options@[
                    i
                ]).0 == pre.config.help_viewers@[i].0 && menu.options@[i].1@
                    == crate::strings::replace_pair(
                    pre.config.help_viewers@[i].1.0@,
                    '?',
                    '?',
                    w,
                )
                &&& match &menu.menu_type {
                    KeySelectMenuType::OpenWordIn(word) => word@ == w,
                    _ => false,
                }
            },
            None => false,
        },
        None => post.opened_key_select_menu == pre.opened_key_select_menu,
    }
}

/// The output-viewer menu opened for the current output, one keyed
/// option per configured viewer.
pub open spec fn spec_outputviewer_opened(pre: &App, post: &App) -> bool {
    match &post.opened_key_select_menu {
        Some(menu) => {
            &&& menu.options@.len() == pre.config.output_viewers@.len()
            &&& forall|i: int| 0 <= i < menu.options@.len() ==> (#[trigger] menu.options@[i]).0
                == pre.config.output_viewers@[i].0 && menu.options@[i].1@
                == pre.config.output_viewers@[i].1@
            &&& match &menu.menu_type {
                KeySelectMenuType::OpenOutputIn(out) => out@ == pre.command_output@,
                _ => false,
            }
        },
        None => false,
    }
}


/// Ending the session: the quit flag is set and the in-progress buffer
/// is appended to the history.
pub open spec fn spec_quit(pre: &App, post: &App) -> bool {
    &&& post.should_quit
    &&& post.history.entries_view() == spec_push(
        pre.history.entries_view(),
        pre.input_state.lines_view(),
        pre.history.max_size,
    )
    &&& post.input_state == pre.input_state
    &&& post.bookmarks == pre.bookmarks
    &&& post.window_state == pre.window_state
    &&& post.cached_command_part == pre.cached_command_part
    &&& post.execution_handler == pre.execution_handler
}

/// One editor event applied to the buffer, together with its bookkeeping:
/// the history walk ends, and the cached prefix survives exactly when its
/// anchor still lies in the new buffer with the content at and before it
/// unchanged.
pub open spec fn spec_edit_applied(pre: &App, post: &App, ev: crate::lineeditor::EditorEvent) -> bool {
    let st = crate::lineeditor::spec_apply_event(
        pre.input_state.lines_view(),
        pre.input_state.cursor_line as int,
        pre.input_state.cursor_col as int,
        ev,
    );
    &&& post.input_state.lines_view() == st.0
    &&& post.input_state.cursor_line as int == st.1
    &&& post.input_state.cursor_col as int == st.2
    &&& post.history_idx is None
    &&& match (&pre.cached_command_part, &post.cached_command_part) {
        (Some(c), Some(c2)) => {
            &&& crate::app::cache_survives(
                pre.input_state.lines_view(),
                st.0,
                c.end_line as int,
                c.end_col as int,
            )
            &&& c2.end_line == c.end_line
            &&& c2.end_col == c.end_col
            &&& c2.cached_output == c.cached_output
        },
        (Some(c), None) => !crate::app::cache_survives(
            pre.input_state.lines_view(),
            st.0,
            c.end_line as int,
            c.end_col as int,
        ),
        (None, None) => true,
        (None, Some(_)) => false,
    }
    &&& post.history == pre.history
    &&& post.bookmarks == pre.bookmarks
    &&& post.window_state == pre.window_state
    &&& post.should_quit == pre.should_quit
    &&& post.autoeval_mode == pre.autoeval_mode
    &&& post.raw_mode == pre.raw_mode
    &&& post.config == pre.config
    &&& post.paranoid_history_mode == pre.paranoid_history_mode
    &&& post.command_output == pre.command_output
}

/// An editor event followed by the re-execution policy: if autoeval is
/// on and the content changed, the edited buffer is submitted for
/// execution; otherwise nothing more happens.
pub open spec fn spec_editor_branch(
    pre: &App,
    post: &App,
    r: Option<AppAction>,
    ev: crate::lineeditor::EditorEvent,
) -> bool {
    let st = crate::lineeditor::spec_apply_event(
        pre.input_state.lines_view(),
        pre.input_state.cursor_line as int,
        pre.input_state.cursor_col as int,
        ev,
    );
    let changed = st.0 != pre.input_state.lines_view();
    if pre.autoeval_mode && changed {
        exists|mid: App|
            {
                &&& #[trigger] spec_edit_applied(pre, &mid, ev)
                &&& mid.execution_handler == pre.execution_handler
                &&& spec_executed(&mid, post, r)
                &&& post.input_state == mid.input_state
                &&& post.cached_command_part == mid.cached_command_part
                &&& post.history_idx == mid.history_idx
                &&& post.history == mid.history
                &&& post.bookmarks == mid.bookmarks
                &&& post.window_state == mid.window_state
                &&& post.should_quit == mid.should_quit
            }
    } else {
        &&& spec_edit_applied(pre, post, ev)
        &&& r is None
        &&& post.execution_handler == pre.execution_handler
        &&& post.is_processing_state == pre.is_processing_state
    }
}

/// Committing the buffer: it is appended to the history (subject to the
/// duplicate suppression) and then submitted for execution.
pub open spec fn spec_committed(pre: &App, post: &App, r: Option<AppAction>) -> bool {
    exists|mid: App|
        {
            &&& #[trigger] mid.history.entries_view() == spec_push(
                pre.history.entries_view(),
                pre.input_state.lines_view(),
                pre.history.max_size,
            )
            &&& mid.history.max_size == pre.history.max_size
            &&& mid.input_state == pre.input_state
            &&& mid.cached_command_part == pre.cached_command_part
            &&& mid.raw_mode == pre.raw_mode
            &&& mid.execution_handler == pre.execution_handler
            &&& spec_executed(&mid, post, r)
            &&& post.history == mid.history
            &&& post.input_state == mid.input_state
            &&& post.bookmarks == pre.bookmarks
            &&& post.window_state == pre.window_state
            &&& post.cached_command_part == mid.cached_command_part
        }
}

/// What one key does in the main window with no overlay active.
pub open spec fn spec_plain_main_event(
    pre: &App,
    post: &App,
    r: Option<AppAction>,
    code: Key,
    m: crate::lineeditor::Modifiers,
) -> bool {
    match code {
        Key::Esc => spec_quit(pre, post) && r is None,
        Key::F(f) => if f == 2 {
            &&& post.autoeval_mode == !pre.autoeval_mode
            &&& post.input_state == pre.input_state
            &&& post.history == pre.history
            &&& post.bookmarks == pre.bookmarks
            &&& r is None
        } else if f == 3 {
            &&& post.paranoid_history_mode == !pre.paranoid_history_mode
            &&& post.input_state == pre.input_state
            &&& post.history == pre.history
            &&& post.bookmarks == pre.bookmarks
            &&& r is None
        } else if f == 5 {
            &&& spec_helpviewer_opened(pre, post)
            &&& post.input_state == pre.input_state
            &&& post.history == pre.history
            &&& post.bookmarks == pre.bookmarks
            &&& post.window_state == pre.window_state
            &&& post.cached_command_part == pre.cached_command_part
            &&& post.execution_handler == pre.execution_handler
            &&& r is None
        } else if f == 6 {
            &&& spec_outputviewer_opened(pre, post)
            &&& post.input_state == pre.input_state
            &&& post.history == pre.history
            &&& post.bookmarks == pre.bookmarks
            &&& post.window_state == pre.window_state
            &&& post.cached_command_part == pre.cached_command_part
            &&& post.execution_handler == pre.execution_handler
            &&& r is None
        } else if f == 7 {
            &&& spec_cache_step(pre, post, r)
            &&& post.history == pre.history
            &&& post.bookmarks == pre.bookmarks
            &&& post.window_state == pre.window_state
            &&& post.history_idx == pre.history_idx
            &&& post.should_quit == pre.should_quit
            &&& post.execution_handler == pre.execution_handler
        } else {
            *post == *pre && r is None
        },
        Key::Tab => *post == *pre && spec_autocomplete_query(pre, r),
        Key::Char(c) => if m.control && (c == 'q' || c == 'c') {
            spec_quit(pre, post) && r is None
        } else if m.control && c == 's' {
            &&& post.bookmarks.entries_view() == crate::commandlist::spec_toggle(
                pre.bookmarks.entries_view(),
                pre.input_state.lines_view(),
                pre.bookmarks.max_size,
            )
            &&& post.input_state == pre.input_state
            &&& post.history == pre.history
            &&& post.window_state == pre.window_state
            &&& post.cached_command_part == pre.cached_command_part
            &&& post.execution_handler == pre.execution_handler
            &&& r is None
        } else if m.control && c == 'p' {
            &&& spec_history_prev(pre, post)
            &&& post.cached_command_part is None
            &&& post.bookmarks == pre.bookmarks
            &&& post.window_state == pre.window_state
            &&& post.execution_handler == pre.execution_handler
            &&& r is None
        } else if m.control && c == 'n' {
            &&& spec_history_next(pre, post)
            &&& post.cached_command_part is None
            &&& post.history == pre.history
            &&& post.bookmarks == pre.bookmarks
            &&& post.window_state == pre.window_state
            &&& post.execution_handler == pre.execution_handler
            &&& r is None
        } else if m.control && c == 'x' {
            &&& post.history.entries_view() == spec_push(
                pre.history.entries_view(),
                pre.input_state.lines_view(),
                pre.history.max_size,
            )
            &&& post.history_idx is None
            &&& post.input_state.lines_view() =~= seq![Seq::<char>::empty()]
            &&& post.input_state.cursor_line == 0
            &&& post.input_state.cursor_col == 0
            &&& post.cached_command_part is None
            &&& post.bookmarks == pre.bookmarks
            &&& post.window_state == pre.window_state
            &&& post.execution_handler == pre.execution_handler
            &&& r is None
        } else if m.control && c == 'v' {
            &&& match &post.opened_key_select_menu {
                Some(menu) => {
                    &&& menu.options@.len() == pre.config.snippets@.len()
                    &&& forall|i: int| 0 <= i < menu.options@.len() ==> (#[trigger] menu.options@[
                        i
                    ]).0 == pre.config.snippets@[i].0 && menu.options@[i].1@
                        == crate::strings::trim_ws(pre.config.snippets@[i].1.text@)
                    &&& menu.menu_type is Snippets
                },
                None => false,
            }
            &&& post.input_state == pre.input_state
            &&& post.history == pre.history
            &&& post.bookmarks == pre.bookmarks
            &&& post.window_state == pre.window_state
            &&& post.cached_command_part == pre.cached_command_part
            &&& post.execution_handler == pre.execution_handler
            &&& r is None
        } else {
            match crate::lineeditor::spec_convert_key(code, m) {
                Some(ev) => spec_editor_branch(pre, post, r, ev),
                None => *post == *pre && r is None,
            }
        },
        Key::Enter => if !m.alt {
            spec_committed(pre, post, r)
        } else {
            *post == *pre && r is None
        },
        _ => match crate::lineeditor::spec_convert_key(code, m) {
            Some(ev) => spec_editor_branch(pre, post, r, ev),
            None => *post == *pre && r is None,
        },
    }
}

/// What one key does in the main window: an open autocomplete overlay
/// sees it first, then an open key-select menu, and only then the plain
/// main-window bindings.
pub open spec fn spec_main_event(
    pre: &App,
    post: &App,
    r: Option<AppAction>,
    code: Key,
    m: crate::lineeditor::Modifiers,
) -> bool {
    match &pre.autocomplete_state {
        Some(ac) => {
            &&& r is None
            &&& post.history == pre.history
            &&& post.bookmarks == pre.bookmarks
            &&& post.window_state == pre.window_state
            &&& post.cached_command_part == pre.cached_command_part
            &&& post.execution_handler == pre.execution_handler
            &&& match code {
                Key::Tab | Key::Down => {
                    &&& match &post.autocomplete_state {
                        Some(ac2) => {
                            &&& ac2.options == ac.options
                            &&& ac2.original_prompt == ac.original_prompt
                            &&& ac2.current_idx as int == if ac.current_idx + 1 < ac.options@.len() {
                                ac.current_idx + 1
                            } else {
                                0
                            }
                        },
                        None => false,
                    }
                    &&& post.input_state == pre.input_state
                },
                Key::BackTab | Key::Up => {
                    &&& match &post.autocomplete_state {
                        Some(ac2) => {
                            &&& ac2.options == ac.options
                            &&& ac2.original_prompt == ac.original_prompt
                            &&& ac2.current_idx as int == if ac.current_idx == 0 {
                                ac.options@.len() - 1
                            } else {
                                ac.current_idx - 1
                            }
                        },
                        None => false,
                    }
                    &&& post.input_state == pre.input_state
                },
                Key::Enter => {
                    let lines = pre.input_state.lines_view();
                    let cl = pre.input_state.cursor_line as int;
                    let cc = pre.input_state.cursor_col as int;
                    let completed = strip_prefix_all(
                        ac.options.deep_view()[ac.current_idx as int],
                        ac.original_prompt@,
                    );
                    let new_line = lines[cl].subrange(0, cc) + completed + lines[cl].subrange(
                        cc,
                        lines[cl].len() as int,
                    );
                    &&& post.autocomplete_state is None
                    &&& post.input_state.lines_view() == lines.update(cl, new_line)
                    &&& post.input_state.cursor_line as int == cl
                    &&& post.input_state.cursor_col as int == cc + completed.len()
                },
                _ => post.autocomplete_state is None && post.input_state == pre.input_state,
            }
        },
        None => match &pre.opened_key_select_menu {
            Some(menu) => {
                &&& r is None
                &&& post.opened_key_select_menu is None
                &&& post.history == pre.history
                &&& post.bookmarks == pre.bookmarks
                &&& post.window_state == pre.window_state
                &&& post.cached_command_part == pre.cached_command_part
                &&& post.execution_handler == pre.execution_handler
                &&& match code {
                    Key::Char(c) => spec_menu_choice(pre, post, &menu.menu_type, c),
                    _ => post.input_state == pre.input_state && post.should_jump_to_other_cmd
                        == pre.should_jump_to_other_cmd,
                }
            },
            None => spec_plain_main_event(pre, post, r, code, m),
        },
    }
}

impl App {
    /// Handles one key in the main window: the autocomplete overlay sees
    /// it first, then an open key-select menu, then the plain bindings —
    /// mode toggles, list and viewer openers, history walking, prefix
    /// caching, commit-and-run, and finally the editor itself with the
    /// re-execution policy.
    pub fn handle_main_window_tui_event(&mut self, code: Key, modifiers: crate::lineeditor::Modifiers) -> (r: Option<AppAction>)
        requires
            old(self).wf(),
        ensures
            final(self).wf(),
            spec_main_event(old(self), final(self), r, code, modifiers),
    {
        let control_pressed = modifiers.control;
        if self.autocomplete_state.is_some() {
            let mut ac = None;
            core::mem::swap(&mut ac, &mut self.autocomplete_state);
            let mut ac = match ac {
                Some(a) => a,
                None => {
                    proof {
                        assert(false);
                    }
                    AutocompleteState {
                        original_prompt: String::new(),
                        options: Vec::new(),
                        current_idx: 0,
                    }
                }
            };
            proof {
                assert(ac.wf());
            }
            match code {
                Key::Tab | Key::Down => {
                    ac.cycle_selected();
                    self.autocomplete_state = Some(ac);
                }
                Key::BackTab | Key::Up => {
                    ac.cycle_selected_backwards();
                    self.autocomplete_state = Some(ac);
                }
                Key::Enter => {
                    let completed = strip_prefix_all_exec(ac.selected(), &ac.original_prompt);
                    let k = char_len(&completed);
                    self.input_state.insert_at_cursor(&completed);
                    let nl = char_len(self.input_state.current_line());
                    proof {
                        assert(self.input_state.cursor_col + k <= nl);
                    }
                    self.input_state.cursor_col = self.input_state.cursor_col + k;
                }
                _ => {}
            }
            return None;
        }
        if self.opened_key_select_menu.is_some() {
            let mut menu_slot = None;
            core::mem::swap(&mut menu_slot, &mut self.opened_key_select_menu);
            let menu = match menu_slot {
                Some(m0) => m0,
                None => {
                    proof {
                        assert(false);
                    }
                    KeySelectMenu { options: Vec::new(), menu_type: KeySelectMenuType::Snippets }
                }
            };
            match code {
                Key::Char(c) => {
                    self.handle_key_select_menu_event(menu, c);
                }
                _ => {}
            }
            return None;
        }
        match code {
            Key::Esc => {
                self.set_should_quit();
                None
            }
            Key::F(f) => {
                if f == 2 {
                    self.autoeval_mode = !self.autoeval_mode;
                    None
                } else if f == 3 {
                    self.paranoid_history_mode = !self.paranoid_history_mode;
                    None
                } else if f == 5 {
                    self.open_helpviewer();
                    None
                } else if f == 6 {
                    self.open_outputviewer();
                    None
                } else if f == 7 {
                    self.do_cache_command_part()
                } else {
                    None
                }
            }
            Key::Tab => self.open_autocomplete_menu(),
            Key::Char(c) => {
                if control_pressed && (c == 'q' || c == 'c') {
                    self.set_should_quit();
                    None
                } else if control_pressed && c == 's' {
                    let entry = self.input_state.content_to_commandentry();
                    self.bookmarks.toggle_entry(entry);
                    None
                } else if control_pressed && c == 'p' {
                    self.apply_history_prev();
                    None
                } else if control_pressed && c == 'n' {
                    self.apply_history_next();
                    None
                } else if control_pressed && c == 'x' {
                    let entry = self.input_state.content_to_commandentry();
                    self.history.push(entry);
                    self.history_idx = None;
                    self.input_state.apply_event(crate::lineeditor::EditorEvent::Clear);
                    // clearing the buffer erases the anchored prefix too
                    self.cached_command_part = None;
                    None
                } else if control_pressed && c == 'v' {
                    let mut options: Vec<(char, String)> = Vec::new();
                    let mut i: usize = 0;
                    while i < self.config.snippets.len()
                        invariant
                            i <= self.config.snippets.len(),
                            options@.len() == i,
                            forall|j: int| 0 <= j < i ==> (#[trigger] options@[j]).0
                                == self.config.snippets@[j].0 && options@[j].1@
                                == crate::strings::trim_ws(self.config.snippets@[j].1.text@),
                            self == old(self),
                        decreases self.config.snippets.len() - i,
                    {
                        let k = self.config.snippets[i].0;
                        let label = self.config.snippets[i].1.display_string();
                        let ghost prev = options@;
                        options.push((k, label));
                        proof {
                            assert(options@ =~= prev.push((k, label)));
                        }
                        i += 1;
                    }
                    let menu = KeySelectMenu::new(options, KeySelectMenuType::Snippets);
                    self.opened_key_select_menu = Some(menu);
                    None
                } else {
                    self.apply_editor_key(code, modifiers)
                }
            }
            Key::Enter => {
                if !modifiers.alt {
                    let entry = self.input_state.content_to_commandentry();
                    self.history.push(entry);
                    proof {
                        crate::app::lemma_push_len(
                            old(self).history.entries_view(),
                            old(self).input_state.lines_view(),
                            old(self).history.max_size,
                        );
                    }
                    let ghost mid = *self;
                    let r = self.execute_content();
                    proof {
                        assert(spec_executed(&mid, self, r));
                        assert(spec_committed(old(self), self, r));
                    }
                    r
                } else {
                    None
                }
            }
            _ => self.apply_editor_key(code, modifiers),
        }
    }

    /// Applies a key as an editor event: the edit, the cache
    /// invalidation check, and the autoeval re-execution policy.
    fn apply_editor_key(&mut self, code: Key, modifiers: crate::lineeditor::Modifiers) -> (r:
        Option<AppAction>)
        requires
            old(self).wf(),
        ensures
            final(self).wf(),
            match crate::lineeditor::spec_convert_key(code, modifiers) {
                Some(ev) => spec_editor_branch(old(self), final(self), r, ev),
                None => *final(self) == *old(self) && r is None,
            },
    {
        let event = crate::lineeditor::convert_keyevent_to_editorevent(code, modifiers);
        let event = match event {
            Some(ev) => ev,
            None => {
                return None;
            }
        };
        let previous_content = clone_lines(self.input_state.content_lines());
        self.history_idx = None;
        self.input_state.apply_event(event);
        let mut keep_cache = false;
        match &self.cached_command_part {
            Some(cached) => {
                let end_line = cached.end_line;
                let end_col = cached.end_col;
                let new_lines = self.input_state.content_lines();
                let in_bounds = end_line < new_lines.len() && {
                    let ln = char_len(&new_lines[end_line]);
                    end_col <= ln
                };
                if in_bounds {
                    let (old_left, _) = previous_content.split_strings_at_offset(
                        end_line,
                        end_col,
                    );
                    let (new_left, _) = new_lines.split_strings_at_offset(end_line, end_col);
                    if crate::strings::lines_eq(&old_left, &new_left) {
                        keep_cache = true;
                    }
                }
            }
            None => {}
        }
        if !keep_cache {
            self.cached_command_part = None;
        }
        let changed = !crate::strings::lines_eq(
            &previous_content,
            self.input_state.content_lines(),
        );
        if self.autoeval_mode && changed {
            let ghost mid = *self;
            let r = self.execute_content();
            proof {
                assert(spec_edit_applied(old(self), &mid, event));
                assert(spec_executed(&mid, self, r));
            }
            r
        } else {
            None
        }
    }
}

} // verus!
