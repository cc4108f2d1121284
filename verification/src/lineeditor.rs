//! The multi-line command editor: a non-empty sequence of lines and a
//! cursor that always sits on a character boundary.
//!
//! Positions count characters, never bytes, so no operation can split a
//! multi-byte character. All out-of-range operations are no-ops.

use vstd::prelude::*;

use crate::commandlist::CommandEntry;
use crate::strings::{
    char_at, char_len, concat, insert_char_at, join_lines, join_with, remove_char_at, substring,
};
use crate::width::{char_display_width, lemma_display_width_nonneg, spec_display_width};

verus! {

/// An edit or cursor-movement request, already decoupled from any
/// particular terminal event encoding.
pub enum EditorEvent {
    NewCharacter(char),
    NewLine,
    Backspace,
    Delete,
    Clear,
    GoLeft,
    GoRight,
    GoUp,
    GoDown,
    Home,
    End,
    KillWordBack,
}

/// Characters that end a backward word-kill (the delimiter itself is
/// removed as well).
pub open spec fn is_kill_delimiter(c: char) -> bool {
    c == ' ' || c == '/' || c == '\\' || c == ':' || c == '_' || c == '-'
}

/// The index where a backward word-kill starting at column `cc` stops:
/// the rightmost delimiter strictly before `cc`, or 0 if there is none.
pub open spec fn kill_stop(line: Seq<char>, cc: int) -> int
    decreases cc,
{
    if cc <= 1 {
        0
    } else if is_kill_delimiter(line[cc - 1]) {
        cc - 1
    } else {
        kill_stop(line, cc - 1)
    }
}

/// What one editor event does to the buffer, as a mathematical function
/// on the view: the new lines, cursor line and cursor column.
pub open spec fn spec_apply_event(
    lines: Seq<Seq<char>>,
    cl: int,
    cc: int,
    event: EditorEvent,
) -> (Seq<Seq<char>>, int, int) {
    let line = lines[cl];
    let n = lines.len() as int;
    match event {
        EditorEvent::NewCharacter(c) => (lines.update(cl, line.insert(cc, c)), cl, cc + 1),
        EditorEvent::NewLine => (
            lines.update(cl, line.subrange(0, cc)).insert(cl + 1, line.subrange(cc, line.len() as int)),
            cl + 1,
            0,
        ),
        EditorEvent::Backspace => if cc > 0 {
            (lines.update(cl, line.remove(cc - 1)), cl, cc - 1)
        } else if cl > 0 {
            (lines.update(cl - 1, lines[cl - 1] + line).remove(cl), cl - 1, lines[cl - 1].len() as int)
        } else {
            (lines, cl, cc)
        },
        EditorEvent::Delete => if cc < line.len() {
            (lines.update(cl, line.remove(cc)), cl, cc)
        } else if cl < n - 1 {
            (lines.update(cl, line + lines[cl + 1]).remove(cl + 1), cl, cc)
        } else {
            (lines, cl, cc)
        },
        EditorEvent::Clear => (seq![Seq::<char>::empty()], 0, 0),
        EditorEvent::GoLeft => if cc > 0 {
            (lines, cl, cc - 1)
        } else if cl > 0 {
            (lines, cl - 1, lines[cl - 1].len() as int)
        } else {
            (lines, cl, cc)
        },
        EditorEvent::GoRight => if cc < line.len() {
            (lines, cl, cc + 1)
        } else if cl < n - 1 {
            (lines, cl + 1, 0)
        } else {
            (lines, cl, cc)
        },
        EditorEvent::GoUp => if cl > 0 {
            (lines, cl - 1, if cc >= lines[cl - 1].len() { lines[cl - 1].len() as int } else { cc })
        } else {
            (lines, cl, cc)
        },
        EditorEvent::GoDown => if cl < n - 1 {
            (lines, cl + 1, if cc >= lines[cl + 1].len() { lines[cl + 1].len() as int } else { cc })
        } else {
            (lines, cl, cc)
        },
        EditorEvent::Home => (lines, cl, 0),
        EditorEvent::End => (lines, cl, line.len() as int),
        EditorEvent::KillWordBack => if line.len() == 0 || cc == 0 {
            (lines, cl, cc)
        } else {
            let j = kill_stop(line, cc);
            (lines.update(cl, line.subrange(0, j) + line.subrange(cc, line.len() as int)), cl, j)
        },
    }
}

/// The editable multi-line buffer with its cursor.
pub struct EditorState {
    pub lines: Vec<String>,
    pub cursor_line: usize,
    pub cursor_col: usize,
}

impl EditorState {
    /// The buffer content as a sequence of lines of characters.
    pub open spec fn lines_view(&self) -> Seq<Seq<char>> {
        self.lines.deep_view()
    }

    /// The buffer invariant: at least one line, the cursor on an existing
    /// line and at most one past its last character.
    pub open spec fn wf(&self) -> bool {
        &&& self.lines_view().len() >= 1
        &&& self.cursor_line < self.lines_view().len()
        &&& self.cursor_col <= self.lines_view()[self.cursor_line as int].len()
    }

    /// An empty buffer: one empty line, cursor at its start.
    pub fn new() -> (r: EditorState)
        ensures
            r.wf(),
            r.lines_view() =~= seq![Seq::<char>::empty()],
            r.cursor_line == 0,
            r.cursor_col == 0,
    {
        let mut lines: Vec<String> = Vec::new();
        lines.push(String::new());
        EditorState { lines, cursor_line: 0, cursor_col: 0 }
    }

    /// Replaces the whole content; an empty set of lines is stored as one
    /// empty line. The cursor goes to the end of the last line.
    pub fn set_content(&mut self, new_content: Vec<String>)
        ensures
            final(self).wf(),
            final(self).lines_view() == if new_content.deep_view().len() == 0 {
                seq![Seq::<char>::empty()]
            } else {
                new_content.deep_view()
            },
            final(self).cursor_line == final(self).lines_view().len() - 1,
            final(self).cursor_col == final(self).lines_view().last().len(),
    {
        if new_content.is_empty() {
            let mut lines: Vec<String> = Vec::new();
            lines.push(String::new());
            self.lines = lines;
            proof {
                assert(self.lines_view() =~= seq![Seq::<char>::empty()]);
            }
        } else {
            self.lines = new_content;
        }
        self.cursor_line = self.lines.len() - 1;
        self.cursor_col = char_len(&self.lines[self.cursor_line]);
    }

    /// The lines of the buffer.
    pub fn content_lines(&self) -> (r: &Vec<String>)
        ensures
            r.deep_view() == self.lines_view(),
    {
        &self.lines
    }

    /// The content as one string, lines joined by single spaces (the form
    /// handed to the shell).
    pub fn content_str(&self) -> (r: String)
        ensures
            r@ == join_lines(self.lines_view(), seq![' ']),
    {
        proof {
            reveal_strlit(" ");
            assert(" "@ =~= seq![' ']);
        }
        join_with(&self.lines, " ")
    }

    /// The current content frozen into a command snapshot.
    pub fn content_to_commandentry(&self) -> (r: CommandEntry)
        ensures
            r.content_view() == self.lines_view(),
    {
        CommandEntry::new(&self.lines)
    }

    /// Loads a command snapshot into the buffer; the cursor goes to the
    /// end of the last line.
    pub fn load_commandentry(&mut self, entry: &CommandEntry)
        ensures
            final(self).wf(),
            final(self).lines_view() == if entry.content_view().len() == 0 {
                seq![Seq::<char>::empty()]
            } else {
                entry.content_view()
            },
            final(self).cursor_line == final(self).lines_view().len() - 1,
            final(self).cursor_col == final(self).lines_view().last().len(),
    {
        let lines = entry.lines();
        self.set_content(lines);
    }

    /// The line the cursor is on.
    pub fn current_line(&self) -> (r: &String)
        requires
            self.wf(),
        ensures
            r@ == self.lines_view()[self.cursor_line as int],
    {
        &self.lines[self.cursor_line]
    }

    /// Inserts `text` at the cursor; the cursor does not move.
    pub fn insert_at_cursor(&mut self, text: &String)
        requires
            old(self).wf(),
        ensures
            final(self).wf(),
            final(self).lines_view() == old(self).lines_view().update(
                old(self).cursor_line as int,
                old(self).lines_view()[old(self).cursor_line as int].subrange(0, old(self).cursor_col as int)
                    + text@
                    + old(self).lines_view()[old(self).cursor_line as int].subrange(
                    old(self).cursor_col as int,
                    old(self).lines_view()[old(self).cursor_line as int].len() as int,
                ),
            ),
            final(self).cursor_line == old(self).cursor_line,
            final(self).cursor_col == old(self).cursor_col,
    {
        let line = &self.lines[self.cursor_line];
        let n = char_len(line);
        let left = substring(line, 0, self.cursor_col);
        let mid = concat(&left, text);
        let right = substring(line, self.cursor_col, n);
        let new_line = concat(&mid, &right);
        self.lines[self.cursor_line] = new_line;
        proof {
            assert(self.lines_view() =~= old(self).lines_view().update(
                old(self).cursor_line as int,
                old(self).lines_view()[old(self).cursor_line as int].subrange(0, old(self).cursor_col as int)
                    + text@
                    + old(self).lines_view()[old(self).cursor_line as int].subrange(
                    old(self).cursor_col as int,
                    old(self).lines_view()[old(self).cursor_line as int].len() as int,
                ),
            ));
        }
    }

    /// The character under the cursor as a one-character string, or `None`
    /// at the end of the line.
    pub fn hovered_char(&self) -> (r: Option<String>)
        requires
            self.wf(),
        ensures
            match r {
                Some(s) => self.cursor_col < self.lines_view()[self.cursor_line as int].len()
                    && s@ == seq![self.lines_view()[self.cursor_line as int][self.cursor_col as int]],
                None => self.cursor_col == self.lines_view()[self.cursor_line as int].len(),
            },
    {
        let line = &self.lines[self.cursor_line];
        let n = char_len(line);
        if self.cursor_col < n {
            let s = substring(line, self.cursor_col, self.cursor_col + 1);
            proof {
                assert(s@ =~= seq![self.lines_view()[self.cursor_line as int][self.cursor_col as int]]);
            }
            Some(s)
        } else {
            None
        }
    }

    /// The cursor column advanced by one character, clamped to the end of
    /// the line.
    pub fn next_char_index(&self) -> (r: usize)
        requires
            self.wf(),
        ensures
            r == if self.cursor_col == self.lines_view()[self.cursor_line as int].len() {
                self.cursor_col as int
            } else {
                self.cursor_col + 1
            },
    {
        let n = char_len(&self.lines[self.cursor_line]);
        if self.cursor_col == n {
            self.cursor_col
        } else {
            self.cursor_col + 1
        }
    }

    /// The cursor column moved back by one character, clamped to the line
    /// start.
    fn prev_char_index(&self) -> (r: usize)
        ensures
            r == if self.cursor_col == 0 {
                0
            } else {
                self.cursor_col - 1
            },
    {
        if self.cursor_col == 0 {
            0
        } else {
            self.cursor_col - 1
        }
    }

    /// Drops the first `line` lines and the first `col` characters of the
    /// line that then comes first; the cursor keeps its line relative to
    /// the removed prefix (clamped to 0) and goes to column 0.
    pub fn remove_until(&mut self, line: usize, col: usize)
        requires
            old(self).wf(),
            line < old(self).lines_view().len(),
            col <= old(self).lines_view()[line as int].len(),
        ensures
            final(self).wf(),
            final(self).lines_view() == old(self).lines_view().subrange(
                line as int,
                old(self).lines_view().len() as int,
            ).update(0, old(self).lines_view()[line as int].subrange(
                col as int,
                old(self).lines_view()[line as int].len() as int,
            )),
            final(self).cursor_line == if old(self).cursor_line >= line {
                old(self).cursor_line - line
            } else {
                0
            },
            final(self).cursor_col == 0,
    {
        self.cursor_line = if self.cursor_line >= line {
            self.cursor_line - line
        } else {
            0
        };
        self.cursor_col = 0;
        let ghost orig = old(self).lines_view();
        proof {
            assert(orig.subrange(0, orig.len() as int) =~= orig);
        }
        let mut i: usize = 0;
        while i < line
            invariant
                i <= line,
                line < orig.len(),
                self.lines_view() == orig.subrange(i as int, orig.len() as int),
                self.cursor_line == if old(self).cursor_line >= line {
                    old(self).cursor_line - line
                } else {
                    0
                },
                self.cursor_col == 0,
            decreases line - i,
        {
            proof {
                assert(self.lines@.len() == self.lines.deep_view().len());
                assert(self.lines@.len() > 0);
            }
            let ghost before = self.lines@;
            self.lines.remove(0);
            proof {
                assert(self.lines@ == before.remove(0));
                assert forall|j: int| 0 <= j < self.lines@.len() implies
                    self.lines.deep_view()[j] == orig.subrange(i + 1, orig.len() as int)[j] by {
                    assert(self.lines@[j] == before[j + 1]);
                    assert(before[j + 1].deep_view() == orig.subrange(i as int, orig.len() as int)[j + 1]);
                }
                assert(self.lines_view() =~= orig.subrange(i + 1, orig.len() as int));
            }
            i += 1;
        }
        proof {
            assert(self.lines_view()[0] == orig[line as int]);
        }
        let first = &self.lines[0];
        let n = char_len(first);
        let new_first = substring(first, col, n);
        self.lines[0] = new_first;
        proof {
            assert(final(self).lines_view() =~= old(self).lines_view().subrange(
                line as int,
                old(self).lines_view().len() as int,
            ).update(0, old(self).lines_view()[line as int].subrange(
                col as int,
                old(self).lines_view()[line as int].len() as int,
            )));
        }
    }
}

impl EditorState {
    /// Moves the cursor to `line_nr`, keeping the column if the target
    /// line is long enough and clamping it to the line end otherwise.
    fn goto_line(&mut self, line_nr: usize)
        requires
            old(self).wf(),
            line_nr < old(self).lines_view().len(),
        ensures
            final(self).wf(),
            final(self).lines_view() == old(self).lines_view(),
            final(self).cursor_line == line_nr,
            final(self).cursor_col == if old(self).cursor_col >= old(self).lines_view()[line_nr as int].len() {
                old(self).lines_view()[line_nr as int].len() as int
            } else {
                old(self).cursor_col as int
            },
    {
        self.cursor_line = line_nr;
        let n = char_len(&self.lines[self.cursor_line]);
        if self.cursor_col >= n {
            self.cursor_col = n;
        }
    }

    /// Applies one editor event; the new buffer and cursor are exactly
    /// `spec_apply_event` of the old ones.
    pub fn apply_event(&mut self, event: EditorEvent)
        requires
            old(self).wf(),
        ensures
            final(self).wf(),
            (final(self).lines_view(), final(self).cursor_line as int, final(self).cursor_col as int)
                == spec_apply_event(
                old(self).lines_view(),
                old(self).cursor_line as int,
                old(self).cursor_col as int,
                event,
            ),
    {
        let ghost orig = old(self).lines_view();
        let ghost cl0 = old(self).cursor_line as int;
        let ghost cc0 = old(self).cursor_col as int;
        match event {
            EditorEvent::NewCharacter(c) => {
                let line = &self.lines[self.cursor_line];
                let new_line = insert_char_at(line, self.cursor_col, c);
                let n2 = char_len(&new_line);
                proof {
                    assert(cc0 + 1 <= n2 as int);
                }
                self.lines[self.cursor_line] = new_line;
                self.cursor_col = self.cursor_col + 1;
                proof {
                    assert(self.lines_view() =~= orig.update(cl0, orig[cl0].insert(cc0, c)));
                }
            }
            EditorEvent::NewLine => {
                let line = &self.lines[self.cursor_line];
                let n = char_len(line);
                let left = substring(line, 0, self.cursor_col);
                let rest = substring(line, self.cursor_col, n);
                self.lines[self.cursor_line] = left;
                let len = self.lines.len();
                proof {
                    assert(self.cursor_line < len);
                }
                self.lines.insert(self.cursor_line + 1, rest);
                self.cursor_line = self.cursor_line + 1;
                self.cursor_col = 0;
                proof {
                    assert(self.lines_view() =~= orig.update(cl0, orig[cl0].subrange(0, cc0)).insert(
                        cl0 + 1,
                        orig[cl0].subrange(cc0, orig[cl0].len() as int),
                    ));
                }
            }
            EditorEvent::Backspace => {
                if self.cursor_col > 0 {
                    let line = &self.lines[self.cursor_line];
                    let new_line = remove_char_at(line, self.cursor_col - 1);
                    self.lines[self.cursor_line] = new_line;
                    self.cursor_col = self.cursor_col - 1;
                    proof {
                        assert(self.lines_view() =~= orig.update(cl0, orig[cl0].remove(cc0 - 1)));
                    }
                } else if self.cursor_line > 0 {
                    let removed = self.lines.remove(self.cursor_line);
                    self.cursor_line = self.cursor_line - 1;
                    let prev = &self.lines[self.cursor_line];
                    self.cursor_col = char_len(prev);
                    let joined = concat(prev, &removed);
                    self.lines[self.cursor_line] = joined;
                    proof {
                        assert(self.lines_view() =~= orig.update(cl0 - 1, orig[cl0 - 1] + orig[cl0]).remove(cl0));
                    }
                }
            }
            EditorEvent::Delete => {
                let n = char_len(&self.lines[self.cursor_line]);
                if self.cursor_col < n {
                    let line = &self.lines[self.cursor_line];
                    let new_line = remove_char_at(line, self.cursor_col);
                    self.lines[self.cursor_line] = new_line;
                    proof {
                        assert(self.lines_view() =~= orig.update(cl0, orig[cl0].remove(cc0)));
                    }
                } else if self.cursor_line < self.lines.len() - 1 {
                    let removed = self.lines.remove(self.cursor_line + 1);
                    let line = &self.lines[self.cursor_line];
                    let joined = concat(line, &removed);
                    self.lines[self.cursor_line] = joined;
                    proof {
                        assert(self.lines_view() =~= orig.update(cl0, orig[cl0] + orig[cl0 + 1]).remove(cl0 + 1));
                    }
                }
            }
            EditorEvent::Clear => {
                let mut lines: Vec<String> = Vec::new();
                lines.push(String::new());
                self.lines = lines;
                self.cursor_line = 0;
                self.cursor_col = 0;
                proof {
                    assert(self.lines_view() =~= seq![Seq::<char>::empty()]);
                }
            }
            EditorEvent::GoLeft => {
                if self.cursor_col > 0 {
                    self.cursor_col = self.cursor_col - 1;
                } else if self.cursor_line > 0 {
                    self.cursor_line = self.cursor_line - 1;
                    self.cursor_col = char_len(&self.lines[self.cursor_line]);
                }
            }
            EditorEvent::GoRight => {
                let n = char_len(&self.lines[self.cursor_line]);
                if self.cursor_col < n {
                    self.cursor_col = self.cursor_col + 1;
                } else if self.cursor_line < self.lines.len() - 1 {
                    self.cursor_line = self.cursor_line + 1;
                    self.cursor_col = 0;
                }
            }
            EditorEvent::GoUp => {
                if self.cursor_line > 0 {
                    let target = self.cursor_line - 1;
                    self.goto_line(target);
                }
            }
            EditorEvent::GoDown => {
                if self.cursor_line < self.lines.len() - 1 {
                    let target = self.cursor_line + 1;
                    self.goto_line(target);
                }
            }
            EditorEvent::Home => {
                self.cursor_col = 0;
            }
            EditorEvent::End => {
                self.cursor_col = char_len(&self.lines[self.cursor_line]);
            }
            EditorEvent::KillWordBack => {
                let n = char_len(&self.lines[self.cursor_line]);
                if n == 0 || self.cursor_col == 0 {
                    // a backward kill has nothing before the cursor here
                } else {
                    let line = &self.lines[self.cursor_line];
                    let mut j: usize = self.cursor_col;
                    while j > 1 && !is_kill_delimiter_exec(char_at(line, j - 1))
                        invariant
                            1 <= j <= cc0,
                            cc0 <= line@.len(),
                            kill_stop(line@, cc0) == kill_stop(line@, j as int),
                        decreases j,
                    {
                        j -= 1;
                    }
                    let stop: usize = if j > 1 && is_kill_delimiter_exec(char_at(line, j - 1)) {
                        j - 1
                    } else {
                        0
                    };
                    proof {
                        assert(stop == kill_stop(line@, cc0));
                    }
                    let left = substring(line, 0, stop);
                    let right = substring(line, self.cursor_col, n);
                    let new_line = concat(&left, &right);
                    self.lines[self.cursor_line] = new_line;
                    self.cursor_col = stop;
                    proof {
                        assert(self.lines_view() =~= orig.update(
                            cl0,
                            orig[cl0].subrange(0, kill_stop(orig[cl0], cc0)) + orig[cl0].subrange(
                                cc0,
                                orig[cl0].len() as int,
                            ),
                        ));
                    }
                }
            }
        }
    }
}

impl EditorState {
    /// The terminal column of the cursor: the summed display widths of the
    /// characters before it on its line (saturating at `usize::MAX`), which
    /// differs from the character count for wide or combining characters.
    pub fn displayed_cursor_column(&self) -> (r: usize)
        requires
            self.wf(),
        ensures
            r == if spec_display_width(
                self.lines_view()[self.cursor_line as int].subrange(0, self.cursor_col as int),
            ) <= usize::MAX {
                spec_display_width(
                    self.lines_view()[self.cursor_line as int].subrange(0, self.cursor_col as int),
                )
            } else {
                usize::MAX as int
            },
    {
        let line = &self.lines[self.cursor_line];
        let ghost prefix = self.lines_view()[self.cursor_line as int].subrange(0, self.cursor_col as int);
        let mut r: usize = 0;
        let mut i: usize = 0;
        while i < self.cursor_col
            invariant
                i <= self.cursor_col,
                self.wf(),
                line@ == self.lines_view()[self.cursor_line as int],
                r == if spec_display_width(prefix.subrange(0, i as int)) <= usize::MAX {
                    spec_display_width(prefix.subrange(0, i as int))
                } else {
                    usize::MAX as int
                },
                prefix == self.lines_view()[self.cursor_line as int].subrange(0, self.cursor_col as int),
            decreases self.cursor_col - i,
        {
            let w = char_display_width(char_at(line, i));
            proof {
                assert(prefix.subrange(0, i + 1).drop_last() =~= prefix.subrange(0, i as int));
                assert(prefix.subrange(0, i + 1).last() == line@[i as int]);
                lemma_display_width_nonneg(prefix.subrange(0, i as int));
            }
            r = if r > usize::MAX - w {
                usize::MAX
            } else {
                r + w
            };
            i += 1;
        }
        proof {
            assert(prefix.subrange(0, self.cursor_col as int) =~= prefix);
        }
        r
    }
}

/// A terminal key, already decoupled from any terminal library's event
/// encoding.
#[derive(Clone, Copy, PartialEq, Eq, Structural, Debug)]
pub enum Key {
    Left,
    Right,
    Up,
    Down,
    Home,
    End,
    Insert,
    Delete,
    Backspace,
    Enter,
    Esc,
    Tab,
    BackTab,
    PageUp,
    PageDown,
    F(u8),
    Char(char),
}

/// The modifier keys held together with a key.
#[derive(Clone, Copy, PartialEq, Eq, Structural, Debug)]
pub struct Modifiers {
    pub control: bool,
    pub alt: bool,
}

impl Modifiers {
    /// No modifier held.
    pub fn none() -> (r: Modifiers)
        ensures
            !r.control,
            !r.alt,
    {
        Modifiers { control: false, alt: false }
    }
}

/// The editor event a key stroke stands for, if any.
pub open spec fn spec_convert_key(code: Key, m: Modifiers) -> Option<EditorEvent> {
    match code {
        Key::Left => Some(EditorEvent::GoLeft),
        Key::Right => Some(EditorEvent::GoRight),
        Key::Up => Some(EditorEvent::GoUp),
        Key::Down => Some(EditorEvent::GoDown),
        Key::Home => Some(EditorEvent::Home),
        Key::End => Some(EditorEvent::End),
        Key::Char(c) => if m.control && c == 'a' {
            Some(EditorEvent::Home)
        } else if m.control && c == 'e' {
            Some(EditorEvent::End)
        } else if m.control && c == 'x' {
            Some(EditorEvent::Clear)
        } else if m.control && c == 'w' {
            Some(EditorEvent::KillWordBack)
        } else if m.alt && (c == '\r' || c == '\n') {
            Some(EditorEvent::NewLine)
        } else if m.control && c == 'h' {
            Some(EditorEvent::Backspace)
        } else {
            Some(EditorEvent::NewCharacter(c))
        },
        Key::Insert => Some(EditorEvent::NewLine),
        Key::Backspace => Some(EditorEvent::Backspace),
        Key::Delete => Some(EditorEvent::Delete),
        _ => None,
    }
}

/// Translates a key stroke into the editor event it stands for, if any:
/// plain characters insert themselves, control characters map to the
/// classic line-editing bindings.
pub fn convert_keyevent_to_editorevent(code: Key, modifiers: Modifiers) -> (r: Option<EditorEvent>)
    ensures
        r == spec_convert_key(code, modifiers),
{
    match code {
        Key::Left => Some(EditorEvent::GoLeft),
        Key::Right => Some(EditorEvent::GoRight),
        Key::Up => Some(EditorEvent::GoUp),
        Key::Down => Some(EditorEvent::GoDown),
        Key::Home => Some(EditorEvent::Home),
        Key::End => Some(EditorEvent::End),
        Key::Char(c) => if modifiers.control && c == 'a' {
            Some(EditorEvent::Home)
        } else if modifiers.control && c == 'e' {
            Some(EditorEvent::End)
        } else if modifiers.control && c == 'x' {
            Some(EditorEvent::Clear)
        } else if modifiers.control && c == 'w' {
            Some(EditorEvent::KillWordBack)
        } else if modifiers.alt && (c == '\r' || c == '\n') {
            Some(EditorEvent::NewLine)
        } else if modifiers.control && c == 'h' {
            Some(EditorEvent::Backspace)
        } else {
            Some(EditorEvent::NewCharacter(c))
        },
        Key::Insert => Some(EditorEvent::NewLine),
        Key::Backspace => Some(EditorEvent::Backspace),
        Key::Delete => Some(EditorEvent::Delete),
        _ => None,
    }
}

/// Whether `c` ends a backward word-kill.
fn is_kill_delimiter_exec(c: char) -> (r: bool)
    ensures
        r == is_kill_delimiter(c),
{
    c == ' ' || c == '/' || c == '\\' || c == ':' || c == '_' || c == '-'
}


/// The buffer after typing a sequence of characters at the cursor.
pub open spec fn apply_inserts(st: (Seq<Seq<char>>, int, int), cs: Seq<char>) -> (
    Seq<Seq<char>>,
    int,
    int,
)
    decreases cs.len(),
{
    if cs.len() == 0 {
        st
    } else {
        let prev = apply_inserts(st, cs.drop_last());
        spec_apply_event(prev.0, prev.1, prev.2, EditorEvent::NewCharacter(cs.last()))
    }
}

/// The buffer after a number of backspaces.
pub open spec fn apply_backspaces(st: (Seq<Seq<char>>, int, int), n: nat) -> (
    Seq<Seq<char>>,
    int,
    int,
)
    decreases n,
{
    if n == 0 {
        st
    } else {
        let prev = apply_backspaces(st, (n - 1) as nat);
        spec_apply_event(prev.0, prev.1, prev.2, EditorEvent::Backspace)
    }
}

/// Typing one character and then one backspace restores the buffer and
/// the cursor exactly.
pub proof fn lemma_insert_then_backspace(st: (Seq<Seq<char>>, int, int), c: char)
    requires
        0 <= st.1 < st.0.len(),
        0 <= st.2 <= st.0[st.1].len(),
    ensures
        ({
            let mid = spec_apply_event(st.0, st.1, st.2, EditorEvent::NewCharacter(c));
            spec_apply_event(mid.0, mid.1, mid.2, EditorEvent::Backspace) == st
        }),
{
    let mid = spec_apply_event(st.0, st.1, st.2, EditorEvent::NewCharacter(c));
    let back = spec_apply_event(mid.0, mid.1, mid.2, EditorEvent::Backspace);
    assert(mid.0[st.1] == st.0[st.1].insert(st.2, c));
    assert(st.0[st.1].insert(st.2, c).remove(st.2) =~= st.0[st.1]);
    assert(back.0 =~= st.0.update(st.1, st.0[st.1]));
    assert(st.0.update(st.1, st.0[st.1]) =~= st.0);
}

/// Typing keeps the cursor inside the buffer.
pub proof fn lemma_inserts_keep_bounds(st: (Seq<Seq<char>>, int, int), cs: Seq<char>)
    requires
        0 <= st.1 < st.0.len(),
        0 <= st.2 <= st.0[st.1].len(),
    ensures
        ({
            let end = apply_inserts(st, cs);
            &&& 0 <= end.1 < end.0.len()
            &&& 0 <= end.2 <= end.0[end.1].len()
            &&& end.1 == st.1
        }),
    decreases cs.len(),
{
    if cs.len() > 0 {
        lemma_inserts_keep_bounds(st, cs.drop_last());
    }
}

/// Buffer round-trip: any sequence of typed characters followed by the
/// same number of backspaces restores both the content and the cursor to
/// what they were before the sequence.
pub proof fn lemma_insert_backspace_roundtrip(st: (Seq<Seq<char>>, int, int), cs: Seq<char>)
    requires
        0 <= st.1 < st.0.len(),
        0 <= st.2 <= st.0[st.1].len(),
    ensures
        apply_backspaces(apply_inserts(st, cs), cs.len()) == st,
    decreases cs.len(),
{
    if cs.len() > 0 {
        let shorter = cs.drop_last();
        let prev = apply_inserts(st, shorter);
        lemma_inserts_keep_bounds(st, shorter);
        lemma_insert_then_backspace(prev, cs.last());
        let end = apply_inserts(st, cs);
        assert(end == spec_apply_event(prev.0, prev.1, prev.2, EditorEvent::NewCharacter(cs.last())));
        assert(spec_apply_event(end.0, end.1, end.2, EditorEvent::Backspace) == prev);
        lemma_insert_backspace_roundtrip(st, shorter);
        lemma_backspaces_peel(prev, cs.len() as nat, end);
    }
}

/// Undoing the outermost backspace first: `n` backspaces after a state
/// whose first backspace yields `prev` equal `n - 1` backspaces from
/// `prev`.
proof fn lemma_backspaces_peel(prev: (Seq<Seq<char>>, int, int), n: nat, end: (Seq<Seq<char>>, int, int))
    requires
        n >= 1,
        spec_apply_event(end.0, end.1, end.2, EditorEvent::Backspace) == prev,
    ensures
        apply_backspaces(end, n) == apply_backspaces(prev, (n - 1) as nat),
    decreases n,
{
    if n == 1 {
        assert(apply_backspaces(end, 0) == end);
        assert(apply_backspaces(end, 1) == spec_apply_event(
            end.0,
            end.1,
            end.2,
            EditorEvent::Backspace,
        ));
        assert(apply_backspaces(prev, 0) == prev);
    } else {
        lemma_backspaces_peel(prev, (n - 1) as nat, end);
        assert(apply_backspaces(end, n) == ({
            let p = apply_backspaces(end, (n - 1) as nat);
            spec_apply_event(p.0, p.1, p.2, EditorEvent::Backspace)
        }));
        assert(apply_backspaces(prev, (n - 1) as nat) == ({
            let p = apply_backspaces(prev, (n - 2) as nat);
            spec_apply_event(p.0, p.1, p.2, EditorEvent::Backspace)
        }));
    }
}

} // verus!
