//! History and bookmark storage: immutable snapshots of buffer content
//! kept in an ordered list with duplicate suppression and optional
//! size-based eviction, together with the flat-file format the lists are
//! persisted in (entries separated by a `---` sentinel line).

use vstd::prelude::*;

use crate::strings::{char_at, char_len, clone_lines, join_lines, join_with, lines_eq, push_char};

verus! {

/// An immutable snapshot of buffer content.
pub struct CommandEntry {
    pub command: Vec<String>,
}

impl View for CommandEntry {
    type V = Seq<Seq<char>>;

    open spec fn view(&self) -> Seq<Seq<char>> {
        self.command.deep_view()
    }
}

impl DeepView for CommandEntry {
    type V = Seq<Seq<char>>;

    open spec fn deep_view(&self) -> Seq<Seq<char>> {
        self.view()
    }
}

impl CommandEntry {
    /// The snapshot as a sequence of lines of characters.
    pub open spec fn content_view(&self) -> Seq<Seq<char>> {
        self.command.deep_view()
    }

    /// A snapshot of the given lines.
    pub fn new(content: &Vec<String>) -> (r: CommandEntry)
        ensures
            r.content_view() == content.deep_view(),
    {
        CommandEntry { command: clone_lines(content) }
    }

    /// The lines of the snapshot.
    pub fn lines(&self) -> (r: Vec<String>)
        ensures
            r.deep_view() == self.content_view(),
    {
        clone_lines(&self.command)
    }

    /// The snapshot as one string, lines joined by line breaks.
    pub fn as_string(&self) -> (r: String)
        ensures
            r@ == join_lines(self.content_view(), seq!['\n']),
    {
        proof {
            reveal_strlit("\n");
            assert("\n"@ =~= seq!['\n']);
        }
        join_with(&self.command, "\n")
    }

    /// A copy of this snapshot.
    pub fn duplicate(&self) -> (r: CommandEntry)
        ensures
            r.content_view() == self.content_view(),
    {
        CommandEntry { command: clone_lines(&self.command) }
    }

    /// Whether the two snapshots hold the same content.
    pub fn same_content(&self, other: &CommandEntry) -> (r: bool)
        ensures
            r == (self.content_view() == other.content_view()),
    {
        lines_eq(&self.command, &other.command)
    }
}

/// Whether an entry counts as empty for storage purposes: joined by line
/// breaks it is the empty string (no lines, or a single empty line).
pub open spec fn entry_is_empty(c: Seq<Seq<char>>) -> bool {
    join_lines(c, seq!['\n']).len() == 0
}

/// What pushing a snapshot does to a list's entries: nothing for an empty
/// snapshot or one equal to the current last entry; otherwise the snapshot
/// is appended and, over the size bound, the oldest entry is evicted.
pub open spec fn spec_push(
    entries: Seq<Seq<Seq<char>>>,
    c: Seq<Seq<char>>,
    max_size: Option<usize>,
) -> Seq<Seq<Seq<char>>> {
    if entry_is_empty(c) || (entries.len() > 0 && entries.last() == c) {
        entries
    } else {
        let pushed = entries.push(c);
        match max_size {
            Some(m) => if pushed.len() > m {
                pushed.drop_first()
            } else {
                pushed
            },
            None => pushed,
        }
    }
}

/// An ordered list of command snapshots with duplicate suppression, an
/// optional maximum size, and an optional backing file (the file itself
/// is written by the surrounding application).
pub struct CommandList {
    pub entries: Vec<CommandEntry>,
    pub file: Option<String>,
    pub max_size: Option<usize>,
}

impl CommandList {
    /// The stored snapshots as pure content.
    pub open spec fn entries_view(&self) -> Seq<Seq<Seq<char>>> {
        self.entries.deep_view()
    }

    /// An empty list with the given backing file and size bound.
    pub fn new(file: Option<String>, max_size: Option<usize>) -> (r: CommandList)
        ensures
            r.entries_view() =~= Seq::<Seq<Seq<char>>>::empty(),
            r.file == file,
            r.max_size == max_size,
    {
        CommandList { entries: Vec::new(), max_size, file }
    }

    /// The number of stored snapshots.
    pub fn len(&self) -> (r: usize)
        ensures
            r == self.entries_view().len(),
    {
        self.entries.len()
    }

    /// The snapshot at `idx`, if it exists.
    pub fn get_at(&self, idx: usize) -> (r: Option<&CommandEntry>)
        ensures
            match r {
                Some(e) => idx < self.entries_view().len() && e.content_view()
                    == self.entries_view()[idx as int],
                None => idx >= self.entries_view().len(),
            },
    {
        if idx < self.entries.len() {
            Some(&self.entries[idx])
        } else {
            None
        }
    }

    /// Appends the snapshot unless it is empty or repeats the current last
    /// entry; over the size bound the oldest entry is evicted.
    pub fn push(&mut self, command: CommandEntry)
        ensures
            final(self).entries_view() == spec_push(
                old(self).entries_view(),
                command.content_view(),
                old(self).max_size,
            ),
            final(self).file == old(self).file,
            final(self).max_size == old(self).max_size,
    {
        let s = command.as_string();
        if s.as_str().unicode_len() == 0 {
            return;
        }
        if self.entries.len() > 0 && self.entries[self.entries.len() - 1].same_content(&command) {
            return;
        }
        let ghost before = self.entries_view();
        self.entries.push(command);
        proof {
            assert(self.entries_view() =~= before.push(command.content_view()));
        }
        if let Some(max_size) = self.max_size {
            if self.entries.len() > max_size {
                let ghost pushed = self.entries_view();
                self.entries.remove(0);
                proof {
                    assert(self.entries_view() =~= pushed.drop_first());
                }
            }
        }
    }

    /// Each stored snapshot as one string, lines joined by line breaks.
    pub fn as_strings(&self) -> (r: Vec<String>)
        ensures
            r.deep_view().len() == self.entries_view().len(),
            forall|i: int| 0 <= i < r.deep_view().len() ==> r.deep_view()[i] == join_lines(
                self.entries_view()[i],
                seq!['\n'],
            ),
    {
        let mut r: Vec<String> = Vec::new();
        let mut i: usize = 0;
        while i < self.entries.len()
            invariant
                i <= self.entries.len(),
                r.deep_view().len() == i,
                forall|j: int| 0 <= j < i ==> r.deep_view()[j] == join_lines(
                    self.entries_view()[j],
                    seq!['\n'],
                ),
            decreases self.entries.len() - i,
        {
            let s = self.entries[i].as_string();
            let ghost prev = r.deep_view();
            r.push(s);
            proof {
                assert(r.deep_view() =~= prev.push(s@));
            }
            i += 1;
        }
        r
    }

    /// Removes the snapshot at `idx`; an index past the end does
    /// nothing.
    pub fn remove_at(&mut self, idx: usize)
        ensures
            final(self).entries_view() == if idx < old(self).entries_view().len() {
                old(self).entries_view().remove(idx as int)
            } else {
                old(self).entries_view()
            },
            final(self).file == old(self).file,
            final(self).max_size == old(self).max_size,
    {
        proof {
            assert(self.entries@.len() == self.entries_view().len());
        }
        if idx < self.entries.len() {
            self.entries.remove(idx);
            proof {
                assert(self.entries_view() =~= old(self).entries_view().remove(idx as int));
            }
        }
    }

    /// Removes the first stored snapshot with the given content, if any.
    pub fn remove_entry(&mut self, entry: &CommandEntry)
        ensures
            final(self).entries_view() == match first_index_of(
                old(self).entries_view(),
                entry.content_view(),
            ) {
                Some(i) => old(self).entries_view().remove(i as int),
                None => old(self).entries_view(),
            },
            final(self).file == old(self).file,
            final(self).max_size == old(self).max_size,
    {
        let found = self.position_of(entry);
        if let Some(idx) = found {
            proof {
                lemma_first_index_of_bounds(
                    self.entries_view(),
                    entry.content_view(),
                    idx as int,
                    0,
                );
            }
            self.remove_at(idx);
        }
    }

    /// The index of the first stored snapshot with the given content.
    fn position_of(&self, entry: &CommandEntry) -> (r: Option<usize>)
        ensures
            match r {
                Some(i) => first_index_of(self.entries_view(), entry.content_view()) == Some(
                    i as int,
                ),
                None => first_index_of(self.entries_view(), entry.content_view()).is_none(),
            },
    {
        let mut i: usize = 0;
        while i < self.entries.len()
            invariant
                i <= self.entries.len(),
                forall|j: int| 0 <= j < i ==> self.entries_view()[j] != entry.content_view(),
                first_index_of(self.entries_view(), entry.content_view())
                    == first_index_of_from(self.entries_view(), entry.content_view(), i as int),
            decreases self.entries.len() - i,
        {
            if self.entries[i].same_content(entry) {
                return Some(i);
            }
            i += 1;
        }
        None
    }

    /// Whether some stored snapshot has the given content.
    pub fn contains_entry(&self, entry: &CommandEntry) -> (r: bool)
        ensures
            r == first_index_of(self.entries_view(), entry.content_view()).is_some(),
    {
        self.position_of(entry).is_some()
    }

    /// Adds the snapshot if no stored snapshot has its content, removes the
    /// first one with its content otherwise; snapshots without any line are
    /// left alone entirely.
    pub fn toggle_entry(&mut self, entry: CommandEntry)
        ensures
            final(self).entries_view() == spec_toggle(
                old(self).entries_view(),
                entry.content_view(),
                old(self).max_size,
            ),
            final(self).file == old(self).file,
            final(self).max_size == old(self).max_size,
    {
        if !self.entry_lines_empty(&entry) {
            if self.contains_entry(&entry) {
                self.remove_entry(&entry);
            } else {
                self.push(entry);
            }
        }
    }

    /// Whether the snapshot holds no line at all.
    fn entry_lines_empty(&self, entry: &CommandEntry) -> (r: bool)
        ensures
            r == (entry.content_view().len() == 0),
    {
        proof {
            assert(entry.command@.len() == entry.content_view().len());
        }
        entry.command.len() == 0
    }
}

/// The first index of `c` in `entries`, if any.
pub open spec fn first_index_of(entries: Seq<Seq<Seq<char>>>, c: Seq<Seq<char>>) -> Option<int> {
    first_index_of_from(entries, c, 0)
}

/// The first index of `c` in `entries` at or after `i`, if any.
pub open spec fn first_index_of_from(
    entries: Seq<Seq<Seq<char>>>,
    c: Seq<Seq<char>>,
    i: int,
) -> Option<int>
    decreases entries.len() - i,
{
    if i < 0 || i >= entries.len() {
        None
    } else if entries[i] == c {
        Some(i)
    } else {
        first_index_of_from(entries, c, i + 1)
    }
}

/// A line split piece with a trailing carriage return removed.
pub open spec fn strip_cr(piece: Seq<char>) -> Seq<char> {
    if piece.len() > 0 && piece.last() == '\r' {
        piece.drop_last()
    } else {
        piece
    }
}

/// Splitting the first `i` characters of `s` at line breaks: the closed
/// pieces (with trailing carriage returns removed) and the piece still
/// being collected.
pub open spec fn split_fold(s: Seq<char>, i: int) -> (Seq<Seq<char>>, Seq<char>)
    decreases i,
{
    if i <= 0 {
        (Seq::empty(), Seq::empty())
    } else {
        let st = split_fold(s, i - 1);
        if s[i - 1] == '\n' {
            (st.0.push(strip_cr(st.1)), Seq::empty())
        } else {
            (st.0, st.1.push(s[i - 1]))
        }
    }
}

/// The lines of `s`: pieces split at line breaks, a last piece without a
/// final line break included, a trailing empty piece not.
pub open spec fn spec_lines_of(s: Seq<char>) -> Seq<Seq<char>> {
    let st = split_fold(s, s.len() as int);
    if st.1.len() > 0 {
        st.0.push(st.1)
    } else {
        st.0
    }
}

/// One parsed line applied to the parser state (entries so far, lines of
/// the entry being collected): empty lines are skipped, a sentinel line
/// closes the collected entry, any other line extends it.
pub open spec fn deser_step(
    st: (Seq<Seq<Seq<char>>>, Seq<Seq<char>>),
    line: Seq<char>,
    max_size: Option<usize>,
) -> (Seq<Seq<Seq<char>>>, Seq<Seq<char>>) {
    if line.len() == 0 {
        st
    } else if line == seq!['-', '-', '-'] {
        (spec_push(st.0, st.1, max_size), Seq::empty())
    } else {
        (st.0, st.1.push(line))
    }
}

/// The parser state after the first `i` lines.
pub open spec fn deser_fold(
    lines: Seq<Seq<char>>,
    i: int,
    max_size: Option<usize>,
) -> (Seq<Seq<Seq<char>>>, Seq<Seq<char>>)
    decreases i,
{
    if i <= 0 {
        (Seq::empty(), Seq::empty())
    } else {
        deser_step(deser_fold(lines, i - 1, max_size), lines[i - 1], max_size)
    }
}

/// The entries stored in a serialized list: the parsed entries, a last
/// entry still open at the end of the text included, the whole trimmed
/// from the front to the size bound.
pub open spec fn spec_deserialize(s: Seq<char>, max_size: Option<usize>) -> Seq<Seq<Seq<char>>> {
    let lines = spec_lines_of(s);
    let st = deser_fold(lines, lines.len() as int, max_size);
    let entries = if st.1.len() > 0 {
        spec_push(st.0, st.1, max_size)
    } else {
        st.0
    };
    match max_size {
        Some(m) => if entries.len() > m {
            entries.subrange(entries.len() - m, entries.len() as int)
        } else {
            entries
        },
        None => entries,
    }
}

/// The serialized form of a list: each entry's lines joined by line
/// breaks, the entries joined by a sentinel line.
pub open spec fn spec_serialize(entries: Seq<Seq<Seq<char>>>) -> Seq<char> {
    join_lines(
        entries.map_values(|e: Seq<Seq<char>>| join_lines(e, seq!['\n'])),
        seq!['\n', '-', '-', '-', '\n'],
    )
}

/// `s` split into its lines, as `spec_lines_of` describes.
fn split_into_lines(s: &str) -> (r: Vec<String>)
    ensures
        r.deep_view() == spec_lines_of(s@),
{
    let n = s.unicode_len();
    let mut ps: Vec<String> = Vec::new();
    let mut cur = String::new();
    let mut i: usize = 0;
    while i < n
        invariant
            i <= n,
            n == s@.len(),
            ps.deep_view() == split_fold(s@, i as int).0,
            cur@ == split_fold(s@, i as int).1,
        decreases n - i,
    {
        let c = s.get_char(i);
        if c == '\n' {
            let cur_len = char_len(&cur);
            let stripped = if cur_len > 0 && char_at(&cur, cur_len - 1) == '\r' {
                crate::strings::substring(&cur, 0, cur_len - 1)
            } else {
                cur
            };
            proof {
                assert(stripped@ =~= strip_cr(split_fold(s@, i as int).1));
            }
            let ghost prev = ps.deep_view();
            ps.push(stripped);
            cur = String::new();
            proof {
                assert(ps.deep_view() =~= prev.push(strip_cr(split_fold(s@, i as int).1)));
            }
        } else {
            push_char(&mut cur, c);
        }
        i += 1;
    }
    if char_len(&cur) > 0 {
        let ghost prev = ps.deep_view();
        let ghost curv = cur@;
        ps.push(cur);
        proof {
            assert(ps.deep_view() =~= prev.push(curv));
        }
    }
    ps
}

/// Whether the line is the entry separator sentinel.
fn is_separator_line(line: &String) -> (r: bool)
    ensures
        r == (line@ == seq!['-', '-', '-']),
{
    let sep: String = "---".to_owned();
    proof {
        reveal_strlit("---");
        assert("---"@ =~= seq!['-', '-', '-']);
    }
    crate::strings::string_eq(line, &sep)
}

impl CommandList {
    /// The whole list in its flat-file form.
    pub fn serialize(&self) -> (r: String)
        ensures
            r@ == spec_serialize(self.entries_view()),
    {
        let strs = self.as_strings();
        proof {
            reveal_strlit("\n---\n");
            assert("\n---\n"@ =~= seq!['\n', '-', '-', '-', '\n']);
            assert(strs.deep_view() =~= self.entries_view().map_values(
                |e: Seq<Seq<char>>| join_lines(e, seq!['\n']),
            ));
        }
        join_with(&strs, "\n---\n")
    }

    /// Parses the flat-file form back into a list with the given backing
    /// file and size bound.
    pub fn deserialize(path: Option<String>, max_size: Option<usize>, lines: &str) -> (r:
        CommandList)
        ensures
            r.entries_view() == spec_deserialize(lines@, max_size),
            r.file == path,
            r.max_size == max_size,
    {
        let mut list = CommandList::new(path, max_size);
        let split = split_into_lines(lines);
        let ghost lv = spec_lines_of(lines@);
        let mut current: Vec<String> = Vec::new();
        let mut i: usize = 0;
        while i < split.len()
            invariant
                i <= split.len(),
                split.deep_view() == lv,
                list.entries_view() == deser_fold(lv, i as int, max_size).0,
                current.deep_view() == deser_fold(lv, i as int, max_size).1,
                list.file == path,
                list.max_size == max_size,
            decreases split.len() - i,
        {
            proof {
                assert(split.deep_view().len() == split@.len());
            }
            let line = &split[i];
            if char_len(line) == 0 {
                // blank lines carry no content and are skipped
            } else if is_separator_line(line) {
                list.push(CommandEntry::new(&current));
                current = Vec::new();
                proof {
                    assert(current.deep_view() =~= Seq::<Seq<char>>::empty());
                }
            } else {
                let ghost prev = current.deep_view();
                let copy = line.clone();
                current.push(copy);
                proof {
                    assert(current.deep_view() =~= prev.push(line@));
                }
            }
            i += 1;
        }
        proof {
            assert(split.deep_view().len() == split@.len());
        }
        if current.len() > 0 {
            proof {
                assert(current.deep_view().len() == current@.len());
            }
            list.push(CommandEntry::new(&current));
        } else {
            proof {
                assert(current.deep_view().len() == current@.len());
            }
        }
        if let Some(m) = self_max(&max_size) {
            let ghost base = list.entries_view();
            proof {
                assert(base.subrange(0, base.len() as int) =~= base);
            }
            while list.entries.len() > m
                invariant
                    list.entries_view().len() <= base.len(),
                    list.entries_view() == base.subrange(
                        base.len() - list.entries_view().len(),
                        base.len() as int,
                    ),
                    m <= list.entries_view().len() || list.entries_view().len() == base.len(),
                    list.file == path,
                    list.max_size == max_size,
                decreases list.entries.len(),
            {
                proof {
                    assert(list.entries@.len() == list.entries_view().len());
                }
                let ghost before = list.entries_view();
                list.entries.remove(0);
                proof {
                    assert(list.entries_view() =~= before.drop_first());
                    assert(list.entries_view() =~= base.subrange(
                        base.len() - list.entries_view().len(),
                        base.len() as int,
                    ));
                }
            }
            proof {
                assert(list.entries@.len() == list.entries_view().len());
            }
        }
        list
    }
}

/// The value of an optional size bound.
fn self_max(m: &Option<usize>) -> (r: Option<usize>)
    ensures
        r == *m,
{
    match m {
        Some(v) => Some(*v),
        None => None,
    }
}

/// A copy of a vector of snapshots (the contents of the copies are
/// equal element by element).
pub fn clone_entries(v: &Vec<CommandEntry>) -> (r: Vec<CommandEntry>)
    ensures
        r.deep_view() == v.deep_view(),
{
    let mut r: Vec<CommandEntry> = Vec::new();
    let mut i: usize = 0;
    while i < v.len()
        invariant
            i <= v.len(),
            r.deep_view().len() == i,
            forall|j: int| 0 <= j < i ==> r.deep_view()[j] == v.deep_view()[j],
        decreases v.len() - i,
    {
        let copy = v[i].duplicate();
        let ghost prev = r.deep_view();
        r.push(copy);
        proof {
            assert(r.deep_view() =~= prev.push(v.deep_view()[i as int]));
        }
        i += 1;
    }
    proof {
        assert(r.deep_view() =~= v.deep_view());
    }
    r
}

/// A found first index lies in bounds and holds the sought content.
pub proof fn lemma_first_index_of_bounds(
    entries: Seq<Seq<Seq<char>>>,
    c: Seq<Seq<char>>,
    i: int,
    from: int,
)
    requires
        first_index_of_from(entries, c, from) == Some(i),
    ensures
        from <= i < entries.len(),
        entries[i] == c,
    decreases entries.len() - from,
{
    if from < 0 || from >= entries.len() {
    } else if entries[from] == c {
    } else {
        lemma_first_index_of_bounds(entries, c, i, from + 1);
    }
}

/// What toggling a snapshot does to a list's entries.
pub open spec fn spec_toggle(
    entries: Seq<Seq<Seq<char>>>,
    c: Seq<Seq<char>>,
    max_size: Option<usize>,
) -> Seq<Seq<Seq<char>>> {
    if c.len() == 0 {
        entries
    } else {
        match first_index_of(entries, c) {
            Some(i) => entries.remove(i),
            None => spec_push(entries, c, max_size),
        }
    }
}


/// How many stored snapshots have the given content.
pub open spec fn count_matches(entries: Seq<Seq<Seq<char>>>, c: Seq<Seq<char>>) -> nat
    decreases entries.len(),
{
    if entries.len() == 0 {
        0
    } else {
        (if entries[0] == c {
            1nat
        } else {
            0nat
        }) + count_matches(entries.drop_first(), c)
    }
}

/// A content occurs somewhere exactly when its count is positive.
pub proof fn lemma_count_vs_first_index(entries: Seq<Seq<Seq<char>>>, c: Seq<Seq<char>>)
    ensures
        first_index_of(entries, c) is Some <==> count_matches(entries, c) > 0,
{
    lemma_count_vs_index_from(entries, c, 0);
    assert(entries.subrange(0, entries.len() as int) =~= entries);
}

/// A content occurs at or after `i` exactly when the tail from `i`
/// counts it at least once.
proof fn lemma_count_vs_index_from(entries: Seq<Seq<Seq<char>>>, c: Seq<Seq<char>>, i: int)
    requires
        0 <= i <= entries.len(),
    ensures
        first_index_of_from(entries, c, i) is Some <==> count_matches(
            entries.subrange(i, entries.len() as int),
            c,
        ) > 0,
    decreases entries.len() - i,
{
    if i < entries.len() {
        lemma_count_vs_index_from(entries, c, i + 1);
        let tail = entries.subrange(i, entries.len() as int);
        assert(tail.drop_first() =~= entries.subrange(i + 1, entries.len() as int));
        assert(tail[0] == entries[i]);
    } else {
        assert(entries.subrange(i, entries.len() as int) =~= Seq::<Seq<Seq<char>>>::empty());
    }
}

/// Appending one snapshot raises the count of its content by one.
pub(crate) proof fn lemma_count_push(entries: Seq<Seq<Seq<char>>>, x: Seq<Seq<char>>, c: Seq<Seq<char>>)
    ensures
        count_matches(entries.push(x), c) == count_matches(entries, c) + (if x == c {
            1nat
        } else {
            0nat
        }),
    decreases entries.len(),
{
    if entries.len() == 0 {
        assert(entries.push(x).drop_first() =~= Seq::<Seq<Seq<char>>>::empty());
        assert(count_matches(Seq::<Seq<Seq<char>>>::empty(), c) == 0);
        assert(entries.push(x)[0] == x);
    } else {
        lemma_count_push(entries.drop_first(), x, c);
        assert(entries.push(x).drop_first() =~= entries.drop_first().push(x));
        assert(entries.push(x)[0] == entries[0]);
    }
}

/// Dropping the first snapshot lowers the count by its own match.
pub(crate) proof fn lemma_count_drop_first(entries: Seq<Seq<Seq<char>>>, c: Seq<Seq<char>>)
    requires
        entries.len() > 0,
    ensures
        count_matches(entries, c) == count_matches(entries.drop_first(), c) + (if entries[0] == c {
            1nat
        } else {
            0nat
        }),
{
}

/// Removing a snapshot that holds `c` lowers the count of `c` by one.
pub(crate) proof fn lemma_count_remove_match(entries: Seq<Seq<Seq<char>>>, i: int, c: Seq<Seq<char>>)
    requires
        0 <= i < entries.len(),
        entries[i] == c,
    ensures
        count_matches(entries.remove(i), c) == count_matches(entries, c) - 1,
    decreases i,
{
    if i == 0 {
        assert(entries.remove(0) =~= entries.drop_first());
    } else {
        lemma_count_remove_match(entries.drop_first(), i - 1, c);
        assert(entries.remove(i).drop_first() =~= entries.drop_first().remove(i - 1));
        assert(entries.remove(i)[0] == entries[0]);
    }
}

/// A zero count means no position holds `c`.
pub(crate) proof fn lemma_count_zero_no_match(entries: Seq<Seq<Seq<char>>>, c: Seq<Seq<char>>, i: int)
    requires
        count_matches(entries, c) == 0,
        0 <= i < entries.len(),
    ensures
        entries[i] != c,
    decreases i,
{
    if i > 0 {
        lemma_count_zero_no_match(entries.drop_first(), c, i - 1);
    }
}

/// Duplicate suppression: pushing the same snapshot twice in a row is no
/// different from pushing it once — in particular the list length is
/// unchanged after the second push.
pub proof fn lemma_push_twice_is_once(
    entries: Seq<Seq<Seq<char>>>,
    c: Seq<Seq<char>>,
    max_size: Option<usize>,
)
    ensures
        spec_push(spec_push(entries, c, max_size), c, max_size) == spec_push(entries, c, max_size),
{
    let once = spec_push(entries, c, max_size);
    if entry_is_empty(c) {
    } else if entries.len() > 0 && entries.last() == c {
    } else {
        let pushed = entries.push(c);
        assert(pushed.last() == c);
        match max_size {
            Some(m) => {
                if pushed.len() > m {
                    assert(once == pushed.drop_first());
                    if once.len() > 0 {
                        assert(once.last() == pushed.last());
                    }
                }
            }
            None => {}
        }
    }
}

/// Whether some stored snapshot has the given content.
pub open spec fn spec_member(entries: Seq<Seq<Seq<char>>>, c: Seq<Seq<char>>) -> bool {
    first_index_of(entries, c) is Some
}

/// Bookmark idempotence: toggling a snapshot with no lines never changes
/// the list, and toggling any other snapshot twice restores whether the
/// list holds it — provided the snapshot occurs at most once, its lines
/// do not all join to nothing, and the size bound (if any) admits at
/// least one entry.
pub proof fn lemma_toggle_twice_restores_membership(
    entries: Seq<Seq<Seq<char>>>,
    c: Seq<Seq<char>>,
    max_size: Option<usize>,
)
    requires
        count_matches(entries, c) <= 1,
        c.len() == 0 || !entry_is_empty(c),
        match max_size {
            Some(m) => m >= 1,
            None => true,
        },
    ensures
        c.len() == 0 ==> spec_toggle(entries, c, max_size) == entries,
        spec_member(
            spec_toggle(spec_toggle(entries, c, max_size), c, max_size),
            c,
        ) == spec_member(entries, c),
{
    if c.len() == 0 {
        return;
    }
    lemma_count_vs_first_index(entries, c);
    let once = spec_toggle(entries, c, max_size);
    match first_index_of(entries, c) {
        Some(i) => {
            // first toggle removes the single occurrence
            lemma_first_index_of_bounds(entries, c, i, 0);
            lemma_count_remove_match(entries, i, c);
            assert(count_matches(once, c) == 0);
            lemma_count_vs_first_index(once, c);
            if once.len() > 0 {
                lemma_count_zero_no_match(once, c, once.len() - 1);
            }
            // second toggle appends it again
            let pushed = once.push(c);
            lemma_count_push(once, c, c);
            let back = spec_toggle(once, c, max_size);
            match max_size {
                Some(m) => {
                    if pushed.len() > m {
                        assert(back == pushed.drop_first());
                        lemma_count_drop_first(pushed, c);
                        if pushed[0] == c {
                            if once.len() > 0 {
                                lemma_count_zero_no_match(once, c, 0);
                                assert(pushed[0] == once[0]);
                                assert(false);
                            } else {
                                assert(pushed.len() == 1);
                                assert(false);
                            }
                        }
                        assert(count_matches(back, c) == 1);
                    } else {
                        assert(back == pushed);
                    }
                }
                None => {
                    assert(back == pushed);
                }
            }
            lemma_count_vs_first_index(back, c);
        }
        None => {
            // the snapshot is absent: the first toggle appends it
            assert(count_matches(entries, c) == 0);
            if entries.len() > 0 {
                lemma_count_zero_no_match(entries, c, entries.len() - 1);
            }
            let pushed = entries.push(c);
            lemma_count_push(entries, c, c);
            match max_size {
                Some(m) => {
                    if pushed.len() > m {
                        assert(once == pushed.drop_first());
                        lemma_count_drop_first(pushed, c);
                        if pushed[0] == c {
                            if entries.len() > 0 {
                                lemma_count_zero_no_match(entries, c, 0);
                                assert(pushed[0] == entries[0]);
                                assert(false);
                            } else {
                                assert(pushed.len() == 1);
                                assert(false);
                            }
                        }
                        assert(count_matches(once, c) == 1);
                    } else {
                        assert(once == pushed);
                    }
                }
                None => {
                    assert(once == pushed);
                }
            }
            assert(count_matches(once, c) == 1);
            lemma_count_vs_first_index(once, c);
            // and the second toggle removes it
            match first_index_of(once, c) {
                Some(j) => {
                    lemma_first_index_of_bounds(once, c, j, 0);
                    lemma_count_remove_match(once, j, c);
                    let back = spec_toggle(once, c, max_size);
                    assert(back == once.remove(j));
                    lemma_count_vs_first_index(back, c);
                }
                None => {
                    assert(false);
                }
            }
        }
    }
}


/// Whether no stored snapshot counts as empty — the storage invariant
/// that every library path maintains: pushes drop empty snapshots, and
/// removals and evictions only take entries away.
pub open spec fn no_empty_entries(entries: Seq<Seq<Seq<char>>>) -> bool {
    forall|i: int| 0 <= i < entries.len() ==> !entry_is_empty(#[trigger] entries[i])
}

/// A push keeps the storage invariant: it never adds an empty snapshot.
pub proof fn lemma_push_preserves_no_empty(
    entries: Seq<Seq<Seq<char>>>,
    c: Seq<Seq<char>>,
    max_size: Option<usize>,
)
    requires
        no_empty_entries(entries),
    ensures
        no_empty_entries(spec_push(entries, c, max_size)),
{
    let pushed = spec_push(entries, c, max_size);
    if entry_is_empty(c) || (entries.len() > 0 && entries.last() == c) {
    } else {
        assert forall|i: int| 0 <= i < pushed.len() implies !entry_is_empty(
            #[trigger] pushed[i],
        ) by {
            match max_size {
                Some(m) => {
                    if entries.push(c).len() > m {
                        assert(pushed[i] == entries.push(c)[i + 1]);
                    } else {
                        assert(pushed[i] == entries.push(c)[i]);
                    }
                }
                None => {
                    assert(pushed[i] == entries.push(c)[i]);
                }
            }
        }
    }
}

/// On a list that keeps the storage invariant, toggling a snapshot with
/// empty content never changes the list: an empty snapshot is neither
/// stored nor ever found for removal.
pub proof fn lemma_toggle_empty_no_mutation(
    entries: Seq<Seq<Seq<char>>>,
    c: Seq<Seq<char>>,
    max_size: Option<usize>,
)
    requires
        entry_is_empty(c),
        no_empty_entries(entries),
    ensures
        spec_toggle(entries, c, max_size) == entries,
{
    if c.len() == 0 {
    } else {
        lemma_count_vs_first_index(entries, c);
        if count_matches(entries, c) > 0 {
            match first_index_of(entries, c) {
                Some(i) => {
                    lemma_first_index_of_bounds(entries, c, i, 0);
                    assert(!entry_is_empty(entries[i]));
                    assert(false);
                }
                None => {
                    assert(false);
                }
            }
        }
    }
}

} // verus!
