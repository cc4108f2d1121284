//! A plain bookmark list: ordered snapshots of buffer content, toggled
//! on and off as a whole. Persistence of the list is left to the
//! surrounding application.

use vstd::prelude::*;

use crate::strings::{clone_lines, join_lines, lines_eq};

verus! {

/// One bookmarked command: a snapshot of buffer lines.
pub struct Bookmark {
    pub content: Vec<String>,
}

impl View for Bookmark {
    type V = Seq<Seq<char>>;

    open spec fn view(&self) -> Seq<Seq<char>> {
        self.content.deep_view()
    }
}

impl DeepView for Bookmark {
    type V = Seq<Seq<char>>;

    open spec fn deep_view(&self) -> Seq<Seq<char>> {
        self.view()
    }
}

impl Bookmark {
    /// A bookmark of the given lines.
    pub fn new(content: &Vec<String>) -> (r: Bookmark)
        ensures
            r@ == content.deep_view(),
    {
        Bookmark { content: clone_lines(content) }
    }

    /// The lines of the bookmark.
    pub fn to_lines(&self) -> (r: Vec<String>)
        ensures
            r.deep_view() == self@,
    {
        clone_lines(&self.content)
    }

    /// The first line of the bookmark.
    pub fn first_line(&self) -> (r: &String)
        requires
            self@.len() > 0,
        ensures
            r@ == self@[0],
    {
        &self.content[0]
    }

    /// Whether the two bookmarks hold the same content.
    pub fn same_content(&self, other: &Bookmark) -> (r: bool)
        ensures
            r == (self@ == other@),
    {
        lines_eq(&self.content, &other.content)
    }
}

/// The ordered list of bookmarks.
pub struct BookmarkList(pub Vec<Bookmark>);

impl BookmarkList {
    /// The bookmarks as pure content.
    pub open spec fn entries_view(&self) -> Seq<Seq<Seq<char>>> {
        self.0.deep_view()
    }

    /// An empty list.
    pub fn new() -> (r: BookmarkList)
        ensures
            r.entries_view() =~= Seq::<Seq<Seq<char>>>::empty(),
    {
        BookmarkList(Vec::new())
    }

    /// Appends the bookmark.
    pub fn add_bookmark(&mut self, bookmark: Bookmark)
        ensures
            final(self).entries_view() == old(self).entries_view().push(bookmark@),
    {
        let ghost before = self.entries_view();
        self.0.push(bookmark);
        proof {
            assert(self.entries_view() =~= before.push(self.0@.last()@));
        }
    }

    /// Each bookmark as one string, lines joined by line breaks.
    pub fn as_strings(&self) -> (r: Vec<String>)
        ensures
            r.deep_view().len() == self.entries_view().len(),
            forall|i: int| 0 <= i < r.deep_view().len() ==> r.deep_view()[i] == join_lines(
                self.entries_view()[i],
                seq!['\n'],
            ),
    {
        proof {
            reveal_strlit("\n");
            assert("\n"@ =~= seq!['\n']);
        }
        let mut r: Vec<String> = Vec::new();
        let mut i: usize = 0;
        while i < self.0.len()
            invariant
                i <= self.0.len(),
                r.deep_view().len() == i,
                forall|j: int| 0 <= j < i ==> r.deep_view()[j] == join_lines(
                    self.entries_view()[j],
                    seq!['\n'],
                ),
            decreases self.0.len() - i,
        {
            let s = crate::strings::join_with(&self.0[i].content, "\n");
            let ghost prev = r.deep_view();
            proof {
                reveal_strlit("\n");
                assert("\n"@ =~= seq!['\n']);
                assert(self.entries_view()[i as int] == self.0[i as int].content.deep_view());
                assert(s@ == join_lines(self.entries_view()[i as int], seq!['\n']));
            }
            r.push(s);
            proof {
                assert(r.deep_view() =~= prev.push(join_lines(self.entries_view()[i as int], seq!['\n'])));
            }
            i += 1;
        }
        r
    }

    /// The bookmark at `idx`, if it exists.
    pub fn bookmark_at(&self, idx: usize) -> (r: Option<&Bookmark>)
        ensures
            match r {
                Some(b) => idx < self.entries_view().len() && b@ == self.entries_view()[idx as int],
                None => idx >= self.entries_view().len(),
            },
    {
        if idx < self.0.len() {
            Some(&self.0[idx])
        } else {
            None
        }
    }

    /// The number of bookmarks.
    pub fn len(&self) -> (r: usize)
        ensures
            r == self.entries_view().len(),
    {
        self.0.len()
    }

    /// Removes the first bookmark with the given content, if any.
    pub fn remove_bookmark(&mut self, bookmark: &Bookmark)
        ensures
            final(self).entries_view() == match crate::commandlist::first_index_of(
                old(self).entries_view(),
                bookmark@,
            ) {
                Some(i) => old(self).entries_view().remove(i),
                None => old(self).entries_view(),
            },
    {
        let mut i: usize = 0;
        while i < self.0.len()
            invariant
                i <= self.0.len(),
                self.0@ == old(self).0@,
                forall|j: int| 0 <= j < i ==> self.entries_view()[j] != bookmark@,
                crate::commandlist::first_index_of(self.entries_view(), bookmark@)
                    == crate::commandlist::first_index_of_from(self.entries_view(), bookmark@, i as int),
            decreases self.0.len() - i,
        {
            if self.0[i].same_content(bookmark) {
                proof {
                    assert(self.entries_view().len() == self.0@.len());
                    assert(self.entries_view()[i as int] == self.0[i as int]@);
                    assert(crate::commandlist::first_index_of_from(
                        self.entries_view(),
                        bookmark@,
                        i as int,
                    ) == Some(i as int));
                }
                let ghost before = self.entries_view();
                self.0.remove(i);
                proof {
                    assert(self.entries_view() =~= before.remove(i as int));
                }
                return;
            }
            proof {
                assert(self.entries_view().len() == self.0@.len());
                assert(self.entries_view()[i as int] == self.0[i as int]@);
            }
            i += 1;
        }
        proof {
            assert(self.entries_view().len() == self.0@.len());
        }
    }

    /// Adds the bookmark if no bookmark has its content, removes the first
    /// one with its content otherwise; bookmarks without any line are left
    /// alone entirely.
    pub fn toggle_bookmark(&mut self, bookmark: Bookmark)
        ensures
            final(self).entries_view() == spec_toggle_bookmark(
                old(self).entries_view(),
                bookmark@,
            ),
    {
        proof {
            assert(bookmark.content@.len() == bookmark@.len());
        }
        if bookmark.content.len() != 0 {
            if self.contains_bookmark(&bookmark) {
                self.remove_bookmark(&bookmark);
            } else {
                self.add_bookmark(bookmark);
            }
        }
    }

    /// Whether some bookmark has the given content.
    fn contains_bookmark(&self, bookmark: &Bookmark) -> (r: bool)
        ensures
            r == crate::commandlist::first_index_of(self.entries_view(), bookmark@).is_some(),
    {
        let mut i: usize = 0;
        while i < self.0.len()
            invariant
                i <= self.0.len(),
                crate::commandlist::first_index_of(self.entries_view(), bookmark@)
                    == crate::commandlist::first_index_of_from(self.entries_view(), bookmark@, i as int),
            decreases self.0.len() - i,
        {
            if self.0[i].same_content(bookmark) {
                proof {
                    assert(self.entries_view().len() == self.0@.len());
                    assert(self.entries_view()[i as int] == self.0[i as int]@);
                }
                return true;
            }
            proof {
                assert(self.entries_view()[i as int] == self.0[i as int]@);
            }
            i += 1;
        }
        false
    }
}

/// What toggling a bookmark does to the list.
pub open spec fn spec_toggle_bookmark(
    entries: Seq<Seq<Seq<char>>>,
    c: Seq<Seq<char>>,
) -> Seq<Seq<Seq<char>>> {
    if c.len() == 0 {
        entries
    } else {
        match crate::commandlist::first_index_of(entries, c) {
            Some(i) => entries.remove(i),
            None => entries.push(c),
        }
    }
}


/// Bookmark idempotence for the plain list: toggling a bookmark with no
/// lines never changes the list, and toggling any bookmark twice
/// restores whether the list holds it, provided it occurs at most once
/// (on a list holding it twice only one occurrence leaves per toggle).
pub proof fn lemma_toggle_bookmark_twice_restores_membership(
    entries: Seq<Seq<Seq<char>>>,
    c: Seq<Seq<char>>,
)
    requires
        crate::commandlist::count_matches(entries, c) <= 1,
    ensures
        c.len() == 0 ==> spec_toggle_bookmark(entries, c) == entries,
        crate::commandlist::spec_member(
            spec_toggle_bookmark(spec_toggle_bookmark(entries, c), c),
            c,
        ) == crate::commandlist::spec_member(entries, c),
{
    if c.len() == 0 {
        return;
    }
    crate::commandlist::lemma_count_vs_first_index(entries, c);
    let once = spec_toggle_bookmark(entries, c);
    match crate::commandlist::first_index_of(entries, c) {
        Some(i) => {
            // the first toggle removes the single occurrence, the second
            // appends it again
            crate::commandlist::lemma_first_index_of_bounds(entries, c, i, 0);
            crate::commandlist::lemma_count_remove_match(entries, i, c);
            crate::commandlist::lemma_count_vs_first_index(once, c);
            let back = spec_toggle_bookmark(once, c);
            assert(back == once.push(c));
            crate::commandlist::lemma_count_push(once, c, c);
            crate::commandlist::lemma_count_vs_first_index(back, c);
        }
        None => {
            // the first toggle appends the bookmark, the second removes it
            assert(crate::commandlist::count_matches(entries, c) == 0);
            assert(once == entries.push(c));
            crate::commandlist::lemma_count_push(entries, c, c);
            crate::commandlist::lemma_count_vs_first_index(once, c);
            match crate::commandlist::first_index_of(once, c) {
                Some(j) => {
                    crate::commandlist::lemma_first_index_of_bounds(once, c, j, 0);
                    crate::commandlist::lemma_count_remove_match(once, j, c);
                    let back = spec_toggle_bookmark(once, c);
                    assert(back == once.remove(j));
                    crate::commandlist::lemma_count_vs_first_index(back, c);
                }
                None => {
                    assert(false);
                }
            }
        }
    }
}

} // verus!
