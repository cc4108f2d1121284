//! The history/bookmark list view: a working copy of the entries, a
//! selection, and a per-session undo stack of deleted entries. The
//! edited list replaces the backing list only when the view is left.

use vstd::prelude::*;

use crate::commandlist::CommandEntry;
use crate::lineeditor::Key;

verus! {

/// How far page-up and page-down move the selection.
pub const LIST_PAGE_STRIDE: usize = 5;

/// The state of an open list view.
pub struct CommandListState {
    pub list: Vec<CommandEntry>,
    pub selected_idx: Option<usize>,
    pub recently_deleted: Vec<CommandEntry>,
}

/// What one key does to a list view, over the pure contents
/// `(entries, deleted stack, selection)`:
/// up/down move the selection by one, page keys by the page stride, all
/// clamped to the bounds; delete removes the selected entry onto the
/// stack, keeping the selection in bounds; the undo key pops the stack
/// back onto the end of the list and selects it. With no selection (an
/// empty list) nothing happens.
pub open spec fn spec_list_apply(
    list: Seq<Seq<Seq<char>>>,
    deleted: Seq<Seq<Seq<char>>>,
    sel: Option<int>,
    code: Key,
) -> (Seq<Seq<Seq<char>>>, Seq<Seq<Seq<char>>>, Option<int>) {
    match sel {
        None => (list, deleted, sel),
        Some(idx) => match code {
            Key::PageUp => (
                list,
                deleted,
                Some(if idx >= LIST_PAGE_STRIDE { idx - LIST_PAGE_STRIDE } else { 0 }),
            ),
            Key::Char(c) => if c == 'g' {
                (list, deleted, Some(if idx >= LIST_PAGE_STRIDE { idx - LIST_PAGE_STRIDE } else { 0 }))
            } else if c == 'G' && list.len() > 0 {
                (
                    list,
                    deleted,
                    Some(
                        if idx + LIST_PAGE_STRIDE < list.len() {
                            idx + LIST_PAGE_STRIDE
                        } else {
                            list.len() - 1
                        },
                    ),
                )
            } else if c == 'k' && idx > 0 {
                (list, deleted, Some(idx - 1))
            } else if c == 'j' && idx < list.len() - 1 {
                (list, deleted, Some(idx + 1))
            } else if c == 'u' {
                if deleted.len() > 0 {
                    (list.push(deleted.last()), deleted.drop_last(), Some(list.len() as int))
                } else {
                    (list, deleted, Some(list.len() - 1))
                }
            } else {
                (list, deleted, sel)
            },
            Key::PageDown => if list.len() > 0 {
                (
                    list,
                    deleted,
                    Some(
                        if idx + LIST_PAGE_STRIDE < list.len() {
                            idx + LIST_PAGE_STRIDE
                        } else {
                            list.len() - 1
                        },
                    ),
                )
            } else {
                (list, deleted, sel)
            },
            Key::Up => if idx > 0 {
                (list, deleted, Some(idx - 1))
            } else {
                (list, deleted, sel)
            },
            Key::Down => if idx < list.len() - 1 {
                (list, deleted, Some(idx + 1))
            } else {
                (list, deleted, sel)
            },
            Key::Delete | Key::Backspace => {
                let shorter = list.remove(idx);
                let pushed = deleted.push(list[idx]);
                if shorter.len() == 0 {
                    (shorter, pushed, None)
                } else if idx >= shorter.len() {
                    (shorter, pushed, Some(idx - 1))
                } else {
                    (shorter, pushed, Some(idx))
                }
            },
            _ => (list, deleted, sel),
        },
    }
}

/// The selection a list view falls back to: the newest entry, none on
/// an empty list.
pub open spec fn spec_default_selection(len: int) -> Option<usize> {
    if len == 0 {
        None
    } else {
        Some((len - 1) as usize)
    }
}

impl CommandListState {
    /// The entries of the working list as pure content.
    pub open spec fn list_view(&self) -> Seq<Seq<Seq<char>>> {
        self.list.deep_view()
    }

    /// The undo stack as pure content.
    pub open spec fn deleted_view(&self) -> Seq<Seq<Seq<char>>> {
        self.recently_deleted.deep_view()
    }

    /// The view invariant: a selection exists exactly on a non-empty
    /// list, and points into it.
    pub open spec fn wf(&self) -> bool {
        match self.selected_idx {
            Some(i) => i < self.list_view().len(),
            None => true,
        }
    }

    /// A fresh view of the given entries: an in-range given selection is
    /// kept; otherwise (none given, or one out of range) the last entry
    /// is selected, none on an empty list.
    pub fn new(list: Vec<CommandEntry>, selected_idx: Option<usize>) -> (r: CommandListState)
        ensures
            r.wf(),
            r.list_view() == list.deep_view(),
            r.deleted_view() =~= Seq::<Seq<Seq<char>>>::empty(),
            r.selected_idx == match selected_idx {
                Some(i) => if i < list.deep_view().len() {
                    Some(i)
                } else {
                    spec_default_selection(list.deep_view().len() as int)
                },
                None => spec_default_selection(list.deep_view().len() as int),
            },
    {
        proof {
            assert(list@.len() == list.deep_view().len());
        }
        let default_idx: Option<usize> = if list.len() == 0 {
            None
        } else {
            Some(list.len() - 1)
        };
        let selected_idx = match selected_idx {
            Some(i) => if i < list.len() {
                Some(i)
            } else {
                default_idx
            },
            None => default_idx,
        };
        CommandListState { selected_idx, list, recently_deleted: Vec::new() }
    }

    /// The selected entry, if there is a selection.
    pub fn selected_entry(&self) -> (r: Option<&CommandEntry>)
        requires
            self.wf(),
        ensures
            match r {
                Some(e) => self.selected_idx is Some && e.content_view() == self.list_view()[
                    self.selected_idx.unwrap() as int
                ],
                None => self.selected_idx is None,
            },
    {
        match self.selected_idx {
            Some(idx) => {
                proof {
                    assert(self.list@.len() == self.list_view().len());
                }
                Some(&self.list[idx])
            }
            None => None,
        }
    }

    /// Applies one key to the view; contents, undo stack and selection
    /// follow `spec_list_apply` exactly.
    pub fn apply_event(&mut self, code: Key)
        requires
            old(self).wf(),
        ensures
            final(self).wf(),
            (final(self).list_view(), final(self).deleted_view(), match final(self).selected_idx {
                Some(i) => Some(i as int),
                None => None,
            }) == spec_list_apply(
                old(self).list_view(),
                old(self).deleted_view(),
                match old(self).selected_idx {
                    Some(i) => Some(i as int),
                    None => None,
                },
                code,
            ),
    {
        proof {
            assert(self.list@.len() == self.list_view().len());
            assert(self.recently_deleted@.len() == self.deleted_view().len());
        }
        let selected_idx = match self.selected_idx {
            Some(i) => i,
            None => {
                return;
            }
        };
        let page_down = match code {
            Key::PageDown => true,
            Key::Char(c) => c == 'G',
            _ => false,
        };
        let page_up = match code {
            Key::PageUp => true,
            Key::Char(c) => c == 'g',
            _ => false,
        };
        if page_up {
            self.selected_idx = if selected_idx >= LIST_PAGE_STRIDE {
                Some(selected_idx - LIST_PAGE_STRIDE)
            } else {
                Some(0)
            };
            return;
        }
        if page_down {
            let len = self.list.len();
            if len > 0 {
                self.selected_idx = if len - selected_idx > LIST_PAGE_STRIDE {
                    Some(selected_idx + LIST_PAGE_STRIDE)
                } else {
                    Some(len - 1)
                };
            }
            return;
        }
        match code {
            Key::Up => {
                if selected_idx > 0 {
                    self.selected_idx = Some(selected_idx - 1);
                }
            }
            Key::Char(c) => {
                if c == 'k' {
                    if selected_idx > 0 {
                        self.selected_idx = Some(selected_idx - 1);
                    }
                } else if c == 'j' {
                    if selected_idx < self.list.len() - 1 {
                        self.selected_idx = Some(selected_idx + 1);
                    }
                } else if c == 'u' {
                    let ghost lv = self.list_view();
                    let ghost dv = self.deleted_view();
                    match self.recently_deleted.pop() {
                        Some(entry) => {
                            proof {
                                assert(self.deleted_view() =~= dv.drop_last());
                                assert(entry.content_view() == dv.last());
                            }
                            self.list.push(entry);
                            proof {
                                assert(self.list_view() =~= lv.push(dv.last()));
                            }
                        }
                        None => {
                            proof {
                                assert(self.deleted_view() =~= dv);
                            }
                        }
                    }
                    self.selected_idx = Some(self.list.len() - 1);
                }
            }
            Key::Down => {
                if selected_idx < self.list.len() - 1 {
                    self.selected_idx = Some(selected_idx + 1);
                }
            }
            Key::Delete | Key::Backspace => {
                let ghost lv = self.list_view();
                let ghost dv = self.deleted_view();
                let deleted_entry = self.list.remove(selected_idx);
                proof {
                    assert(self.list_view() =~= lv.remove(selected_idx as int));
                    assert(deleted_entry.content_view() == lv[selected_idx as int]);
                }
                self.recently_deleted.push(deleted_entry);
                proof {
                    assert(self.deleted_view() =~= dv.push(lv[selected_idx as int]));
                }
                if self.list.len() == 0 {
                    self.selected_idx = None;
                } else if selected_idx >= self.list.len() {
                    self.selected_idx = Some(selected_idx - 1);
                }
            }
            _ => {}
        }
    }
}

} // verus!
