//! Word and offset helpers on strings and line vectors: the word under a
//! cursor position, the character at a position, and splitting a block of
//! lines at a (line, column) offset.

use vstd::prelude::*;

use crate::strings::{char_at, char_len, clone_lines, substring, trim_whitespace, trim_ws};

verus! {

/// The position a word lookup starts from: one step left of `idx` when
/// `idx` sits on a space or past the end (so that the word just left of a
/// space is found), `idx` itself otherwise.
pub open spec fn word_adjusted(s: Seq<char>, idx: int) -> int {
    if (idx >= s.len() || s[idx] == ' ') && idx > 0 {
        idx - 1
    } else {
        idx
    }
}

/// The left end of the word around `p`: scans left until a space or the
/// line start.
pub open spec fn word_left(s: Seq<char>, p: int) -> int
    decreases p,
{
    if p <= 0 {
        0
    } else if p < s.len() && s[p] == ' ' {
        p
    } else {
        word_left(s, p - 1)
    }
}

/// The right end of the word around `p`: scans right until a space or the
/// line end.
pub open spec fn word_right(s: Seq<char>, p: int) -> int
    decreases s.len() - p,
{
    if p >= s.len() {
        p
    } else if s[p] == ' ' {
        p
    } else {
        word_right(s, p + 1)
    }
}

/// The word under position `idx` of `s`: the maximal space-delimited run
/// around the adjusted position, trimmed; `None` when nothing but
/// whitespace is found there or the position lies past the text.
pub open spec fn spec_word_at(s: Seq<char>, idx: int) -> Option<Seq<char>> {
    let a = word_adjusted(s, idx);
    let l = word_left(s, a);
    let r = word_right(s, a);
    if r > s.len() {
        None
    } else {
        let w = trim_ws(s.subrange(l, r));
        if w.len() == 0 {
            None
        } else {
            Some(w)
        }
    }
}

/// String lookups around a cursor position.
pub trait StringExt where Self: View<V = Seq<char>> {
    /// The word under position `idx`, if any.
    fn word_at_idx(&self, idx: usize) -> (r: Option<String>)
        ensures
            match r {
                Some(w) => spec_word_at(self@, idx as int) == Some(w@),
                None => spec_word_at(self@, idx as int) is None,
            },
    ;

    /// The character at position `idx` as a one-character string, or
    /// `None` past the end.
    fn get_full_char_at(&self, idx: usize) -> (r: Option<String>)
        ensures
            match r {
                Some(c) => idx < self@.len() && c@ == seq![self@[idx as int]],
                None => idx >= self@.len(),
            },
    ;
}

impl StringExt for str {
    fn word_at_idx(&self, idx: usize) -> (r: Option<String>) {
        let n = self.unicode_len();
        let adjusted: usize = if (idx >= n || self.get_char(idx) == ' ') && idx > 0 {
            idx - 1
        } else {
            idx
        };
        proof {
            assert(adjusted as int == word_adjusted(self@, idx as int));
        }
        if adjusted > n {
            proof {
                assert(word_right(self@, adjusted as int) == adjusted as int);
            }
            return None;
        }
        let mut l: usize = adjusted;
        while l > 0 && !(l < n && self.get_char(l) == ' ')
            invariant
                l <= adjusted <= n,
                n == self@.len(),
                word_left(self@, adjusted as int) == word_left(self@, l as int),
            decreases l,
        {
            l -= 1;
        }
        proof {
            assert(word_left(self@, l as int) == l as int);
        }
        let mut rr: usize = adjusted;
        while rr < n && self.get_char(rr) != ' '
            invariant
                adjusted <= rr <= n,
                n == self@.len(),
                word_right(self@, adjusted as int) == word_right(self@, rr as int),
            decreases n - rr,
        {
            rr += 1;
        }
        proof {
            assert(word_right(self@, rr as int) == rr as int);
        }
        let slice = self.substring_char(l, rr).to_owned();
        let w = trim_whitespace(&slice);
        if char_len(&w) == 0 {
            None
        } else {
            Some(w)
        }
    }

    fn get_full_char_at(&self, idx: usize) -> (r: Option<String>) {
        let n = self.unicode_len();
        if idx < n {
            let s = self.substring_char(idx, idx + 1).to_owned();
            proof {
                assert(s@ =~= seq![self@[idx as int]]);
            }
            Some(s)
        } else {
            None
        }
    }
}

/// A block of lines split at a (line, column) offset: everything up to
/// and including the offset on the left, the rest on the right. At the
/// very start everything is on the right, at or past the very end
/// everything is on the left.
pub open spec fn spec_split_at_offset(
    lines: Seq<Seq<char>>,
    lo: int,
    co: int,
) -> (Seq<Seq<char>>, Seq<Seq<char>>) {
    if lines.len() == 0 {
        (Seq::empty(), Seq::empty())
    } else if lo == 0 && co == 0 {
        (Seq::empty(), lines)
    } else if lo >= lines.len() - 1 && co >= lines.last().len() {
        (lines, Seq::empty())
    } else {
        (
            lines.subrange(0, lo).push(lines[lo].subrange(0, co)),
            seq![lines[lo].subrange(co, lines[lo].len() as int)] + lines.skip(lo + 1),
        )
    }
}

/// Splitting a vector of lines at a (line, column) offset.
pub trait VecStringExt where Self: DeepView<V = Seq<Seq<char>>> {
    /// The lines before and after the offset, as `spec_split_at_offset`
    /// describes.
    fn split_strings_at_offset(&self, line_offset: usize, col_offset: usize) -> (r: (
        Vec<String>,
        Vec<String>,
    ))
        requires
            self.deep_view().len() == 0 || (line_offset < self.deep_view().len() && col_offset
                <= self.deep_view()[line_offset as int].len()),
        ensures
            r.0.deep_view() == spec_split_at_offset(
                self.deep_view(),
                line_offset as int,
                col_offset as int,
            ).0,
            r.1.deep_view() == spec_split_at_offset(
                self.deep_view(),
                line_offset as int,
                col_offset as int,
            ).1,
    ;
}

impl VecStringExt for Vec<String> {
    fn split_strings_at_offset(&self, line_offset: usize, col_offset: usize) -> (r: (
        Vec<String>,
        Vec<String>,
    )) {
        let ghost dv = self.deep_view();
        if self.len() == 0 {
            proof {
                assert(dv.len() == 0);
            }
            return (Vec::new(), Vec::new());
        }
        let last_len = char_len(&self[self.len() - 1]);
        if line_offset == 0 && col_offset == 0 {
            return (Vec::new(), clone_lines(self));
        }
        if line_offset >= self.len() - 1 && col_offset >= last_len {
            return (clone_lines(self), Vec::new());
        }
        let mut left: Vec<String> = Vec::new();
        let mut i: usize = 0;
        while i < line_offset
            invariant
                i <= line_offset,
                line_offset < dv.len(),
                dv == self.deep_view(),
                left.deep_view() =~= dv.subrange(0, i as int),
            decreases line_offset - i,
        {
            let ghost prev = left.deep_view();
            left.push(self[i].clone());
            proof {
                assert(left.deep_view() =~= prev.push(dv[i as int]));
                assert(left.deep_view() =~= dv.subrange(0, i + 1));
            }
            i += 1;
        }
        let split_line = &self[line_offset];
        let line_n = char_len(split_line);
        let left_piece = substring(split_line, 0, col_offset);
        let ghost lprev = left.deep_view();
        left.push(left_piece);
        proof {
            assert(left.deep_view() =~= lprev.push(dv[line_offset as int].subrange(0, col_offset as int)));
        }
        let mut right: Vec<String> = Vec::new();
        let right_piece = substring(split_line, col_offset, line_n);
        right.push(right_piece);
        proof {
            assert(right.deep_view() =~= seq![dv[line_offset as int].subrange(
                col_offset as int,
                dv[line_offset as int].len() as int,
            )]);
        }
        let mut j: usize = line_offset + 1;
        while j < self.len()
            invariant
                line_offset + 1 <= j <= self.len(),
                line_offset < dv.len(),
                dv == self.deep_view(),
                right.deep_view() =~= seq![dv[line_offset as int].subrange(
                    col_offset as int,
                    dv[line_offset as int].len() as int,
                )] + dv.subrange(line_offset + 1, j as int),
            decreases self.len() - j,
        {
            let ghost prev = right.deep_view();
            right.push(self[j].clone());
            proof {
                assert(right.deep_view() =~= prev.push(dv[j as int]));
            }
            j += 1;
        }
        proof {
            assert(dv.subrange(line_offset + 1, dv.len() as int) =~= dv.skip(line_offset + 1));
        }
        (left, right)
    }
}

} // verus!
