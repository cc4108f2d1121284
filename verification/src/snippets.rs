//! Snippets: short pieces of shell text inserted on a keystroke, with a
//! `||` marker in the source text naming where the cursor should land.

use vstd::prelude::*;

use crate::strings::{
    first_pair_from, find_pair_or_len, replace_pair, replace_pair_exec, trim_start_char,
    trim_start_matching, trim_whitespace, trim_ws,
};

verus! {

/// A snippet: the text to insert and the cursor offset (in characters)
/// after insertion.
pub struct Snippet {
    pub text: String,
    pub cursor_offset: usize,
}

/// The text the snippet's `|`-trimmed form stands for: whitespace
/// trimmed, leading pipes removed, whitespace trimmed again.
pub open spec fn spec_without_pipe(t: Seq<char>) -> Seq<char> {
    trim_ws(trim_start_char(trim_ws(t), '|'))
}

impl Snippet {
    /// A snippet with the given text and cursor offset.
    pub fn new(text: String, cursor_offset: usize) -> (r: Snippet)
        ensures
            r.text == text,
            r.cursor_offset == cursor_offset,
    {
        Snippet { text, cursor_offset }
    }

    /// Parses snippet source text: every `||` is removed, and the cursor
    /// offset is the position of the first `||`, or the text length when
    /// there is none.
    pub fn parse(s: &str) -> (r: Snippet)
        ensures
            r.text@ == replace_pair(s@, '|', '|', Seq::<char>::empty()),
            r.cursor_offset as int == match first_pair_from(s@, '|', '|', 0) {
                Some(i) => i,
                None => s@.len() as int,
            },
    {
        let empty = String::new();
        let text = replace_pair_exec(s, '|', '|', &empty);
        let cursor_offset = find_pair_or_len(s, '|', '|');
        Snippet { text, cursor_offset }
    }

    /// The snippet text with surrounding whitespace and a leading pipe
    /// removed, as used when the snippet is offered behind an existing
    /// pipeline.
    pub fn without_pipe(&self) -> (r: String)
        ensures
            r@ == spec_without_pipe(self.text@),
    {
        let t = trim_whitespace(&self.text);
        let u = trim_start_matching(&t, '|');
        trim_whitespace(&u)
    }

    /// The snippet as shown in a menu: its text with surrounding
    /// whitespace removed.
    pub fn display_string(&self) -> (r: String)
        ensures
            r@ == trim_ws(self.text@),
    {
        trim_whitespace(&self.text)
    }

    /// A copy of this snippet.
    pub fn duplicate(&self) -> (r: Snippet)
        ensures
            r.text@ == self.text@,
            r.cursor_offset == self.cursor_offset,
    {
        Snippet { text: self.text.clone(), cursor_offset: self.cursor_offset }
    }
}

} // verus!
