//! A transient overlay mapping the next single keystroke to one of a
//! finite set of labelled choices.

use vstd::prelude::*;

use crate::strings::push_char;

verus! {

/// The overlay: keyed, labelled options and a tag saying what choosing
/// one of them means.
pub struct KeySelectMenu<T> {
    pub options: Vec<(char, String)>,
    pub menu_type: T,
}

impl<T> KeySelectMenu<T> {
    /// An overlay with the given options and tag.
    pub fn new(options: Vec<(char, String)>, menu_type: T) -> (r: KeySelectMenu<T>)
        ensures
            r.options == options,
            r.menu_type == menu_type,
    {
        KeySelectMenu { options, menu_type }
    }

    /// The options as display lines, each `key: label`.
    pub fn option_list_strings(&self) -> (r: Vec<String>)
        ensures
            r.deep_view().len() == self.options@.len(),
            forall|i: int| 0 <= i < r.deep_view().len() ==> r.deep_view()[i] == seq![
                self.options@[i].0,
            ] + ": "@ + self.options@[i].1@,
    {
        let mut r: Vec<String> = Vec::new();
        let mut i: usize = 0;
        while i < self.options.len()
            invariant
                i <= self.options.len(),
                r.deep_view().len() == i,
                forall|j: int| 0 <= j < i ==> r.deep_view()[j] == seq![self.options@[j].0] + ": "@
                    + self.options@[j].1@,
            decreases self.options.len() - i,
        {
            let mut line = String::new();
            push_char(&mut line, self.options[i].0);
            line.append(": ");
            line.append(self.options[i].1.as_str());
            proof {
                assert(line@ =~= seq![self.options@[i as int].0] + ": "@
                    + self.options@[i as int].1@);
            }
            let ghost prev = r.deep_view();
            r.push(line);
            proof {
                assert(r.deep_view() =~= prev.push(
                    seq![self.options@[i as int].0] + ": "@ + self.options@[i as int].1@,
                ));
            }
            i += 1;
        }
        r
    }
}

} // verus!
