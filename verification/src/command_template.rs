//! Command templates: command text with a `??` placeholder that is
//! replaced by a target word before the command is run.

use vstd::prelude::*;

use crate::strings::replace_pair;
use crate::strings::replace_pair_exec;

verus! {

/// A non-empty command template holding `??` placeholders.
pub struct CommandTemplate(pub String);

impl CommandTemplate {
    /// Wraps template text; empty text is rejected.
    pub fn from_string(s: String) -> (r: Result<CommandTemplate, String>)
        ensures
            match r {
                Ok(t) => s@.len() > 0 && t.0@ == s@,
                Err(_) => s@.len() == 0,
            },
    {
        if s.as_str().unicode_len() == 0 {
            Err("attempted to parse empty CommandTemplate".to_owned())
        } else {
            Ok(CommandTemplate(s))
        }
    }

    /// The template with every `??` placeholder replaced by the value.
    pub fn resolve(&self, placeholder_value: &String) -> (r: String)
        ensures
            r@ == replace_pair(self.0@, '?', '?', placeholder_value@),
    {
        replace_pair_exec(self.0.as_str(), '?', '?', placeholder_value)
    }

    /// The argument list of a shell invocation running the resolved
    /// template, for the surrounding application to spawn.
    pub fn resolve_to_command(&self, placeholder_value: &String) -> (r: Vec<String>)
        ensures
            r.deep_view().len() == 3,
            r.deep_view()[0] == "bash"@,
            r.deep_view()[1] == "-c"@,
            r.deep_view()[2] == replace_pair(self.0@, '?', '?', placeholder_value@),
    {
        let mut argv: Vec<String> = Vec::new();
        argv.push("bash".to_owned());
        argv.push("-c".to_owned());
        argv.push(self.resolve(placeholder_value));
        proof {
            assert(argv.deep_view().len() == 3);
        }
        argv
    }

    /// A copy of this template.
    pub fn duplicate(&self) -> (r: CommandTemplate)
        ensures
            r.0@ == self.0@,
    {
        CommandTemplate(self.0.clone())
    }
}

} // verus!
