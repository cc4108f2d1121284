//! The configuration the application runs with: shell invocation,
//! timeout, history bound, and the keyed snippet and viewer tables.
//! Reading a configuration file is the surrounding application's job;
//! this module holds the values and the keyed lookups.

use vstd::prelude::*;

use crate::command_template::CommandTemplate;
use crate::snippets::Snippet;
use crate::strings::{first_pair_from, replace_pair};

verus! {

/// The first value keyed by `c` in an association list.
pub open spec fn assoc_first<T>(m: Seq<(char, T)>, c: char) -> Option<T>
    decreases m.len(),
{
    if m.len() == 0 {
        None
    } else if m[0].0 == c {
        Some(m[0].1)
    } else {
        assoc_first(m.drop_first(), c)
    }
}

/// The value keyed by `c`, if any.
pub fn assoc_get<'a, T>(m: &'a Vec<(char, T)>, c: char) -> (r: Option<&'a T>)
    ensures
        match r {
            Some(t) => assoc_first(m@, c) == Some(*t),
            None => assoc_first(m@, c) is None,
        },
{
    let mut i: usize = 0;
    proof {
        assert(m@.skip(0) =~= m@);
    }
    while i < m.len()
        invariant
            i <= m.len(),
            assoc_first(m@, c) == assoc_first(m@.skip(i as int), c),
        decreases m.len() - i,
    {
        if m[i].0 == c {
            proof {
                assert(m@.skip(i as int)[0] == m@[i as int]);
            }
            return Some(&m[i].1);
        }
        proof {
            assert(m@.skip(i as int)[0] == m@[i as int]);
            assert(m@.skip(i as int).drop_first() =~= m@.skip(i + 1));
        }
        i += 1;
    }
    proof {
        assert(m@.skip(i as int).len() == 0);
    }
    None
}

/// The application's configuration, as plain values.
pub struct PiprConfig {
    pub finish_hook: Option<String>,
    pub cmdlist_always_show_preview: bool,
    pub paranoid_history_mode_default: bool,
    pub eval_environment: Vec<String>,
    pub autoeval_mode_default: bool,
    pub cmd_timeout_millis: u64,
    pub history_size: usize,
    pub snippets: Vec<(char, Snippet)>,
    pub help_viewers: Vec<(char, CommandTemplate)>,
    pub output_viewers: Vec<(char, String)>,
    pub highlighting_enabled: bool,
}

impl PiprConfig {
    /// The configuration used when no file overrides anything: the shell
    /// is `bash -c`, commands time out after two seconds, the history
    /// keeps five hundred entries, and the keyed tables hold one sample
    /// snippet, the two standard help viewers and one output viewer.
    pub fn default_values() -> (r: PiprConfig)
        ensures
            r.finish_hook is None,
            !r.cmdlist_always_show_preview,
            !r.paranoid_history_mode_default,
            r.eval_environment.deep_view() == seq!["bash"@, "-c"@],
            !r.autoeval_mode_default,
            r.cmd_timeout_millis == 2000,
            r.history_size == 500,
            r.highlighting_enabled,
            r.eval_environment.deep_view().len() > 0,
            r.snippets@.len() == 1,
            r.snippets@[0].0 == 's',
            r.snippets@[0].1.text@ == replace_pair(
                " | sed -r 's/||//g'"@,
                '|',
                '|',
                Seq::<char>::empty(),
            ),
            r.snippets@[0].1.cursor_offset as int == match first_pair_from(
                " | sed -r 's/||//g'"@,
                '|',
                '|',
                0,
            ) {
                Some(i) => i,
                None => " | sed -r 's/||//g'"@.len() as int,
            },
            r.help_viewers@.len() == 2,
            r.help_viewers@[0].0 == 'm',
            r.help_viewers@[0].1.0@ == "man ??"@,
            r.help_viewers@[1].0 == 'h',
            r.help_viewers@[1].1.0@ == "?? --help | less"@,
            r.output_viewers@.len() == 1,
            r.output_viewers@[0].0 == 'l',
            r.output_viewers@[0].1@ == "less"@,
    {
        let mut eval_environment: Vec<String> = Vec::new();
        eval_environment.push("bash".to_owned());
        eval_environment.push("-c".to_owned());
        proof {
            assert(eval_environment.deep_view() =~= seq!["bash"@, "-c"@]);
        }
        let mut snippets: Vec<(char, Snippet)> = Vec::new();
        snippets.push(('s', Snippet::parse(" | sed -r 's/||//g'")));
        let mut help_viewers: Vec<(char, CommandTemplate)> = Vec::new();
        match CommandTemplate::from_string("man ??".to_owned()) {
            Ok(t) => help_viewers.push(('m', t)),
            Err(_) => {
                proof {
                    reveal_strlit("man ??");
                    assert(false);
                }
            }
        }
        match CommandTemplate::from_string("?? --help | less".to_owned()) {
            Ok(t) => help_viewers.push(('h', t)),
            Err(_) => {
                proof {
                    reveal_strlit("?? --help | less");
                    assert(false);
                }
            }
        }
        let mut output_viewers: Vec<(char, String)> = Vec::new();
        output_viewers.push(('l', "less".to_owned()));
        PiprConfig {
            finish_hook: None,
            cmdlist_always_show_preview: false,
            paranoid_history_mode_default: false,
            eval_environment,
            autoeval_mode_default: false,
            cmd_timeout_millis: 2000,
            history_size: 500,
            snippets,
            help_viewers,
            output_viewers,
            highlighting_enabled: true,
        }
    }
}

} // verus!
