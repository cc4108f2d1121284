//! An interactive shell-pipeline composer: a multi-line, Unicode-aware
//! command editor, an execution engine modelled as a state machine, and
//! the application controller that ties edits to re-execution, history,
//! bookmarks, overlays and prefix caching.

pub mod app;
pub mod bookmark;
pub mod command_evaluation;
pub mod command_template;
pub mod commandlist;
pub mod lineeditor;
pub mod pipr_config;
pub mod snippets;
pub mod strings;
pub mod util;
pub mod width;
