//! The command execution engine, modelled as a state machine.
//!
//! The engine owns at most one live run at a time. Submitting a request
//! abandons any running command — whether the new request is accepted
//! (fresh empty buffers) or rejected (an idle slot) — so a superseded
//! command's output can never be delivered.
//! The surrounding application performs the actual spawning, streaming,
//! killing and timing, feeding every observation back in as an
//! [`EngineEvent`]; it is expected to deliver all remaining line events
//! of a run before the run's exit event.

use vstd::prelude::*;

use crate::strings::push_char;

verus! {

/// How command text is turned into a child process: directly through the
/// configured shell, or through an isolating sandbox wrapper.
#[derive(Clone, Copy, PartialEq, Eq, Structural, Debug)]
pub enum ExecutionMode {
    UNSAFE,
    ISOLATED,
}

/// A command to run, with optional lines to pipe into its stdin.
pub struct CommandExecutionRequest {
    pub command: String,
    pub stdin: Option<Vec<String>>,
}

impl CommandExecutionRequest {
    /// A request for the given command text and optional stdin lines.
    pub fn new(command: String, stdin: Option<Vec<String>>) -> (r: CommandExecutionRequest)
        ensures
            r.command == command,
            r.stdin == stdin,
    {
        CommandExecutionRequest { command, stdin }
    }
}

/// The result of one command run: accumulated stdout on success, a
/// message (stderr, an error description, or a timeout note) otherwise.
pub enum CmdOutput {
    Okay(String),
    NotOk(String),
}

/// The result as pure content: `Ok` carries stdout, `Err` the message.
pub open spec fn output_view(o: &CmdOutput) -> Result<Seq<char>, Seq<char>> {
    match o {
        CmdOutput::Okay(s) => Ok(s@),
        CmdOutput::NotOk(s) => Err(s@),
    }
}

/// Whether the command text trips the destructive-command heuristic: it
/// contains `rm `, `mv ` or `dd ` anywhere. A convenience guard, not a
/// security boundary.
pub open spec fn spec_guard_rejects(cmd: Seq<char>) -> bool {
    ||| contains_seq(cmd, seq!['r', 'm', ' '])
    ||| contains_seq(cmd, seq!['m', 'v', ' '])
    ||| contains_seq(cmd, seq!['d', 'd', ' '])
}

/// Whether `pat` occurs in `s` as a contiguous run.
pub open spec fn contains_seq(s: Seq<char>, pat: Seq<char>) -> bool {
    exists|i: int|
        0 <= i && i + pat.len() <= s.len() && #[trigger] s.subrange(i, i + pat.len()) == pat
}

/// Whether `pat` occurs in `s` as a contiguous run.
fn contains_exec(s: &String, pat: &String) -> (r: bool)
    ensures
        r == contains_seq(s@, pat@),
{
    let n = crate::strings::char_len(s);
    let m = crate::strings::char_len(pat);
    if m > n {
        proof {
            assert forall|k: int| 0 <= k && k + pat@.len() <= s@.len() implies #[trigger] s@
                .subrange(k, k + pat@.len()) != pat@ by {}
        }
        return false;
    }
    let mut i: usize = 0;
    while i <= n - m
        invariant
            m <= n,
            n == s@.len(),
            m == pat@.len(),
            i <= n - m + 1,
            forall|k: int| 0 <= k < i ==> #[trigger] s@.subrange(k, k + pat@.len()) != pat@,
        decreases n - i,
    {
        let mut j: usize = 0;
        while j < m && crate::strings::char_at(s, i + j) == crate::strings::char_at(pat, j)
            invariant
                i <= n - m,
                n == s@.len(),
                m == pat@.len(),
                j <= m,
                forall|w: int| 0 <= w < j ==> s@[i + w] == pat@[w],
            decreases m - j,
        {
            j += 1;
        }
        if j == m {
            proof {
                assert(s@.subrange(i as int, i + pat@.len()) =~= pat@);
            }
            return true;
        }
        proof {
            assert(s@.subrange(i as int, i + pat@.len())[j as int] != pat@[j as int]);
        }
        i += 1;
    }
    proof {
        assert forall|k: int| 0 <= k && k + pat@.len() <= s@.len() implies #[trigger] s@.subrange(
            k,
            k + pat@.len(),
        ) != pat@ by {
            assert(k < i);
        }
    }
    false
}

/// The fixed argument list put before the shell when running isolated:
/// a read-only root, fresh temporary and device trees, no shared pid
/// namespace, shared network.
pub open spec fn spec_bwrap_prefix() -> Seq<Seq<char>> {
    seq![
        "bwrap"@,
        "--ro-bind"@,
        "/"@,
        "/"@,
        "--tmpfs"@,
        "/tmp"@,
        "--dev"@,
        "/dev"@,
        "--proc"@,
        "/proc"@,
        "--die-with-parent"@,
        "--share-net"@,
        "--unshare-pid"@,
    ]
}

impl ExecutionMode {
    /// The argument list a request's command resolves to under this mode:
    /// the sandbox wrapper plus shell plus command when isolated; the
    /// shell plus command when direct, unless the destructive-command
    /// heuristic rejects it. The caller spawns the returned list.
    pub fn spawn_invocation(&self, eval_environment: &Vec<String>, cmd: &String) -> (r: Result<
        Vec<String>,
        String,
    >)
        requires
            self is UNSAFE ==> eval_environment.deep_view().len() > 0,
        ensures
            match r {
                Ok(argv) => {
                    &&& !(self is UNSAFE && spec_guard_rejects(cmd@))
                    &&& argv.deep_view() == if self is ISOLATED {
                        spec_bwrap_prefix() + eval_environment.deep_view() + seq![cmd@]
                    } else {
                        eval_environment.deep_view() + seq![cmd@]
                    }
                },
                Err(m) => {
                    &&& self is UNSAFE
                    &&& spec_guard_rejects(cmd@)
                    &&& m@ == "Will not run this command, it's for your own good. Believe me."@
                },
            },
    {
        match self {
            ExecutionMode::ISOLATED => {
                let mut argv: Vec<String> = Vec::new();
                argv.push("bwrap".to_owned());
                argv.push("--ro-bind".to_owned());
                argv.push("/".to_owned());
                argv.push("/".to_owned());
                argv.push("--tmpfs".to_owned());
                argv.push("/tmp".to_owned());
                argv.push("--dev".to_owned());
                argv.push("/dev".to_owned());
                argv.push("--proc".to_owned());
                argv.push("/proc".to_owned());
                argv.push("--die-with-parent".to_owned());
                argv.push("--share-net".to_owned());
                argv.push("--unshare-pid".to_owned());
                let mut i: usize = 0;
                while i < eval_environment.len()
                    invariant
                        i <= eval_environment.len(),
                        argv.deep_view() =~= spec_bwrap_prefix()
                            + eval_environment.deep_view().subrange(0, i as int),
                    decreases eval_environment.len() - i,
                {
                    let ghost prev = argv.deep_view();
                    argv.push(eval_environment[i].clone());
                    proof {
                        assert(argv.deep_view() =~= prev.push(
                            eval_environment.deep_view()[i as int],
                        ));
                        assert(argv.deep_view() =~= spec_bwrap_prefix()
                            + eval_environment.deep_view().subrange(0, i + 1));
                    }
                    i += 1;
                }
                let ghost prev = argv.deep_view();
                argv.push(cmd.clone());
                proof {
                    assert(eval_environment.deep_view().subrange(
                        0,
                        eval_environment.deep_view().len() as int,
                    ) =~= eval_environment.deep_view());
                    assert(argv.deep_view() =~= spec_bwrap_prefix() + eval_environment.deep_view()
                        + seq![cmd@]);
                }
                Ok(argv)
            }
            ExecutionMode::UNSAFE => {
                if Self::guard_rejects(cmd) {
                    return Err(
                        "Will not run this command, it's for your own good. Believe me.".to_owned(),
                    );
                }
                let mut argv: Vec<String> = Vec::new();
                let mut i: usize = 0;
                proof {
                    assert(argv.deep_view() =~= eval_environment.deep_view().subrange(0, 0));
                }
                while i < eval_environment.len()
                    invariant
                        i <= eval_environment.len(),
                        argv.deep_view() =~= eval_environment.deep_view().subrange(0, i as int),
                    decreases eval_environment.len() - i,
                {
                    let ghost prev = argv.deep_view();
                    argv.push(eval_environment[i].clone());
                    proof {
                        assert(argv.deep_view() =~= prev.push(
                            eval_environment.deep_view()[i as int],
                        ));
                        assert(argv.deep_view() =~= eval_environment.deep_view().subrange(0, i + 1));
                    }
                    i += 1;
                }
                let ghost prev = argv.deep_view();
                argv.push(cmd.clone());
                proof {
                    assert(eval_environment.deep_view().subrange(
                        0,
                        eval_environment.deep_view().len() as int,
                    ) =~= eval_environment.deep_view());
                    assert(argv.deep_view() =~= eval_environment.deep_view() + seq![cmd@]);
                }
                Ok(argv)
            }
        }
    }

    /// Whether the destructive-command heuristic rejects the command.
    pub fn guard_rejects(cmd: &String) -> (r: bool)
        ensures
            r == spec_guard_rejects(cmd@),
    {
        let rm = "rm ".to_owned();
        let mv = "mv ".to_owned();
        let dd = "dd ".to_owned();
        proof {
            reveal_strlit("rm ");
            reveal_strlit("mv ");
            reveal_strlit("dd ");
            assert("rm "@ =~= seq!['r', 'm', ' ']);
            assert("mv "@ =~= seq!['m', 'v', ' ']);
            assert("dd "@ =~= seq!['d', 'd', ' ']);
        }
        contains_exec(cmd, &rm) || contains_exec(cmd, &mv) || contains_exec(cmd, &dd)
    }
}

/// The run slot: idle, or one live run with its growing stdout and
/// stderr buffers.
pub enum RunState {
    Idle,
    Running { out_lines: String, err_lines: String },
}

/// The run slot as pure content: `None` when idle, the two buffers when
/// running.
pub open spec fn run_view(r: &RunState) -> Option<(Seq<char>, Seq<char>)> {
    match r {
        RunState::Idle => None,
        RunState::Running { out_lines, err_lines } => Some((out_lines@, err_lines@)),
    }
}

/// One observation about the live run, fed back by the surrounding
/// application.
pub enum EngineEvent {
    /// A line arrived on the child's stdout.
    OutLine(String),
    /// A line arrived on the child's stderr.
    ErrLine(String),
    /// Reading one of the child's streams failed with this description.
    ReadError(String),
    /// The child exited; the flag says whether its status was success.
    Exited(bool),
    /// The configured timeout expired before the child exited.
    TimedOut,
}

/// What the surrounding application must do after a request was accepted:
/// kill any live child, then spawn this argument list, piping the given
/// lines into its stdin.
pub struct SpawnAction {
    pub argv: Vec<String>,
    pub stdin: Option<Vec<String>>,
}

/// The engine: mode, shell, timeout, and the single run slot.
pub struct CommandExecutionHandler {
    pub execution_mode: ExecutionMode,
    pub eval_environment: Vec<String>,
    pub cmd_timeout_millis: u64,
    pub run: RunState,
}

/// What one engine event does to the run slot, and what result (if any)
/// it delivers: lines grow the matching buffer of a live run; a read
/// error, an exit or a timeout end the run and deliver its result;
/// anything arriving while idle is dropped.
pub open spec fn spec_on_event(st: Option<(Seq<char>, Seq<char>)>, e: &EngineEvent) -> (
    Option<(Seq<char>, Seq<char>)>,
    Option<Result<Seq<char>, Seq<char>>>,
) {
    match st {
        None => (None, None),
        Some((out, err)) => match e {
            EngineEvent::OutLine(l) => (Some((out + l@ + seq!['\n'], err)), None),
            EngineEvent::ErrLine(l) => (Some((out, err + l@ + seq!['\n'])), None),
            EngineEvent::ReadError(m) => (None, Some(Err("Error: "@ + m@))),
            EngineEvent::Exited(success) => (
                None,
                Some(
                    if *success {
                        Ok(out)
                    } else {
                        Err(err)
                    },
                ),
            ),
            EngineEvent::TimedOut => (None, Some(Err("Command timed out"@))),
        },
    }
}

impl CommandExecutionHandler {
    /// The engine's run slot as pure content.
    pub open spec fn state_view(&self) -> Option<(Seq<char>, Seq<char>)> {
        run_view(&self.run)
    }

    /// The engine invariant: a direct-mode engine always has a shell to
    /// hand commands to.
    pub open spec fn wf(&self) -> bool {
        self.execution_mode is UNSAFE ==> self.eval_environment.deep_view().len() > 0
    }

    /// A fresh, idle engine.
    pub fn start(cmd_timeout_millis: u64, execution_mode: ExecutionMode, eval_environment: Vec<
        String,
    >) -> (r: CommandExecutionHandler)
        requires
            execution_mode is UNSAFE ==> eval_environment.deep_view().len() > 0,
        ensures
            r.wf(),
            r.execution_mode == execution_mode,
            r.eval_environment == eval_environment,
            r.cmd_timeout_millis == cmd_timeout_millis,
            r.state_view() is None,
    {
        CommandExecutionHandler {
            execution_mode,
            eval_environment,
            cmd_timeout_millis,
            run: RunState::Idle,
        }
    }

    /// Accepts a request: any previous run is abandoned, the buffers are
    /// emptied, and the caller is told what to spawn — or the request is
    /// rejected, which still abandons the previous run, so that a
    /// superseded command's output can never be delivered whichever way
    /// the submission went. The caller kills the previous child in both
    /// cases.
    pub fn on_request(&mut self, req: CommandExecutionRequest) -> (r: Result<
        SpawnAction,
        CmdOutput,
    >)
        requires
            old(self).wf(),
        ensures
            final(self).wf(),
            final(self).execution_mode == old(self).execution_mode,
            final(self).eval_environment == old(self).eval_environment,
            final(self).cmd_timeout_millis == old(self).cmd_timeout_millis,
            match r {
                Ok(action) => {
                    &&& !(old(self).execution_mode is UNSAFE && spec_guard_rejects(req.command@))
                    &&& final(self).state_view() == Some(
                        (Seq::<char>::empty(), Seq::<char>::empty()),
                    )
                    &&& action.argv.deep_view() == if old(self).execution_mode is ISOLATED {
                        spec_bwrap_prefix() + old(self).eval_environment.deep_view()
                            + seq![req.command@]
                    } else {
                        old(self).eval_environment.deep_view() + seq![req.command@]
                    }
                    &&& action.stdin == req.stdin
                },
                Err(out) => {
                    &&& final(self).state_view() is None
                    &&& old(self).execution_mode is UNSAFE
                    &&& spec_guard_rejects(req.command@)
                    &&& output_view(&out)
                        == Err::<Seq<char>, Seq<char>>(
                        "Will not run this command, it's for your own good. Believe me."@,
                    )
                },
            },
    {
        let mode = self.execution_mode;
        match mode.spawn_invocation(&self.eval_environment, &req.command) {
            Ok(argv) => {
                self.run = RunState::Running {
                    out_lines: String::new(),
                    err_lines: String::new(),
                };
                Ok(SpawnAction { argv, stdin: req.stdin })
            }
            Err(m) => {
                self.run = RunState::Idle;
                Err(CmdOutput::NotOk(m))
            }
        }
    }

    /// Feeds one observation about the live run into the engine; the slot
    /// and the delivered result follow `spec_on_event` exactly. In
    /// particular a timeout always delivers the timeout message, and an
    /// exit delivers accumulated stdout on success and accumulated stderr
    /// otherwise.
    pub fn on_event(&mut self, e: EngineEvent) -> (r: Option<CmdOutput>)
        requires
            old(self).wf(),
        ensures
            final(self).wf(),
            final(self).execution_mode == old(self).execution_mode,
            final(self).eval_environment == old(self).eval_environment,
            final(self).cmd_timeout_millis == old(self).cmd_timeout_millis,
            final(self).state_view() == spec_on_event(old(self).state_view(), &e).0,
            match (r, spec_on_event(old(self).state_view(), &e).1) {
                (Some(out), Some(v)) => output_view(&out) == v,
                (None, None) => true,
                _ => false,
            },
    {
        let is_running = match &self.run {
            RunState::Idle => false,
            RunState::Running { .. } => true,
        };
        if !is_running {
            return None;
        }
        let (out0, err0) = match &self.run {
            RunState::Running { out_lines, err_lines } => (out_lines.clone(), err_lines.clone()),
            RunState::Idle => (String::new(), String::new()),
        };
        match e {
            EngineEvent::OutLine(l) => {
                let mut out_lines = out0;
                out_lines.append(l.as_str());
                push_char(&mut out_lines, '\n');
                self.run = RunState::Running { out_lines, err_lines: err0 };
                None
            }
            EngineEvent::ErrLine(l) => {
                let mut err_lines = err0;
                err_lines.append(l.as_str());
                push_char(&mut err_lines, '\n');
                self.run = RunState::Running { out_lines: out0, err_lines };
                None
            }
            EngineEvent::ReadError(m) => {
                let mut msg = "Error: ".to_owned();
                msg.append(m.as_str());
                self.run = RunState::Idle;
                Some(CmdOutput::NotOk(msg))
            }
            EngineEvent::Exited(success) => {
                self.run = RunState::Idle;
                if success {
                    Some(CmdOutput::Okay(out0))
                } else {
                    Some(CmdOutput::NotOk(err0))
                }
            }
            EngineEvent::TimedOut => {
                self.run = RunState::Idle;
                Some(CmdOutput::NotOk("Command timed out".to_owned()))
            }
        }
    }
}

/// The buffer a run accumulates from a sequence of stdout lines: each
/// line followed by a line break.
pub open spec fn lines_buffer(ls: Seq<Seq<char>>) -> Seq<char>
    decreases ls.len(),
{
    if ls.len() == 0 {
        Seq::empty()
    } else {
        lines_buffer(ls.drop_last()) + ls.last() + seq!['\n']
    }
}

/// The run slot after a fresh submission has seen a sequence of stdout
/// lines.
pub open spec fn feed_out_lines(st: Option<(Seq<char>, Seq<char>)>, ls: Seq<Seq<char>>) -> Option<
    (Seq<char>, Seq<char>),
>
    decreases ls.len(),
{
    if ls.len() == 0 {
        st
    } else {
        match feed_out_lines(st, ls.drop_last()) {
            Some(p) => Some((p.0 + ls.last() + seq!['\n'], p.1)),
            None => None,
        }
    }
}

/// One more stdout line extends the fold by exactly one engine event.
pub proof fn lemma_feed_out_snoc(
    st: Option<(Seq<char>, Seq<char>)>,
    ls: Seq<Seq<char>>,
    l: String,
)
    ensures
        feed_out_lines(st, ls.push(l@)) == spec_on_event(
            feed_out_lines(st, ls),
            &EngineEvent::OutLine(l),
        ).0,
{
    assert(ls.push(l@).drop_last() =~= ls);
    assert(ls.push(l@).last() == l@);
}

/// Cancellation by replacement: a fresh submission starts from empty
/// buffers, so after any sequence of stdout lines a successful exit
/// delivers exactly those lines — nothing of any earlier command's
/// output can appear in the result.
pub proof fn lemma_replacement_discards_previous(ls: Seq<Seq<char>>)
    ensures
        feed_out_lines(Some((Seq::<char>::empty(), Seq::<char>::empty())), ls) == Some(
            (lines_buffer(ls), Seq::<char>::empty()),
        ),
        spec_on_event(
            feed_out_lines(Some((Seq::<char>::empty(), Seq::<char>::empty())), ls),
            &EngineEvent::Exited(true),
        ).1 == Some(Ok::<Seq<char>, Seq<char>>(lines_buffer(ls))),
    decreases ls.len(),
{
    if ls.len() > 0 {
        lemma_replacement_discards_previous(ls.drop_last());
    }
}


/// Timeout classification: whenever a run is live, a timeout event ends
/// it and delivers exactly the timeout message, never anything else.
pub proof fn lemma_timeout_yields_timeout(st: Option<(Seq<char>, Seq<char>)>)
    requires
        st is Some,
    ensures
        spec_on_event(st, &EngineEvent::TimedOut).1 == Some(
            Err::<Seq<char>, Seq<char>>("Command timed out"@),
        ),
        spec_on_event(st, &EngineEvent::TimedOut).0 is None,
{
}

} // verus!
