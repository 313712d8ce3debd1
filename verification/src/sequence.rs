//! Running the commands of a workset that has no layout: one after the other,
//! the workspace re-asserted before each, with a pause in between. No window
//! is waited for.
use crate::config::{copy_env, copy_opt, copy_texts, Workset};
use crate::gateway::{
    ErrorView, LaunchError, Reply, ReplyView, Request, RequestView, SLOT_LAUNCH_DELAY,
};
use crate::resolve::{ensure_workspace_focus, Activate, ActivateView};
use crate::shell::{build_exec_command, exec_command, Binding};
use crate::workspace::{TargetView, WorkspaceTarget};
use vstd::prelude::*;
use vstd::string::StringExecFns;

verus! {

/// Where a run of commands stands within the current command.
#[derive(Debug, Clone)]
pub enum SequencePhase {
    /// The workspace is being re-asserted.
    Focusing(Activate),
    /// The command was dispatched.
    Dispatching,
    /// The pause before the next command.
    Pausing,
    /// Every command was dispatched.
    Completed,
    Failed(LaunchError),
}

/// A phase of a run of commands as contracts see it.
pub enum SequencePhaseView {
    Focusing(ActivateView),
    Dispatching,
    Pausing,
    Completed,
    Failed(ErrorView),
}

impl View for SequencePhase {
    type V = SequencePhaseView;

    open spec fn view(&self) -> SequencePhaseView {
        match self {
            SequencePhase::Focusing(a) => SequencePhaseView::Focusing(a@),
            SequencePhase::Dispatching => SequencePhaseView::Dispatching,
            SequencePhase::Pausing => SequencePhaseView::Pausing,
            SequencePhase::Completed => SequencePhaseView::Completed,
            SequencePhase::Failed(e) => SequencePhaseView::Failed(e@),
        }
    }
}

/// A run of commands under way.
#[derive(Debug, Clone)]
pub struct Sequence {
    pub commands: Vec<String>,
    pub cwd: Option<String>,
    pub env: Vec<(String, String)>,
    /// The index of the current command.
    pub next: usize,
    pub phase: SequencePhase,
}

/// A run of commands as contracts see it.
pub struct SequenceView {
    pub commands: Seq<Seq<char>>,
    pub cwd: Option<Seq<char>>,
    pub env: Seq<Binding>,
    pub next: nat,
    pub phase: SequencePhaseView,
}

impl View for Sequence {
    type V = SequenceView;

    open spec fn view(&self) -> SequenceView {
        SequenceView {
            commands: self.commands.deep_view(),
            cwd: self.cwd.deep_view(),
            env: self.env.deep_view(),
            next: self.next as nat,
            phase: self.phase@,
        }
    }
}

/// The message for a command that could not be dispatched.
pub open spec fn command_failed_message(command: Seq<char>) -> Seq<char> {
    "failed to exec command: "@ + command
}

/// A state of a run and what it asks next.
pub type SequenceTurn = (SequenceView, Option<RequestView>);

impl SequenceView {
    /// The run of `commands` in the directory `cwd` with the environment
    /// `env`. Without commands it is complete at once and asks nothing.
    pub open spec fn begin(
        commands: Seq<Seq<char>>,
        cwd: Option<Seq<char>>,
        env: Seq<Binding>,
        target: Option<TargetView>,
    ) -> SequenceTurn {
        SequenceView { commands, cwd, env, next: 0, phase: SequencePhaseView::Completed }.enter(
            target,
        )
    }

    /// This run in another phase.
    pub open spec fn with(self, phase: SequencePhaseView) -> SequenceView {
        SequenceView { phase, ..self }
    }

    /// The run ends with an error.
    pub open spec fn fail(self, e: ErrorView) -> SequenceTurn {
        (self.with(SequencePhaseView::Failed(e)), None)
    }

    /// Whether the run has ended.
    pub open spec fn ended(self) -> bool {
        self.phase is Completed || self.phase is Failed
    }

    /// Arriving at the current command: the workspace is re-asserted, and
    /// where there is nothing to assert the command is dispatched at once.
    pub open spec fn enter(self, target: Option<TargetView>) -> SequenceTurn {
        if self.next >= self.commands.len() {
            (self.with(SequencePhaseView::Completed), None)
        } else {
            let (a, ask) = ActivateView::begin_focus(target);
            if a is Settled {
                self.dispatch()
            } else {
                (self.with(SequencePhaseView::Focusing(a)), ask)
            }
        }
    }

    /// The current command is dispatched.
    pub open spec fn dispatch(self) -> SequenceTurn {
        if self.next < self.commands.len() {
            (
                self.with(SequencePhaseView::Dispatching),
                Some(
                    RequestView::Exec(
                        exec_command(self.commands[self.next as int], self.cwd, seq![self.env]),
                    ),
                ),
            )
        } else {
            self.fail(ErrorView::protocol())
        }
    }

    /// One step of the run.
    pub open spec fn step(self, target: Option<TargetView>, reply: ReplyView, now: u64)
        -> SequenceTurn {
        match self.phase {
            SequencePhaseView::Focusing(a) => match target {
                Some(t) => {
                    let (a2, ask) = a.step(t, reply, now);
                    match a2 {
                        ActivateView::Settled(_) => self.dispatch(),
                        ActivateView::Failed(e) => self.fail(e),
                        _ => (self.with(SequencePhaseView::Focusing(a2)), ask),
                    }
                },
                None => self.fail(ErrorView::protocol()),
            },
            SequencePhaseView::Dispatching => if self.next < self.commands.len() {
                match reply {
                    ReplyView::Done => if self.next + 1 < self.commands.len() {
                        (
                            self.with(SequencePhaseView::Pausing),
                            Some(RequestView::Sleep(SLOT_LAUNCH_DELAY)),
                        )
                    } else {
                        (
                            SequenceView {
                                next: self.next + 1,
                                phase: SequencePhaseView::Completed,
                                ..self
                            },
                            None,
                        )
                    },
                    ReplyView::Failed(cause) => self.fail(
                        ErrorView::gateway(
                            command_failed_message(self.commands[self.next as int]),
                            cause,
                        ),
                    ),
                    _ => self.fail(ErrorView::protocol()),
                }
            } else {
                self.fail(ErrorView::protocol())
            },
            SequencePhaseView::Pausing => if self.next + 1 < self.commands.len() {
                match reply {
                    ReplyView::Done => SequenceView { next: self.next + 1, ..self }.enter(target),
                    _ => self.fail(ErrorView::protocol()),
                }
            } else {
                self.fail(ErrorView::protocol())
            },
            SequencePhaseView::Completed => (self, None),
            SequencePhaseView::Failed(_) => (self, None),
        }
    }
}

/// A workset without commands is run at once and with no dispatch at all.
pub proof fn law_no_commands_no_dispatch(
    cwd: Option<Seq<char>>,
    env: Seq<Binding>,
    target: Option<TargetView>,
)
    ensures
        SequenceView::begin(Seq::empty(), cwd, env, target).0.phase is Completed,
        SequenceView::begin(Seq::empty(), cwd, env, target).1 is None,
{
}

/// Starts running the commands of `ws` in order.
pub fn run_commands(ws: &Workset, target: Option<&WorkspaceTarget>) -> (out: (
    Sequence,
    Option<Request>,
))
    ensures
        (out.0@, out.1.deep_view()) == SequenceView::begin(
            ws.commands.deep_view(),
            ws.cwd.deep_view(),
            ws.env.deep_view(),
            target.deep_view(),
        ),
{
    let s = Sequence {
        commands: copy_texts(&ws.commands),
        cwd: copy_opt(&ws.cwd),
        env: copy_env(&ws.env),
        next: 0,
        phase: SequencePhase::Completed,
    };
    assert(s.commands.deep_view() =~= ws.commands.deep_view());
    assert(s.env.deep_view() =~= ws.env.deep_view());
    s.enter(target)
}

impl Sequence {
    /// Whether the run has ended.
    pub fn ended(&self) -> (b: bool)
        ensures
            b == self@.ended(),
    {
        match self.phase {
            SequencePhase::Completed => true,
            SequencePhase::Failed(_) => true,
            _ => false,
        }
    }

    fn with_phase(self, phase: SequencePhase) -> (out: Sequence)
        ensures
            out@ == self@.with(phase@),
            out.next == self.next,
            out.commands == self.commands,
    {
        let Sequence { commands, cwd, env, next, phase: _ } = self;
        Sequence { commands, cwd, env, next, phase }
    }

    fn fail(self, e: LaunchError) -> (out: (Sequence, Option<Request>))
        ensures
            (out.0@, out.1.deep_view()) == self@.fail(e@),
    {
        (self.with_phase(SequencePhase::Failed(e)), None)
    }

    fn dispatch(self) -> (out: (Sequence, Option<Request>))
        ensures
            (out.0@, out.1.deep_view()) == self@.dispatch(),
    {
        if self.next < self.commands.len() {
            let cwd: Option<&str> = match &self.cwd {
                Some(dir) => Some(dir.as_str()),
                None => None,
            };
            let mut layers: Vec<&Vec<(String, String)>> = Vec::new();
            layers.push(&self.env);
            assert(layers.deep_view() =~= seq![self.env.deep_view()]);
            assert(self@.commands[self.next as int] == self.commands@[self.next as int]@);
            let line = build_exec_command(self.commands[self.next].as_str(), cwd, &layers);
            (self.with_phase(SequencePhase::Dispatching), Some(Request::Exec(line)))
        } else {
            self.fail(LaunchError::protocol())
        }
    }

    fn enter(self, target: Option<&WorkspaceTarget>) -> (out: (Sequence, Option<Request>))
        ensures
            (out.0@, out.1.deep_view()) == self@.enter(target.deep_view()),
    {
        if self.next >= self.commands.len() {
            (self.with_phase(SequencePhase::Completed), None)
        } else {
            let (a, ask) = ensure_workspace_focus(target);
            match a {
                Activate::Settled(_) => self.dispatch(),
                other => (self.with_phase(SequencePhase::Focusing(other)), ask),
            }
        }
    }

    /// Takes one reply, received at the moment `now`, and moves on.
    pub fn feed(self, target: Option<&WorkspaceTarget>, reply: Reply, now: u64) -> (out: (
        Sequence,
        Option<Request>,
    ))
        ensures
            (out.0@, out.1.deep_view()) == self@.step(target.deep_view(), reply@, now),
    {
        // the phase is taken out of the run, and every arm puts one in
        let Sequence { commands, cwd, env, next, phase } = self;
        match phase {
            SequencePhase::Focusing(a) => {
                let me = Sequence { commands, cwd, env, next, phase: SequencePhase::Completed };
                match target {
                    Some(t) => {
                        let (a2, ask) = a.feed(t, reply, now);
                        match a2 {
                            Activate::Settled(_) => me.dispatch(),
                            Activate::Failed(e) => me.fail(e),
                            other => (me.with_phase(SequencePhase::Focusing(other)), ask),
                        }
                    },
                    None => me.fail(LaunchError::protocol()),
                }
            },
            SequencePhase::Dispatching => {
                let me = Sequence { commands, cwd, env, next, phase: SequencePhase::Dispatching };
                if me.next < me.commands.len() {
                    match reply {
                        Reply::Done => if me.next + 1 < me.commands.len() {
                            (
                                me.with_phase(SequencePhase::Pausing),
                                Some(Request::Sleep(SLOT_LAUNCH_DELAY)),
                            )
                        } else {
                            let Sequence { commands, cwd, env, next, phase: _ } = me;
                            (
                                Sequence {
                                    commands,
                                    cwd,
                                    env,
                                    next: next + 1,
                                    phase: SequencePhase::Completed,
                                },
                                None,
                            )
                        },
                        Reply::Failed(cause) => {
                            let mut text = String::from_str("failed to exec command: ");
                            assert(me@.commands[me.next as int] == me.commands@[me.next as int]@);
                            text.append(me.commands[me.next].as_str());
                            me.fail(LaunchError::gateway(text.as_str(), cause))
                        },
                        _ => me.fail(LaunchError::protocol()),
                    }
                } else {
                    me.fail(LaunchError::protocol())
                }
            },
            SequencePhase::Pausing => {
                let me = Sequence { commands, cwd, env, next, phase: SequencePhase::Pausing };
                if me.next < me.commands.len() && me.next + 1 < me.commands.len() {
                    match reply {
                        Reply::Done => {
                            let Sequence { commands, cwd, env, next, phase } = me;
                            Sequence { commands, cwd, env, next: next + 1, phase }.enter(target)
                        },
                        _ => me.fail(LaunchError::protocol()),
                    }
                } else {
                    me.fail(LaunchError::protocol())
                }
            },
            SequencePhase::Completed => (
                Sequence { commands, cwd, env, next, phase: SequencePhase::Completed },
                None,
            ),
            SequencePhase::Failed(e) => (
                Sequence { commands, cwd, env, next, phase: SequencePhase::Failed(e) },
                None,
            ),
        }
    }
}

} // verus!
