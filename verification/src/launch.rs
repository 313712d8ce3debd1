//! A launch from beginning to end: the lock that keeps launches apart, the
//! workspace, its cleanup, and then the layout or the commands.
use crate::cleanup::{clean_workspace, Cleanup, CleanupPhase, CleanupPhaseView, CleanupView};
use crate::config::{Workset, WorksetView};
use crate::gateway::{
    ErrorView, FailureKind, LaunchError, Reply, ReplyView, Request, RequestView,
};
use crate::plan::{defaults_of, plan_of, StepView};
use crate::replay::{run_layout, PhaseView, Replay, ReplayPhase, ReplayView};
use crate::resolve::{
    ensure_target_active, resolve_active_workspace, Activate, ActivateView, Resolve, ResolveView,
};
use crate::sequence::{run_commands, Sequence, SequencePhase, SequencePhaseView, SequenceView};
use crate::workspace::{
    override_of, workspace_override, ContextView, TargetView, WorkspaceContext, WorkspaceTarget,
};
use vstd::prelude::*;
use vstd::string::StringExecFns;

verus! {

/// How a launch ended.
#[derive(Debug, Clone)]
pub enum Outcome {
    /// Everything was launched.
    Launched,
    /// The user kept the windows that were there: nothing was closed and
    /// nothing launched.
    Cancelled,
    Failed(LaunchError),
}

/// An outcome as contracts see it.
pub enum OutcomeView {
    Launched,
    Cancelled,
    Failed(ErrorView),
}

impl View for Outcome {
    type V = OutcomeView;

    open spec fn view(&self) -> OutcomeView {
        match self {
            Outcome::Launched => OutcomeView::Launched,
            Outcome::Cancelled => OutcomeView::Cancelled,
            Outcome::Failed(e) => OutcomeView::Failed(e@),
        }
    }
}

/// Where a launch stands.
#[derive(Debug, Clone)]
pub enum Stage {
    /// The lock is being taken; nothing else was asked for yet.
    Locking,
    /// The workspace that the workset asks for is being made active.
    Activating(Activate),
    /// The active workspace is being found.
    Resolving(Resolve),
    /// The workspace is being cleared.
    Cleaning(Cleanup),
    /// The layout is being replayed.
    Replaying(Replay),
    /// The commands are being run.
    Running(Sequence),
    Done(Outcome),
}

/// A stage of a launch as contracts see it.
pub enum StageView {
    Locking,
    Activating(ActivateView),
    Resolving(ResolveView),
    Cleaning(CleanupView),
    Replaying(ReplayView),
    Running(SequenceView),
    Done(OutcomeView),
}

impl View for Stage {
    type V = StageView;

    open spec fn view(&self) -> StageView {
        match self {
            Stage::Locking => StageView::Locking,
            Stage::Activating(a) => StageView::Activating(a@),
            Stage::Resolving(r) => StageView::Resolving(r@),
            Stage::Cleaning(c) => StageView::Cleaning(c@),
            Stage::Replaying(r) => StageView::Replaying(r@),
            Stage::Running(s) => StageView::Running(s@),
            Stage::Done(o) => StageView::Done(o@),
        }
    }
}

/// A launch under way.
#[derive(Debug, Clone)]
pub struct Launch {
    pub workset: Workset,
    /// Whether the user agreed beforehand to the closing of windows.
    pub preconfirm: bool,
    /// The launcher's own process.
    pub self_pid: i32,
    /// The workspace that the workset asks for.
    pub target: Option<WorkspaceTarget>,
    /// The workspace of the launch, once it is known.
    pub ctx: Option<WorkspaceContext>,
    pub stage: Stage,
}

/// A launch as contracts see it.
pub struct LaunchView {
    /// The workset, which a launch reads and never changes.
    pub workset: WorksetView,
    /// The plan of the workset's layout, if it has one.
    pub plan: Option<Seq<StepView>>,
    pub preconfirm: bool,
    pub self_pid: i32,
    pub target: Option<TargetView>,
    pub ctx: Option<ContextView>,
    pub stage: StageView,
}

/// The plan of a workset's layout, if it has one.
pub open spec fn workset_plan(ws: &Workset) -> Option<Seq<StepView>> {
    match ws.layout {
        Some(node) => Some(plan_of(&node, defaults_of(ws))),
        None => None,
    }
}

impl View for Launch {
    type V = LaunchView;

    open spec fn view(&self) -> LaunchView {
        LaunchView {
            workset: self.workset@,
            plan: workset_plan(&self.workset),
            preconfirm: self.preconfirm,
            self_pid: self.self_pid,
            target: self.target.deep_view(),
            ctx: self.ctx.deep_view(),
            stage: self.stage@,
        }
    }
}

/// The message for a layout that could not be replayed.
pub open spec fn layout_failed_message(id: Seq<char>) -> Seq<char> {
    "failed to launch layout (id: "@ + id + ")"@
}

/// The message for commands that could not be run.
pub open spec fn commands_failed_message(id: Seq<char>) -> Seq<char> {
    "failed to run commands (id: "@ + id + ")"@
}

/// A state of a launch and what it asks next.
pub type LaunchTurn = (LaunchView, Option<RequestView>);

impl LaunchView {
    /// This launch at another stage.
    pub open spec fn with(self, stage: StageView) -> LaunchView {
        LaunchView { stage, ..self }
    }

    /// The launch ends.
    pub open spec fn finish(self, outcome: OutcomeView) -> LaunchTurn {
        (self.with(StageView::Done(outcome)), None)
    }

    /// The launch ends with an error.
    pub open spec fn fail(self, e: ErrorView) -> LaunchTurn {
        self.finish(OutcomeView::Failed(e))
    }

    /// How the launch ended, once it has.
    pub open spec fn outcome(self) -> Option<OutcomeView> {
        match self.stage {
            StageView::Done(o) => Some(o),
            _ => None,
        }
    }

    /// The workspace is known: its cleanup begins.
    pub open spec fn clean(self, ctx: ContextView) -> LaunchTurn {
        let (c, ask) = CleanupView::begin(self.preconfirm, self.self_pid);
        (LaunchView { ctx: Some(ctx), stage: StageView::Cleaning(c), ..self }, ask)
    }

    /// The workspace is clear: the layout is replayed if there is one, else
    /// the commands are run.
    pub open spec fn start(self) -> LaunchTurn {
        match self.plan {
            Some(plan) => {
                let (r, ask) = ReplayView::begin(plan);
                (self.with(StageView::Replaying(r)), ask)
            },
            None => {
                let (s, ask) = SequenceView::begin(
                    self.workset.commands,
                    self.workset.cwd,
                    self.workset.env,
                    self.target,
                );
                match s.phase {
                    SequencePhaseView::Completed => self.finish(OutcomeView::Launched),
                    SequencePhaseView::Failed(e) => self.fail(
                        e.wrap(commands_failed_message(self.workset.id)),
                    ),
                    _ => (self.with(StageView::Running(s)), ask),
                }
            },
        }
    }

    /// One step of the launch: the state it moves to on `reply`, received at
    /// the moment `now`, and what it asks next. Once it has ended it stays as
    /// it is and asks nothing.
    pub open spec fn step(self, reply: ReplyView, now: u64) -> LaunchTurn {
        match self.stage {
            StageView::Locking => match reply {
                ReplyView::Done => match self.target {
                    Some(_) => {
                        let (a, ask) = ActivateView::begin_activate();
                        (self.with(StageView::Activating(a)), ask)
                    },
                    None => {
                        let (r, ask) = ResolveView::begin();
                        (self.with(StageView::Resolving(r)), ask)
                    },
                },
                ReplyView::Failed(cause) => self.fail(
                    ErrorView::plain(FailureKind::Gateway, cause),
                ),
                _ => self.fail(ErrorView::protocol()),
            },
            StageView::Activating(a) => match self.target {
                Some(t) => {
                    let (a2, ask) = a.step(t, reply, now);
                    match a2 {
                        ActivateView::Settled(Some(ctx)) => self.clean(ctx),
                        ActivateView::Settled(None) => self.fail(ErrorView::protocol()),
                        ActivateView::Failed(e) => self.fail(e),
                        _ => (self.with(StageView::Activating(a2)), ask),
                    }
                },
                None => self.fail(ErrorView::protocol()),
            },
            StageView::Resolving(r) => {
                let (r2, ask) = r.step(reply);
                match r2 {
                    ResolveView::Found(ctx, _) => self.clean(ctx),
                    ResolveView::Failed(e) => self.fail(e),
                    _ => (self.with(StageView::Resolving(r2)), ask),
                }
            },
            StageView::Cleaning(c) => match self.ctx {
                Some(ctx) => {
                    let (c2, ask) = c.step(ctx, reply, now);
                    match c2.phase {
                        CleanupPhaseView::Proceed(_) => self.start(),
                        CleanupPhaseView::Cancelled => self.finish(OutcomeView::Cancelled),
                        CleanupPhaseView::Failed(e) => self.fail(
                            e.wrap("failed to clean target workspace before launch"@),
                        ),
                        _ => (self.with(StageView::Cleaning(c2)), ask),
                    }
                },
                None => self.fail(ErrorView::protocol()),
            },
            StageView::Replaying(r) => match self.ctx {
                Some(ctx) => {
                    let (r2, ask) = r.step(ctx, self.target, reply, now);
                    match r2.phase {
                        PhaseView::Completed => self.finish(OutcomeView::Launched),
                        PhaseView::Failed(e) => self.fail(e.wrap(layout_failed_message(self.workset.id))),
                        _ => (self.with(StageView::Replaying(r2)), ask),
                    }
                },
                None => self.fail(ErrorView::protocol()),
            },
            StageView::Running(s) => {
                let (s2, ask) = s.step(self.target, reply, now);
                match s2.phase {
                    SequencePhaseView::Completed => self.finish(OutcomeView::Launched),
                    SequencePhaseView::Failed(e) => self.fail(
                        e.wrap(commands_failed_message(self.workset.id)),
                    ),
                    _ => (self.with(StageView::Running(s2)), ask),
                }
            },
            StageView::Done(_) => (self, None),
        }
    }

    /// The launch of a workset before anything has happened: it asks for the
    /// lock.
    pub open spec fn begin(
        workset: WorksetView,
        plan: Option<Seq<StepView>>,
        preconfirm: bool,
        self_pid: i32,
    ) -> LaunchTurn {
        (
            LaunchView {
                workset,
                plan,
                preconfirm,
                self_pid,
                target: override_of(workset.workspace),
                ctx: None,
                stage: StageView::Locking,
            },
            Some(RequestView::AcquireLock),
        )
    }
}

/// A lock that cannot be taken ends the launch before anything was asked of
/// the window manager.
pub proof fn law_lock_failure_is_first(l: LaunchView, cause: Seq<char>, now: u64)
    requires
        l.stage is Locking,
    ensures
        l.step(ReplyView::Failed(cause), now) == l.fail(
            ErrorView::plain(FailureKind::Gateway, cause),
        ),
{
}

/// A launch reads its workset and never changes it.
pub proof fn law_workset_is_kept(l: LaunchView, reply: ReplyView, now: u64)
    ensures
        l.step(reply, now).0.workset == l.workset,
        l.step(reply, now).0.plan == l.plan,
        l.step(reply, now).0.target == l.target,
{
}

/// A launch that has ended stays ended and asks nothing more.
pub proof fn law_ended_launch_stays(l: LaunchView, reply: ReplyView, now: u64)
    requires
        l.stage is Done,
    ensures
        l.step(reply, now) == (l, None::<RequestView>),
{
}

/// Declining the cleanup's question ends the launch as cancelled, with no
/// window closed and nothing launched: the step that takes the answer asks
/// nothing, and the launch has ended.
pub proof fn law_declined_launch_is_cancelled(
    l: LaunchView,
    c: CleanupView,
    ctx: ContextView,
    answer: Seq<char>,
    now: u64,
)
    requires
        l.stage == StageView::Cleaning(c),
        l.ctx == Some(ctx),
        c.phase is Confirming,
        !crate::cleanup::affirmative(answer),
    ensures
        l.step(ReplyView::Line(answer), now) == l.finish(OutcomeView::Cancelled),
{
}

/// A workset with neither layout nor commands is launched as soon as its
/// workspace is clear, with no dispatch at all.
pub proof fn law_empty_workset_launches_at_once(l: LaunchView)
    requires
        l.plan is None,
        l.workset.commands.len() == 0,
    ensures
        l.start() == l.finish(OutcomeView::Launched),
{
}

fn layout_failed(id: &String, e: LaunchError) -> (out: LaunchError)
    ensures
        out@ == e@.wrap(layout_failed_message(id@)),
{
    let mut text = String::from_str("failed to launch layout (id: ");
    text.append(id.as_str());
    text.append(")");
    assert(text@ =~= layout_failed_message(id@));
    e.wrap(text)
}

fn commands_failed(id: &String, e: LaunchError) -> (out: LaunchError)
    ensures
        out@ == e@.wrap(commands_failed_message(id@)),
{
    let mut text = String::from_str("failed to run commands (id: ");
    text.append(id.as_str());
    text.append(")");
    assert(text@ =~= commands_failed_message(id@));
    e.wrap(text)
}

/// Starts the launch of a workset. `preconfirm` says that the user agreed
/// beforehand to the closing of the windows that are in the way, and
/// `self_pid` is the launcher's own process. The first thing asked for is
/// the lock.
pub fn run_workset(ws: Workset, preconfirm: bool, self_pid: i32) -> (out: (
    Launch,
    Option<Request>,
))
    ensures
        (out.0@, out.1.deep_view()) == LaunchView::begin(
            ws@,
            workset_plan(&ws),
            preconfirm,
            self_pid,
        ),
        out.0.workset == ws,
{
    let target = workspace_override(&ws);
    (
        Launch { workset: ws, preconfirm, self_pid, target, ctx: None, stage: Stage::Locking },
        Some(Request::AcquireLock),
    )
}

impl Launch {
    /// Whether the launch has ended.
    pub fn ended(&self) -> (b: bool)
        ensures
            b == self@.stage is Done,
    {
        match self.stage {
            Stage::Done(_) => true,
            _ => false,
        }
    }

    fn with_stage(self, stage: Stage) -> (out: Launch)
        ensures
            out@ == self@.with(stage@),
            out.workset == self.workset,
    {
        let Launch { workset, preconfirm, self_pid, target, ctx, stage: _ } = self;
        Launch { workset, preconfirm, self_pid, target, ctx, stage }
    }

    fn finish(self, outcome: Outcome) -> (out: (Launch, Option<Request>))
        ensures
            (out.0@, out.1.deep_view()) == self@.finish(outcome@),
            out.0.workset == self.workset,
    {
        (self.with_stage(Stage::Done(outcome)), None)
    }

    fn fail(self, e: LaunchError) -> (out: (Launch, Option<Request>))
        ensures
            (out.0@, out.1.deep_view()) == self@.fail(e@),
            out.0.workset == self.workset,
    {
        self.finish(Outcome::Failed(e))
    }

    fn clean(self, found: WorkspaceContext) -> (out: (Launch, Option<Request>))
        ensures
            (out.0@, out.1.deep_view()) == self@.clean(found@),
            out.0.workset == self.workset,
    {
        let Launch { workset, preconfirm, self_pid, target, ctx: _, stage: _ } = self;
        let (c, ask) = clean_workspace(preconfirm, self_pid);
        (
            Launch {
                workset,
                preconfirm,
                self_pid,
                target,
                ctx: Some(found),
                stage: Stage::Cleaning(c),
            },
            ask,
        )
    }

    fn start(self) -> (out: (Launch, Option<Request>))
        ensures
            (out.0@, out.1.deep_view()) == self@.start(),
            out.0.workset == self.workset,
    {
        match &self.workset.layout {
            Some(node) => {
                let (r, ask) = run_layout(node, &self.workset);
                (self.with_stage(Stage::Replaying(r)), ask)
            },
            None => {
                let target: Option<&WorkspaceTarget> = match &self.target {
                    Some(t) => Some(t),
                    None => None,
                };
                let (s, ask) = run_commands(&self.workset, target);
                let Sequence { commands, cwd, env, next, phase } = s;
                match phase {
                    SequencePhase::Completed => self.finish(Outcome::Launched),
                    SequencePhase::Failed(e) => {
                        let e = commands_failed(&self.workset.id, e);
                        self.fail(e)
                    },
                    other => (
                        self.with_stage(
                            Stage::Running(Sequence { commands, cwd, env, next, phase: other }),
                        ),
                        ask,
                    ),
                }
            },
        }
    }

    /// Takes the reply to the last request, received at the moment `now` of a
    /// clock that counts milliseconds and never runs backwards, and says what
    /// to do next; nothing, once the launch has ended.
    pub fn feed(self, reply: Reply, now: u64) -> (out: (Launch, Option<Request>))
        ensures
            (out.0@, out.1.deep_view()) == self@.step(reply@, now),
            out.0.workset == self.workset,
            out.0.workset@ == self.workset@,
    {
        // the stage is taken out of the launch, and every arm puts one in
        let Launch { workset, preconfirm, self_pid, target, ctx, stage } = self;
        match stage {
            Stage::Locking => {
                let me = Launch { workset, preconfirm, self_pid, target, ctx, stage: Stage::Locking };
                match reply {
                    Reply::Done => {
                        if me.target.is_some() {
                            let (a, ask) = ensure_target_active();
                            (me.with_stage(Stage::Activating(a)), ask)
                        } else {
                            let (r, ask) = resolve_active_workspace();
                            (me.with_stage(Stage::Resolving(r)), ask)
                        }
                    },
                    Reply::Failed(cause) => me.fail(
                        LaunchError::plain(FailureKind::Gateway, cause),
                    ),
                    _ => me.fail(LaunchError::protocol()),
                }
            },
            Stage::Activating(a) => {
                let me = Launch { workset, preconfirm, self_pid, target, ctx, stage: Stage::Locking };
                let step = match &me.target {
                    Some(t) => Some(a.feed(t, reply, now)),
                    None => None,
                };
                match step {
                    Some((a2, ask)) => match a2 {
                        Activate::Settled(Some(found)) => me.clean(found),
                        Activate::Settled(None) => me.fail(LaunchError::protocol()),
                        Activate::Failed(e) => me.fail(e),
                        other => (me.with_stage(Stage::Activating(other)), ask),
                    },
                    None => me.fail(LaunchError::protocol()),
                }
            },
            Stage::Resolving(r) => {
                let me = Launch { workset, preconfirm, self_pid, target, ctx, stage: Stage::Locking };
                let (r2, ask) = r.feed(reply);
                match r2 {
                    Resolve::Found(found, _) => me.clean(found),
                    Resolve::Failed(e) => me.fail(e),
                    other => (me.with_stage(Stage::Resolving(other)), ask),
                }
            },
            Stage::Cleaning(c) => {
                let me = Launch { workset, preconfirm, self_pid, target, ctx, stage: Stage::Locking };
                let step = match &me.ctx {
                    Some(x) => Some(c.feed(x, reply, now)),
                    None => None,
                };
                match step {
                    Some((c2, ask)) => {
                        let Cleanup { preconfirm: p, self_pid: s, phase } = c2;
                        match phase {
                            CleanupPhase::Proceed(_) => me.start(),
                            CleanupPhase::Cancelled => me.finish(Outcome::Cancelled),
                            CleanupPhase::Failed(e) => me.fail(
                                e.wrap(
                                    String::from_str(
                                        "failed to clean target workspace before launch",
                                    ),
                                ),
                            ),
                            other => (
                                me.with_stage(
                                    Stage::Cleaning(
                                        Cleanup { preconfirm: p, self_pid: s, phase: other },
                                    ),
                                ),
                                ask,
                            ),
                        }
                    },
                    None => me.fail(LaunchError::protocol()),
                }
            },
            Stage::Replaying(r) => {
                let me = Launch { workset, preconfirm, self_pid, target, ctx, stage: Stage::Locking };
                let step = match &me.ctx {
                    Some(x) => {
                        let t: Option<&WorkspaceTarget> = match &me.target {
                            Some(t) => Some(t),
                            None => None,
                        };
                        Some(r.feed(x, t, reply, now))
                    },
                    None => None,
                };
                match step {
                    Some((r2, ask)) => {
                        let Replay { plan, pc, base, known, anchor, held, phase } = r2;
                        match phase {
                            ReplayPhase::Completed => me.finish(Outcome::Launched),
                            ReplayPhase::Failed(e) => {
                                let e = layout_failed(&me.workset.id, e);
                                me.fail(e)
                            },
                            other => (
                                me.with_stage(
                                    Stage::Replaying(
                                        Replay { plan, pc, base, known, anchor, held, phase: other },
                                    ),
                                ),
                                ask,
                            ),
                        }
                    },
                    None => me.fail(LaunchError::protocol()),
                }
            },
            Stage::Running(s) => {
                let me = Launch { workset, preconfirm, self_pid, target, ctx, stage: Stage::Locking };
                let t: Option<&WorkspaceTarget> = match &me.target {
                    Some(t) => Some(t),
                    None => None,
                };
                let (s2, ask) = s.feed(t, reply, now);
                let Sequence { commands, cwd, env, next, phase } = s2;
                match phase {
                    SequencePhase::Completed => me.finish(Outcome::Launched),
                    SequencePhase::Failed(e) => {
                        let e = commands_failed(&me.workset.id, e);
                        me.fail(e)
                    },
                    other => (
                        me.with_stage(
                            Stage::Running(Sequence { commands, cwd, env, next, phase: other }),
                        ),
                        ask,
                    ),
                }
            },
            Stage::Done(o) => (
                Launch { workset, preconfirm, self_pid, target, ctx, stage: Stage::Done(o) },
                None,
            ),
        }
    }
}

} // verus!
