//! The protocol between a launch and its driver. Every state of a launch
//! waits for the reply to one request, and a driver that answers each request
//! with a reply of its kind never sees a launch end in a protocol error: the
//! launch itself never loses track of what it asked for.
use crate::ancestry::WalkView;
use crate::cleanup::{question, CleanupPhaseView, CleanupView};
use crate::gateway::{
    ErrorView, FailureKind, ReplyView, RequestView, SLOT_LAUNCH_DELAY, WINDOW_POLL_INTERVAL,
};
use crate::launch::{LaunchView, OutcomeView, StageView};
use crate::plan::StepView;
use crate::poll::{CountWaitView, WaitPhaseView};
use crate::ratio::split_ratio_arg;
use crate::replay::{PhaseView, ReplayView};
use crate::resolve::{ActivateView, ResolveView};
use crate::sequence::{SequencePhaseView, SequenceView};
use crate::shell::exec_command;
use crate::workspace::{context_label, ContextView, TargetView};
use vstd::prelude::*;

verus! {

/// Whether a reply is of the kind that answers a request: the result that
/// the request asks for, or its failure where it can fail.
pub open spec fn fits(reply: ReplyView, ask: RequestView) -> bool {
    match ask {
        RequestView::ListClients => reply is Clients || reply is Failed,
        RequestView::ActiveClient => reply is ActiveClient || reply is Failed,
        RequestView::ActiveMonitor => reply is Monitor || reply is Failed,
        RequestView::Confirm(_) => reply is Line || reply is Failed,
        RequestView::ProcessStatus(_) => reply is Status || reply is Failed,
        RequestView::Sleep(_) => reply is Done,
        _ => reply is Done || reply is Failed,
    }
}

/// Whether a reply answers what a state waits for. A state that waits for
/// nothing is answered by anything.
pub open spec fn answers(reply: ReplyView, awaited: Option<RequestView>) -> bool {
    match awaited {
        Some(ask) => fits(reply, ask),
        None => true,
    }
}

/// Whether an error is the launch's own or the driver's, and not a breach of
/// the protocol.
pub open spec fn regular(e: ErrorView) -> bool {
    e.kind != FailureKind::Protocol
}

impl ResolveView {
    /// The request that the search waits for.
    pub open spec fn awaited(self) -> Option<RequestView> {
        match self {
            ResolveView::Listing => Some(RequestView::ListClients),
            ResolveView::Probing(_) => Some(RequestView::ActiveClient),
            ResolveView::Surveying(_) => Some(RequestView::ActiveMonitor),
            _ => None,
        }
    }

    /// Whether the search has not ended in a protocol error.
    pub open spec fn sound(self) -> bool {
        match self {
            ResolveView::Failed(e) => regular(e),
            _ => true,
        }
    }
}

/// A step of the search asks for what its new state waits for, and stays
/// sound on a reply that answers what it waited for.
pub proof fn law_resolve_keeps_protocol(r: ResolveView, reply: ReplyView)
    ensures
        r.step(reply).1 == r.step(reply).0.awaited(),
        r.sound() && answers(reply, r.awaited()) ==> r.step(reply).0.sound(),
{
}

impl CountWaitView {
    /// The request that the wait waits for.
    pub open spec fn awaited(self) -> Option<RequestView> {
        match self.phase {
            WaitPhaseView::Counting => Some(RequestView::ListClients),
            WaitPhaseView::Resting => Some(RequestView::Sleep(WINDOW_POLL_INTERVAL)),
            _ => None,
        }
    }

    /// Whether the wait has not ended in a protocol error.
    pub open spec fn sound(self) -> bool {
        match self.phase {
            WaitPhaseView::Failed(e) => regular(e),
            _ => true,
        }
    }
}

/// A step of a wait asks for what its new state waits for, and stays sound
/// on a reply that answers what it waited for.
pub proof fn law_wait_keeps_protocol(w: CountWaitView, ctx: ContextView, reply: ReplyView, now: u64)
    ensures
        w.step(ctx, reply, now).1 == w.step(ctx, reply, now).0.awaited(),
        w.sound() && answers(reply, w.awaited()) ==> w.step(ctx, reply, now).0.sound(),
{
}

impl WalkView {
    /// The request that the walk waits for: the record of the process found
    /// last.
    pub open spec fn awaited(self) -> Option<RequestView> {
        if self.done || self.pids.len() == 0 {
            None
        } else {
            Some(RequestView::ProcessStatus(self.pids.last()))
        }
    }
}

/// A step of the walk asks for what its new state waits for. The walk has
/// no errors.
pub proof fn law_walk_keeps_protocol(w: WalkView, reply: ReplyView)
    ensures
        w.step(reply).1 == w.step(reply).0.awaited(),
{
}

impl ActivateView {
    /// The request that the state waits for.
    pub open spec fn awaited(self, target: TargetView) -> Option<RequestView> {
        match self {
            ActivateView::Glancing(r) => r.awaited(),
            ActivateView::Checking(r) => r.awaited(),
            ActivateView::Switching => Some(RequestView::SwitchWorkspace(target)),
            ActivateView::Watching(r, _, _) => r.awaited(),
            ActivateView::Resting(_, _) => Some(RequestView::Sleep(WINDOW_POLL_INTERVAL)),
            _ => None,
        }
    }

    /// Whether the state is one that a launch comes to: its search is under
    /// way, and it has not ended in a protocol error.
    pub open spec fn sound(self) -> bool {
        match self {
            ActivateView::Glancing(r) => r.sound() && r.awaited() is Some,
            ActivateView::Checking(r) => r.sound() && r.awaited() is Some,
            ActivateView::Watching(r, _, _) => r.sound() && r.awaited() is Some,
            ActivateView::Failed(e) => regular(e),
            _ => true,
        }
    }
}

/// A step towards a workspace asks for what its new state waits for, and
/// stays sound on a reply that answers what it waited for.
pub proof fn law_activate_keeps_protocol(
    a: ActivateView,
    target: TargetView,
    reply: ReplyView,
    now: u64,
)
    ensures
        a.sound() ==> a.step(target, reply, now).1 == a.step(target, reply, now).0.awaited(target),
        a.sound() && answers(reply, a.awaited(target)) ==> a.step(target, reply, now).0.sound(),
        ActivateView::begin_focus(Some(target)).0.sound(),
        ActivateView::begin_focus(Some(target)).1 == ActivateView::begin_focus(
            Some(target),
        ).0.awaited(target),
        ActivateView::begin_activate().0.sound(),
        ActivateView::begin_activate().1 == ActivateView::begin_activate().0.awaited(target),
{
}


impl CleanupView {
    /// The request that the cleanup of the workspace `ctx` waits for.
    pub open spec fn awaited(self, ctx: ContextView) -> Option<RequestView> {
        match self.phase {
            CleanupPhaseView::Listing => Some(RequestView::ListClients),
            CleanupPhaseView::Walking(w, _) => w.awaited(),
            CleanupPhaseView::Confirming(cands, _) => Some(
                RequestView::Confirm(question(context_label(ctx), cands.len())),
            ),
            CleanupPhaseView::Closing(cands, i, _) => if i < cands.len() {
                Some(RequestView::CloseWindow(cands[i as int].address))
            } else {
                None
            },
            CleanupPhaseView::Draining(w, _) => w.awaited(),
            _ => None,
        }
    }

    /// Whether the state is one that a cleanup comes to.
    pub open spec fn sound(self) -> bool {
        match self.phase {
            CleanupPhaseView::Walking(w, _) => w.awaited() is Some,
            CleanupPhaseView::Closing(cands, i, _) => i < cands.len(),
            CleanupPhaseView::Draining(w, _) => w.sound() && w.awaited() is Some,
            CleanupPhaseView::Failed(e) => regular(e),
            _ => true,
        }
    }
}

/// A step of a cleanup asks for what its new state waits for, and stays
/// sound on a reply that answers what it waited for.
pub proof fn law_cleanup_keeps_protocol(c: CleanupView, ctx: ContextView, reply: ReplyView, now: u64)
    ensures
        CleanupView::begin(c.preconfirm, c.self_pid).0.sound(),
        CleanupView::begin(c.preconfirm, c.self_pid).1 == CleanupView::begin(
            c.preconfirm,
            c.self_pid,
        ).0.awaited(ctx),
        c.sound() ==> c.step(ctx, reply, now).1 == c.step(ctx, reply, now).0.awaited(ctx),
        c.sound() && answers(reply, c.awaited(ctx)) ==> c.step(ctx, reply, now).0.sound(),
{
    match c.phase {
        CleanupPhaseView::Walking(w, clients) => {
            law_walk_keeps_protocol(w, reply);
        },
        CleanupPhaseView::Draining(w, _) => {
            law_wait_keeps_protocol(w, ctx, reply, now);
        },
        _ => {},
    }
}

impl SequenceView {
    /// The request that the run waits for.
    pub open spec fn awaited(self, target: Option<TargetView>) -> Option<RequestView> {
        match self.phase {
            SequencePhaseView::Focusing(a) => match target {
                Some(t) => a.awaited(t),
                None => None,
            },
            SequencePhaseView::Dispatching => if self.next < self.commands.len() {
                Some(
                    RequestView::Exec(
                        exec_command(self.commands[self.next as int], self.cwd, seq![self.env]),
                    ),
                )
            } else {
                None
            },
            SequencePhaseView::Pausing => Some(RequestView::Sleep(SLOT_LAUNCH_DELAY)),
            _ => None,
        }
    }

    /// Whether the state is one that a run comes to.
    pub open spec fn sound(self, target: Option<TargetView>) -> bool {
        match self.phase {
            SequencePhaseView::Focusing(a) => target matches Some(t) && a.sound() && a.awaited(t) is Some
                && self.next < self.commands.len(),
            SequencePhaseView::Dispatching => self.next < self.commands.len(),
            SequencePhaseView::Pausing => self.next + 1 < self.commands.len(),
            SequencePhaseView::Failed(e) => regular(e),
            _ => true,
        }
    }
}

proof fn lemma_sequence_enter(s: SequenceView, target: Option<TargetView>)
    ensures
        s.enter(target).0.sound(target),
        s.enter(target).1 == s.enter(target).0.awaited(target),
{
    if let Some(t) = target {
        law_activate_keeps_protocol(ActivateView::Switching, t, ReplyView::Done, 0);
    }
}

/// A step of a run of commands asks for what its new state waits for, and
/// stays sound on a reply that answers what it waited for.
pub proof fn law_sequence_keeps_protocol(
    s: SequenceView,
    target: Option<TargetView>,
    reply: ReplyView,
    now: u64,
)
    ensures
        SequenceView::begin(s.commands, s.cwd, s.env, target).0.sound(target),
        SequenceView::begin(s.commands, s.cwd, s.env, target).1 == SequenceView::begin(
            s.commands,
            s.cwd,
            s.env,
            target,
        ).0.awaited(target),
        s.sound(target) ==> s.step(target, reply, now).1 == s.step(target, reply, now).0.awaited(
            target,
        ),
        s.sound(target) && answers(reply, s.awaited(target)) ==> s.step(
            target,
            reply,
            now,
        ).0.sound(target),
{
    lemma_sequence_enter(
        SequenceView {
            commands: s.commands,
            cwd: s.cwd,
            env: s.env,
            next: 0,
            phase: SequencePhaseView::Completed,
        },
        target,
    );
    match s.phase {
        SequencePhaseView::Focusing(a) => {
            if let Some(t) = target {
                law_activate_keeps_protocol(a, t, reply, now);
            }
        },
        SequencePhaseView::Pausing => {
            lemma_sequence_enter(SequenceView { next: s.next + 1, ..s }, target);
        },
        _ => {},
    }
}

impl ReplayView {
    /// The request that the replay waits for.
    pub open spec fn awaited(self, target: Option<TargetView>) -> Option<RequestView> {
        match self.phase {
            PhaseView::Listing => Some(RequestView::ListClients),
            PhaseView::Focusing(a) => match target {
                Some(t) => a.awaited(t),
                None => None,
            },
            PhaseView::Dispatching => match self.current() {
                Some(StepView::Launch { command, .. }) => Some(RequestView::Exec(command)),
                _ => None,
            },
            PhaseView::Waiting(w) => w.awaited(),
            PhaseView::Rationing => match self.current() {
                Some(StepView::Launch { ratio: Some(fraction), .. }) => Some(
                    RequestView::SplitRatio(split_ratio_arg(fraction as nat)),
                ),
                _ => None,
            },
            PhaseView::Scanning => Some(RequestView::ListClients),
            PhaseView::Probing => Some(RequestView::ActiveClient),
            PhaseView::Pausing => Some(RequestView::Sleep(SLOT_LAUNCH_DELAY)),
            PhaseView::Pointing => match self.kept() {
                Some(address) => Some(RequestView::FocusWindow(address)),
                None => None,
            },
            PhaseView::Verifying => Some(RequestView::ActiveClient),
            _ => None,
        }
    }

    /// Whether the state is one that a replay comes to: its phase belongs to
    /// the step that the plan has at its place.
    pub open spec fn sound(self, target: Option<TargetView>) -> bool {
        match self.phase {
            PhaseView::Listing => true,
            PhaseView::Focusing(a) => target matches Some(t) && a.sound() && a.awaited(t) is Some
                && (self.current() matches Some(StepView::Launch { .. }) || self.current()
                == Some(StepView::Focus)),
            PhaseView::Dispatching => self.current() matches Some(StepView::Launch { .. }),
            PhaseView::Waiting(w) => w.sound() && w.awaited() is Some && (self.current() matches Some(
                StepView::Launch { .. },
            ) || self.current() matches Some(StepView::Await { .. })),
            PhaseView::Rationing => self.current() matches Some(
                StepView::Launch { ratio: Some(_), .. },
            ),
            PhaseView::Scanning => self.current() matches Some(StepView::Launch { .. }),
            PhaseView::Probing => self.current() matches Some(StepView::Launch { .. })
                || self.current() matches Some(StepView::Revisit { .. }),
            PhaseView::Pausing => self.current() matches Some(StepView::Launch { .. }),
            PhaseView::Pointing => self.current() == Some(StepView::Focus) && self.kept() is Some,
            PhaseView::Verifying => self.current() == Some(StepView::Focus),
            PhaseView::Completed => true,
            PhaseView::Failed(e) => regular(e),
        }
    }
}

/// Arriving at a step leads to a sound state that waits for what is asked.
pub proof fn lemma_replay_enter(m: ReplayView, target: Option<TargetView>, now: u64)
    ensures
        m.enter(target, now).0.sound(target),
        m.enter(target, now).1 == m.enter(target, now).0.awaited(target),
    decreases m.plan.len() - m.pc,
{
    if let Some(t) = target {
        law_activate_keeps_protocol(ActivateView::Switching, t, ReplyView::Done, 0);
    }
    if m.pc < m.plan.len() {
        match m.plan[m.pc as int] {
            StepView::Hold => {
                lemma_replay_enter(
                    m.holding().advanced(),
                    target,
                    now,
                );
            },
            StepView::Focus => {
                lemma_replay_enter(m.advanced(), target, now);
            },
            StepView::Release => {
                lemma_replay_enter(
                    m.released().advanced(),
                    target,
                    now,
                );
            },
            _ => {},
        }
    }
}

/// A step of a replay asks for what its new state waits for, and stays
/// sound on a reply that answers what it waited for: a replay never loses
/// its place in the plan.
pub proof fn law_replay_keeps_protocol(
    m: ReplayView,
    ctx: ContextView,
    target: Option<TargetView>,
    reply: ReplyView,
    now: u64,
)
    ensures
        ReplayView::begin(m.plan).0.sound(target),
        ReplayView::begin(m.plan).1 == ReplayView::begin(m.plan).0.awaited(target),
        m.sound(target) ==> m.step(ctx, target, reply, now).1 == m.step(
            ctx,
            target,
            reply,
            now,
        ).0.awaited(target),
        m.sound(target) && answers(reply, m.awaited(target)) ==> m.step(
            ctx,
            target,
            reply,
            now,
        ).0.sound(target),
{
    if let Some(t) = target {
        law_activate_keeps_protocol(ActivateView::Switching, t, ReplyView::Done, 0);
    }
    match m.phase {
        PhaseView::Listing => {
            if let ReplyView::Clients(clients) = reply {
                let next = ReplayView {
                    base: crate::plan::clip(crate::gateway::clients_on(clients, ctx).len() as int),
                    known: crate::replay::addresses_on(clients, ctx),
                    ..m
                };
                lemma_replay_enter(next, target, now);
            }
        },
        PhaseView::Focusing(a) => {
            if let Some(t) = target {
                law_activate_keeps_protocol(a, t, reply, now);
                let (a2, ask) = a.step(t, reply, now);
                lemma_replay_enter(m.with(PhaseView::Focusing(a2)).advanced(), target, now);
            }
        },
        PhaseView::Waiting(w) => {
            law_wait_keeps_protocol(w, ctx, reply, now);
            let (w2, ask) = w.step(ctx, reply, now);
            lemma_replay_enter(m.with(PhaseView::Waiting(w2)).advanced(), target, now);
        },
        PhaseView::Scanning => {
            if let ReplyView::Clients(clients) = reply {
                if let Some(address) = crate::replay::first_new(clients, ctx, m.known) {
                    let anchor = Some(address);
                    let next = ReplayView {
                        anchor,
                        known: crate::replay::with_known(m.known, anchor),
                        ..m
                    };
                    lemma_replay_enter(next.advanced(), target, now);
                }
            }
        },
        PhaseView::Probing => {
            let anchor = match reply {
                ReplyView::ActiveClient(focused) => crate::replay::active_on(focused, ctx),
                _ => None,
            };
            let settled = ReplayView {
                anchor,
                known: crate::replay::with_known(m.known, anchor),
                ..m
            };
            lemma_replay_enter(settled.advanced(), target, now);
            lemma_replay_enter(ReplayView { anchor, ..m }.advanced(), target, now);
        },
        PhaseView::Pausing => {
            lemma_replay_enter(m.advanced(), target, now);
        },
        PhaseView::Verifying => {
            lemma_replay_enter(m.advanced(), target, now);
        },
        _ => {},
    }
}

impl LaunchView {
    /// The request that the launch waits for.
    pub open spec fn awaited(self) -> Option<RequestView> {
        match self.stage {
            StageView::Locking => Some(RequestView::AcquireLock),
            StageView::Activating(a) => match self.target {
                Some(t) => a.awaited(t),
                None => None,
            },
            StageView::Resolving(r) => r.awaited(),
            StageView::Cleaning(c) => match self.ctx {
                Some(ctx) => c.awaited(ctx),
                None => None,
            },
            StageView::Replaying(r) => r.awaited(self.target),
            StageView::Running(s) => s.awaited(self.target),
            StageView::Done(_) => None,
        }
    }

    /// Whether the state is one that a launch comes to.
    pub open spec fn sound(self) -> bool {
        match self.stage {
            StageView::Locking => true,
            StageView::Activating(a) => self.target matches Some(t) && a.sound() && a.awaited(t) is Some
                && !(a is Glancing),
            StageView::Resolving(r) => r.sound() && r.awaited() is Some,
            StageView::Cleaning(c) => self.ctx matches Some(ctx) && c.sound() && c.awaited(
                ctx,
            ) is Some,
            StageView::Replaying(r) => self.ctx is Some && r.sound(self.target) && r.awaited(
                self.target,
            ) is Some,
            StageView::Running(s) => s.sound(self.target) && s.awaited(self.target) is Some,
            StageView::Done(OutcomeView::Failed(e)) => regular(e),
            StageView::Done(_) => true,
        }
    }
}

/// A launch asks at every step for what its new state waits for, and a
/// driver that answers each request with a reply of its kind never brings a
/// launch to a protocol error: every failure that such a launch ends with is
/// one of the lock, of a query, of a dispatch or of a timeout.
pub proof fn law_launch_keeps_protocol(l: LaunchView, reply: ReplyView, now: u64)
    requires
        l.sound(),
    ensures
        l.step(reply, now).1 == l.step(reply, now).0.awaited(),
        answers(reply, l.awaited()) ==> l.step(reply, now).0.sound(),
{
    if let Some(t) = l.target {
        law_activate_keeps_protocol(ActivateView::Switching, t, reply, now);
    }
    match l.stage {
        StageView::Locking => {},
        StageView::Activating(a) => {
            if let Some(t) = l.target {
                law_activate_keeps_protocol(a, t, reply, now);
                let (a2, ask) = a.step(t, reply, now);
                if let ActivateView::Settled(Some(ctx)) = a2 {
                    lemma_launch_clean(l, ctx);
                }
            }
        },
        StageView::Resolving(r) => {
            law_resolve_keeps_protocol(r, reply);
            let (r2, ask) = r.step(reply);
            if let ResolveView::Found(ctx, _) = r2 {
                lemma_launch_clean(l, ctx);
            }
        },
        StageView::Cleaning(c) => {
            if let Some(ctx) = l.ctx {
                law_cleanup_keeps_protocol(c, ctx, reply, now);
                lemma_launch_start(l);
            }
        },
        StageView::Replaying(r) => {
            if let Some(ctx) = l.ctx {
                law_replay_keeps_protocol(r, ctx, l.target, reply, now);
            }
        },
        StageView::Running(s) => {
            law_sequence_keeps_protocol(s, l.target, reply, now);
        },
        StageView::Done(_) => {},
    }
}

proof fn lemma_launch_clean(l: LaunchView, ctx: ContextView)
    ensures
        l.clean(ctx).0.sound(),
        l.clean(ctx).1 == l.clean(ctx).0.awaited(),
{
    let c = CleanupView::begin(l.preconfirm, l.self_pid).0;
    law_cleanup_keeps_protocol(c, ctx, ReplyView::Done, 0);
}

proof fn lemma_launch_start(l: LaunchView)
    requires
        l.ctx is Some,
    ensures
        l.start().0.sound(),
        l.start().1 == l.start().0.awaited(),
{
    match l.plan {
        Some(plan) => {
            let r = ReplayView::begin(plan).0;
            law_replay_keeps_protocol(r, l.ctx->0, l.target, ReplyView::Done, 0);
        },
        None => {
            let s = SequenceView::begin(
                l.workset.commands,
                l.workset.cwd,
                l.workset.env,
                l.target,
            ).0;
            law_sequence_keeps_protocol(s, l.target, ReplyView::Done, 0);
        },
    }
}

} // verus!
