//! Waiting for the window manager: look, and if the wanted state is not there
//! yet, sleep a moment and look again, until a deadline has passed.
use crate::decimal::{decimal, push_decimal};
use crate::gateway::{
    clients_on, count_on, ErrorView, FailureKind, LaunchError, Reply, ReplyView, Request,
    RequestView, WINDOW_APPEAR_TIMEOUT, WINDOW_CLOSE_TIMEOUT, WINDOW_POLL_INTERVAL,
};
use crate::workspace::{context_label, ContextView, WorkspaceContext};
use vstd::prelude::*;
use vstd::string::StringExecFns;

verus! {

/// The moment `timeout` milliseconds after `now`, held at the largest moment
/// that the clock can show.
pub open spec fn deadline_after(now: u64, timeout: u64) -> u64 {
    if now + timeout > u64::MAX {
        u64::MAX
    } else {
        (now + timeout) as u64
    }
}

/// The moment `timeout` milliseconds after `now`.
pub fn deadline(now: u64, timeout: u64) -> (at: u64)
    ensures
        at == deadline_after(now, timeout),
{
    if now > u64::MAX - timeout {
        u64::MAX
    } else {
        now + timeout
    }
}

/// What one look decides.
#[derive(Debug, Clone, Copy, PartialEq, Eq, Structural)]
pub enum Verdict {
    /// The wanted state is there.
    Satisfied,
    /// It is not, and the deadline has passed.
    TimedOut,
    /// It is not, and there is time left: sleep, then look again.
    Retry,
}

/// The verdict of one look made at the moment `now`.
pub open spec fn verdict_of(satisfied: bool, now: u64, deadline: u64) -> Verdict {
    if satisfied {
        Verdict::Satisfied
    } else if now >= deadline {
        Verdict::TimedOut
    } else {
        Verdict::Retry
    }
}

/// Decides one look: the wanted state counts even when seen after the
/// deadline.
pub fn poll(satisfied: bool, now: u64, deadline: u64) -> (v: Verdict)
    ensures
        v == verdict_of(satisfied, now, deadline),
{
    if satisfied {
        Verdict::Satisfied
    } else if now >= deadline {
        Verdict::TimedOut
    } else {
        Verdict::Retry
    }
}

/// A time span as messages show it: whole seconds and the letter `s`.
pub open spec fn seconds_text(ms: u64) -> Seq<char> {
    decimal((ms / 1000) as nat) + "s"@
}

/// Appends a time span as messages show it.
pub fn push_seconds(out: &mut String, ms: u64)
    ensures
        final(out)@ == old(out)@ + seconds_text(ms),
{
    push_decimal(out, ms / 1000);
    out.append("s");
    assert(final(out)@ =~= old(out)@ + seconds_text(ms));
}

/// What a wait for windows wants of their number.
#[derive(Debug, Clone, Copy, PartialEq, Eq, Structural)]
pub enum WaitGoal {
    /// At least so many windows: they are appearing.
    AtLeast,
    /// At most so many windows: they are closing.
    AtMost,
}

/// Whether `count` windows meet the goal.
pub open spec fn goal_met(goal: WaitGoal, count: nat, bound: nat) -> bool {
    match goal {
        WaitGoal::AtLeast => count >= bound,
        WaitGoal::AtMost => count <= bound,
    }
}

/// The time that has passed at the moment `now` since the moment `started`,
/// in milliseconds; none where the clock shows an earlier moment.
pub open spec fn elapsed_since(started: u64, now: u64) -> u64 {
    if now >= started {
        (now - started) as u64
    } else {
        0
    }
}

/// The time that has passed since `started`.
pub fn elapsed(started: u64, now: u64) -> (ms: u64)
    ensures
        ms == elapsed_since(started, now),
{
    if now >= started {
        now - started
    } else {
        0
    }
}

/// How long a wait with this goal may take, in milliseconds.
pub open spec fn wait_budget(goal: WaitGoal) -> u64 {
    match goal {
        WaitGoal::AtLeast => WINDOW_APPEAR_TIMEOUT,
        WaitGoal::AtMost => WINDOW_CLOSE_TIMEOUT,
    }
}

/// The message of a wait that ran out of time: it names the workspace, the
/// time that has passed, the number of windows seen and the number wanted.
pub open spec fn timeout_message(
    goal: WaitGoal,
    label: Seq<char>,
    waited: u64,
    count: nat,
    bound: nat,
) -> Seq<char> {
    let what = match goal {
        WaitGoal::AtLeast => " waiting for clients ("@,
        WaitGoal::AtMost => " waiting for clients to close ("@,
    };
    label + ": timed out after "@ + seconds_text(waited) + what + decimal(count) + "/"@ + decimal(
        bound,
    ) + ")"@
}

/// The kind of failure that a wait with this goal ends with when it runs out
/// of time.
pub open spec fn timeout_kind(goal: WaitGoal) -> FailureKind {
    match goal {
        WaitGoal::AtLeast => FailureKind::AppearTimeout,
        WaitGoal::AtMost => FailureKind::DrainTimeout,
    }
}

/// Where a wait for windows stands.
#[derive(Debug, Clone)]
pub enum WaitPhase {
    /// The windows are being listed.
    Counting,
    /// The pause before the next look.
    Resting,
    /// The goal was met.
    Reached,
    Failed(LaunchError),
}

/// A phase of a wait as contracts see it.
pub enum WaitPhaseView {
    Counting,
    Resting,
    Reached,
    Failed(ErrorView),
}

/// A wait until the number of windows on a workspace meets a goal.
#[derive(Debug, Clone)]
pub struct CountWait {
    pub goal: WaitGoal,
    pub bound: usize,
    /// The moment at which the wait began.
    pub started: u64,
    pub deadline: u64,
    pub phase: WaitPhase,
}

/// A wait as contracts see it.
pub struct CountWaitView {
    pub goal: WaitGoal,
    pub bound: usize,
    pub started: u64,
    pub deadline: u64,
    pub phase: WaitPhaseView,
}

impl View for WaitPhase {
    type V = WaitPhaseView;

    open spec fn view(&self) -> WaitPhaseView {
        match self {
            WaitPhase::Counting => WaitPhaseView::Counting,
            WaitPhase::Resting => WaitPhaseView::Resting,
            WaitPhase::Reached => WaitPhaseView::Reached,
            WaitPhase::Failed(e) => WaitPhaseView::Failed(e@),
        }
    }
}

impl View for CountWait {
    type V = CountWaitView;

    open spec fn view(&self) -> CountWaitView {
        CountWaitView {
            goal: self.goal,
            bound: self.bound,
            started: self.started,
            deadline: self.deadline,
            phase: self.phase@,
        }
    }
}

impl CountWaitView {
    /// A wait that starts at the moment `now`: it lists the windows first.
    pub open spec fn begin(goal: WaitGoal, bound: usize, now: u64) -> (CountWaitView, Option<
        RequestView,
    >) {
        (
            CountWaitView {
                goal,
                bound,
                started: now,
                deadline: deadline_after(now, wait_budget(goal)),
                phase: WaitPhaseView::Counting,
            },
            Some(RequestView::ListClients),
        )
    }

    /// This wait in another phase.
    pub open spec fn with(self, phase: WaitPhaseView) -> CountWaitView {
        CountWaitView { phase, ..self }
    }

    /// One step of the wait: the state it moves to on `reply`, received at
    /// the moment `now`, and what it asks next. It asks nothing once it has
    /// ended.
    pub open spec fn step(self, ctx: ContextView, reply: ReplyView, now: u64) -> (
        CountWaitView,
        Option<RequestView>,
    ) {
        match self.phase {
            WaitPhaseView::Counting => match reply {
                ReplyView::Clients(clients) => {
                    let count = clients_on(clients, ctx).len();
                    match verdict_of(
                        goal_met(self.goal, count, self.bound as nat),
                        now,
                        self.deadline,
                    ) {
                        Verdict::Satisfied => (self.with(WaitPhaseView::Reached), None),
                        Verdict::TimedOut => (
                            self.with(
                                WaitPhaseView::Failed(
                                    ErrorView::plain(
                                        timeout_kind(self.goal),
                                        timeout_message(
                                            self.goal,
                                            context_label(ctx),
                                            elapsed_since(self.started, now),
                                            count,
                                            self.bound as nat,
                                        ),
                                    ),
                                ),
                            ),
                            None,
                        ),
                        Verdict::Retry => (
                            self.with(WaitPhaseView::Resting),
                            Some(RequestView::Sleep(WINDOW_POLL_INTERVAL)),
                        ),
                    }
                },
                ReplyView::Failed(cause) => (
                    self.with(
                        WaitPhaseView::Failed(
                            ErrorView::gateway("failed to list Hyprland clients"@, cause),
                        ),
                    ),
                    None,
                ),
                _ => (self.with(WaitPhaseView::Failed(ErrorView::protocol())), None),
            },
            WaitPhaseView::Resting => match reply {
                ReplyView::Done => (
                    self.with(WaitPhaseView::Counting),
                    Some(RequestView::ListClients),
                ),
                _ => (self.with(WaitPhaseView::Failed(ErrorView::protocol())), None),
            },
            WaitPhaseView::Reached => (self, None),
            WaitPhaseView::Failed(_) => (self, None),
        }
    }
}

fn timeout_error(goal: WaitGoal, ctx: &WorkspaceContext, waited: u64, count: usize, bound: usize)
    -> (e: LaunchError)
    ensures
        e@ == ErrorView::plain(
            timeout_kind(goal),
            timeout_message(goal, context_label(ctx@), waited, count as nat, bound as nat),
        ),
{
    let mut text = ctx.label();
    text.append(": timed out after ");
    push_seconds(&mut text, waited);
    match goal {
        WaitGoal::AtLeast => text.append(" waiting for clients ("),
        WaitGoal::AtMost => text.append(" waiting for clients to close ("),
    }
    push_decimal(&mut text, count as u64);
    text.append("/");
    push_decimal(&mut text, bound as u64);
    text.append(")");
    assert(text@ =~= timeout_message(
        goal,
        context_label(ctx@),
        waited,
        count as nat,
        bound as nat,
    ));
    let kind = match goal {
        WaitGoal::AtLeast => FailureKind::AppearTimeout,
        WaitGoal::AtMost => FailureKind::DrainTimeout,
    };
    LaunchError::plain(kind, text)
}

/// Starts waiting, at the moment `now`, until the workspace has at least
/// `target` windows.
pub fn wait_for_clients_on_workspace(target: usize, now: u64) -> (out: (
    CountWait,
    Option<Request>,
))
    ensures
        (out.0@, out.1.deep_view()) == CountWaitView::begin(WaitGoal::AtLeast, target, now),
{
    (
        CountWait {
            goal: WaitGoal::AtLeast,
            bound: target,
            started: now,
            deadline: deadline(now, WINDOW_APPEAR_TIMEOUT),
            phase: WaitPhase::Counting,
        },
        Some(Request::ListClients),
    )
}

/// Starts waiting, at the moment `now`, until the workspace has at most
/// `max` windows.
pub fn wait_for_clients_at_most(max: usize, now: u64) -> (out: (CountWait, Option<Request>))
    ensures
        (out.0@, out.1.deep_view()) == CountWaitView::begin(WaitGoal::AtMost, max, now),
{
    (
        CountWait {
            goal: WaitGoal::AtMost,
            bound: max,
            started: now,
            deadline: deadline(now, WINDOW_CLOSE_TIMEOUT),
            phase: WaitPhase::Counting,
        },
        Some(Request::ListClients),
    )
}

impl CountWait {

    /// Whether the wait has ended, well or not.
    pub fn ended(&self) -> (b: bool)
        ensures
            b == (self.phase is Reached || self.phase is Failed),
    {
        match self.phase {
            WaitPhase::Reached => true,
            WaitPhase::Failed(_) => true,
            _ => false,
        }
    }

    /// Takes one reply, received at the moment `now`, and moves on.
    pub fn feed(self, ctx: &WorkspaceContext, reply: Reply, now: u64) -> (out: (
        CountWait,
        Option<Request>,
    ))
        ensures
            (out.0@, out.1.deep_view()) == self@.step(ctx@, reply@, now),
    {
        let CountWait { goal, bound, started, deadline, phase } = self;
        match phase {
            WaitPhase::Counting => match reply {
                Reply::Clients(clients) => {
                    let count = count_on(&clients, ctx);
                    let met = match goal {
                        WaitGoal::AtLeast => count >= bound,
                        WaitGoal::AtMost => count <= bound,
                    };
                    match poll(met, now, deadline) {
                        Verdict::Satisfied => (
                            CountWait { goal, bound, started, deadline, phase: WaitPhase::Reached },
                            None,
                        ),
                        Verdict::TimedOut => (
                            CountWait {
                                goal,
                                bound,
                                started,
                                deadline,
                                phase: WaitPhase::Failed(
                                    timeout_error(goal, ctx, elapsed(started, now), count, bound),
                                ),
                            },
                            None,
                        ),
                        Verdict::Retry => (
                            CountWait { goal, bound, started, deadline, phase: WaitPhase::Resting },
                            Some(Request::Sleep(WINDOW_POLL_INTERVAL)),
                        ),
                    }
                },
                Reply::Failed(cause) => (
                    CountWait {
                        goal,
                        bound,
                        started,
                        deadline,
                        phase: WaitPhase::Failed(
                            LaunchError::gateway("failed to list Hyprland clients", cause),
                        ),
                    },
                    None,
                ),
                _ => (
                    CountWait {
                        goal,
                        bound,
                        started,
                        deadline,
                        phase: WaitPhase::Failed(LaunchError::protocol()),
                    },
                    None,
                ),
            },
            WaitPhase::Resting => match reply {
                Reply::Done => (
                    CountWait { goal, bound, started, deadline, phase: WaitPhase::Counting },
                    Some(Request::ListClients),
                ),
                _ => (
                    CountWait {
                        goal,
                        bound,
                        started,
                        deadline,
                        phase: WaitPhase::Failed(LaunchError::protocol()),
                    },
                    None,
                ),
            },
            WaitPhase::Reached => (
                CountWait { goal, bound, started, deadline, phase: WaitPhase::Reached },
                None,
            ),
            WaitPhase::Failed(e) => (
                CountWait { goal, bound, started, deadline, phase: WaitPhase::Failed(e) },
                None,
            ),
        }
    }
}

} // verus!
