//! Finding the workspace to launch on: the active one, or the one that the
//! workset asks for, which is made active first.
use crate::gateway::{
    Client, ClientView, ErrorView, FailureKind, LaunchError, MonitorView, Reply, ReplyView,
    Request, RequestView, WINDOW_POLL_INTERVAL, WORKSPACE_SWITCH_TIMEOUT,
};
use crate::poll::{
    deadline, deadline_after, elapsed, elapsed_since, poll, push_seconds, seconds_text, verdict_of,
    Verdict,
};
use crate::text::{blank, is_blank};
use crate::workspace::{
    context_of, target_label, target_matches, BasicView, ContextView, TargetView,
    WorkspaceContext, WorkspaceTarget,
};
use vstd::prelude::*;
use vstd::string::StringExecFns;

verus! {

/// Whether a monitor shows a special workspace: the one it reports has a
/// number other than zero or a name that is not blank.
pub open spec fn special_shown(special: BasicView) -> bool {
    special.id != 0 || !is_blank(special.name)
}

/// The workspace that a monitor shows: its special workspace if it shows one,
/// else its regular one.
pub open spec fn monitor_context(monitor: MonitorView) -> ContextView {
    if special_shown(monitor.special_workspace) {
        context_of(monitor.special_workspace)
    } else {
        context_of(monitor.active_workspace)
    }
}

/// Finding the active workspace: list the windows, ask for the focused
/// window, and where there is none, ask for the focused monitor.
#[derive(Debug, Clone)]
pub enum Resolve {
    /// The windows are being listed.
    Listing,
    /// The focused window is being asked for.
    Probing(Vec<Client>),
    /// The focused monitor is being asked for.
    Surveying(Vec<Client>),
    /// The active workspace, and the windows as listed at the start.
    Found(WorkspaceContext, Vec<Client>),
    Failed(LaunchError),
}

/// The search for the active workspace as contracts see it.
pub enum ResolveView {
    Listing,
    Probing(Seq<ClientView>),
    Surveying(Seq<ClientView>),
    Found(ContextView, Seq<ClientView>),
    Failed(ErrorView),
}

impl View for Resolve {
    type V = ResolveView;

    open spec fn view(&self) -> ResolveView {
        match self {
            Resolve::Listing => ResolveView::Listing,
            Resolve::Probing(cs) => ResolveView::Probing(cs.deep_view()),
            Resolve::Surveying(cs) => ResolveView::Surveying(cs.deep_view()),
            Resolve::Found(ctx, cs) => ResolveView::Found(ctx@, cs.deep_view()),
            Resolve::Failed(e) => ResolveView::Failed(e@),
        }
    }
}

impl ResolveView {
    /// The search at its start: it lists the windows.
    pub open spec fn begin() -> (ResolveView, Option<RequestView>) {
        (ResolveView::Listing, Some(RequestView::ListClients))
    }

    /// One step. The active workspace is that of the focused window; without
    /// a focused window, that which the focused monitor shows. A failed query
    /// ends the search with an error that names the query.
    pub open spec fn step(self, reply: ReplyView) -> (ResolveView, Option<RequestView>) {
        match self {
            ResolveView::Listing => match reply {
                ReplyView::Clients(clients) => (
                    ResolveView::Probing(clients),
                    Some(RequestView::ActiveClient),
                ),
                ReplyView::Failed(cause) => (
                    ResolveView::Failed(
                        ErrorView::gateway("failed to list Hyprland clients"@, cause),
                    ),
                    None,
                ),
                _ => (ResolveView::Failed(ErrorView::protocol()), None),
            },
            ResolveView::Probing(clients) => match reply {
                ReplyView::ActiveClient(Some(focused)) => (
                    ResolveView::Found(context_of(focused.workspace), clients),
                    None,
                ),
                ReplyView::ActiveClient(None) => (
                    ResolveView::Surveying(clients),
                    Some(RequestView::ActiveMonitor),
                ),
                ReplyView::Failed(cause) => (
                    ResolveView::Failed(ErrorView::gateway("failed to get active window"@, cause)),
                    None,
                ),
                _ => (ResolveView::Failed(ErrorView::protocol()), None),
            },
            ResolveView::Surveying(clients) => match reply {
                ReplyView::Monitor(monitor) => (
                    ResolveView::Found(monitor_context(monitor), clients),
                    None,
                ),
                ReplyView::Failed(cause) => (
                    ResolveView::Failed(
                        ErrorView::gateway("failed to get active monitor from Hyprland"@, cause),
                    ),
                    None,
                ),
                _ => (ResolveView::Failed(ErrorView::protocol()), None),
            },
            ResolveView::Found(_, _) => (self, None),
            ResolveView::Failed(_) => (self, None),
        }
    }
}

/// Starts finding the active workspace.
pub fn resolve_active_workspace() -> (out: (Resolve, Option<Request>))
    ensures
        (out.0@, out.1.deep_view()) == ResolveView::begin(),
{
    (Resolve::Listing, Some(Request::ListClients))
}

impl Resolve {
    /// Takes one reply and moves on.
    pub fn feed(self, reply: Reply) -> (out: (Resolve, Option<Request>))
        ensures
            (out.0@, out.1.deep_view()) == self@.step(reply@),
    {
        match self {
            Resolve::Listing => match reply {
                Reply::Clients(clients) => (Resolve::Probing(clients), Some(Request::ActiveClient)),
                Reply::Failed(cause) => (
                    Resolve::Failed(LaunchError::gateway("failed to list Hyprland clients", cause)),
                    None,
                ),
                _ => (Resolve::Failed(LaunchError::protocol()), None),
            },
            Resolve::Probing(clients) => match reply {
                Reply::ActiveClient(Some(focused)) => (
                    Resolve::Found(WorkspaceContext::from_basic(focused.workspace), clients),
                    None,
                ),
                Reply::ActiveClient(None) => (
                    Resolve::Surveying(clients),
                    Some(Request::ActiveMonitor),
                ),
                Reply::Failed(cause) => (
                    Resolve::Failed(LaunchError::gateway("failed to get active window", cause)),
                    None,
                ),
                _ => (Resolve::Failed(LaunchError::protocol()), None),
            },
            Resolve::Surveying(clients) => match reply {
                Reply::Monitor(monitor) => {
                    let shown = monitor.special_workspace.id != 0 || !blank(
                        monitor.special_workspace.name.as_str(),
                    );
                    let ctx = if shown {
                        WorkspaceContext::from_basic(monitor.special_workspace)
                    } else {
                        WorkspaceContext::from_basic(monitor.active_workspace)
                    };
                    (Resolve::Found(ctx, clients), None)
                },
                Reply::Failed(cause) => (
                    Resolve::Failed(
                        LaunchError::gateway("failed to get active monitor from Hyprland", cause),
                    ),
                    None,
                ),
                _ => (Resolve::Failed(LaunchError::protocol()), None),
            },
            Resolve::Found(ctx, clients) => (Resolve::Found(ctx, clients), None),
            Resolve::Failed(e) => (Resolve::Failed(e), None),
        }
    }
}

/// Making a workspace active. A launch that only re-asserts its workspace
/// first takes a glance and is done if the workspace is active; making it
/// active checks once more, switches if it must, and then watches until the
/// window manager shows the workspace or the time for the switch is over.
#[derive(Debug, Clone)]
pub enum Activate {
    /// The glance before anything is done.
    Glancing(Resolve),
    /// The check before a switch.
    Checking(Resolve),
    /// The switch was dispatched.
    Switching,
    /// Watching for the workspace: the search under way, the moment at which
    /// the watch began, and its deadline.
    Watching(Resolve, u64, u64),
    /// The pause before the next look; the beginning and the deadline of the
    /// watch are kept.
    Resting(u64, u64),
    /// Done, with the active workspace as seen, or with none where there was
    /// no workspace to assert.
    Settled(Option<WorkspaceContext>),
    Failed(LaunchError),
}

/// The making active of a workspace as contracts see it.
pub enum ActivateView {
    Glancing(ResolveView),
    Checking(ResolveView),
    Switching,
    Watching(ResolveView, u64, u64),
    Resting(u64, u64),
    Settled(Option<ContextView>),
    Failed(ErrorView),
}

impl View for Activate {
    type V = ActivateView;

    open spec fn view(&self) -> ActivateView {
        match self {
            Activate::Glancing(r) => ActivateView::Glancing(r@),
            Activate::Checking(r) => ActivateView::Checking(r@),
            Activate::Switching => ActivateView::Switching,
            Activate::Watching(r, started, at) => ActivateView::Watching(r@, *started, *at),
            Activate::Resting(started, at) => ActivateView::Resting(*started, *at),
            Activate::Settled(ctx) => ActivateView::Settled(ctx.deep_view()),
            Activate::Failed(e) => ActivateView::Failed(e@),
        }
    }
}

/// The message of a switch that was not seen in time: it names the time that
/// has passed and the workspace.
pub open spec fn switch_timeout_message(target: TargetView, waited: u64) -> Seq<char> {
    "timed out after "@ + seconds_text(waited) + " waiting for "@ + target_label(target)
}

impl ActivateView {
    /// Re-asserting the launch's workspace: nothing to do without a target.
    pub open spec fn begin_focus(target: Option<TargetView>) -> (ActivateView, Option<
        RequestView,
    >) {
        match target {
            Some(_) => (
                ActivateView::Glancing(ResolveView::Listing),
                Some(RequestView::ListClients),
            ),
            None => (ActivateView::Settled(None), None),
        }
    }

    /// Making the target active.
    pub open spec fn begin_activate() -> (ActivateView, Option<RequestView>) {
        (ActivateView::Checking(ResolveView::Listing), Some(RequestView::ListClients))
    }

    /// Whether this state is an end.
    pub open spec fn ended(self) -> bool {
        self is Settled || self is Failed
    }

    /// One step towards the workspace `target`, on `reply` received at the
    /// moment `now`.
    pub open spec fn step(self, target: TargetView, reply: ReplyView, now: u64) -> (
        ActivateView,
        Option<RequestView>,
    ) {
        match self {
            ActivateView::Glancing(r) => {
                let (r2, ask) = r.step(reply);
                match r2 {
                    ResolveView::Found(ctx, _) => if target_matches(target, ctx) {
                        (ActivateView::Settled(Some(ctx)), None)
                    } else {
                        ActivateView::begin_activate()
                    },
                    ResolveView::Failed(e) => (ActivateView::Failed(e), None),
                    _ => (ActivateView::Glancing(r2), ask),
                }
            },
            ActivateView::Checking(r) => {
                let (r2, ask) = r.step(reply);
                match r2 {
                    ResolveView::Found(ctx, _) => if target_matches(target, ctx) {
                        (ActivateView::Settled(Some(ctx)), None)
                    } else {
                        (ActivateView::Switching, Some(RequestView::SwitchWorkspace(target)))
                    },
                    ResolveView::Failed(e) => (ActivateView::Failed(e), None),
                    _ => (ActivateView::Checking(r2), ask),
                }
            },
            ActivateView::Switching => match reply {
                ReplyView::Done => (
                    ActivateView::Watching(
                        ResolveView::Listing,
                        now,
                        deadline_after(now, WORKSPACE_SWITCH_TIMEOUT),
                    ),
                    Some(RequestView::ListClients),
                ),
                ReplyView::Failed(cause) => (
                    ActivateView::Failed(
                        ErrorView::gateway("failed to switch to "@ + target_label(target), cause),
                    ),
                    None,
                ),
                _ => (ActivateView::Failed(ErrorView::protocol()), None),
            },
            ActivateView::Watching(r, started, at) => {
                let (r2, ask) = r.step(reply);
                match r2 {
                    ResolveView::Found(ctx, _) => match verdict_of(
                        target_matches(target, ctx),
                        now,
                        at,
                    ) {
                        Verdict::Satisfied => (ActivateView::Settled(Some(ctx)), None),
                        Verdict::TimedOut => (
                            ActivateView::Failed(
                                ErrorView::plain(
                                    FailureKind::SwitchTimeout,
                                    switch_timeout_message(target, elapsed_since(started, now)),
                                ),
                            ),
                            None,
                        ),
                        Verdict::Retry => (
                            ActivateView::Resting(started, at),
                            Some(RequestView::Sleep(WINDOW_POLL_INTERVAL)),
                        ),
                    },
                    ResolveView::Failed(e) => (ActivateView::Failed(e), None),
                    _ => (ActivateView::Watching(r2, started, at), ask),
                }
            },
            ActivateView::Resting(started, at) => match reply {
                ReplyView::Done => (
                    ActivateView::Watching(ResolveView::Listing, started, at),
                    Some(RequestView::ListClients),
                ),
                _ => (ActivateView::Failed(ErrorView::protocol()), None),
            },
            ActivateView::Settled(_) => (self, None),
            ActivateView::Failed(_) => (self, None),
        }
    }
}

fn switch_timeout(target: &WorkspaceTarget, waited: u64) -> (e: LaunchError)
    ensures
        e@ == ErrorView::plain(
            FailureKind::SwitchTimeout,
            switch_timeout_message(target@, waited),
        ),
{
    let mut text = String::from_str("timed out after ");
    push_seconds(&mut text, waited);
    text.append(" waiting for ");
    let label = target.label();
    text.append(label.as_str());
    assert(text@ =~= switch_timeout_message(target@, waited));
    LaunchError::plain(FailureKind::SwitchTimeout, text)
}

fn switch_failed(target: &WorkspaceTarget, cause: String) -> (e: LaunchError)
    ensures
        e@ == ErrorView::gateway("failed to switch to "@ + target_label(target@), cause@),
{
    let mut text = String::from_str("failed to switch to ");
    let label = target.label();
    text.append(label.as_str());
    LaunchError::gateway(text.as_str(), cause)
}

/// Starts re-asserting the launch's workspace, so that what is launched next
/// opens there: with a target, a glance at the active workspace; without one
/// there is nothing to do.
pub fn ensure_workspace_focus(target: Option<&WorkspaceTarget>) -> (out: (
    Activate,
    Option<Request>,
))
    ensures
        (out.0@, out.1.deep_view()) == ActivateView::begin_focus(target.deep_view()),
{
    match target {
        Some(_) => (Activate::Glancing(Resolve::Listing), Some(Request::ListClients)),
        None => (Activate::Settled(None), None),
    }
}

/// Starts making the target workspace active.
pub fn ensure_target_active() -> (out: (Activate, Option<Request>))
    ensures
        (out.0@, out.1.deep_view()) == ActivateView::begin_activate(),
{
    (Activate::Checking(Resolve::Listing), Some(Request::ListClients))
}

impl Activate {

    /// Takes one reply, received at the moment `now`, and moves on.
    pub fn feed(self, target: &WorkspaceTarget, reply: Reply, now: u64) -> (out: (
        Activate,
        Option<Request>,
    ))
        ensures
            (out.0@, out.1.deep_view()) == self@.step(target@, reply@, now),
    {
        match self {
            Activate::Glancing(r) => {
                let (r2, ask) = r.feed(reply);
                match r2 {
                    Resolve::Found(ctx, _) => if target.matches(&ctx) {
                        (Activate::Settled(Some(ctx)), None)
                    } else {
                        ensure_target_active()
                    },
                    Resolve::Failed(e) => (Activate::Failed(e), None),
                    other => (Activate::Glancing(other), ask),
                }
            },
            Activate::Checking(r) => {
                let (r2, ask) = r.feed(reply);
                match r2 {
                    Resolve::Found(ctx, _) => if target.matches(&ctx) {
                        (Activate::Settled(Some(ctx)), None)
                    } else {
                        (Activate::Switching, Some(Request::SwitchWorkspace(target.duplicate())))
                    },
                    Resolve::Failed(e) => (Activate::Failed(e), None),
                    other => (Activate::Checking(other), ask),
                }
            },
            Activate::Switching => match reply {
                Reply::Done => (
                    Activate::Watching(
                        Resolve::Listing,
                        now,
                        deadline(now, WORKSPACE_SWITCH_TIMEOUT),
                    ),
                    Some(Request::ListClients),
                ),
                Reply::Failed(cause) => (Activate::Failed(switch_failed(target, cause)), None),
                _ => (Activate::Failed(LaunchError::protocol()), None),
            },
            Activate::Watching(r, started, at) => {
                let (r2, ask) = r.feed(reply);
                match r2 {
                    Resolve::Found(ctx, _) => match poll(target.matches(&ctx), now, at) {
                        Verdict::Satisfied => (Activate::Settled(Some(ctx)), None),
                        Verdict::TimedOut => (
                            Activate::Failed(switch_timeout(target, elapsed(started, now))),
                            None,
                        ),
                        Verdict::Retry => (
                            Activate::Resting(started, at),
                            Some(Request::Sleep(WINDOW_POLL_INTERVAL)),
                        ),
                    },
                    Resolve::Failed(e) => (Activate::Failed(e), None),
                    other => (Activate::Watching(other, started, at), ask),
                }
            },
            Activate::Resting(started, at) => match reply {
                Reply::Done => (
                    Activate::Watching(Resolve::Listing, started, at),
                    Some(Request::ListClients),
                ),
                _ => (Activate::Failed(LaunchError::protocol()), None),
            },
            Activate::Settled(ctx) => (Activate::Settled(ctx), None),
            Activate::Failed(e) => (Activate::Failed(e), None),
        }
    }
}

} // verus!
