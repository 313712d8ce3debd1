//! What a cleanup would find: the workspace that a launch would work on and
//! the number of windows that it would close there. Nothing is changed.
use crate::ancestry::{collect_ancestor_pids, AncestorWalk, WalkView};
use crate::cleanup::{candidates_of, close_candidates};
use crate::config::Workset;
use crate::gateway::{
    Client, ClientView, ErrorView, LaunchError, Reply, ReplyView, Request, RequestView,
};
use crate::plan::clip;
use crate::resolve::{resolve_active_workspace, Resolve, ResolveView};
use crate::workspace::{
    override_of, target_context, workspace_override, ContextView, WorkspaceContext,
};
use vstd::prelude::*;
use vstd::string::StringExecFns;

verus! {

/// The workspace of a launch and the number of windows that its cleanup
/// would close.
#[derive(Debug, Clone)]
pub struct WorkspaceCleanupStatus {
    pub workspace_name: String,
    pub closable_windows: usize,
}

/// A status as contracts see it.
pub struct StatusView {
    pub workspace_name: Seq<char>,
    pub closable_windows: usize,
}

impl View for WorkspaceCleanupStatus {
    type V = StatusView;

    open spec fn view(&self) -> StatusView {
        StatusView {
            workspace_name: self.workspace_name@,
            closable_windows: self.closable_windows,
        }
    }
}

/// Where the inquiry stands.
#[derive(Debug, Clone)]
pub enum StatusPhase {
    /// The windows are being listed, for the workspace that the workset asks
    /// for.
    Listing(WorkspaceContext),
    /// The active workspace is being found.
    Resolving(Resolve),
    /// The launcher's ancestors are being collected.
    Walking(AncestorWalk, WorkspaceContext, Vec<Client>),
    Known(WorkspaceCleanupStatus),
    Failed(LaunchError),
}

/// A phase of the inquiry as contracts see it.
pub enum StatusPhaseView {
    Listing(ContextView),
    Resolving(ResolveView),
    Walking(WalkView, ContextView, Seq<ClientView>),
    Known(StatusView),
    Failed(ErrorView),
}

impl View for StatusPhase {
    type V = StatusPhaseView;

    open spec fn view(&self) -> StatusPhaseView {
        match self {
            StatusPhase::Listing(ctx) => StatusPhaseView::Listing(ctx@),
            StatusPhase::Resolving(r) => StatusPhaseView::Resolving(r@),
            StatusPhase::Walking(w, ctx, cs) => StatusPhaseView::Walking(
                w@,
                ctx@,
                cs.deep_view(),
            ),
            StatusPhase::Known(s) => StatusPhaseView::Known(s@),
            StatusPhase::Failed(e) => StatusPhaseView::Failed(e@),
        }
    }
}

/// An inquiry under way.
#[derive(Debug, Clone)]
pub struct StatusQuery {
    /// The launcher's own process.
    pub self_pid: i32,
    pub phase: StatusPhase,
}

/// An inquiry as contracts see it.
pub struct StatusQueryView {
    pub self_pid: i32,
    pub phase: StatusPhaseView,
}

impl View for StatusQuery {
    type V = StatusQueryView;

    open spec fn view(&self) -> StatusQueryView {
        StatusQueryView { self_pid: self.self_pid, phase: self.phase@ }
    }
}

/// A state of the inquiry and what it asks next.
pub type StatusTurn = (StatusQueryView, Option<RequestView>);

impl StatusQueryView {
    /// The inquiry for a workset whose workspace text is `workspace`, or for
    /// no workset. Where the text names a workspace, that workspace is taken
    /// as it is, active or not; else the active workspace is found.
    pub open spec fn begin(workspace: Option<Seq<char>>, self_pid: i32) -> StatusTurn {
        match override_of(workspace) {
            Some(target) => (
                StatusQueryView {
                    self_pid,
                    phase: StatusPhaseView::Listing(target_context(target)),
                },
                Some(RequestView::ListClients),
            ),
            None => (
                StatusQueryView {
                    self_pid,
                    phase: StatusPhaseView::Resolving(ResolveView::Listing),
                },
                Some(RequestView::ListClients),
            ),
        }
    }

    /// This inquiry in another phase.
    pub open spec fn with(self, phase: StatusPhaseView) -> StatusQueryView {
        StatusQueryView { phase, ..self }
    }

    /// The workspace and its windows are known: the launcher's ancestors are
    /// collected.
    pub open spec fn walk(self, ctx: ContextView, clients: Seq<ClientView>) -> StatusTurn {
        let (w, ask) = WalkView::begin(self.self_pid);
        (self.with(StatusPhaseView::Walking(w, ctx, clients)), ask)
    }

    /// One step of the inquiry.
    pub open spec fn step(self, reply: ReplyView) -> StatusTurn {
        match self.phase {
            StatusPhaseView::Listing(ctx) => match reply {
                ReplyView::Clients(clients) => self.walk(ctx, clients),
                ReplyView::Failed(cause) => (
                    self.with(
                        StatusPhaseView::Failed(
                            ErrorView::gateway("failed to list Hyprland clients"@, cause),
                        ),
                    ),
                    None,
                ),
                _ => (self.with(StatusPhaseView::Failed(ErrorView::protocol())), None),
            },
            StatusPhaseView::Resolving(r) => {
                let (r2, ask) = r.step(reply);
                match r2 {
                    ResolveView::Found(ctx, clients) => self.walk(ctx, clients),
                    ResolveView::Failed(e) => (
                        self.with(
                            StatusPhaseView::Failed(
                                e.wrap("failed to resolve active workspace context"@),
                            ),
                        ),
                        None,
                    ),
                    _ => (self.with(StatusPhaseView::Resolving(r2)), ask),
                }
            },
            StatusPhaseView::Walking(w, ctx, clients) => {
                let (w2, ask) = w.step(reply);
                if w2.done {
                    (
                        self.with(
                            StatusPhaseView::Known(
                                StatusView {
                                    workspace_name: ctx.workspace.name,
                                    closable_windows: clip(
                                        candidates_of(clients, ctx, self.self_pid, w2.pids).len() as int,
                                    ),
                                },
                            ),
                        ),
                        None,
                    )
                } else {
                    (self.with(StatusPhaseView::Walking(w2, ctx, clients)), ask)
                }
            },
            StatusPhaseView::Known(_) => (self, None),
            StatusPhaseView::Failed(_) => (self, None),
        }
    }
}

/// Starts the inquiry for the launch of `target`, or for a launch on the
/// active workspace where there is no workset. `self_pid` is the launcher's
/// own process.
pub fn workspace_cleanup_status(target: Option<&Workset>, self_pid: i32) -> (out: (
    StatusQuery,
    Option<Request>,
))
    ensures
        (out.0@, out.1.deep_view()) == StatusQueryView::begin(
            match target {
                Some(ws) => ws.workspace.deep_view(),
                None => None,
            },
            self_pid,
        ),
{
    let wanted = match target {
        Some(ws) => workspace_override(ws),
        None => None,
    };
    match wanted {
        Some(t) => (
            StatusQuery { self_pid, phase: StatusPhase::Listing(t.context()) },
            Some(Request::ListClients),
        ),
        None => {
            let (r, ask) = resolve_active_workspace();
            (StatusQuery { self_pid, phase: StatusPhase::Resolving(r) }, ask)
        },
    }
}

impl StatusQuery {
    /// The status, once it is known.
    pub fn status(&self) -> (out: Option<&WorkspaceCleanupStatus>)
        ensures
            match out {
                Some(s) => self.phase == StatusPhase::Known(*s),
                None => !(self.phase is Known),
            },
    {
        match &self.phase {
            StatusPhase::Known(s) => Some(s),
            _ => None,
        }
    }

    fn walk(self_pid: i32, ctx: WorkspaceContext, clients: Vec<Client>) -> (out: (
        StatusQuery,
        Option<Request>,
    ))
        ensures
            (out.0@, out.1.deep_view()) == (StatusQueryView {
                self_pid,
                phase: StatusPhaseView::Listing(ctx@),
            }).walk(ctx@, clients.deep_view()),
    {
        let (w, ask) = collect_ancestor_pids(self_pid);
        (StatusQuery { self_pid, phase: StatusPhase::Walking(w, ctx, clients) }, ask)
    }

    /// Takes the reply to the last request and moves on.
    pub fn feed(self, reply: Reply) -> (out: (StatusQuery, Option<Request>))
        ensures
            (out.0@, out.1.deep_view()) == self@.step(reply@),
    {
        let StatusQuery { self_pid, phase } = self;
        match phase {
            StatusPhase::Listing(ctx) => match reply {
                Reply::Clients(clients) => StatusQuery::walk(self_pid, ctx, clients),
                Reply::Failed(cause) => (
                    StatusQuery {
                        self_pid,
                        phase: StatusPhase::Failed(
                            LaunchError::gateway("failed to list Hyprland clients", cause),
                        ),
                    },
                    None,
                ),
                _ => (
                    StatusQuery { self_pid, phase: StatusPhase::Failed(LaunchError::protocol()) },
                    None,
                ),
            },
            StatusPhase::Resolving(r) => {
                let (r2, ask) = r.feed(reply);
                match r2 {
                    Resolve::Found(ctx, clients) => StatusQuery::walk(self_pid, ctx, clients),
                    Resolve::Failed(e) => (
                        StatusQuery {
                            self_pid,
                            phase: StatusPhase::Failed(
                                e.wrap(
                                    String::from_str("failed to resolve active workspace context"),
                                ),
                            ),
                        },
                        None,
                    ),
                    other => (StatusQuery { self_pid, phase: StatusPhase::Resolving(other) }, ask),
                }
            },
            StatusPhase::Walking(w, ctx, clients) => {
                let (w2, ask) = w.feed(reply);
                if w2.done {
                    let cands = close_candidates(&clients, &ctx, self_pid, &w2.pids);
                    let status = WorkspaceCleanupStatus {
                        workspace_name: ctx.workspace.name,
                        closable_windows: cands.len(),
                    };
                    (StatusQuery { self_pid, phase: StatusPhase::Known(status) }, None)
                } else {
                    (StatusQuery { self_pid, phase: StatusPhase::Walking(w2, ctx, clients) }, ask)
                }
            },
            StatusPhase::Known(s) => (StatusQuery { self_pid, phase: StatusPhase::Known(s) }, None),
            StatusPhase::Failed(e) => (
                StatusQuery { self_pid, phase: StatusPhase::Failed(e) },
                None,
            ),
        }
    }
}

} // verus!
