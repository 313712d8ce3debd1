//! Clearing the workspace before a launch: the windows that are there are
//! listed, the user is asked, and on a yes they are closed and seen to go.
use crate::ancestry::{collect_ancestor_pids, has_pid, AncestorWalk, WalkView};
use crate::decimal::{decimal, push_decimal};
use crate::gateway::{
    clients_on, count_on, Client, ClientView, ErrorView, LaunchError, Reply, ReplyView, Request,
    RequestView,
};
use crate::plan::clip;
use crate::poll::{
    wait_for_clients_at_most, CountWait, CountWaitView, WaitGoal, WaitPhase, WaitPhaseView,
};
use crate::text::{chars_of, eq_ignore_ascii_case, same_ignoring_ascii_case, trim_chars, trimmed};
use crate::workspace::{context_label, context_matches, ContextView, WorkspaceContext};
use vstd::prelude::*;
use vstd::string::StringExecFns;

verus! {

/// A window that the cleanup would close.
#[derive(Debug, Clone)]
pub struct CloseCandidate {
    pub address: String,
    pub class: String,
    pub title: String,
    pub pid: i32,
}

/// A candidate as contracts see it.
pub struct CandidateView {
    pub address: Seq<char>,
    pub class: Seq<char>,
    pub title: Seq<char>,
    pub pid: i32,
}

impl View for CloseCandidate {
    type V = CandidateView;

    open spec fn view(&self) -> CandidateView {
        CandidateView {
            address: self.address@,
            class: self.class@,
            title: self.title@,
            pid: self.pid,
        }
    }
}

impl DeepView for CloseCandidate {
    type V = CandidateView;

    open spec fn deep_view(&self) -> CandidateView {
        self@
    }
}

/// Whether the cleanup would close a window: it is on the workspace, and it
/// belongs neither to the launcher nor to one of the processes in `spared`.
pub open spec fn closable(c: ClientView, ctx: ContextView, self_pid: i32, spared: Seq<i32>)
    -> bool {
    context_matches(ctx, c.workspace) && c.pid != self_pid && !spared.contains(c.pid)
}

/// The candidate that a window makes.
pub open spec fn candidate_of(c: ClientView) -> CandidateView {
    CandidateView { address: c.address, class: c.class, title: c.title, pid: c.pid }
}

/// The windows that the cleanup would close, in the order of the listing.
pub open spec fn candidates_of(
    clients: Seq<ClientView>,
    ctx: ContextView,
    self_pid: i32,
    spared: Seq<i32>,
) -> Seq<CandidateView>
    decreases clients.len(),
{
    if clients.len() == 0 {
        Seq::empty()
    } else if closable(clients.last(), ctx, self_pid, spared) {
        candidates_of(clients.drop_last(), ctx, self_pid, spared).push(
            candidate_of(clients.last()),
        )
    } else {
        candidates_of(clients.drop_last(), ctx, self_pid, spared)
    }
}

/// No window of the launcher's own process or of a spared process is ever a
/// candidate, and every candidate is a listed window of the workspace.
pub proof fn law_candidates_spare_ancestors(
    clients: Seq<ClientView>,
    ctx: ContextView,
    self_pid: i32,
    spared: Seq<i32>,
)
    ensures
        forall|i: int|
            0 <= i < candidates_of(clients, ctx, self_pid, spared).len() ==> {
                let c = #[trigger] candidates_of(clients, ctx, self_pid, spared)[i];
                &&& c.pid != self_pid
                &&& !spared.contains(c.pid)
                &&& exists|k: int|
                    0 <= k < clients.len() && candidate_of(#[trigger] clients[k]) == c
                        && context_matches(ctx, clients[k].workspace)
            },
        candidates_of(clients, ctx, self_pid, spared).len() <= clients_on(clients, ctx).len(),
    decreases clients.len(),
{
    reveal(Seq::filter);
    if clients.len() > 0 {
        let rest = clients.drop_last();
        law_candidates_spare_ancestors(rest, ctx, self_pid, spared);
        let out = candidates_of(clients, ctx, self_pid, spared);
        let before = candidates_of(rest, ctx, self_pid, spared);
        assert forall|i: int| 0 <= i < out.len() implies {
            let c = #[trigger] out[i];
            &&& c.pid != self_pid
            &&& !spared.contains(c.pid)
            &&& exists|k: int|
                0 <= k < clients.len() && candidate_of(#[trigger] clients[k]) == c
                    && context_matches(ctx, clients[k].workspace)
        } by {
            if i < before.len() {
                assert(out[i] == before[i]);
                let k = choose|k: int|
                    0 <= k < rest.len() && candidate_of(#[trigger] rest[k]) == before[i]
                        && context_matches(ctx, rest[k].workspace);
                assert(clients[k] == rest[k]);
            } else {
                assert(candidate_of(clients[clients.len() - 1]) == out[i]);
            }
        }
    }
}

/// The windows that the cleanup would close.
pub fn close_candidates(
    clients: &Vec<Client>,
    ctx: &WorkspaceContext,
    self_pid: i32,
    spared: &Vec<i32>,
) -> (out: Vec<CloseCandidate>)
    ensures
        out.deep_view() == candidates_of(clients.deep_view(), ctx@, self_pid, spared@),
{
    let ghost all = clients.deep_view();
    let mut out: Vec<CloseCandidate> = Vec::new();
    let mut i: usize = 0;
    assert(out.deep_view() =~= candidates_of(all.take(0), ctx@, self_pid, spared@));
    while i < clients.len()
        invariant
            i <= clients.len(),
            all == clients.deep_view(),
            out.deep_view() == candidates_of(all.take(i as int), ctx@, self_pid, spared@),
        decreases clients.len() - i,
    {
        let ghost before = out.deep_view();
        proof {
            assert(all.take(i as int + 1).drop_last() =~= all.take(i as int));
            assert(all.take(i as int + 1).last() == clients@[i as int]@);
        }
        let c = &clients[i];
        if ctx.matches(&c.workspace) && c.pid != self_pid && !has_pid(spared, c.pid) {
            let cand = CloseCandidate {
                address: c.address.clone(),
                class: c.class.clone(),
                title: c.title.clone(),
                pid: c.pid,
            };
            out.push(cand);
            assert(out.deep_view() =~= before.push(candidate_of(clients@[i as int]@)));
        }
        i += 1;
    }
    assert(all.take(clients.len() as int) =~= all);
    out
}

/// Whether an answer means yes: `y` or `yes`, in any case of letters, with
/// white space around it passed over.
pub open spec fn affirmative(answer: Seq<char>) -> bool {
    let t = trimmed(answer);
    same_ignoring_ascii_case(t, "y"@) || same_ignoring_ascii_case(t, "yes"@)
}

/// Whether the user's answer means yes.
pub fn is_affirmative(answer: &str) -> (yes: bool)
    ensures
        yes == affirmative(answer@),
{
    let all = chars_of(answer);
    let t = trim_chars(&all);
    let y = chars_of("y");
    let yes = chars_of("yes");
    eq_ignore_ascii_case(&t, &y) || eq_ignore_ascii_case(&t, &yes)
}

/// The question put to the user before windows are closed.
pub open spec fn question(label: Seq<char>, windows: nat) -> Seq<char> {
    label + " has "@ + decimal(windows)
        + " window(s). Close all before launching the workset? [y/N]"@
}

/// The message for a window that could not be closed.
pub open spec fn close_failed_message(address: Seq<char>) -> Seq<char> {
    "failed to close window "@ + address
}

/// The message for windows that did not go in time.
pub open spec fn drain_failed_message(label: Seq<char>) -> Seq<char> {
    "failed to wait for windows to close on "@ + label
}

/// Where a cleanup stands.
#[derive(Debug, Clone)]
pub enum CleanupPhase {
    /// The windows are being listed.
    Listing,
    /// The launcher's ancestors are being collected; the listing is kept.
    Walking(AncestorWalk, Vec<Client>),
    /// The user is being asked. Kept: the candidates, and the number of
    /// windows on the workspace.
    Confirming(Vec<CloseCandidate>, usize),
    /// Windows are being closed. Kept: the candidates, the index of the one
    /// whose close was dispatched, and the number of windows on the
    /// workspace.
    Closing(Vec<CloseCandidate>, usize, usize),
    /// Waiting for the windows to go. Kept: how many were closed.
    Draining(CountWait, usize),
    /// The launch may go on; so many windows were closed.
    Proceed(usize),
    /// The user declined: nothing was closed and nothing is launched.
    Cancelled,
    Failed(LaunchError),
}

/// A phase of a cleanup as contracts see it.
pub enum CleanupPhaseView {
    Listing,
    Walking(WalkView, Seq<ClientView>),
    Confirming(Seq<CandidateView>, usize),
    Closing(Seq<CandidateView>, usize, usize),
    Draining(CountWaitView, usize),
    Proceed(usize),
    Cancelled,
    Failed(ErrorView),
}

impl View for CleanupPhase {
    type V = CleanupPhaseView;

    open spec fn view(&self) -> CleanupPhaseView {
        match self {
            CleanupPhase::Listing => CleanupPhaseView::Listing,
            CleanupPhase::Walking(w, cs) => CleanupPhaseView::Walking(w@, cs.deep_view()),
            CleanupPhase::Confirming(cands, n) => CleanupPhaseView::Confirming(
                cands.deep_view(),
                *n,
            ),
            CleanupPhase::Closing(cands, i, n) => CleanupPhaseView::Closing(
                cands.deep_view(),
                *i,
                *n,
            ),
            CleanupPhase::Draining(w, closed) => CleanupPhaseView::Draining(w@, *closed),
            CleanupPhase::Proceed(closed) => CleanupPhaseView::Proceed(*closed),
            CleanupPhase::Cancelled => CleanupPhaseView::Cancelled,
            CleanupPhase::Failed(e) => CleanupPhaseView::Failed(e@),
        }
    }
}

/// A cleanup under way.
#[derive(Debug, Clone)]
pub struct Cleanup {
    /// Whether the user agreed beforehand.
    pub preconfirm: bool,
    /// The launcher's own process.
    pub self_pid: i32,
    pub phase: CleanupPhase,
}

/// A cleanup as contracts see it.
pub struct CleanupView {
    pub preconfirm: bool,
    pub self_pid: i32,
    pub phase: CleanupPhaseView,
}

impl View for Cleanup {
    type V = CleanupView;

    open spec fn view(&self) -> CleanupView {
        CleanupView { preconfirm: self.preconfirm, self_pid: self.self_pid, phase: self.phase@ }
    }
}

/// A cleanup state and what it asks next.
pub type CleanTurn = (CleanupView, Option<RequestView>);

impl CleanupView {
    /// The cleanup at its start: it lists the windows.
    pub open spec fn begin(preconfirm: bool, self_pid: i32) -> CleanTurn {
        (
            CleanupView { preconfirm, self_pid, phase: CleanupPhaseView::Listing },
            Some(RequestView::ListClients),
        )
    }

    /// This cleanup in another phase.
    pub open spec fn with(self, phase: CleanupPhaseView) -> CleanupView {
        CleanupView { phase, ..self }
    }

    /// The cleanup ends with an error.
    pub open spec fn fail(self, e: ErrorView) -> CleanTurn {
        (self.with(CleanupPhaseView::Failed(e)), None)
    }

    /// Whether the cleanup has ended.
    pub open spec fn ended(self) -> bool {
        self.phase is Proceed || self.phase is Cancelled || self.phase is Failed
    }

    /// The close of candidate `i` is dispatched; after the last one the
    /// cleanup waits until no more windows are left than were there before
    /// less those closed.
    pub open spec fn close(self, cands: Seq<CandidateView>, i: usize, initial: usize, now: u64)
        -> CleanTurn {
        if i < cands.len() {
            (
                self.with(CleanupPhaseView::Closing(cands, i, initial)),
                Some(RequestView::CloseWindow(cands[i as int].address)),
            )
        } else {
            let (w, ask) = CountWaitView::begin(
                WaitGoal::AtMost,
                clip(initial - cands.len()),
                now,
            );
            (self.with(CleanupPhaseView::Draining(w, clip(cands.len() as int))), ask)
        }
    }

    /// The candidates are known. Without candidates the launch goes on at
    /// once; else the user is asked, unless the user agreed beforehand.
    pub open spec fn decide(
        self,
        ctx: ContextView,
        clients: Seq<ClientView>,
        spared: Seq<i32>,
        now: u64,
    ) -> CleanTurn {
        let cands = candidates_of(clients, ctx, self.self_pid, spared);
        let initial = clip(clients_on(clients, ctx).len() as int);
        if cands.len() == 0 {
            (self.with(CleanupPhaseView::Proceed(0)), None)
        } else if !self.preconfirm {
            (
                self.with(CleanupPhaseView::Confirming(cands, initial)),
                Some(RequestView::Confirm(question(context_label(ctx), cands.len()))),
            )
        } else {
            self.close(cands, 0, initial, now)
        }
    }

    /// One step of the cleanup of the workspace `ctx`.
    pub open spec fn step(self, ctx: ContextView, reply: ReplyView, now: u64) -> CleanTurn {
        match self.phase {
            CleanupPhaseView::Listing => match reply {
                ReplyView::Clients(clients) => {
                    let (w, ask) = WalkView::begin(self.self_pid);
                    (self.with(CleanupPhaseView::Walking(w, clients)), ask)
                },
                ReplyView::Failed(cause) => self.fail(
                    ErrorView::gateway("failed to list Hyprland clients"@, cause),
                ),
                _ => self.fail(ErrorView::protocol()),
            },
            CleanupPhaseView::Walking(w, clients) => {
                let (w2, ask) = w.step(reply);
                if w2.done {
                    self.decide(ctx, clients, w2.pids, now)
                } else {
                    (self.with(CleanupPhaseView::Walking(w2, clients)), ask)
                }
            },
            CleanupPhaseView::Confirming(cands, initial) => match reply {
                ReplyView::Line(answer) => if affirmative(answer) {
                    self.close(cands, 0, initial, now)
                } else {
                    (self.with(CleanupPhaseView::Cancelled), None)
                },
                ReplyView::Failed(cause) => self.fail(
                    ErrorView::gateway("failed to read confirmation input"@, cause),
                ),
                _ => self.fail(ErrorView::protocol()),
            },
            CleanupPhaseView::Closing(cands, i, initial) => if i < cands.len() {
                match reply {
                    ReplyView::Done => self.close(cands, clip(i + 1), initial, now),
                    ReplyView::Failed(cause) => self.fail(
                        ErrorView::gateway(close_failed_message(cands[i as int].address), cause),
                    ),
                    _ => self.fail(ErrorView::protocol()),
                }
            } else {
                self.fail(ErrorView::protocol())
            },
            CleanupPhaseView::Draining(w, closed) => {
                let (w2, ask) = w.step(ctx, reply, now);
                match w2.phase {
                    WaitPhaseView::Reached => (self.with(CleanupPhaseView::Proceed(closed)), None),
                    WaitPhaseView::Failed(e) => self.fail(
                        e.wrap(drain_failed_message(context_label(ctx))),
                    ),
                    _ => (self.with(CleanupPhaseView::Draining(w2, closed)), ask),
                }
            },
            CleanupPhaseView::Proceed(_) => (self, None),
            CleanupPhaseView::Cancelled => (self, None),
            CleanupPhaseView::Failed(_) => (self, None),
        }
    }
}

/// Declining the question closes nothing and cancels: whatever the answer,
/// unless it means yes, the cleanup ends as cancelled and asks nothing more.
pub proof fn law_decline_cancels(
    c: CleanupView,
    cands: Seq<CandidateView>,
    initial: usize,
    ctx: ContextView,
    answer: Seq<char>,
    now: u64,
)
    requires
        c.phase == CleanupPhaseView::Confirming(cands, initial),
        !affirmative(answer),
    ensures
        c.step(ctx, ReplyView::Line(answer), now) == (
            c.with(CleanupPhaseView::Cancelled),
            None::<RequestView>,
        ),
        c.with(CleanupPhaseView::Cancelled).step(ctx, ReplyView::Line(answer), now).1 is None,
{
}

/// A cleanup asks to close a window only when the user agreed, beforehand or
/// on the question, and then only a window among its candidates.
pub proof fn law_close_needs_consent(c: CleanupView, ctx: ContextView, reply: ReplyView, now: u64)
    requires
        c.step(ctx, reply, now).1 matches Some(RequestView::CloseWindow(_)),
    ensures
        match c.phase {
            CleanupPhaseView::Walking(_, _) => c.preconfirm,
            CleanupPhaseView::Confirming(_, _) => reply matches ReplyView::Line(answer)
                && affirmative(answer),
            CleanupPhaseView::Closing(_, _, _) => true,
            _ => false,
        },
        c.step(ctx, reply, now).0.phase matches CleanupPhaseView::Closing(cands, i, _) && i
            < cands.len() && c.step(ctx, reply, now).1 == Some(
            RequestView::CloseWindow(cands[i as int].address),
        ),
{
}

impl CleanupView {
    /// Whether the cleanup has not begun to close windows.
    pub open spec fn untouched(self) -> bool {
        match self.phase {
            CleanupPhaseView::Closing(_, _, _) => false,
            CleanupPhaseView::Draining(_, _) => false,
            CleanupPhaseView::Proceed(closed) => closed == 0,
            _ => true,
        }
    }
}

/// Without the user's yes no window is closed: a cleanup that the user did
/// not agree to beforehand, and that has not begun to close windows, does
/// not begin to on any reply but an answer that means yes.
pub proof fn law_no_close_without_yes(c: CleanupView, ctx: ContextView, reply: ReplyView, now: u64)
    requires
        !c.preconfirm,
        c.untouched(),
        !(reply matches ReplyView::Line(answer) && affirmative(answer)),
    ensures
        c.step(ctx, reply, now).0.untouched(),
        !c.step(ctx, reply, now).0.preconfirm,
        !(c.step(ctx, reply, now).1 matches Some(RequestView::CloseWindow(_))),
{
}

fn question_text(ctx: &WorkspaceContext, windows: usize) -> (out: String)
    ensures
        out@ == question(context_label(ctx@), windows as nat),
{
    let mut out = ctx.label();
    out.append(" has ");
    push_decimal(&mut out, windows as u64);
    out.append(" window(s). Close all before launching the workset? [y/N]");
    assert(out@ =~= question(context_label(ctx@), windows as nat));
    out
}

fn close_failed(address: &String, cause: String) -> (e: LaunchError)
    ensures
        e@ == ErrorView::gateway(close_failed_message(address@), cause@),
{
    let mut text = String::from_str("failed to close window ");
    text.append(address.as_str());
    LaunchError::gateway(text.as_str(), cause)
}

fn drain_failed(ctx: &WorkspaceContext, e: LaunchError) -> (out: LaunchError)
    ensures
        out@ == e@.wrap(drain_failed_message(context_label(ctx@))),
{
    let mut text = String::from_str("failed to wait for windows to close on ");
    let label = ctx.label();
    text.append(label.as_str());
    e.wrap(text)
}

/// Starts the cleanup of the launch's workspace.
pub fn clean_workspace(preconfirm: bool, self_pid: i32) -> (out: (Cleanup, Option<Request>))
    ensures
        (out.0@, out.1.deep_view()) == CleanupView::begin(preconfirm, self_pid),
{
    (Cleanup { preconfirm, self_pid, phase: CleanupPhase::Listing }, Some(Request::ListClients))
}

impl Cleanup {
    /// Whether the cleanup has ended.
    pub fn ended(&self) -> (b: bool)
        ensures
            b == self@.ended(),
    {
        match self.phase {
            CleanupPhase::Proceed(_) => true,
            CleanupPhase::Cancelled => true,
            CleanupPhase::Failed(_) => true,
            _ => false,
        }
    }

    fn close(self, cands: Vec<CloseCandidate>, i: usize, initial: usize, now: u64) -> (out: (
        Cleanup,
        Option<Request>,
    ))
        ensures
            (out.0@, out.1.deep_view()) == self@.close(cands.deep_view(), i, initial, now),
    {
        let Cleanup { preconfirm, self_pid, phase: _ } = self;
        if i < cands.len() {
            let address = cands[i].address.clone();
            assert(cands.deep_view()[i as int] == cands@[i as int]@);
            (
                Cleanup { preconfirm, self_pid, phase: CleanupPhase::Closing(cands, i, initial) },
                Some(Request::CloseWindow(address)),
            )
        } else {
            let expected: usize = if initial >= cands.len() {
                initial - cands.len()
            } else {
                0
            };
            let (w, ask) = wait_for_clients_at_most(expected, now);
            (
                Cleanup { preconfirm, self_pid, phase: CleanupPhase::Draining(w, cands.len()) },
                ask,
            )
        }
    }

    fn decide(self, ctx: &WorkspaceContext, clients: Vec<Client>, spared: Vec<i32>, now: u64) -> (out:
        (Cleanup, Option<Request>))
        ensures
            (out.0@, out.1.deep_view()) == self@.decide(ctx@, clients.deep_view(), spared@, now),
    {
        let cands = close_candidates(&clients, ctx, self.self_pid, &spared);
        let initial = count_on(&clients, ctx);
        if cands.len() == 0 {
            let Cleanup { preconfirm, self_pid, phase: _ } = self;
            (Cleanup { preconfirm, self_pid, phase: CleanupPhase::Proceed(0) }, None)
        } else if !self.preconfirm {
            let Cleanup { preconfirm, self_pid, phase: _ } = self;
            let ask = question_text(ctx, cands.len());
            (
                Cleanup { preconfirm, self_pid, phase: CleanupPhase::Confirming(cands, initial) },
                Some(Request::Confirm(ask)),
            )
        } else {
            self.close(cands, 0, initial, now)
        }
    }

    fn fail(self, e: LaunchError) -> (out: (Cleanup, Option<Request>))
        ensures
            (out.0@, out.1.deep_view()) == self@.fail(e@),
    {
        let Cleanup { preconfirm, self_pid, phase: _ } = self;
        (Cleanup { preconfirm, self_pid, phase: CleanupPhase::Failed(e) }, None)
    }

    /// Takes one reply, received at the moment `now`, and moves on.
    pub fn feed(self, ctx: &WorkspaceContext, reply: Reply, now: u64) -> (out: (
        Cleanup,
        Option<Request>,
    ))
        ensures
            (out.0@, out.1.deep_view()) == self@.step(ctx@, reply@, now),
    {
        let Cleanup { preconfirm, self_pid, phase } = self;
        // the cleanup with its phase taken out: every arm below puts one in
        let me = Cleanup { preconfirm, self_pid, phase: CleanupPhase::Listing };
        match phase {
            CleanupPhase::Listing => match reply {
                Reply::Clients(clients) => {
                    let (w, ask) = collect_ancestor_pids(self_pid);
                    (
                        Cleanup { preconfirm, self_pid, phase: CleanupPhase::Walking(w, clients) },
                        ask,
                    )
                },
                Reply::Failed(cause) => me.fail(
                    LaunchError::gateway("failed to list Hyprland clients", cause),
                ),
                _ => me.fail(LaunchError::protocol()),
            },
            CleanupPhase::Walking(w, clients) => {
                let (w2, ask) = w.feed(reply);
                if w2.done {
                    me.decide(ctx, clients, w2.pids, now)
                } else {
                    (
                        Cleanup { preconfirm, self_pid, phase: CleanupPhase::Walking(w2, clients) },
                        ask,
                    )
                }
            },
            CleanupPhase::Confirming(cands, initial) => match reply {
                Reply::Line(answer) => if is_affirmative(answer.as_str()) {
                    me.close(cands, 0, initial, now)
                } else {
                    (Cleanup { preconfirm, self_pid, phase: CleanupPhase::Cancelled }, None)
                },
                Reply::Failed(cause) => me.fail(
                    LaunchError::gateway("failed to read confirmation input", cause),
                ),
                _ => me.fail(LaunchError::protocol()),
            },
            CleanupPhase::Closing(cands, i, initial) => if i < cands.len() {
                match reply {
                    Reply::Done => me.close(cands, i + 1, initial, now),
                    Reply::Failed(cause) => {
                        assert(cands.deep_view()[i as int] == cands@[i as int]@);
                        let e = close_failed(&cands[i].address, cause);
                        me.fail(e)
                    },
                    _ => me.fail(LaunchError::protocol()),
                }
            } else {
                me.fail(LaunchError::protocol())
            },
            CleanupPhase::Draining(w, closed) => {
                let (w2, ask) = w.feed(ctx, reply, now);
                let CountWait { goal, bound, started, deadline, phase: wphase } = w2;
                match wphase {
                    WaitPhase::Reached => (
                        Cleanup { preconfirm, self_pid, phase: CleanupPhase::Proceed(closed) },
                        None,
                    ),
                    WaitPhase::Failed(e) => me.fail(drain_failed(ctx, e)),
                    other => (
                        Cleanup {
                            preconfirm,
                            self_pid,
                            phase: CleanupPhase::Draining(
                                CountWait { goal, bound, started, deadline, phase: other },
                                closed,
                            ),
                        },
                        ask,
                    ),
                }
            },
            CleanupPhase::Proceed(closed) => (
                Cleanup { preconfirm, self_pid, phase: CleanupPhase::Proceed(closed) },
                None,
            ),
            CleanupPhase::Cancelled => (
                Cleanup { preconfirm, self_pid, phase: CleanupPhase::Cancelled },
                None,
            ),
            CleanupPhase::Failed(e) => (
                Cleanup { preconfirm, self_pid, phase: CleanupPhase::Failed(e) },
                None,
            ),
        }
    }
}

} // verus!
