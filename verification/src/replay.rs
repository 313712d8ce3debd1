//! Replaying a layout: the steps of a plan are carried out one by one, each
//! by asking the driver for one thing at a time. Any fatal error ends the
//! replay where it stands; what was launched stays.
use crate::decimal::{decimal, push_decimal};
use crate::gateway::{
    clients_on, count_on, Client, ClientView, ErrorView, LaunchError, Reply, ReplyView, Request,
    RequestView, SLOT_LAUNCH_DELAY,
};
use crate::config::{LayoutNode, Workset};
use crate::plan::{clip, defaults_of, plan_layout, plan_of, PlanStep, StepView};
use crate::poll::{
    wait_for_clients_on_workspace, CountWait, CountWaitView, WaitGoal, WaitPhase, WaitPhaseView,
};
use crate::ratio::{split_ratio_arg, split_ratio_argument};
use crate::resolve::{ensure_workspace_focus, Activate, ActivateView};
use crate::config::copy_opt;
use crate::workspace::{
    context_matches, ContextView, TargetView, WorkspaceContext, WorkspaceTarget,
};
use vstd::prelude::*;
use vstd::string::StringExecFns;

verus! {

/// The addresses of the windows among `clients` that are on the workspace of
/// `ctx`, in the order of the listing.
pub open spec fn addresses_on(clients: Seq<ClientView>, ctx: ContextView) -> Seq<Seq<char>>
    decreases clients.len(),
{
    if clients.len() == 0 {
        Seq::empty()
    } else if context_matches(ctx, clients.last().workspace) {
        addresses_on(clients.drop_last(), ctx).push(clients.last().address)
    } else {
        addresses_on(clients.drop_last(), ctx)
    }
}

/// The address of the first window in the listing that is on the workspace of
/// `ctx` and not among the `known` ones.
pub open spec fn first_new(clients: Seq<ClientView>, ctx: ContextView, known: Seq<Seq<char>>)
    -> Option<Seq<char>>
    decreases clients.len(),
{
    if clients.len() == 0 {
        None
    } else if context_matches(ctx, clients[0].workspace) && !known.contains(clients[0].address) {
        Some(clients[0].address)
    } else {
        first_new(clients.drop_first(), ctx, known)
    }
}

/// The address of the focused window, if there is one and it is on the
/// workspace of `ctx`.
pub open spec fn active_on(focused: Option<ClientView>, ctx: ContextView) -> Option<Seq<char>> {
    match focused {
        Some(c) => if context_matches(ctx, c.workspace) {
            Some(c.address)
        } else {
            None
        },
        None => None,
    }
}

/// The known addresses with `anchor` among them.
pub open spec fn with_known(known: Seq<Seq<char>>, anchor: Option<Seq<char>>) -> Seq<Seq<char>> {
    match anchor {
        Some(addr) => if known.contains(addr) {
            known
        } else {
            known.push(addr)
        },
        None => known,
    }
}

/// The message for a launch that could not be dispatched.
pub open spec fn exec_failed_message(slot_id: u32) -> Seq<char> {
    "failed to exec slot #"@ + decimal(slot_id as nat) + " command"@
}

/// The message for a launch whose window could not be waited for.
pub open spec fn wait_failed_message(slot_id: u32) -> Seq<char> {
    "failed to wait for the window of slot #"@ + decimal(slot_id as nat)
}

/// The message for a window that could not be focused.
pub open spec fn focus_failed_message(address: Seq<char>) -> Seq<char> {
    "failed to focus window at address "@ + address
}

/// Where a replay stands within the current step of its plan.
#[derive(Debug, Clone)]
pub enum ReplayPhase {
    /// Before the first step: the windows are listed, to know which are
    /// there already.
    Listing,
    /// The workspace is being re-asserted.
    Focusing(Activate),
    /// The launch was dispatched.
    Dispatching,
    /// Waiting for windows.
    Waiting(CountWait),
    /// The split fraction was dispatched.
    Rationing,
    /// The windows are listed, to find the new one.
    Scanning,
    /// The focused window is asked for, to serve as the anchor.
    Probing,
    /// The pause after a launch.
    Pausing,
    /// The focus on the kept window was dispatched.
    Pointing,
    /// The focused window is asked for after focusing.
    Verifying,
    /// Every step is done.
    Completed,
    Failed(LaunchError),
}

/// A phase of a replay as contracts see it.
pub enum PhaseView {
    Listing,
    Focusing(ActivateView),
    Dispatching,
    Waiting(CountWaitView),
    Rationing,
    Scanning,
    Probing,
    Pausing,
    Pointing,
    Verifying,
    Completed,
    Failed(ErrorView),
}

impl View for ReplayPhase {
    type V = PhaseView;

    open spec fn view(&self) -> PhaseView {
        match self {
            ReplayPhase::Listing => PhaseView::Listing,
            ReplayPhase::Focusing(a) => PhaseView::Focusing(a@),
            ReplayPhase::Dispatching => PhaseView::Dispatching,
            ReplayPhase::Waiting(w) => PhaseView::Waiting(w@),
            ReplayPhase::Rationing => PhaseView::Rationing,
            ReplayPhase::Scanning => PhaseView::Scanning,
            ReplayPhase::Probing => PhaseView::Probing,
            ReplayPhase::Pausing => PhaseView::Pausing,
            ReplayPhase::Pointing => PhaseView::Pointing,
            ReplayPhase::Verifying => PhaseView::Verifying,
            ReplayPhase::Completed => PhaseView::Completed,
            ReplayPhase::Failed(e) => PhaseView::Failed(e@),
        }
    }
}

/// A replay under way.
#[derive(Debug, Clone)]
pub struct Replay {
    pub plan: Vec<PlanStep>,
    /// The index of the current step.
    pub pc: usize,
    /// How many windows the workspace had before the first launch.
    pub base: usize,
    /// The addresses of the windows on the workspace that were seen so far.
    pub known: Vec<String>,
    /// The window that the last leaf left behind.
    pub anchor: Option<String>,
    /// The windows kept by the splits that are under way, innermost last.
    pub held: Vec<Option<String>>,
    pub phase: ReplayPhase,
}

/// A replay as contracts see it.
pub struct ReplayView {
    pub plan: Seq<StepView>,
    pub pc: nat,
    pub base: usize,
    pub known: Seq<Seq<char>>,
    pub anchor: Option<Seq<char>>,
    pub held: Seq<Option<Seq<char>>>,
    pub phase: PhaseView,
}

impl View for Replay {
    type V = ReplayView;

    open spec fn view(&self) -> ReplayView {
        ReplayView {
            plan: self.plan.deep_view(),
            pc: self.pc as nat,
            base: self.base,
            known: self.known.deep_view(),
            anchor: self.anchor.deep_view(),
            held: self.held.deep_view(),
            phase: self.phase@,
        }
    }
}

/// A state and what it asks of the driver; nothing once the replay has ended.
pub type Turn = (ReplayView, Option<RequestView>);

impl ReplayView {
    /// The replay of `plan` before anything is known of the workspace.
    pub open spec fn begin(plan: Seq<StepView>) -> Turn {
        (
            ReplayView {
                plan,
                pc: 0,
                base: 0,
                known: Seq::empty(),
                anchor: None,
                held: Seq::empty(),
                phase: PhaseView::Listing,
            },
            Some(RequestView::ListClients),
        )
    }

    /// This replay in another phase.
    pub open spec fn with(self, phase: PhaseView) -> ReplayView {
        ReplayView { phase, ..self }
    }

    /// The replay ends with an error.
    pub open spec fn fail(self, e: ErrorView) -> Turn {
        (self.with(PhaseView::Failed(e)), None)
    }

    /// Whether the replay has ended, well or not.
    pub open spec fn ended(self) -> bool {
        self.phase is Completed || self.phase is Failed
    }

    /// The current step, if the plan has one left.
    pub open spec fn current(self) -> Option<StepView> {
        if self.pc < self.plan.len() {
            Some(self.plan[self.pc as int])
        } else {
            None
        }
    }

    /// The window kept last, if any is kept and there is one.
    pub open spec fn kept(self) -> Option<Seq<char>> {
        if self.held.len() > 0 {
            self.held.last()
        } else {
            None
        }
    }

    /// The state with the window that was left last kept on top of those
    /// kept before.
    pub open spec fn holding(self) -> ReplayView {
        ReplayView { held: self.held.push(self.anchor), ..self }
    }

    /// The state with the window kept last let go. If there is such a
    /// window, it is the one that is left now; else the window left by what
    /// came after it stays. So a split leaves the window of its left side,
    /// else that of its right side, else that of its second walk.
    pub open spec fn released(self) -> ReplayView {
        if self.held.len() > 0 {
            ReplayView {
                held: self.held.drop_last(),
                anchor: match self.held.last() {
                    Some(address) => Some(address),
                    None => self.anchor,
                },
                ..self
            }
        } else {
            self
        }
    }

    /// The state at the next step.
    pub open spec fn advanced(self) -> ReplayView {
        ReplayView { pc: self.pc + 1, ..self }
    }

    /// Arriving at the current step: what is asked first. Steps that ask
    /// nothing are passed through.
    pub open spec fn enter(self, target: Option<TargetView>, now: u64) -> Turn
        decreases self.plan.len() - self.pc,
    {
        if self.pc >= self.plan.len() {
            (self.with(PhaseView::Completed), None)
        } else {
            match self.plan[self.pc as int] {
                StepView::Launch { .. } => {
                    let (a, ask) = ActivateView::begin_focus(target);
                    if a is Settled {
                        self.dispatch()
                    } else {
                        (self.with(PhaseView::Focusing(a)), ask)
                    }
                },
                StepView::Revisit { .. } => (
                    self.with(PhaseView::Probing),
                    Some(RequestView::ActiveClient),
                ),
                StepView::Hold => self.holding().advanced().enter(target, now),
                StepView::Focus => match self.kept() {
                    Some(address) => (
                        self.with(PhaseView::Pointing),
                        Some(RequestView::FocusWindow(address)),
                    ),
                    None => {
                        let (a, ask) = ActivateView::begin_focus(target);
                        if a is Settled {
                            self.advanced().enter(target, now)
                        } else {
                            (self.with(PhaseView::Focusing(a)), ask)
                        }
                    },
                },
                StepView::Await { ordinal } => self.wait(ordinal, now),
                StepView::Release => self.released().advanced().enter(target, now),
            }
        }
    }

    /// The launch of the current step is dispatched.
    pub open spec fn dispatch(self) -> Turn {
        match self.current() {
            Some(StepView::Launch { command, .. }) => (
                self.with(PhaseView::Dispatching),
                Some(RequestView::Exec(command)),
            ),
            _ => self.fail(ErrorView::protocol()),
        }
    }

    /// The wait until the windows of `ordinal` launches are there.
    pub open spec fn wait(self, ordinal: usize, now: u64) -> Turn {
        let (w, ask) = CountWaitView::begin(WaitGoal::AtLeast, clip(self.base + ordinal), now);
        (self.with(PhaseView::Waiting(w)), ask)
    }

    /// The leaf of the current launch has its anchor: it is known from now
    /// on, and the launch is over but for its pause.
    pub open spec fn settle(self, anchor: Option<Seq<char>>, target: Option<TargetView>, now: u64)
        -> Turn {
        let next = ReplayView { anchor, known: with_known(self.known, anchor), ..self };
        match self.current() {
            Some(StepView::Launch { pause, .. }) => if pause {
                (next.with(PhaseView::Pausing), Some(RequestView::Sleep(SLOT_LAUNCH_DELAY)))
            } else {
                next.advanced().enter(target, now)
            },
            _ => self.fail(ErrorView::protocol()),
        }
    }

    /// The first listing says how many windows the workspace has, and which.
    pub open spec fn on_listing(self, ctx: ContextView, target: Option<TargetView>, reply: ReplyView, now: u64)
        -> Turn {
        match reply {
            ReplyView::Clients(clients) => ReplayView {
                base: clip(clients_on(clients, ctx).len() as int),
                known: addresses_on(clients, ctx),
                ..self
            }.enter(target, now),
            ReplyView::Failed(cause) => self.fail(
                ErrorView::gateway("failed to list Hyprland clients"@, cause),
            ),
            _ => self.fail(ErrorView::protocol()),
        }
    }

    /// The workspace is asserted: a launch is dispatched; after the focus on a
    /// kept window, the focused window is asked for.
    pub open spec fn after_focus(self, target: Option<TargetView>, now: u64) -> Turn {
        match self.current() {
            Some(StepView::Launch { .. }) => self.dispatch(),
            Some(StepView::Focus) => if self.kept() is Some {
                (self.with(PhaseView::Verifying), Some(RequestView::ActiveClient))
            } else {
                self.advanced().enter(target, now)
            },
            _ => self.fail(ErrorView::protocol()),
        }
    }

    /// A step of re-asserting the workspace.
    pub open spec fn on_focusing(
        self,
        a: ActivateView,
        target: Option<TargetView>,
        reply: ReplyView,
        now: u64,
    ) -> Turn {
        match target {
            Some(t) => {
                let (a2, ask) = a.step(t, reply, now);
                match a2 {
                    ActivateView::Settled(_) => self.with(PhaseView::Focusing(a2)).after_focus(
                        target,
                        now,
                    ),
                    ActivateView::Failed(e) => self.fail(e),
                    _ => (self.with(PhaseView::Focusing(a2)), ask),
                }
            },
            None => self.fail(ErrorView::protocol()),
        }
    }

    /// The launch was dispatched: its window is waited for. A launch that
    /// could not be dispatched is fatal.
    pub open spec fn on_dispatching(self, reply: ReplyView, now: u64) -> Turn {
        match self.current() {
            Some(StepView::Launch { slot_id, ordinal, .. }) => match reply {
                ReplyView::Done => self.wait(ordinal, now),
                ReplyView::Failed(cause) => self.fail(
                    ErrorView::gateway(exec_failed_message(slot_id), cause),
                ),
                _ => self.fail(ErrorView::protocol()),
            },
            _ => self.fail(ErrorView::protocol()),
        }
    }

    /// The windows are there: the pending fraction is set, if there is one, and
    /// the new window is looked for; after a wait of its own the replay goes on.
    pub open spec fn after_wait(self, target: Option<TargetView>, now: u64) -> Turn {
        match self.current() {
            Some(StepView::Launch { ratio: Some(fraction), .. }) => (
                self.with(PhaseView::Rationing),
                Some(RequestView::SplitRatio(split_ratio_arg(fraction as nat))),
            ),
            Some(StepView::Launch { ratio: None, .. }) => (
                self.with(PhaseView::Scanning),
                Some(RequestView::ListClients),
            ),
            Some(StepView::Await { .. }) => self.advanced().enter(target, now),
            _ => self.fail(ErrorView::protocol()),
        }
    }

    /// A step of waiting for windows. A wait that runs out of time is fatal;
    /// where it was the wait of a launch, the error names the slot.
    pub open spec fn on_waiting(
        self,
        w: CountWaitView,
        ctx: ContextView,
        target: Option<TargetView>,
        reply: ReplyView,
        now: u64,
    ) -> Turn {
        let (w2, ask) = w.step(ctx, reply, now);
        match w2.phase {
            WaitPhaseView::Reached => self.with(PhaseView::Waiting(w2)).after_wait(target, now),
            WaitPhaseView::Failed(e) => match self.current() {
                Some(StepView::Launch { slot_id, .. }) => self.fail(
                    e.wrap(wait_failed_message(slot_id)),
                ),
                _ => self.fail(e),
            },
            _ => (self.with(PhaseView::Waiting(w2)), ask),
        }
    }

    /// A fraction that the window manager refuses is passed over.
    pub open spec fn on_rationing(self, reply: ReplyView) -> Turn {
        match (self.current(), reply) {
            (Some(StepView::Launch { .. }), ReplyView::Done) => (
                self.with(PhaseView::Scanning),
                Some(RequestView::ListClients),
            ),
            (Some(StepView::Launch { .. }), ReplyView::Failed(_)) => (
                self.with(PhaseView::Scanning),
                Some(RequestView::ListClients),
            ),
            _ => self.fail(ErrorView::protocol()),
        }
    }

    /// The anchor is the first window not seen before; where there is none,
    /// or the listing fails, the focused window is asked for.
    pub open spec fn on_scanning(
        self,
        ctx: ContextView,
        target: Option<TargetView>,
        reply: ReplyView,
        now: u64,
    ) -> Turn {
        match (self.current(), reply) {
            (Some(StepView::Launch { .. }), ReplyView::Clients(clients)) => match first_new(
                clients,
                ctx,
                self.known,
            ) {
                Some(address) => self.settle(Some(address), target, now),
                None => (self.with(PhaseView::Probing), Some(RequestView::ActiveClient)),
            },
            (Some(StepView::Launch { .. }), ReplyView::Failed(_)) => (
                self.with(PhaseView::Probing),
                Some(RequestView::ActiveClient),
            ),
            _ => self.fail(ErrorView::protocol()),
        }
    }

    /// The focused window was asked for: a launch takes it as its anchor and is
    /// over; a leaf launched before takes it and the replay goes on.
    pub open spec fn probed(self, anchor: Option<Seq<char>>, target: Option<TargetView>, now: u64)
        -> Turn {
        match self.current() {
            Some(StepView::Launch { .. }) => self.settle(anchor, target, now),
            Some(StepView::Revisit { .. }) => ReplayView { anchor, ..self }.advanced().enter(
                target,
                now,
            ),
            _ => self.fail(ErrorView::protocol()),
        }
    }

    /// The focused window is the anchor if it is on the workspace; a failed
    /// query leaves the leaf without an anchor.
    pub open spec fn on_probing(
        self,
        ctx: ContextView,
        target: Option<TargetView>,
        reply: ReplyView,
        now: u64,
    ) -> Turn {
        match reply {
            ReplyView::ActiveClient(focused) => self.probed(active_on(focused, ctx), target, now),
            ReplyView::Failed(_) => self.probed(None, target, now),
            _ => self.fail(ErrorView::protocol()),
        }
    }

    /// The pause is over.
    pub open spec fn on_pausing(self, target: Option<TargetView>, reply: ReplyView, now: u64)
        -> Turn {
        match (self.current(), reply) {
            (Some(StepView::Launch { .. }), ReplyView::Done) => self.advanced().enter(target, now),
            _ => self.fail(ErrorView::protocol()),
        }
    }

    /// After the focus was dispatched the workspace is re-asserted, in case
    /// the focus was ignored, and the focused window is asked for.
    pub open spec fn on_pointing(self, target: Option<TargetView>, reply: ReplyView) -> Turn {
        match (self.current(), self.kept()) {
            (Some(StepView::Focus), Some(address)) => match reply {
                ReplyView::Done => {
                    let (a, ask) = ActivateView::begin_focus(target);
                    if a is Settled {
                        (self.with(PhaseView::Verifying), Some(RequestView::ActiveClient))
                    } else {
                        (self.with(PhaseView::Focusing(a)), ask)
                    }
                },
                ReplyView::Failed(cause) => self.fail(
                    ErrorView::gateway(focus_failed_message(address), cause),
                ),
                _ => self.fail(ErrorView::protocol()),
            },
            _ => self.fail(ErrorView::protocol()),
        }
    }

    /// Which window has the focus after focusing changes nothing; only a
    /// failed query counts.
    pub open spec fn on_verifying(self, target: Option<TargetView>, reply: ReplyView, now: u64)
        -> Turn {
        match (self.current(), reply) {
            (Some(StepView::Focus), ReplyView::ActiveClient(_)) => self.advanced().enter(
                target,
                now,
            ),
            (Some(StepView::Focus), ReplyView::Failed(cause)) => self.fail(
                ErrorView::gateway("failed to get active window after focusing"@, cause),
            ),
            _ => self.fail(ErrorView::protocol()),
        }
    }

    /// One step of the replay on the workspace `ctx`, which `target` asked
    /// for if any did: the state it moves to on `reply`, received at the
    /// moment `now`, and what it asks next.
    pub open spec fn step(
        self,
        ctx: ContextView,
        target: Option<TargetView>,
        reply: ReplyView,
        now: u64,
    ) -> Turn {
        match self.phase {
            PhaseView::Listing => self.on_listing(ctx, target, reply, now),
            PhaseView::Focusing(a) => self.on_focusing(a, target, reply, now),
            PhaseView::Dispatching => self.on_dispatching(reply, now),
            PhaseView::Waiting(w) => self.on_waiting(w, ctx, target, reply, now),
            PhaseView::Rationing => self.on_rationing(reply),
            PhaseView::Scanning => self.on_scanning(ctx, target, reply, now),
            PhaseView::Probing => self.on_probing(ctx, target, reply, now),
            PhaseView::Pausing => self.on_pausing(target, reply, now),
            PhaseView::Pointing => self.on_pointing(target, reply),
            PhaseView::Verifying => self.on_verifying(target, reply, now),
            PhaseView::Completed => (self, None),
            PhaseView::Failed(_) => (self, None),
        }
    }
}


fn knows(known: &Vec<String>, address: &String) -> (b: bool)
    ensures
        b == known.deep_view().contains(address@),
{
    let ghost model = known.deep_view();
    let mut i: usize = 0;
    while i < known.len()
        invariant
            i <= known.len(),
            model == known.deep_view(),
            forall|k: int| 0 <= k < i ==> model[k] != address@,
        decreases known.len() - i,
    {
        if known[i] == *address {
            assert(model[i as int] == address@);
            return true;
        }
        i += 1;
    }
    false
}

fn addresses(clients: &Vec<Client>, ctx: &WorkspaceContext) -> (out: Vec<String>)
    ensures
        out.deep_view() == addresses_on(clients.deep_view(), ctx@),
{
    let ghost all = clients.deep_view();
    let mut out: Vec<String> = Vec::new();
    let mut i: usize = 0;
    assert(out.deep_view() =~= addresses_on(all.take(0), ctx@));
    while i < clients.len()
        invariant
            i <= clients.len(),
            all == clients.deep_view(),
            out.deep_view() == addresses_on(all.take(i as int), ctx@),
        decreases clients.len() - i,
    {
        let ghost before = out.deep_view();
        proof {
            assert(all.take(i as int + 1).drop_last() =~= all.take(i as int));
            assert(all.take(i as int + 1).last() == clients@[i as int]@);
        }
        if ctx.matches(&clients[i].workspace) {
            out.push(clients[i].address.clone());
            assert(out.deep_view() =~= before.push(clients@[i as int].address@));
        }
        i += 1;
    }
    assert(all.take(clients.len() as int) =~= all);
    out
}

fn newly_added_address(clients: &Vec<Client>, ctx: &WorkspaceContext, known: &Vec<String>) -> (out: Option<
    String,
>)
    ensures
        out.deep_view() == first_new(clients.deep_view(), ctx@, known.deep_view()),
{
    let ghost all = clients.deep_view();
    let mut i: usize = 0;
    assert(all.skip(0) =~= all);
    while i < clients.len()
        invariant
            i <= clients.len(),
            all == clients.deep_view(),
            first_new(all, ctx@, known.deep_view()) == first_new(
                all.skip(i as int),
                ctx@,
                known.deep_view(),
            ),
        decreases clients.len() - i,
    {
        proof {
            assert(all.skip(i as int)[0] == clients@[i as int]@);
            assert(all.skip(i as int).drop_first() =~= all.skip(i as int + 1));
        }
        if ctx.matches(&clients[i].workspace) && !knows(known, &clients[i].address) {
            return Some(clients[i].address.clone());
        }
        i += 1;
    }
    None
}

fn active_address_on_workspace(focused: Option<Client>, ctx: &WorkspaceContext) -> (out: Option<String>)
    ensures
        out.deep_view() == active_on(focused.deep_view(), ctx@),
{
    match focused {
        Some(c) => if ctx.matches(&c.workspace) {
            Some(c.address)
        } else {
            None
        },
        None => None,
    }
}

fn remember(known: Vec<String>, anchor: &Option<String>) -> (out: Vec<String>)
    ensures
        out.deep_view() == with_known(known.deep_view(), anchor.deep_view()),
{
    let mut known = known;
    match anchor {
        Some(address) => {
            if !knows(&known, address) {
                let ghost before = known.deep_view();
                known.push(address.clone());
                assert(known.deep_view() =~= before.push(address@));
            }
        },
        None => {},
    }
    known
}

fn exec_failed(slot_id: u32, cause: String) -> (e: LaunchError)
    ensures
        e@ == ErrorView::gateway(exec_failed_message(slot_id), cause@),
{
    let mut text = String::from_str("failed to exec slot #");
    push_decimal(&mut text, slot_id as u64);
    text.append(" command");
    assert(text@ =~= exec_failed_message(slot_id));
    LaunchError::gateway(text.as_str(), cause)
}

fn focus_failed(address: &String, cause: String) -> (e: LaunchError)
    ensures
        e@ == ErrorView::gateway(focus_failed_message(address@), cause@),
{
    let mut text = String::from_str("failed to focus window at address ");
    text.append(address.as_str());
    LaunchError::gateway(text.as_str(), cause)
}

/// Starts the replay of the layout `node` of the workset `ws`: the layout is
/// planned, and the windows are listed first.
pub fn run_layout(node: &LayoutNode, ws: &Workset) -> (out: (Replay, Option<Request>))
    ensures
        (out.0@, out.1.deep_view()) == ReplayView::begin(plan_of(node, defaults_of(ws))),
{
    Replay::begin(plan_layout(node, ws))
}

/// What the current step of a replay is, with the data that carrying it out
/// needs.
enum Current {
    Launch { slot_id: u32, command: String, ordinal: usize, ratio: Option<u32>, pause: bool },
    Revisit,
    Hold,
    Focus,
    Await { ordinal: usize },
    Release,
    Over,
}

impl Replay {
    /// Starts the replay of `plan`.
    pub fn begin(plan: Vec<PlanStep>) -> (out: (Replay, Option<Request>))
        ensures
            (out.0@, out.1.deep_view()) == ReplayView::begin(plan.deep_view()),
    {
        let r = Replay {
            plan,
            pc: 0,
            base: 0,
            known: Vec::new(),
            anchor: None,
            held: Vec::new(),
            phase: ReplayPhase::Listing,
        };
        assert(r@.known =~= Seq::empty());
        assert(r@.held =~= Seq::empty());
        (r, Some(Request::ListClients))
    }

    /// Whether the replay has ended, well or not.
    pub fn ended(&self) -> (b: bool)
        ensures
            b == self@.ended(),
    {
        match self.phase {
            ReplayPhase::Completed => true,
            ReplayPhase::Failed(_) => true,
            _ => false,
        }
    }

    fn with_phase(self, phase: ReplayPhase) -> (out: Replay)
        ensures
            out@ == self@.with(phase@),
            out.plan == self.plan,
            out.pc == self.pc,
    {
        let Replay { plan, pc, base, known, anchor, held, phase: _ } = self;
        Replay { plan, pc, base, known, anchor, held, phase }
    }

    fn fail(self, e: LaunchError) -> (out: (Replay, Option<Request>))
        ensures
            (out.0@, out.1.deep_view()) == self@.fail(e@),
    {
        (self.with_phase(ReplayPhase::Failed(e)), None)
    }

    fn current(&self) -> (c: Current)
        ensures
            match c {
                Current::Launch { slot_id, command, ordinal, ratio, pause } => self@.current()
                    == Some(
                    StepView::Launch { slot_id, command: command@, ordinal, ratio, pause },
                ),
                Current::Revisit => self@.current() matches Some(StepView::Revisit { .. }),
                Current::Hold => self@.current() == Some(StepView::Hold),
                Current::Focus => self@.current() == Some(StepView::Focus),
                Current::Await { ordinal } => self@.current() == Some(
                    StepView::Await { ordinal },
                ),
                Current::Release => self@.current() == Some(StepView::Release),
                Current::Over => self@.current() is None,
            },
            !(c is Over) ==> self.pc < self.plan.len(),
    {
        if self.pc >= self.plan.len() {
            return Current::Over;
        }
        assert(self@.plan[self.pc as int] == self.plan@[self.pc as int]@);
        match &self.plan[self.pc] {
            PlanStep::Launch { slot_id, command, ordinal, ratio, pause } => Current::Launch {
                slot_id: *slot_id,
                command: command.clone(),
                ordinal: *ordinal,
                ratio: *ratio,
                pause: *pause,
            },
            PlanStep::Revisit { .. } => Current::Revisit,
            PlanStep::Hold => Current::Hold,
            PlanStep::Focus => Current::Focus,
            PlanStep::Await { ordinal } => Current::Await { ordinal: *ordinal },
            PlanStep::Release => Current::Release,
        }
    }

    fn kept(&self) -> (out: Option<String>)
        ensures
            out.deep_view() == self@.kept(),
    {
        if self.held.len() > 0 {
            assert(self@.held.last() == self.held@[self.held.len() - 1].deep_view());
            copy_opt(&self.held[self.held.len() - 1])
        } else {
            None
        }
    }

    fn advanced(self) -> (out: Replay)
        requires
            self.pc < self.plan.len(),
        ensures
            out@ == self@.advanced(),
            out.plan == self.plan,
            out.pc == self.pc + 1,
    {
        let Replay { plan, pc, base, known, anchor, held, phase } = self;
        Replay { plan, pc: pc + 1, base, known, anchor, held, phase }
    }

    fn wait(self, ordinal: usize, now: u64) -> (out: (Replay, Option<Request>))
        ensures
            (out.0@, out.1.deep_view()) == self@.wait(ordinal, now),
    {
        let bound: usize = if self.base > usize::MAX - ordinal {
            usize::MAX
        } else {
            self.base + ordinal
        };
        let (w, ask) = wait_for_clients_on_workspace(bound, now);
        (self.with_phase(ReplayPhase::Waiting(w)), ask)
    }

    fn dispatch(self) -> (out: (Replay, Option<Request>))
        ensures
            (out.0@, out.1.deep_view()) == self@.dispatch(),
    {
        match self.current() {
            Current::Launch { command, .. } => (
                self.with_phase(ReplayPhase::Dispatching),
                Some(Request::Exec(command)),
            ),
            _ => self.fail(LaunchError::protocol()),
        }
    }

    fn enter(self, target: Option<&WorkspaceTarget>, now: u64) -> (out: (Replay, Option<Request>))
        ensures
            (out.0@, out.1.deep_view()) == self@.enter(target.deep_view(), now),
        decreases self.plan.len() - self.pc,
    {
        match self.current() {
            Current::Over => (self.with_phase(ReplayPhase::Completed), None),
            Current::Launch { .. } => {
                let (a, ask) = ensure_workspace_focus(target);
                match a {
                    Activate::Settled(_) => self.dispatch(),
                    other => (self.with_phase(ReplayPhase::Focusing(other)), ask),
                }
            },
            Current::Revisit => (
                self.with_phase(ReplayPhase::Probing),
                Some(Request::ActiveClient),
            ),
            Current::Hold => {
                let Replay { plan, pc, base, known, anchor, held, phase } = self;
                let mut held = held;
                let ghost before = held.deep_view();
                held.push(copy_opt(&anchor));
                assert(held.deep_view() =~= before.push(anchor.deep_view()));
                let next = Replay { plan, pc, base, known, anchor, held, phase };
                next.advanced().enter(target, now)
            },
            Current::Focus => match self.kept() {
                Some(address) => (
                    self.with_phase(ReplayPhase::Pointing),
                    Some(Request::FocusWindow(address)),
                ),
                None => {
                    let (a, ask) = ensure_workspace_focus(target);
                    match a {
                        Activate::Settled(_) => self.advanced().enter(target, now),
                        other => (self.with_phase(ReplayPhase::Focusing(other)), ask),
                    }
                },
            },
            Current::Await { ordinal } => self.wait(ordinal, now),
            Current::Release => {
                let Replay { plan, pc, base, known, anchor, held, phase } = self;
                let mut held = held;
                let ghost before = held.deep_view();
                let left = match held.pop() {
                    Some(Some(address)) => Some(address),
                    Some(None) => anchor,
                    None => anchor,
                };
                assert(before.len() > 0 ==> held.deep_view() =~= before.drop_last());
                assert(before.len() == 0 ==> held.deep_view() =~= before);
                let next = Replay { plan, pc, base, known, anchor: left, held, phase };
                next.advanced().enter(target, now)
            },
        }
    }

    fn settle(self, anchor: Option<String>, target: Option<&WorkspaceTarget>, now: u64) -> (out: (
        Replay,
        Option<Request>,
    ))
        ensures
            (out.0@, out.1.deep_view()) == self@.settle(
                anchor.deep_view(),
                target.deep_view(),
                now,
            ),
    {
        match self.current() {
            Current::Launch { pause, .. } => {
                let Replay { plan, pc, base, known, anchor: _, held, phase } = self;
                let known = remember(known, &anchor);
                let next = Replay { plan, pc, base, known, anchor, held, phase };
                if pause {
                    (
                        next.with_phase(ReplayPhase::Pausing),
                        Some(Request::Sleep(SLOT_LAUNCH_DELAY)),
                    )
                } else {
                    next.advanced().enter(target, now)
                }
            },
            _ => self.fail(LaunchError::protocol()),
        }
    }

    fn after_focus(self, target: Option<&WorkspaceTarget>, now: u64) -> (out: (
        Replay,
        Option<Request>,
    ))
        ensures
            (out.0@, out.1.deep_view()) == self@.after_focus(target.deep_view(), now),
    {
        match self.current() {
            Current::Launch { .. } => self.dispatch(),
            Current::Focus => if self.kept().is_some() {
                (self.with_phase(ReplayPhase::Verifying), Some(Request::ActiveClient))
            } else {
                self.advanced().enter(target, now)
            },
            _ => self.fail(LaunchError::protocol()),
        }
    }

    fn after_wait(self, target: Option<&WorkspaceTarget>, now: u64) -> (out: (
        Replay,
        Option<Request>,
    ))
        ensures
            (out.0@, out.1.deep_view()) == self@.after_wait(target.deep_view(), now),
    {
        match self.current() {
            Current::Launch { ratio: Some(fraction), .. } => (
                self.with_phase(ReplayPhase::Rationing),
                Some(Request::SplitRatio(split_ratio_argument(fraction))),
            ),
            Current::Launch { ratio: None, .. } => (
                self.with_phase(ReplayPhase::Scanning),
                Some(Request::ListClients),
            ),
            Current::Await { .. } => self.advanced().enter(target, now),
            _ => self.fail(LaunchError::protocol()),
        }
    }

    fn probed(self, anchor: Option<String>, target: Option<&WorkspaceTarget>, now: u64) -> (out: (
        Replay,
        Option<Request>,
    ))
        ensures
            (out.0@, out.1.deep_view()) == self@.probed(
                anchor.deep_view(),
                target.deep_view(),
                now,
            ),
    {
        match self.current() {
            Current::Launch { .. } => self.settle(anchor, target, now),
            Current::Revisit => {
                let Replay { plan, pc, base, known, anchor: _, held, phase } = self;
                let next = Replay { plan, pc, base, known, anchor, held, phase };
                next.advanced().enter(target, now)
            },
            _ => self.fail(LaunchError::protocol()),
        }
    }

    /// Takes one reply, received at the moment `now`, and moves on. `ctx` is
    /// the workspace of the launch and `target` the workspace that the
    /// workset asked for, if it asked for one.
    pub fn feed(
        self,
        ctx: &WorkspaceContext,
        target: Option<&WorkspaceTarget>,
        reply: Reply,
        now: u64,
    ) -> (out: (Replay, Option<Request>))
        ensures
            (out.0@, out.1.deep_view()) == self@.step(ctx@, target.deep_view(), reply@, now),
    {
        // the phase is taken out of the replay, and every arm puts one in
        let Replay { plan, pc, base, known, anchor, held, phase } = self;
        match phase {
            ReplayPhase::Listing => {
                let me = Replay { plan, pc, base, known, anchor, held, phase: ReplayPhase::Listing };
                match reply {
                    Reply::Clients(clients) => {
                        let Replay { plan, pc, base: _, known: _, anchor, held, phase } = me;
                        let next = Replay {
                            plan,
                            pc,
                            base: count_on(&clients, ctx),
                            known: addresses(&clients, ctx),
                            anchor,
                            held,
                            phase,
                        };
                        next.enter(target, now)
                    },
                    Reply::Failed(cause) => me.fail(
                        LaunchError::gateway("failed to list Hyprland clients", cause),
                    ),
                    _ => me.fail(LaunchError::protocol()),
                }
            },
            ReplayPhase::Focusing(a) => {
                let ghost a0 = a@;
                let me = Replay { plan, pc, base, known, anchor, held, phase: ReplayPhase::Listing };
                assert(me@.with(PhaseView::Focusing(a0)) == self@);
                match target {
                    Some(t) => {
                        let (a2, ask) = a.feed(t, reply, now);
                        match a2 {
                            Activate::Settled(_) => me.with_phase(
                                ReplayPhase::Focusing(a2),
                            ).after_focus(target, now),
                            Activate::Failed(e) => me.fail(e),
                            other => (me.with_phase(ReplayPhase::Focusing(other)), ask),
                        }
                    },
                    None => me.fail(LaunchError::protocol()),
                }
            },
            ReplayPhase::Dispatching => {
                let me = Replay {
                    plan,
                    pc,
                    base,
                    known,
                    anchor,
                    held,
                    phase: ReplayPhase::Dispatching,
                };
                match me.current() {
                    Current::Launch { slot_id, ordinal, .. } => match reply {
                        Reply::Done => me.wait(ordinal, now),
                        Reply::Failed(cause) => me.fail(exec_failed(slot_id, cause)),
                        _ => me.fail(LaunchError::protocol()),
                    },
                    _ => me.fail(LaunchError::protocol()),
                }
            },
            ReplayPhase::Waiting(w) => {
                let me = Replay { plan, pc, base, known, anchor, held, phase: ReplayPhase::Listing };
                let (w2, ask) = w.feed(ctx, reply, now);
                let CountWait { goal, bound, started, deadline, phase: wphase } = w2;
                match wphase {
                    WaitPhase::Reached => me.with_phase(
                        ReplayPhase::Waiting(
                            CountWait { goal, bound, started, deadline, phase: WaitPhase::Reached },
                        ),
                    ).after_wait(target, now),
                    WaitPhase::Failed(e) => match me.current() {
                        Current::Launch { slot_id, .. } => {
                            let mut text = String::from_str(
                                "failed to wait for the window of slot #",
                            );
                            push_decimal(&mut text, slot_id as u64);
                            assert(text@ =~= wait_failed_message(slot_id));
                            me.fail(e.wrap(text))
                        },
                        _ => me.fail(e),
                    },
                    other => (
                        me.with_phase(
                            ReplayPhase::Waiting(CountWait { goal, bound, started, deadline, phase: other }),
                        ),
                        ask,
                    ),
                }
            },
            ReplayPhase::Rationing => {
                let me = Replay {
                    plan,
                    pc,
                    base,
                    known,
                    anchor,
                    held,
                    phase: ReplayPhase::Rationing,
                };
                match (me.current(), reply) {
                    (Current::Launch { .. }, Reply::Done) => (
                        me.with_phase(ReplayPhase::Scanning),
                        Some(Request::ListClients),
                    ),
                    (Current::Launch { .. }, Reply::Failed(_)) => (
                        me.with_phase(ReplayPhase::Scanning),
                        Some(Request::ListClients),
                    ),
                    _ => me.fail(LaunchError::protocol()),
                }
            },
            ReplayPhase::Scanning => {
                let me = Replay {
                    plan,
                    pc,
                    base,
                    known,
                    anchor,
                    held,
                    phase: ReplayPhase::Scanning,
                };
                match (me.current(), reply) {
                    (Current::Launch { .. }, Reply::Clients(clients)) => match newly_added_address(
                        &clients,
                        ctx,
                        &me.known,
                    ) {
                        Some(address) => me.settle(Some(address), target, now),
                        None => (me.with_phase(ReplayPhase::Probing), Some(Request::ActiveClient)),
                    },
                    (Current::Launch { .. }, Reply::Failed(_)) => (
                        me.with_phase(ReplayPhase::Probing),
                        Some(Request::ActiveClient),
                    ),
                    _ => me.fail(LaunchError::protocol()),
                }
            },
            ReplayPhase::Probing => {
                let me = Replay { plan, pc, base, known, anchor, held, phase: ReplayPhase::Probing };
                match reply {
                    Reply::ActiveClient(focused) => me.probed(
                        active_address_on_workspace(focused, ctx),
                        target,
                        now,
                    ),
                    Reply::Failed(_) => me.probed(None, target, now),
                    _ => me.fail(LaunchError::protocol()),
                }
            },
            ReplayPhase::Pausing => {
                let me = Replay { plan, pc, base, known, anchor, held, phase: ReplayPhase::Pausing };
                match (me.current(), reply) {
                    (Current::Launch { .. }, Reply::Done) => me.advanced().enter(target, now),
                    _ => me.fail(LaunchError::protocol()),
                }
            },
            ReplayPhase::Pointing => {
                let me = Replay {
                    plan,
                    pc,
                    base,
                    known,
                    anchor,
                    held,
                    phase: ReplayPhase::Pointing,
                };
                match (me.current(), me.kept()) {
                    (Current::Focus, Some(address)) => match reply {
                        Reply::Done => {
                            let (a, ask) = ensure_workspace_focus(target);
                            match a {
                                Activate::Settled(_) => (
                                    me.with_phase(ReplayPhase::Verifying),
                                    Some(Request::ActiveClient),
                                ),
                                other => (me.with_phase(ReplayPhase::Focusing(other)), ask),
                            }
                        },
                        Reply::Failed(cause) => me.fail(focus_failed(&address, cause)),
                        _ => me.fail(LaunchError::protocol()),
                    },
                    _ => me.fail(LaunchError::protocol()),
                }
            },
            ReplayPhase::Verifying => {
                let me = Replay {
                    plan,
                    pc,
                    base,
                    known,
                    anchor,
                    held,
                    phase: ReplayPhase::Verifying,
                };
                match (me.current(), reply) {
                    (Current::Focus, Reply::ActiveClient(_)) => me.advanced().enter(target, now),
                    (Current::Focus, Reply::Failed(cause)) => me.fail(
                        LaunchError::gateway("failed to get active window after focusing", cause),
                    ),
                    _ => me.fail(LaunchError::protocol()),
                }
            },
            ReplayPhase::Completed => (
                Replay { plan, pc, base, known, anchor, held, phase: ReplayPhase::Completed },
                None,
            ),
            ReplayPhase::Failed(e) => (
                Replay { plan, pc, base, known, anchor, held, phase: ReplayPhase::Failed(e) },
                None,
            ),
        }
    }
}

} // verus!
