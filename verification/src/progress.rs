//! A replay comes to its end where everything goes well: where every query
//! and every dispatch succeeds, the workspace of the launch stays the active
//! one, and the windows that a wait looks for are there before its time is
//! over, the replay never fails, and it completes after a number of replies
//! that the length of its plan bounds, the looks that find the windows not
//! yet there and the pauses after them not counted.
use crate::config::LayoutNode;
use crate::gateway::{clients_on, ReplyView};
use crate::plan::{clip, plan_of, Defaults, StepView};
use crate::poll::{goal_met, verdict_of, Verdict, WaitPhaseView};
use crate::protocol::lemma_replay_enter;
use crate::replay::{active_on, addresses_on, first_new, with_known, PhaseView, ReplayView};
use crate::replay_laws::law_replay_launches_each_leaf_once;
use crate::resolve::{monitor_context, ActivateView, ResolveView};
use crate::workspace::{context_of, target_matches, ContextView, TargetView};
use vstd::prelude::*;

verus! {

/// Whether a reply to a look for the active workspace goes well: the query
/// succeeds, and the workspace that it shows is the one that `target` asks
/// for.
pub open spec fn look_goes_well(r: ResolveView, target: TargetView, reply: ReplyView) -> bool {
    match r {
        ResolveView::Listing => reply is Clients,
        ResolveView::Probing(_) => match reply {
            ReplyView::ActiveClient(Some(focused)) => target_matches(
                target,
                context_of(focused.workspace),
            ),
            ReplyView::ActiveClient(None) => true,
            _ => false,
        },
        ResolveView::Surveying(_) => match reply {
            ReplyView::Monitor(monitor) => target_matches(target, monitor_context(monitor)),
            _ => false,
        },
        _ => true,
    }
}

impl ReplayView {
    /// Whether a reply is one of a window manager with which everything goes
    /// well: the query or dispatch that the replay waits for succeeds (a
    /// refused ratio and a failed look for the anchor do no harm), the
    /// workspace is the active one, and the windows waited for are there or
    /// the time to wait for them is not over.
    pub open spec fn goes_well(
        self,
        ctx: ContextView,
        target: Option<TargetView>,
        reply: ReplyView,
        now: u64,
    ) -> bool {
        match self.phase {
            PhaseView::Listing => reply is Clients,
            PhaseView::Focusing(a) => match (a, target) {
                (ActivateView::Glancing(r), Some(t)) => look_goes_well(r, t, reply),
                _ => false,
            },
            PhaseView::Dispatching => reply is Done,
            PhaseView::Waiting(w) => match (w.phase, reply) {
                (WaitPhaseView::Counting, ReplyView::Clients(clients)) => verdict_of(
                    goal_met(w.goal, clients_on(clients, ctx).len(), w.bound as nat),
                    now,
                    w.deadline,
                ) != Verdict::TimedOut,
                (WaitPhaseView::Resting, ReplyView::Done) => true,
                _ => false,
            },
            PhaseView::Rationing => reply is Done || reply is Failed,
            PhaseView::Scanning => reply is Clients || reply is Failed,
            PhaseView::Probing => reply is ActiveClient || reply is Failed,
            PhaseView::Pausing => reply is Done,
            PhaseView::Pointing => reply is Done,
            PhaseView::Verifying => reply is ActiveClient,
            PhaseView::Completed => true,
            PhaseView::Failed(_) => true,
        }
    }

    /// Whether a reply only passes time in a wait: a look that finds the
    /// windows not yet there, or the end of the pause after it.
    pub open spec fn idles(self, ctx: ContextView, reply: ReplyView) -> bool {
        match (self.phase, reply) {
            (PhaseView::Waiting(w), ReplyView::Clients(clients)) => w.phase is Counting
                && !goal_met(w.goal, clients_on(clients, ctx).len(), w.bound as nat),
            (PhaseView::Waiting(w), ReplyView::Done) => w.phase is Resting,
            _ => false,
        }
    }

    /// Whether the state is one that a replay comes to while everything goes
    /// well: a sound state that has not failed, in which the workspace was
    /// never found to be another.
    pub open spec fn steady(self, target: Option<TargetView>) -> bool {
        &&& self.sound(target)
        &&& !(self.phase is Failed)
        &&& (self.phase matches PhaseView::Focusing(a) ==> a is Glancing)
    }

    /// How many replies of a run only passed time in a wait.
    pub open spec fn idle_count(
        self,
        ctx: ContextView,
        target: Option<TargetView>,
        replies: Seq<(ReplyView, u64)>,
    ) -> nat
        decreases replies.len(),
    {
        if replies.len() == 0 {
            0
        } else {
            self.idle_count(ctx, target, replies.drop_last()) + if self.run(
                ctx,
                target,
                replies.drop_last(),
            ).idles(ctx, replies.last().0) {
                1nat
            } else {
                0nat
            }
        }
    }

    /// How many replies a step of the plan takes at most.
    pub open spec fn step_cost() -> int {
        10
    }

    /// An upper bound on the replies that the replay still takes while
    /// everything goes well, those that only pass time in a wait apart.
    pub open spec fn rank(self) -> int {
        let ahead = if self.pc < self.plan.len() {
            ReplayView::step_cost() * (self.plan.len() - self.pc)
        } else {
            0
        };
        match self.phase {
            PhaseView::Completed => 0,
            PhaseView::Failed(_) => 0,
            PhaseView::Listing => ahead + 12,
            PhaseView::Pointing => ahead + 11,
            PhaseView::Focusing(ActivateView::Glancing(ResolveView::Probing(_))) => ahead + 9,
            PhaseView::Focusing(ActivateView::Glancing(ResolveView::Surveying(_))) => ahead + 8,
            PhaseView::Focusing(_) => ahead + 10,
            PhaseView::Dispatching => ahead + 7,
            PhaseView::Waiting(_) => ahead + 6,
            PhaseView::Rationing => ahead + 5,
            PhaseView::Scanning => ahead + 4,
            PhaseView::Probing => ahead + 3,
            PhaseView::Pausing => ahead + 2,
            PhaseView::Verifying => ahead + 2,
        }
    }

    /// Whether every reply of a run goes well with the state that it comes
    /// to.
    pub open spec fn well_driven(
        self,
        ctx: ContextView,
        target: Option<TargetView>,
        replies: Seq<(ReplyView, u64)>,
    ) -> bool
        decreases replies.len(),
    {
        if replies.len() == 0 {
            true
        } else {
            &&& self.well_driven(ctx, target, replies.drop_last())
            &&& self.run(ctx, target, replies.drop_last()).goes_well(
                ctx,
                target,
                replies.last().0,
                replies.last().1,
            )
        }
    }
}

proof fn lemma_enter_steady(m: ReplayView, target: Option<TargetView>, now: u64)
    ensures
        m.enter(target, now).0.steady(target),
        m.enter(target, now).0.plan == m.plan,
        m.enter(target, now).0.rank() <= (if m.pc < m.plan.len() {
            ReplayView::step_cost() * (m.plan.len() - m.pc)
        } else {
            0
        }) + 11,
    decreases m.plan.len() - m.pc,
{
    lemma_replay_enter(m, target, now);
    if m.pc < m.plan.len() {
        match m.plan[m.pc as int] {
            StepView::Hold => {
                lemma_enter_steady(m.holding().advanced(), target, now);
            },
            StepView::Focus => {
                lemma_enter_steady(m.advanced(), target, now);
            },
            StepView::Release => {
                lemma_enter_steady(m.released().advanced(), target, now);
            },
            _ => {},
        }
    }
}

/// While everything goes well a replay does not fail, and every reply
/// brings it nearer to its end, unless it only passes time in a wait.
pub proof fn law_good_reply_brings_the_end_nearer(
    m: ReplayView,
    ctx: ContextView,
    target: Option<TargetView>,
    reply: ReplyView,
    now: u64,
)
    requires
        m.steady(target),
        m.goes_well(ctx, target, reply, now),
    ensures
        m.step(ctx, target, reply, now).0.steady(target),
        m.step(ctx, target, reply, now).0.plan == m.plan,
        m.step(ctx, target, reply, now).0.rank() <= m.rank(),
        !m.ended() && !m.idles(ctx, reply) ==> m.step(ctx, target, reply, now).0.rank()
            < m.rank(),
        m.ended() ==> m.step(ctx, target, reply, now).0 == m,
{
    match m.phase {
        PhaseView::Listing => {
            if let ReplyView::Clients(clients) = reply {
                let next = ReplayView {
                    base: clip(clients_on(clients, ctx).len() as int),
                    known: addresses_on(clients, ctx),
                    ..m
                };
                lemma_enter_steady(next, target, now);
            }
        },
        PhaseView::Focusing(a) => {
            if let Some(t) = target {
                let (a2, ask) = a.step(t, reply, now);
                lemma_enter_steady(m.with(PhaseView::Focusing(a2)).advanced(), target, now);
            }
        },
        PhaseView::Waiting(w) => {
            let (w2, ask) = w.step(ctx, reply, now);
            lemma_enter_steady(m.with(PhaseView::Waiting(w2)).advanced(), target, now);
        },
        PhaseView::Scanning => {
            if let ReplyView::Clients(clients) = reply {
                if let Some(address) = first_new(clients, ctx, m.known) {
                    let anchor = Some(address);
                    let next = ReplayView { anchor, known: with_known(m.known, anchor), ..m };
                    lemma_enter_steady(next.advanced(), target, now);
                }
            }
        },
        PhaseView::Probing => {
            let anchor = match reply {
                ReplyView::ActiveClient(focused) => active_on(focused, ctx),
                _ => None,
            };
            let settled = ReplayView { anchor, known: with_known(m.known, anchor), ..m };
            lemma_enter_steady(settled.advanced(), target, now);
            lemma_enter_steady(ReplayView { anchor, ..m }.advanced(), target, now);
        },
        PhaseView::Pausing => {
            lemma_enter_steady(m.advanced(), target, now);
        },
        PhaseView::Verifying => {
            lemma_enter_steady(m.advanced(), target, now);
        },
        _ => {},
    }
}

proof fn lemma_run_nears_the_end(
    m: ReplayView,
    ctx: ContextView,
    target: Option<TargetView>,
    replies: Seq<(ReplyView, u64)>,
)
    requires
        m.steady(target),
        m.well_driven(ctx, target, replies),
    ensures
        m.run(ctx, target, replies).steady(target),
        m.run(ctx, target, replies).plan == m.plan,
        m.idle_count(ctx, target, replies) <= replies.len(),
        m.run(ctx, target, replies).ended() || m.run(ctx, target, replies).rank() + replies.len()
            - m.idle_count(ctx, target, replies) <= m.rank(),
    decreases replies.len(),
{
    if replies.len() > 0 {
        lemma_run_nears_the_end(m, ctx, target, replies.drop_last());
        law_good_reply_brings_the_end_nearer(
            m.run(ctx, target, replies.drop_last()),
            ctx,
            target,
            replies.last().0,
            replies.last().1,
        );
    }
}

/// Where everything goes well, a replay never fails, and it completes:
/// after at most ten replies for each step of its plan and twelve more, not
/// counting those that only passed time in a wait, it has come to its end.
pub proof fn law_replay_completes_where_all_goes_well(
    plan: Seq<StepView>,
    ctx: ContextView,
    target: Option<TargetView>,
    replies: Seq<(ReplyView, u64)>,
)
    requires
        ReplayView::begin(plan).0.well_driven(ctx, target, replies),
    ensures
        !(ReplayView::begin(plan).0.run(ctx, target, replies).phase is Failed),
        replies.len() - ReplayView::begin(plan).0.idle_count(ctx, target, replies)
            >= ReplayView::step_cost() * plan.len() + 12 ==> ReplayView::begin(plan).0.run(
            ctx,
            target,
            replies,
        ).phase is Completed,
{
    let m = ReplayView::begin(plan).0;
    lemma_run_nears_the_end(m, ctx, target, replies);
}

/// For any layout tree with a slot id of its own on each leaf: where every
/// query and dispatch succeeds, the workspace stays the active one and the
/// window of each launch is there before the time to wait for it is over,
/// the replay of the tree completes, and it has launched one command for
/// each leaf, whatever the shape of the tree.
pub proof fn law_replay_of_a_layout_completes(
    node: &LayoutNode,
    defaults: Defaults,
    ctx: ContextView,
    target: Option<TargetView>,
    replies: Seq<(ReplyView, u64)>,
)
    requires
        node.distinct_slots(),
        ReplayView::begin(plan_of(node, defaults)).0.well_driven(ctx, target, replies),
        replies.len() - ReplayView::begin(plan_of(node, defaults)).0.idle_count(
            ctx,
            target,
            replies,
        ) >= ReplayView::step_cost() * plan_of(node, defaults).len() + 12,
    ensures
        ReplayView::begin(plan_of(node, defaults)).0.run(ctx, target, replies).phase is Completed,
        ReplayView::begin(plan_of(node, defaults)).0.execs(ctx, target, replies)
            == node.leaf_count(),
{
    law_replay_completes_where_all_goes_well(plan_of(node, defaults), ctx, target, replies);
    law_replay_launches_each_leaf_once(node, defaults, ctx, target, replies);
}

} // verus!
