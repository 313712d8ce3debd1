//! What holds of every replay, whatever the driver answers: commands are
//! launched only as the plan says, each launch of the plan at most once, all
//! of them where the replay completes, and none after it has ended.
use crate::config::LayoutNode;
use crate::gateway::{ReplyView, RequestView};
use crate::plan::{launches, law_each_leaf_launched_once, plan_of, Defaults, StepView};
use crate::replay::{PhaseView, ReplayView};
use crate::workspace::{ContextView, TargetView};
use vstd::prelude::*;

verus! {

/// How many launches the plan holds before its step `pc`.
pub open spec fn launched_before(plan: Seq<StepView>, pc: nat) -> nat {
    if pc <= plan.len() {
        launches(plan.take(pc as int)).len()
    } else {
        launches(plan).len()
    }
}

/// Whether a request asks to run a command.
pub open spec fn is_exec(ask: Option<RequestView>) -> bool {
    ask matches Some(RequestView::Exec(_))
}

impl ReplayView {
    /// Whether the current step is a launch whose command was dispatched.
    pub open spec fn in_launch(self) -> bool {
        &&& self.current() matches Some(StepView::Launch { .. })
        &&& (self.phase is Dispatching || self.phase is Waiting || self.phase is Rationing
            || self.phase is Scanning || self.phase is Probing || self.phase is Pausing)
    }

    /// How many commands a replay in this state has launched: the launches
    /// of the steps behind it, and that of the current step once dispatched.
    pub open spec fn issued(self) -> nat {
        launched_before(self.plan, self.pc) + if self.in_launch() {
            1nat
        } else {
            0nat
        }
    }

    /// The state after a run of replies, each with the moment it came at.
    pub open spec fn run(
        self,
        ctx: ContextView,
        target: Option<TargetView>,
        replies: Seq<(ReplyView, u64)>,
    ) -> ReplayView
        decreases replies.len(),
    {
        if replies.len() == 0 {
            self
        } else {
            self.run(ctx, target, replies.drop_last()).step(
                ctx,
                target,
                replies.last().0,
                replies.last().1,
            ).0
        }
    }

    /// How many commands were asked to run during a run of replies.
    pub open spec fn execs(
        self,
        ctx: ContextView,
        target: Option<TargetView>,
        replies: Seq<(ReplyView, u64)>,
    ) -> nat
        decreases replies.len(),
    {
        if replies.len() == 0 {
            0
        } else {
            let before = self.run(ctx, target, replies.drop_last());
            let ask = before.step(ctx, target, replies.last().0, replies.last().1).1;
            self.execs(ctx, target, replies.drop_last()) + if is_exec(ask) {
                1nat
            } else {
                0nat
            }
        }
    }
}

proof fn lemma_launched_before_next(plan: Seq<StepView>, pc: nat)
    requires
        pc < plan.len(),
    ensures
        launched_before(plan, pc + 1) == launched_before(plan, pc) + if plan[pc as int] is Launch {
            1nat
        } else {
            0nat
        },
        launched_before(plan, pc + 1) <= launches(plan).len(),
    decreases plan.len() - pc,
{
    let next = plan.take(pc as int + 1);
    assert(next.drop_last() =~= plan.take(pc as int));
    assert(next.last() == plan[pc as int]);
    if pc + 1 < plan.len() {
        lemma_launched_before_next(plan, pc + 1);
    } else {
        assert(plan.take(plan.len() as int) =~= plan);
    }
}

proof fn lemma_launched_before_bound(plan: Seq<StepView>, pc: nat)
    ensures
        launched_before(plan, pc) <= launches(plan).len(),
        pc < plan.len() && plan[pc as int] is Launch ==> launched_before(plan, pc) + 1
            <= launches(plan).len(),
{
    if pc < plan.len() {
        lemma_launched_before_next(plan, pc);
    } else if pc == plan.len() {
        assert(plan.take(pc as int) =~= plan);
    }
}

/// Arriving at a step launches at most one command: the one of the launch
/// that the replay stops at. Arriving never fails.
proof fn lemma_enter_counts(m: ReplayView, target: Option<TargetView>, now: u64)
    ensures
        m.enter(target, now).0.plan == m.plan,
        !(m.enter(target, now).0.phase is Failed),
        m.enter(target, now).0.issued() == launched_before(m.plan, m.pc) + if is_exec(
            m.enter(target, now).1,
        ) {
            1nat
        } else {
            0nat
        },
        m.enter(target, now).1 matches Some(RequestView::Exec(cmd)) ==> m.enter(
            target,
            now,
        ).0.current() matches Some(StepView::Launch { command, .. }) && command == cmd,
        m.enter(target, now).1 is None ==> m.enter(target, now).0.phase is Completed,
    decreases m.plan.len() - m.pc,
{
    if m.pc >= m.plan.len() {
        assert(m.pc == m.plan.len() ==> m.plan.take(m.pc as int) =~= m.plan);
    } else {
        lemma_launched_before_next(m.plan, m.pc);
        match m.plan[m.pc as int] {
            StepView::Launch { .. } => {},
            StepView::Revisit { .. } => {},
            StepView::Hold => {
                let next = m.holding().advanced();
                lemma_enter_counts(next, target, now);
            },
            StepView::Focus => {
                if m.kept() is None {
                    lemma_enter_counts(m.advanced(), target, now);
                }
            },
            StepView::Await { .. } => {},
            StepView::Release => {
                let next = m.released().advanced();
                lemma_enter_counts(next, target, now);
            },
        }
    }
}

/// A step asks to run a command only where the plan has a launch, and then
/// the command of that launch; every such step counts one launch more, and
/// no other step that does not fail changes the count. A step that fails
/// asks nothing.
pub proof fn law_step_counts_launches(
    m: ReplayView,
    ctx: ContextView,
    target: Option<TargetView>,
    reply: ReplyView,
    now: u64,
)
    ensures
        m.step(ctx, target, reply, now).0.plan == m.plan,
        m.step(ctx, target, reply, now).0.phase is Failed ==> m.step(
            ctx,
            target,
            reply,
            now,
        ).1 is None,
        !(m.step(ctx, target, reply, now).0.phase is Failed) ==> m.step(
            ctx,
            target,
            reply,
            now,
        ).0.issued() == m.issued() + if is_exec(m.step(ctx, target, reply, now).1) {
            1nat
        } else {
            0nat
        },
        m.step(ctx, target, reply, now).1 matches Some(RequestView::Exec(cmd)) ==> m.step(
            ctx,
            target,
            reply,
            now,
        ).0.current() matches Some(StepView::Launch { command, .. }) && command == cmd,
        m.step(ctx, target, reply, now).0.issued() <= launches(m.plan).len(),
{
    let out = m.step(ctx, target, reply, now);
    lemma_launched_before_bound(m.plan, m.pc);
    if m.pc < m.plan.len() {
        lemma_launched_before_next(m.plan, m.pc);
    }
    match m.phase {
        PhaseView::Listing => {
            if let ReplyView::Clients(clients) = reply {
                let next = ReplayView {
                    base: crate::plan::clip(crate::gateway::clients_on(clients, ctx).len() as int),
                    known: crate::replay::addresses_on(clients, ctx),
                    ..m
                };
                lemma_enter_counts(next, target, now);
            }
        },
        PhaseView::Focusing(a) => {
            if let Some(t) = target {
                let (a2, ask) = a.step(t, reply, now);
                lemma_activate_asks_no_exec(a, t, reply, now);
                if a2 is Settled {
                    let me = m.with(PhaseView::Focusing(a2));
                    lemma_enter_counts(me.advanced(), target, now);
                }
            }
        },
        PhaseView::Dispatching => {},
        PhaseView::Waiting(w) => {
            let (w2, ask) = w.step(ctx, reply, now);
            if w2.phase is Reached {
                let me = m.with(PhaseView::Waiting(w2));
                lemma_enter_counts(me.advanced(), target, now);
            }
        },
        PhaseView::Rationing => {},
        PhaseView::Scanning => {
            if let ReplyView::Clients(clients) = reply {
                if let Some(address) = crate::replay::first_new(clients, ctx, m.known) {
                    let anchor = Some(address);
                    let next = ReplayView {
                        anchor,
                        known: crate::replay::with_known(m.known, anchor),
                        ..m
                    };
                    lemma_enter_counts(next.advanced(), target, now);
                }
            }
        },
        PhaseView::Probing => {
            let anchor = match reply {
                ReplyView::ActiveClient(focused) => crate::replay::active_on(focused, ctx),
                _ => None,
            };
            let settled = ReplayView {
                anchor,
                known: crate::replay::with_known(m.known, anchor),
                ..m
            };
            lemma_enter_counts(settled.advanced(), target, now);
            lemma_enter_counts(ReplayView { anchor, ..m }.advanced(), target, now);
        },
        PhaseView::Pausing => {
            lemma_enter_counts(m.advanced(), target, now);
        },
        PhaseView::Pointing => {},
        PhaseView::Verifying => {
            lemma_enter_counts(m.advanced(), target, now);
        },
        PhaseView::Completed => {},
        PhaseView::Failed(_) => {},
    }
    lemma_launched_before_bound(out.0.plan, out.0.pc);
}

proof fn lemma_activate_asks_no_exec(
    a: crate::resolve::ActivateView,
    t: TargetView,
    reply: ReplyView,
    now: u64,
)
    ensures
        !is_exec(a.step(t, reply, now).1),
{
}

/// A replay that has ended stays as it is and asks nothing more: after a
/// fatal error no further leaf is launched.
pub proof fn law_ended_replay_stays(
    m: ReplayView,
    ctx: ContextView,
    target: Option<TargetView>,
    reply: ReplyView,
    now: u64,
)
    requires
        m.ended(),
    ensures
        m.step(ctx, target, reply, now) == (m, None::<RequestView>),
{
}

proof fn lemma_run_counts(
    m: ReplayView,
    ctx: ContextView,
    target: Option<TargetView>,
    replies: Seq<(ReplyView, u64)>,
)
    requires
        m.issued() <= launches(m.plan).len(),
    ensures
        m.run(ctx, target, replies).plan == m.plan,
        m.issued() + m.execs(ctx, target, replies) <= launches(m.plan).len(),
        !(m.run(ctx, target, replies).phase is Failed) ==> m.run(ctx, target, replies).issued()
            == m.issued() + m.execs(ctx, target, replies) && !(m.phase is Failed),
    decreases replies.len(),
{
    if replies.len() > 0 {
        let before = m.run(ctx, target, replies.drop_last());
        lemma_run_counts(m, ctx, target, replies.drop_last());
        law_step_counts_launches(before, ctx, target, replies.last().0, replies.last().1);
        if before.phase is Failed {
            law_ended_replay_stays(before, ctx, target, replies.last().0, replies.last().1);
        }
    }
}

/// Whatever the driver answers, a replay asks to run at most as many
/// commands as its plan has launches; one that completes has asked for
/// exactly that many.
pub proof fn law_replay_launches_what_is_planned(
    plan: Seq<StepView>,
    ctx: ContextView,
    target: Option<TargetView>,
    replies: Seq<(ReplyView, u64)>,
)
    ensures
        ReplayView::begin(plan).0.execs(ctx, target, replies) <= launches(plan).len(),
        ReplayView::begin(plan).0.run(ctx, target, replies).phase is Completed
            ==> ReplayView::begin(plan).0.execs(ctx, target, replies) == launches(plan).len(),
{
    let m = ReplayView::begin(plan).0;
    assert(plan.take(0) =~= Seq::<StepView>::empty());
    assert(m.issued() == 0);
    lemma_run_counts(m, ctx, target, replies);
    let end = m.run(ctx, target, replies);
    if end.phase is Completed {
        lemma_completed_is_at_end(m, ctx, target, replies);
        assert(end.plan.take(end.plan.len() as int) =~= end.plan);
    }
}

/// A replay completes only at the end of its plan.
proof fn lemma_completed_is_at_end(
    m: ReplayView,
    ctx: ContextView,
    target: Option<TargetView>,
    replies: Seq<(ReplyView, u64)>,
)
    requires
        !(m.phase is Completed),
        m.run(ctx, target, replies).phase is Completed,
    ensures
        m.run(ctx, target, replies).pc >= m.run(ctx, target, replies).plan.len(),
    decreases replies.len(),
{
    if replies.len() > 0 {
        let before = m.run(ctx, target, replies.drop_last());
        if before.phase is Completed {
            lemma_completed_is_at_end(m, ctx, target, replies.drop_last());
        } else {
            lemma_step_completes_at_end(before, ctx, target, replies.last().0, replies.last().1);
        }
    }
}

proof fn lemma_enter_completes_at_end(m: ReplayView, target: Option<TargetView>, now: u64)
    ensures
        m.enter(target, now).0.phase is Completed ==> m.enter(target, now).0.pc >= m.plan.len()
            && m.enter(target, now).1 is None,
        m.enter(target, now).0.plan == m.plan,
    decreases m.plan.len() - m.pc,
{
    if m.pc < m.plan.len() {
        match m.plan[m.pc as int] {
            StepView::Hold => {
                lemma_enter_completes_at_end(
                    m.holding().advanced(),
                    target,
                    now,
                );
            },
            StepView::Focus => {
                lemma_enter_completes_at_end(m.advanced(), target, now);
            },
            StepView::Release => {
                lemma_enter_completes_at_end(
                    m.released().advanced(),
                    target,
                    now,
                );
            },
            _ => {},
        }
    }
}

/// The step that completes a replay asks nothing, and leaves the replay at
/// the end of its plan, with every launch of the plan counted.
pub proof fn lemma_step_completes_at_end(
    m: ReplayView,
    ctx: ContextView,
    target: Option<TargetView>,
    reply: ReplyView,
    now: u64,
)
    requires
        !(m.phase is Completed),
        m.step(ctx, target, reply, now).0.phase is Completed,
    ensures
        m.step(ctx, target, reply, now).0.pc >= m.step(ctx, target, reply, now).0.plan.len(),
        m.step(ctx, target, reply, now).1 is None,
        m.step(ctx, target, reply, now).0.issued() == launches(m.plan).len(),
{
    law_step_counts_launches(m, ctx, target, reply, now);
    let end = m.step(ctx, target, reply, now).0;
    assert(end.pc == end.plan.len() ==> end.plan.take(end.pc as int) =~= end.plan);
    match m.phase {
        PhaseView::Listing => {
            if let ReplyView::Clients(clients) = reply {
                let next = ReplayView {
                    base: crate::plan::clip(crate::gateway::clients_on(clients, ctx).len() as int),
                    known: crate::replay::addresses_on(clients, ctx),
                    ..m
                };
                lemma_enter_completes_at_end(next, target, now);
            }
        },
        PhaseView::Focusing(a) => {
            if let Some(t) = target {
                let (a2, ask) = a.step(t, reply, now);
                lemma_enter_completes_at_end(
                    m.with(PhaseView::Focusing(a2)).advanced(),
                    target,
                    now,
                );
            }
        },
        PhaseView::Waiting(w) => {
            let (w2, ask) = w.step(ctx, reply, now);
            lemma_enter_completes_at_end(m.with(PhaseView::Waiting(w2)).advanced(), target, now);
        },
        PhaseView::Scanning => {
            if let ReplyView::Clients(clients) = reply {
                if let Some(address) = crate::replay::first_new(clients, ctx, m.known) {
                    let anchor = Some(address);
                    let next = ReplayView {
                        anchor,
                        known: crate::replay::with_known(m.known, anchor),
                        ..m
                    };
                    lemma_enter_completes_at_end(next.advanced(), target, now);
                }
            }
        },
        PhaseView::Probing => {
            let anchor = match reply {
                ReplyView::ActiveClient(focused) => crate::replay::active_on(focused, ctx),
                _ => None,
            };
            let settled = ReplayView {
                anchor,
                known: crate::replay::with_known(m.known, anchor),
                ..m
            };
            lemma_enter_completes_at_end(settled.advanced(), target, now);
            lemma_enter_completes_at_end(ReplayView { anchor, ..m }.advanced(), target, now);
        },
        PhaseView::Pausing => {
            lemma_enter_completes_at_end(m.advanced(), target, now);
        },
        PhaseView::Verifying => {
            lemma_enter_completes_at_end(m.advanced(), target, now);
        },
        _ => {},
    }
}

/// For any layout tree with a slot id of its own on each leaf, a replay of
/// its plan that completes has launched as many commands as the tree has
/// leaves, and no replay launches more.
pub proof fn law_replay_launches_each_leaf_once(
    node: &LayoutNode,
    defaults: Defaults,
    ctx: ContextView,
    target: Option<TargetView>,
    replies: Seq<(ReplyView, u64)>,
)
    requires
        node.distinct_slots(),
    ensures
        ReplayView::begin(plan_of(node, defaults)).0.execs(ctx, target, replies)
            <= node.leaf_count(),
        ReplayView::begin(plan_of(node, defaults)).0.run(ctx, target, replies).phase is Completed
            ==> ReplayView::begin(plan_of(node, defaults)).0.execs(ctx, target, replies)
            == node.leaf_count(),
{
    law_each_leaf_launched_once(node, defaults);
    law_replay_launches_what_is_planned(plan_of(node, defaults), ctx, target, replies);
}

} // verus!
