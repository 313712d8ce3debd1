//! What holds of every launch of a workset with a layout, whatever the
//! driver answers: no more commands are launched than the layout has leaves,
//! and a launch that succeeds has launched one for each leaf.
use crate::cleanup::CleanupView;
use crate::config::LayoutNode;
use crate::gateway::ReplyView;
use crate::launch::{LaunchView, OutcomeView, StageView};
use crate::plan::{launches, law_each_leaf_launched_once, plan_of, Defaults, StepView};
use crate::replay::ReplayView;
use crate::replay_laws::{is_exec, law_step_counts_launches, lemma_step_completes_at_end};
use crate::workspace::ContextView;
use vstd::prelude::*;

verus! {

impl LaunchView {
    /// The state after a run of replies, each with the moment it came at.
    pub open spec fn run(self, replies: Seq<(ReplyView, u64)>) -> LaunchView
        decreases replies.len(),
    {
        if replies.len() == 0 {
            self
        } else {
            self.run(replies.drop_last()).step(replies.last().0, replies.last().1).0
        }
    }

    /// How many commands were asked to run during a run of replies.
    pub open spec fn execs(self, replies: Seq<(ReplyView, u64)>) -> nat
        decreases replies.len(),
    {
        if replies.len() == 0 {
            0
        } else {
            let before = self.run(replies.drop_last());
            let ask = before.step(replies.last().0, replies.last().1).1;
            self.execs(replies.drop_last()) + if is_exec(ask) {
                1nat
            } else {
                0nat
            }
        }
    }

    /// Whether a launch of the plan `plan` that has asked to run `n`
    /// commands is where such a launch can be: before the replay with none
    /// launched, in the replay with as many as the replay counts, and after a
    /// success with all.
    pub open spec fn counted(self, plan: Seq<StepView>, n: nat) -> bool {
        &&& self.plan == Some(plan)
        &&& n <= launches(plan).len()
        &&& match self.stage {
            StageView::Replaying(r) => r.plan == plan && !r.ended() && n == r.issued(),
            StageView::Running(_) => false,
            StageView::Done(OutcomeView::Launched) => n == launches(plan).len(),
            StageView::Done(_) => true,
            _ => n == 0,
        }
    }
}

proof fn lemma_step_keeps_count(
    l: LaunchView,
    plan: Seq<StepView>,
    n: nat,
    reply: ReplyView,
    now: u64,
)
    requires
        l.counted(plan, n),
    ensures
        l.step(reply, now).0.counted(
            plan,
            n + if is_exec(l.step(reply, now).1) {
                1nat
            } else {
                0nat
            },
        ),
{
    assert(plan.take(0) =~= Seq::<StepView>::empty());
    assert(ReplayView::begin(plan).0.issued() == 0);
    match l.stage {
        StageView::Replaying(r) => {
            if let Some(ctx) = l.ctx {
                law_step_counts_launches(r, ctx, l.target, reply, now);
                let (r2, ask) = r.step(ctx, l.target, reply, now);
                if r2.phase is Completed {
                    lemma_step_completes_at_end(r, ctx, l.target, reply, now);
                }
            }
        },
        StageView::Cleaning(c) => {
            if let Some(ctx) = l.ctx {
                lemma_cleanup_asks_no_exec(c, ctx, reply, now);
            }
        },
        _ => {},
    }
}

proof fn lemma_cleanup_asks_no_exec(c: CleanupView, ctx: ContextView, reply: ReplyView, now: u64)
    ensures
        !is_exec(c.step(ctx, reply, now).1),
{
}

proof fn lemma_run_keeps_count(l: LaunchView, plan: Seq<StepView>, replies: Seq<(ReplyView, u64)>)
    requires
        l.counted(plan, 0),
    ensures
        l.run(replies).counted(plan, l.execs(replies)),
    decreases replies.len(),
{
    if replies.len() > 0 {
        lemma_run_keeps_count(l, plan, replies.drop_last());
        lemma_step_keeps_count(
            l.run(replies.drop_last()),
            plan,
            l.execs(replies.drop_last()),
            replies.last().0,
            replies.last().1,
        );
    }
}

/// For any layout tree with a slot id of its own on each leaf, and whatever
/// the driver answers: a launch never asks to run more commands than the
/// tree has leaves, and a launch that ends well has asked to run exactly as
/// many, one for each leaf.
pub proof fn law_launch_launches_each_leaf_once(
    l: LaunchView,
    node: &LayoutNode,
    defaults: Defaults,
    replies: Seq<(ReplyView, u64)>,
)
    requires
        node.distinct_slots(),
        l.stage is Locking,
        l.plan == Some(plan_of(node, defaults)),
    ensures
        l.execs(replies) <= node.leaf_count(),
        l.run(replies).stage == StageView::Done(OutcomeView::Launched) ==> l.execs(replies)
            == node.leaf_count(),
{
    law_each_leaf_launched_once(node, defaults);
    lemma_run_keeps_count(l, plan_of(node, defaults), replies);
}

} // verus!
