//! Planning the replay of a layout tree. The window manager has no way to
//! place a window: a new window splits the focused one. The plan therefore
//! walks the tree depth first, left before right, and says for each leaf when
//! its command is launched and which window is focused before.
use crate::config::{count_slots, LayoutNode, WindowSlot, Workset};
use crate::ratio::{native_ratio, to_hypr_split_ratio};
use crate::shell::{build_exec_command, exec_command, Binding};
use vstd::prelude::*;

verus! {

/// One step of a replay.
#[derive(Debug, Clone)]
pub enum PlanStep {
    /// Launch the command of a leaf, wait for its window, and take that
    /// window as the anchor.
    Launch {
        slot_id: u32,
        /// The command line to run.
        command: String,
        /// How many launches there are up to and including this one.
        ordinal: usize,
        /// The split fraction to set once the window is there, in thousandths.
        ratio: Option<u32>,
        /// Whether to pause afterwards because more leaves remain.
        pause: bool,
    },
    /// A leaf that was launched before: take the focused window as the anchor.
    Revisit { slot_id: u32 },
    /// Keep the window that the last leaf or split left: the window that
    /// the next launch opens against, or one that a split may yet leave.
    Hold,
    /// Focus the window kept last, so that the next window splits it.
    Focus,
    /// Wait until the windows of all launches so far are there.
    Await { ordinal: usize },
    /// Let go of the window kept last. If there is one, it is the window
    /// that is left; else the one left by what came after it stays.
    Release,
}

/// A step as contracts see it.
pub enum StepView {
    Launch { slot_id: u32, command: Seq<char>, ordinal: usize, ratio: Option<u32>, pause: bool },
    Revisit { slot_id: u32 },
    Hold,
    Focus,
    Await { ordinal: usize },
    Release,
}

impl View for PlanStep {
    type V = StepView;

    open spec fn view(&self) -> StepView {
        match self {
            PlanStep::Launch { slot_id, command, ordinal, ratio, pause } => StepView::Launch {
                slot_id: *slot_id,
                command: command@,
                ordinal: *ordinal,
                ratio: *ratio,
                pause: *pause,
            },
            PlanStep::Revisit { slot_id } => StepView::Revisit { slot_id: *slot_id },
            PlanStep::Hold => StepView::Hold,
            PlanStep::Focus => StepView::Focus,
            PlanStep::Await { ordinal } => StepView::Await { ordinal: *ordinal },
            PlanStep::Release => StepView::Release,
        }
    }
}

impl DeepView for PlanStep {
    type V = StepView;

    open spec fn deep_view(&self) -> StepView {
        self@
    }
}

/// What a workset gives to every leaf: its working directory and environment.
pub struct Defaults {
    pub cwd: Option<Seq<char>>,
    pub env: Seq<Binding>,
}

/// The defaults of a workset.
pub open spec fn defaults_of(ws: &Workset) -> Defaults {
    Defaults { cwd: ws.cwd.deep_view(), env: ws.env.deep_view() }
}

/// A number held at the largest machine word.
pub open spec fn clip(n: int) -> usize {
    if n > usize::MAX {
        usize::MAX
    } else if n < 0 {
        0
    } else {
        n as usize
    }
}

/// The command line of a leaf: its own directory if it has one, else the
/// workset's; the workset's environment, then its own, which so wins where
/// both assign a name.
pub open spec fn slot_command(slot: &WindowSlot, defaults: Defaults) -> Seq<char> {
    let cwd = match slot.cwd {
        Some(dir) => Some(dir@),
        None => defaults.cwd,
    };
    exec_command(slot.command@, cwd, seq![defaults.env, slot.env.deep_view()])
}

/// A plan under way: the steps so far, the slot ids launched so far in the
/// order of their launch, and the split fraction that waits for the next
/// launch.
pub struct Draft {
    pub steps: Seq<StepView>,
    pub launched: Seq<u32>,
    pub pending: Option<u32>,
}

/// The steps for a leaf. A slot id that was launched before is not launched
/// again. A launch takes the pending fraction with it.
pub open spec fn plan_leaf(
    slot: &WindowSlot,
    defaults: Defaults,
    total: usize,
    launched: Seq<u32>,
    pending: Option<u32>,
) -> Draft {
    if launched.contains(slot.slot_id) {
        Draft { steps: seq![StepView::Revisit { slot_id: slot.slot_id }], launched, pending }
    } else {
        Draft {
            steps: seq![
                StepView::Launch {
                    slot_id: slot.slot_id,
                    command: slot_command(slot, defaults),
                    ordinal: clip(launched.len() as int + 1),
                    ratio: pending,
                    pause: total > launched.len() + 1,
                },
            ],
            launched: launched.push(slot.slot_id),
            pending: None,
        }
    }
}

/// The steps for a tree, depth first and left before right. For a split: the
/// whole left side; the window that it leaves is kept and focused, so that
/// the right side opens against it; the right side, with the split's
/// fraction pending for its first launch; a wait for all windows. Where the
/// left side is itself a split, its window is focused again and the left
/// side is walked once more: the launches of the right side may have moved
/// the focus away, and the second walk, which finds every leaf launched and
/// launches nothing, sets focus and ratios right again. The split leaves the
/// window of its left side, else that of its right side, else that of the
/// second walk.
pub open spec fn plan_node(
    node: &LayoutNode,
    defaults: Defaults,
    total: usize,
    launched: Seq<u32>,
    pending: Option<u32>,
) -> Draft
    decreases node,
{
    match node {
        LayoutNode::Leaf(slot) => plan_leaf(slot, defaults, total, launched, pending),
        LayoutNode::Split(split) => {
            let fraction = native_ratio(split.ratio as int) as u32;
            let first = plan_node(&split.left, defaults, total, launched, pending);
            let right = plan_node(&split.right, defaults, total, first.launched, Some(fraction));
            let head = first.steps + seq![StepView::Hold, StepView::Focus] + right.steps + seq![
                StepView::Await { ordinal: clip(right.launched.len() as int) },
            ];
            if *split.left is Split {
                let again = plan_node(
                    &split.left,
                    defaults,
                    total,
                    right.launched,
                    first.pending,
                );
                Draft {
                    steps: head + seq![StepView::Focus, StepView::Hold] + again.steps + seq![
                        StepView::Release,
                        StepView::Release,
                    ],
                    launched: again.launched,
                    pending: again.pending,
                }
            } else {
                Draft {
                    steps: head + seq![StepView::Release],
                    launched: right.launched,
                    pending: first.pending,
                }
            }
        },
    }
}

/// The whole plan of a layout: nothing launched before, no fraction pending.
pub open spec fn plan_of(node: &LayoutNode, defaults: Defaults) -> Seq<StepView> {
    plan_node(node, defaults, clip(node.leaf_count() as int), Seq::empty(), None).steps
}

/// The slot ids that a run of steps launches, in the order of the launches.
pub open spec fn launches(steps: Seq<StepView>) -> Seq<u32>
    decreases steps.len(),
{
    if steps.len() == 0 {
        Seq::empty()
    } else {
        match steps.last() {
            StepView::Launch { slot_id, .. } => launches(steps.drop_last()).push(slot_id),
            _ => launches(steps.drop_last()),
        }
    }
}

/// The launches of two runs of steps in a row are those of the first, then those
/// of the second.
pub proof fn lemma_launches_concat(a: Seq<StepView>, b: Seq<StepView>)
    ensures
        launches(a + b) == launches(a) + launches(b),
    decreases b.len(),
{
    if b.len() == 0 {
        assert(a + b =~= a);
        assert(launches(a) + launches(b) =~= launches(a));
    } else {
        assert((a + b).drop_last() =~= a + b.drop_last());
        assert((a + b).last() == b.last());
        lemma_launches_concat(a, b.drop_last());
        match b.last() {
            StepView::Launch { slot_id, .. } => {
                assert((launches(a) + launches(b.drop_last())).push(slot_id) =~= launches(a)
                    + launches(b.drop_last()).push(slot_id));
            },
            _ => {},
        }
    }
}

proof fn lemma_launches_one(step: StepView)
    ensures
        launches(seq![step]) == match step {
            StepView::Launch { slot_id, .. } => seq![slot_id],
            _ => Seq::<u32>::empty(),
        },
{
    let s = seq![step];
    assert(s.drop_last() =~= Seq::<StepView>::empty());
    assert(launches(s.drop_last()) =~= Seq::<u32>::empty());
    match step {
        StepView::Launch { slot_id, .. } => {
            assert(launches(s) =~= seq![slot_id]);
        },
        _ => {},
    }
}

/// What a draft has done to the launches before it: it has appended the
/// launches of its steps, launched no slot id twice, and launched only slot
/// ids of the tree `within`.
pub open spec fn extends_well(out: Draft, launched: Seq<u32>, within: Seq<u32>) -> bool {
    &&& out.launched == launched + launches(out.steps)
    &&& out.launched.no_duplicates()
    &&& forall|id: u32| #[trigger]
        out.launched.contains(id) ==> launched.contains(id) || within.contains(id)
}

proof fn lemma_plan_leaf(
    slot: &WindowSlot,
    defaults: Defaults,
    total: usize,
    launched: Seq<u32>,
    pending: Option<u32>,
)
    requires
        launched.no_duplicates(),
    ensures
        extends_well(plan_leaf(slot, defaults, total, launched, pending), launched, seq![
            slot.slot_id,
        ]),
        plan_leaf(slot, defaults, total, launched, pending).launched.contains(slot.slot_id),
{
    let out = plan_leaf(slot, defaults, total, launched, pending);
    lemma_launches_one(out.steps[0]);
    assert(out.steps =~= seq![out.steps[0]]);
    if launched.contains(slot.slot_id) {
        assert(launched + Seq::<u32>::empty() =~= launched);
    } else {
        assert(launched + seq![slot.slot_id] =~= launched.push(slot.slot_id));
        let l2 = launched.push(slot.slot_id);
        assert(l2[launched.len() as int] == slot.slot_id);
        assert(seq![slot.slot_id][0] == slot.slot_id);
        assert forall|id: u32| #[trigger] l2.contains(id) implies launched.contains(id) || seq![
            slot.slot_id,
        ].contains(id) by {
            let i = choose|i: int| 0 <= i < l2.len() && l2[i] == id;
            if i < launched.len() {
                assert(launched[i] == id);
            }
        }
        assert(l2.no_duplicates()) by {
            assert forall|i: int, j: int| 0 <= i < l2.len() && 0 <= j < l2.len() && i != j implies l2[i]
                != l2[j] by {
                if i < launched.len() && j < launched.len() {
                } else if i < launched.len() {
                    assert(launched.contains(launched[i]));
                } else if j < launched.len() {
                    assert(launched.contains(launched[j]));
                }
            }
        }
    }
}

proof fn lemma_contains_concat(a: Seq<u32>, b: Seq<u32>, id: u32)
    ensures
        (a + b).contains(id) <==> a.contains(id) || b.contains(id),
{
    if a.contains(id) {
        let i = choose|i: int| 0 <= i < a.len() && a[i] == id;
        assert((a + b)[i] == id);
    }
    if b.contains(id) {
        let i = choose|i: int| 0 <= i < b.len() && b[i] == id;
        assert((a + b)[a.len() + i] == id);
    }
    if (a + b).contains(id) {
        let i = choose|i: int| 0 <= i < (a + b).len() && (a + b)[i] == id;
        if i < a.len() {
            assert(a[i] == id);
        } else {
            assert(b[i - a.len()] == id);
        }
    }
}

proof fn lemma_launches_two(x: StepView, y: StepView)
    requires
        !(x is Launch),
        !(y is Launch),
    ensures
        launches(seq![x, y]) == Seq::<u32>::empty(),
{
    lemma_launches_one(x);
    lemma_launches_one(y);
    lemma_launches_concat(seq![x], seq![y]);
    assert(seq![x, y] =~= seq![x] + seq![y]);
    assert(Seq::<u32>::empty() + Seq::<u32>::empty() =~= Seq::<u32>::empty());
}

/// A walk of a tree whose leaves were all launched before launches nothing:
/// it leaves the launches and the pending fraction as they were.
pub proof fn law_second_walk_launches_nothing(
    node: &LayoutNode,
    defaults: Defaults,
    total: usize,
    launched: Seq<u32>,
    pending: Option<u32>,
)
    requires
        forall|i: int| 0 <= i < node.slot_ids().len() ==> launched.contains(node.slot_ids()[i]),
    ensures
        plan_node(node, defaults, total, launched, pending).launched == launched,
        plan_node(node, defaults, total, launched, pending).pending == pending,
        launches(plan_node(node, defaults, total, launched, pending).steps) == Seq::<u32>::empty(),
    decreases node,
{
    match node {
        LayoutNode::Leaf(slot) => {
            assert(node.slot_ids()[0] == slot.slot_id);
            lemma_launches_one(StepView::Revisit { slot_id: slot.slot_id });
        },
        LayoutNode::Split(split) => {
            let lids = split.left.slot_ids();
            let rids = split.right.slot_ids();
            assert forall|i: int| 0 <= i < lids.len() implies launched.contains(lids[i]) by {
                assert(node.slot_ids()[i] == lids[i]);
            }
            assert forall|i: int| 0 <= i < rids.len() implies launched.contains(rids[i]) by {
                assert(node.slot_ids()[lids.len() + i] == rids[i]);
            }
            let fraction = native_ratio(split.ratio as int) as u32;
            law_second_walk_launches_nothing(&split.left, defaults, total, launched, pending);
            law_second_walk_launches_nothing(
                &split.right,
                defaults,
                total,
                launched,
                Some(fraction),
            );
            let first = plan_node(&split.left, defaults, total, launched, pending);
            let right = plan_node(&split.right, defaults, total, launched, Some(fraction));
            let empty = Seq::<u32>::empty();
            let mid = seq![StepView::Hold, StepView::Focus];
            let wait = seq![StepView::Await { ordinal: clip(right.launched.len() as int) }];
            lemma_launches_two(StepView::Hold, StepView::Focus);
            lemma_launches_one(wait[0]);
            assert(wait =~= seq![wait[0]]);
            lemma_launches_concat(first.steps, mid);
            lemma_launches_concat(first.steps + mid, right.steps);
            lemma_launches_concat(first.steps + mid + right.steps, wait);
            let head = first.steps + mid + right.steps + wait;
            assert(empty + empty =~= empty);
            assert(launches(head) == empty);
            if *split.left is Split {
                law_second_walk_launches_nothing(&split.left, defaults, total, launched, pending);
                let turn = seq![StepView::Focus, StepView::Hold];
                let close = seq![StepView::Release, StepView::Release];
                lemma_launches_two(StepView::Focus, StepView::Hold);
                lemma_launches_two(StepView::Release, StepView::Release);
                lemma_launches_concat(head, turn);
                lemma_launches_concat(head + turn, first.steps);
                lemma_launches_concat(head + turn + first.steps, close);
            } else {
                lemma_launches_one(StepView::Release);
                lemma_launches_concat(head, seq![StepView::Release]);
            }
        },
    }
}

/// The plan of a tree launches every slot id of the tree that was not
/// launched before, each once, and nothing else.
pub proof fn lemma_plan_node(
    node: &LayoutNode,
    defaults: Defaults,
    total: usize,
    launched: Seq<u32>,
    pending: Option<u32>,
)
    requires
        launched.no_duplicates(),
    ensures
        extends_well(plan_node(node, defaults, total, launched, pending), launched, node.slot_ids()),
        forall|id: u32| #[trigger]
            node.slot_ids().contains(id) ==> plan_node(
                node,
                defaults,
                total,
                launched,
                pending,
            ).launched.contains(id),
    decreases node,
{
    match node {
        LayoutNode::Leaf(slot) => {
            lemma_plan_leaf(slot, defaults, total, launched, pending);
            assert forall|id: u32| #[trigger] node.slot_ids().contains(id) implies plan_node(
                node,
                defaults,
                total,
                launched,
                pending,
            ).launched.contains(id) by {
                let i = choose|i: int| 0 <= i < node.slot_ids().len() && node.slot_ids()[i] == id;
                assert(id == slot.slot_id);
            }
        },
        LayoutNode::Split(split) => {
            let fraction = native_ratio(split.ratio as int) as u32;
            let first = plan_node(&split.left, defaults, total, launched, pending);
            lemma_plan_node(&split.left, defaults, total, launched, pending);
            let right = plan_node(&split.right, defaults, total, first.launched, Some(fraction));
            lemma_plan_node(&split.right, defaults, total, first.launched, Some(fraction));
            let mid = seq![StepView::Hold, StepView::Focus];
            let wait = seq![StepView::Await { ordinal: clip(right.launched.len() as int) }];
            let head = first.steps + mid + right.steps + wait;
            let out = plan_node(node, defaults, total, launched, pending);
            let ids = node.slot_ids();
            let lids = split.left.slot_ids();
            let rids = split.right.slot_ids();
            let empty = Seq::<u32>::empty();
            lemma_launches_two(StepView::Hold, StepView::Focus);
            lemma_launches_one(wait[0]);
            assert(wait =~= seq![wait[0]]);
            lemma_launches_concat(first.steps, mid);
            lemma_launches_concat(first.steps + mid, right.steps);
            lemma_launches_concat(first.steps + mid + right.steps, wait);
            assert(launches(head) =~= launches(first.steps) + launches(right.steps));
            assert(right.launched =~= launched + launches(head));
            if *split.left is Split {
                assert forall|i: int| 0 <= i < lids.len() implies right.launched.contains(
                    lids[i],
                ) by {
                    assert(lids.contains(lids[i]));
                    assert(first.launched.contains(lids[i]));
                    lemma_contains_concat(first.launched, launches(right.steps), lids[i]);
                }
                law_second_walk_launches_nothing(
                    &split.left,
                    defaults,
                    total,
                    right.launched,
                    first.pending,
                );
                let again = plan_node(&split.left, defaults, total, right.launched, first.pending);
                let turn = seq![StepView::Focus, StepView::Hold];
                let close = seq![StepView::Release, StepView::Release];
                lemma_launches_two(StepView::Focus, StepView::Hold);
                lemma_launches_two(StepView::Release, StepView::Release);
                lemma_launches_concat(head, turn);
                lemma_launches_concat(head + turn, again.steps);
                lemma_launches_concat(head + turn + again.steps, close);
                assert(launches(out.steps) =~= launches(head));
            } else {
                lemma_launches_one(StepView::Release);
                lemma_launches_concat(head, seq![StepView::Release]);
                assert(launches(out.steps) =~= launches(head));
            }
            assert(out.launched == right.launched);
            assert forall|id: u32| #[trigger] out.launched.contains(id) implies launched.contains(
                id,
            ) || ids.contains(id) by {
                lemma_contains_concat(lids, rids, id);
                if !rids.contains(id) {
                    assert(first.launched.contains(id));
                }
            }
            assert forall|id: u32| #[trigger] ids.contains(id) implies out.launched.contains(
                id,
            ) by {
                lemma_contains_concat(lids, rids, id);
                if lids.contains(id) {
                    assert(first.launched.contains(id));
                    lemma_contains_concat(first.launched, launches(right.steps), id);
                }
            }
        },
    }
}

/// Every leaf is launched exactly once, whatever the shape of the tree: the
/// plan of a layout launches no slot id twice, and launches exactly the slot
/// ids of the layout. Where no two leaves share a slot id, there are as many
/// launches as leaves.
pub proof fn law_each_leaf_launched_once(node: &LayoutNode, defaults: Defaults)
    ensures
        launches(plan_of(node, defaults)).no_duplicates(),
        forall|id: u32|
            launches(plan_of(node, defaults)).contains(id) <==> node.slot_ids().contains(id),
        node.distinct_slots() ==> launches(plan_of(node, defaults)).len() == node.leaf_count(),
{
    let total = clip(node.leaf_count() as int);
    let out = plan_node(node, defaults, total, Seq::empty(), None);
    lemma_plan_node(node, defaults, total, Seq::empty(), None);
    let done = launches(plan_of(node, defaults));
    assert(out.launched =~= done);
    assert forall|id: u32| done.contains(id) <==> node.slot_ids().contains(id) by {
        if done.contains(id) {
            assert(!Seq::<u32>::empty().contains(id));
        }
    }
    if node.distinct_slots() {
        node.lemma_slot_ids_len();
        done.unique_seq_to_set();
        node.slot_ids().unique_seq_to_set();
        assert(done.to_set() =~= node.slot_ids().to_set());
    }
}

proof fn lemma_launch_order(
    node: &LayoutNode,
    defaults: Defaults,
    total: usize,
    launched: Seq<u32>,
    pending: Option<u32>,
)
    requires
        node.slot_ids().no_duplicates(),
        forall|i: int| 0 <= i < node.slot_ids().len() ==> !launched.contains(node.slot_ids()[i]),
    ensures
        plan_node(node, defaults, total, launched, pending).launched == launched
            + node.slot_ids(),
    decreases node,
{
    match node {
        LayoutNode::Leaf(slot) => {
            assert(node.slot_ids()[0] == slot.slot_id);
            assert(launched.push(slot.slot_id) =~= launched + seq![slot.slot_id]);
        },
        LayoutNode::Split(split) => {
            let ids = node.slot_ids();
            let lids = split.left.slot_ids();
            let rids = split.right.slot_ids();
            let fraction = native_ratio(split.ratio as int) as u32;
            assert forall|i: int, j: int| 0 <= i < lids.len() && 0 <= j < lids.len() && i
                != j implies lids[i] != lids[j] by {
                assert(ids[i] == lids[i] && ids[j] == lids[j]);
            }
            assert forall|i: int, j: int| 0 <= i < rids.len() && 0 <= j < rids.len() && i
                != j implies rids[i] != rids[j] by {
                assert(ids[lids.len() + i] == rids[i] && ids[lids.len() + j] == rids[j]);
            }
            assert forall|i: int| 0 <= i < lids.len() implies !launched.contains(lids[i]) by {
                assert(ids[i] == lids[i]);
            }
            lemma_launch_order(&split.left, defaults, total, launched, pending);
            let first = plan_node(&split.left, defaults, total, launched, pending);
            assert forall|i: int| 0 <= i < rids.len() implies !first.launched.contains(
                rids[i],
            ) by {
                assert(ids[lids.len() + i] == rids[i]);
                lemma_contains_concat(launched, lids, rids[i]);
                if lids.contains(rids[i]) {
                    let k = choose|k: int| 0 <= k < lids.len() && lids[k] == rids[i];
                    assert(ids[k] == lids[k]);
                }
            }
            lemma_launch_order(&split.right, defaults, total, first.launched, Some(fraction));
            let right = plan_node(&split.right, defaults, total, first.launched, Some(fraction));
            assert(right.launched =~= launched + ids);
            if *split.left is Split {
                assert forall|i: int| 0 <= i < lids.len() implies right.launched.contains(
                    lids[i],
                ) by {
                    assert(right.launched[launched.len() + i] == lids[i]);
                }
                law_second_walk_launches_nothing(
                    &split.left,
                    defaults,
                    total,
                    right.launched,
                    first.pending,
                );
            }
        },
    }
}

/// The leaves are launched depth first, left before right: where no two
/// leaves share a slot id, the launches of the plan are the slot ids of the
/// leaves from left to right.
pub proof fn law_leaves_launched_left_to_right(node: &LayoutNode, defaults: Defaults)
    requires
        node.distinct_slots(),
    ensures
        launches(plan_of(node, defaults)) == node.slot_ids(),
{
    let total = clip(node.leaf_count() as int);
    lemma_launch_order(node, defaults, total, Seq::empty(), None);
    lemma_plan_node(node, defaults, total, Seq::empty(), None);
    let out = plan_node(node, defaults, total, Seq::empty(), None);
    assert(Seq::<u32>::empty() + launches(out.steps) =~= launches(out.steps));
    assert(Seq::<u32>::empty() + node.slot_ids() =~= node.slot_ids());
}

fn has_slot(launched: &Vec<u32>, id: u32) -> (b: bool)
    ensures
        b == launched@.contains(id),
{
    let mut i: usize = 0;
    while i < launched.len()
        invariant
            i <= launched.len(),
            forall|k: int| 0 <= k < i ==> launched@[k] != id,
        decreases launched.len() - i,
    {
        if launched[i] == id {
            return true;
        }
        i += 1;
    }
    false
}

fn push_step(steps: &mut Vec<PlanStep>, step: PlanStep)
    ensures
        final(steps).deep_view() == old(steps).deep_view().push(step@),
{
    steps.push(step);
    assert(steps.deep_view() =~= old(steps).deep_view().push(step@));
}

/// Builds the command line of a leaf of `ws`.
pub fn leaf_command(slot: &WindowSlot, ws: &Workset) -> (out: String)
    ensures
        out@ == slot_command(slot, defaults_of(ws)),
{
    let cwd: Option<&str> = match &slot.cwd {
        Some(dir) => Some(dir.as_str()),
        None => match &ws.cwd {
            Some(dir) => Some(dir.as_str()),
            None => None,
        },
    };
    let mut layers: Vec<&Vec<(String, String)>> = Vec::new();
    layers.push(&ws.env);
    layers.push(&slot.env);
    assert(layers.deep_view() =~= seq![ws.env.deep_view(), slot.env.deep_view()]);
    build_exec_command(slot.command.as_str(), cwd, &layers)
}

fn plan_leaf_into(
    slot: &WindowSlot,
    ws: &Workset,
    total: usize,
    steps: &mut Vec<PlanStep>,
    launched: &mut Vec<u32>,
    pending: &mut Option<u32>,
)
    ensures
        final(steps).deep_view() == old(steps).deep_view() + plan_leaf(
            slot,
            defaults_of(ws),
            total,
            old(launched)@,
            *old(pending),
        ).steps,
        final(launched)@ == plan_leaf(
            slot,
            defaults_of(ws),
            total,
            old(launched)@,
            *old(pending),
        ).launched,
        *final(pending) == plan_leaf(
            slot,
            defaults_of(ws),
            total,
            old(launched)@,
            *old(pending),
        ).pending,
{
    let ghost before = steps.deep_view();
    if has_slot(launched, slot.slot_id) {
        push_step(steps, PlanStep::Revisit { slot_id: slot.slot_id });
        assert(steps.deep_view() =~= before + seq![StepView::Revisit { slot_id: slot.slot_id }]);
    } else {
        let ordinal: usize = if launched.len() == usize::MAX {
            usize::MAX
        } else {
            launched.len() + 1
        };
        let step = PlanStep::Launch {
            slot_id: slot.slot_id,
            command: leaf_command(slot, ws),
            ordinal,
            ratio: *pending,
            pause: total > ordinal,
        };
        push_step(steps, step);
        assert(steps.deep_view() =~= before + seq![step@]);
        launched.push(slot.slot_id);
        *pending = None;
    }
}

fn plan_node_into(
    node: &LayoutNode,
    ws: &Workset,
    total: usize,
    steps: &mut Vec<PlanStep>,
    launched: &mut Vec<u32>,
    pending: &mut Option<u32>,
)
    ensures
        final(steps).deep_view() == old(steps).deep_view() + plan_node(
            node,
            defaults_of(ws),
            total,
            old(launched)@,
            *old(pending),
        ).steps,
        final(launched)@ == plan_node(
            node,
            defaults_of(ws),
            total,
            old(launched)@,
            *old(pending),
        ).launched,
        *final(pending) == plan_node(
            node,
            defaults_of(ws),
            total,
            old(launched)@,
            *old(pending),
        ).pending,
    decreases node,
{
    match node {
        LayoutNode::Leaf(slot) => plan_leaf_into(slot, ws, total, steps, launched, pending),
        LayoutNode::Split(split) => {
            let ghost defaults = defaults_of(ws);
            let ghost s0 = steps.deep_view();
            let ghost first = plan_node(&split.left, defaults, total, launched@, *pending);
            let fraction = to_hypr_split_ratio(split.ratio);
            let deep = match &*split.left {
                LayoutNode::Split(_) => true,
                LayoutNode::Leaf(_) => false,
            };
            plan_node_into(&split.left, ws, total, steps, launched, pending);
            push_step(steps, PlanStep::Hold);
            push_step(steps, PlanStep::Focus);
            let mut right_pending: Option<u32> = Some(fraction);
            let ghost right = plan_node(&split.right, defaults, total, launched@, right_pending);
            plan_node_into(&split.right, ws, total, steps, launched, &mut right_pending);
            push_step(steps, PlanStep::Await { ordinal: launched.len() });
            let ghost head = first.steps + seq![StepView::Hold, StepView::Focus] + right.steps
                + seq![StepView::Await { ordinal: clip(right.launched.len() as int) }];
            assert(steps.deep_view() =~= s0 + head);
            if deep {
                let ghost again = plan_node(&split.left, defaults, total, launched@, *pending);
                push_step(steps, PlanStep::Focus);
                push_step(steps, PlanStep::Hold);
                plan_node_into(&split.left, ws, total, steps, launched, pending);
                push_step(steps, PlanStep::Release);
                push_step(steps, PlanStep::Release);
                assert(steps.deep_view() =~= s0 + (head + seq![StepView::Focus, StepView::Hold]
                    + again.steps + seq![StepView::Release, StepView::Release]));
            } else {
                push_step(steps, PlanStep::Release);
                assert(steps.deep_view() =~= s0 + (head + seq![StepView::Release]));
            }
        },
    }
}

/// Plans the replay of the layout `node` of the workset `ws`.
pub fn plan_layout(node: &LayoutNode, ws: &Workset) -> (steps: Vec<PlanStep>)
    ensures
        steps.deep_view() == plan_of(node, defaults_of(ws)),
{
    let total = count_slots(node);
    let mut steps: Vec<PlanStep> = Vec::new();
    let mut launched: Vec<u32> = Vec::new();
    let mut pending: Option<u32> = None;
    assert(steps.deep_view() =~= Seq::<StepView>::empty());
    plan_node_into(node, ws, total, &mut steps, &mut launched, &mut pending);
    assert(steps.deep_view() =~= plan_of(node, defaults_of(ws)));
    steps
}

} // verus!
