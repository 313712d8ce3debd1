//! Editing a layout tree: finding a leaf by its path, splitting and removing
//! leaves, and setting the ratio of a split.
use crate::config::{
    LayoutNode, SlotView, SplitDirection, SplitNode, TreeView, WindowSlot, Workset,
};
use vstd::prelude::*;
use vstd::slice::slice_subrange;

verus! {

/// A step down a layout tree.
#[derive(Debug, Clone, Copy, PartialEq, Eq, Structural)]
pub enum Side {
    Left,
    Right,
}

/// The child of a split on one side.
pub open spec fn child(left: TreeView, right: TreeView, side: Side) -> TreeView {
    match side {
        Side::Left => left,
        Side::Right => right,
    }
}

/// The tree `t` with the leaf at `path` replaced by `slot`; none where the
/// path does not end at a leaf.
pub open spec fn with_leaf(t: TreeView, path: Seq<Side>, slot: SlotView) -> Option<TreeView>
    decreases path.len(),
{
    if path.len() == 0 {
        match t {
            TreeView::Leaf(_) => Some(TreeView::Leaf(slot)),
            _ => None,
        }
    } else {
        match t {
            TreeView::Leaf(_) => None,
            TreeView::Split { direction, ratio, left, right } => match path[0] {
                Side::Left => match with_leaf(*left, path.drop_first(), slot) {
                    Some(l) => Some(TreeView::Split { direction, ratio, left: Box::new(l), right }),
                    None => None,
                },
                Side::Right => match with_leaf(*right, path.drop_first(), slot) {
                    Some(r) => Some(TreeView::Split { direction, ratio, left, right: Box::new(r) }),
                    None => None,
                },
            },
        }
    }
}

/// Puts `slot` in place of the leaf at `path`. Says whether the path led to
/// a leaf; where it did not, the tree is unchanged.
pub fn set_leaf_at_path(node: &mut LayoutNode, path: &[Side], slot: WindowSlot) -> (ok: bool)
    ensures
        match with_leaf(old(node)@, path@, slot@) {
            Some(t) => ok && final(node)@ == t,
            None => !ok && final(node)@ == old(node)@,
        },
    decreases path.len(),
{
    if path.len() == 0 {
        match node {
            LayoutNode::Leaf(target) => {
                *target = slot;
                true
            },
            _ => false,
        }
    } else {
        match node {
            LayoutNode::Split(split) => {
                let rest = slice_subrange(path, 1, path.len());
                assert(rest@ =~= path@.drop_first());
                match path[0] {
                    Side::Left => set_leaf_at_path(&mut *split.left, rest, slot),
                    Side::Right => set_leaf_at_path(&mut *split.right, rest, slot),
                }
            },
            LayoutNode::Leaf(_) => false,
        }
    }
}


/// The smallest ratio that the editor sets, in thousandths.
pub const RATIO_MIN: u32 = 300;

/// The largest ratio that the editor sets, in thousandths.
pub const RATIO_MAX: u32 = 2500;

/// A ratio held within the editor's limits.
pub open spec fn clamped(val: int) -> u32 {
    if val < RATIO_MIN {
        RATIO_MIN
    } else if val > RATIO_MAX {
        RATIO_MAX
    } else {
        val as u32
    }
}

/// Holds a ratio within the editor's limits.
pub fn clamp_ratio(val: i64) -> (out: u32)
    ensures
        out == clamped(val as int),
        RATIO_MIN <= out <= RATIO_MAX,
{
    if val < RATIO_MIN as i64 {
        RATIO_MIN
    } else if val > RATIO_MAX as i64 {
        RATIO_MAX
    } else {
        val as u32
    }
}

/// The layout that the editor starts with: that of the workset, or a single
/// leaf with the workset's first command.
pub fn ensure_layout(ws: Workset) -> (out: LayoutNode)
    ensures
        out@ == match ws.layout {
            Some(layout) => layout@,
            None => TreeView::Leaf(
                SlotView {
                    slot_id: 1,
                    command: if ws.commands@.len() > 0 {
                        ws.commands@[0]@
                    } else {
                        Seq::<char>::empty()
                    },
                    cwd: None,
                    env: Seq::empty(),
                },
            ),
        },
{
    match ws.layout {
        Some(layout) => layout,
        None => {
            let command = if ws.commands.len() > 0 {
                ws.commands[0].clone()
            } else {
                String::new()
            };
            let env: Vec<(String, String)> = Vec::new();
            assert(env.deep_view() =~= Seq::empty());
            LayoutNode::Leaf(WindowSlot { slot_id: 1, command, cwd: None, env })
        },
    }
}

/// The path to the leftmost leaf: left at every split.
pub open spec fn leftmost_path(t: TreeView) -> Seq<Side>
    decreases t,
{
    match t {
        TreeView::Leaf(_) => Seq::empty(),
        TreeView::Split { left, .. } => seq![Side::Left] + leftmost_path(*left),
    }
}

/// The path to the first leaf of the tree. Every tree has one.
pub fn first_leaf_path(node: &LayoutNode) -> (out: Option<Vec<Side>>)
    ensures
        out matches Some(path) && path@ == leftmost_path(node@),
{
    let mut path: Vec<Side> = Vec::new();
    let mut cur = node;
    assert(path@ + leftmost_path(cur@) =~= leftmost_path(node@));
    loop
        invariant
            path@ + leftmost_path(cur@) == leftmost_path(node@),
        ensures
            path@ == leftmost_path(node@),
        decreases cur,
    {
        match cur {
            LayoutNode::Leaf(_) => {
                assert(path@ + Seq::<Side>::empty() =~= path@);
                break ;
            },
            LayoutNode::Split(split) => {
                let ghost before = path@;
                path.push(Side::Left);
                assert(path@ + leftmost_path(split.left@) =~= before + (seq![Side::Left]
                    + leftmost_path(split.left@)));
                cur = &*split.left;
            },
        }
    }
    Some(path)
}

/// The largest slot id of the tree.
pub open spec fn max_slot(t: TreeView) -> u32
    decreases t,
{
    match t {
        TreeView::Leaf(slot) => slot.slot_id,
        TreeView::Split { left, right, .. } => if max_slot(*left) >= max_slot(*right) {
            max_slot(*left)
        } else {
            max_slot(*right)
        },
    }
}

/// Raises `max_id` to the largest slot id of the tree, if that is larger.
pub fn collect_slot_ids(node: &LayoutNode, max_id: &mut u32)
    ensures
        *final(max_id) == if *old(max_id) >= max_slot(node@) {
            *old(max_id)
        } else {
            max_slot(node@)
        },
    decreases node,
{
    match node {
        LayoutNode::Leaf(slot) => {
            if slot.slot_id > *max_id {
                *max_id = slot.slot_id;
            }
        },
        LayoutNode::Split(split) => {
            collect_slot_ids(&split.left, max_id);
            collect_slot_ids(&split.right, max_id);
        },
    }
}

/// A slot id that no leaf of the tree has: one more than the largest.
pub fn next_slot_id(root: &LayoutNode) -> (id: u32)
    requires
        max_slot(root@) < u32::MAX,
    ensures
        id == max_slot(root@) + 1,
{
    let mut max_id: u32 = 0;
    collect_slot_ids(root, &mut max_id);
    max_id + 1
}

/// No leaf has a slot id above the largest: the next slot id is new.
pub proof fn law_next_slot_is_new(node: &LayoutNode)
    ensures
        forall|i: int| 0 <= i < node.slot_ids().len() ==> node.slot_ids()[i] <= max_slot(node@),
    decreases node,
{
    match node {
        LayoutNode::Leaf(_) => {},
        LayoutNode::Split(split) => {
            law_next_slot_is_new(&split.left);
            law_next_slot_is_new(&split.right);
            let l = split.left.slot_ids();
            let r = split.right.slot_ids();
            assert forall|i: int| 0 <= i < node.slot_ids().len() implies node.slot_ids()[i]
                <= max_slot(node@) by {
                if i < l.len() {
                    assert(node.slot_ids()[i] == l[i]);
                } else {
                    assert(node.slot_ids()[i] == r[i - l.len()]);
                }
            }
        },
    }
}

/// The split that takes the place of a leaf: the leaf on the left, and on
/// the right a new leaf with the slot id `new_slot_id` and no command. A
/// split side by side starts at 1.2, one above the other at 1.
pub open spec fn split_of(existing: SlotView, direction: SplitDirection, new_slot_id: u32)
    -> TreeView {
    TreeView::Split {
        direction,
        ratio: if direction == SplitDirection::Horizontal {
            1200
        } else {
            1000
        },
        left: Box::new(TreeView::Leaf(existing)),
        right: Box::new(
            TreeView::Leaf(
                SlotView {
                    slot_id: new_slot_id,
                    command: Seq::empty(),
                    cwd: None,
                    env: Seq::empty(),
                },
            ),
        ),
    }
}

/// The tree with the leaf at `path` split; none where the path does not end
/// at a leaf.
pub open spec fn with_split(
    t: TreeView,
    path: Seq<Side>,
    direction: SplitDirection,
    new_slot_id: u32,
) -> Option<TreeView>
    decreases path.len(),
{
    if path.len() == 0 {
        match t {
            TreeView::Leaf(existing) => Some(split_of(existing, direction, new_slot_id)),
            _ => None,
        }
    } else {
        match t {
            TreeView::Leaf(_) => None,
            TreeView::Split { direction: d, ratio, left, right } => match path[0] {
                Side::Left => match with_split(*left, path.drop_first(), direction, new_slot_id) {
                    Some(l) => Some(
                        TreeView::Split { direction: d, ratio, left: Box::new(l), right },
                    ),
                    None => None,
                },
                Side::Right => match with_split(
                    *right,
                    path.drop_first(),
                    direction,
                    new_slot_id,
                ) {
                    Some(r) => Some(
                        TreeView::Split { direction: d, ratio, left, right: Box::new(r) },
                    ),
                    None => None,
                },
            },
        }
    }
}

/// Splits the leaf at `path`. Says whether the path led to a leaf; where it
/// did not, the tree is unchanged.
pub fn replace_leaf_with_split(
    node: &mut LayoutNode,
    path: &[Side],
    direction: SplitDirection,
    new_slot_id: u32,
) -> (ok: bool)
    ensures
        match with_split(old(node)@, path@, direction, new_slot_id) {
            Some(t) => ok && final(node)@ == t,
            None => !ok && final(node)@ == old(node)@,
        },
    decreases path.len(),
{
    if path.len() == 0 {
        let made = match node {
            LayoutNode::Leaf(existing) => {
                let env: Vec<(String, String)> = Vec::new();
                assert(env.deep_view() =~= Seq::empty());
                let new_leaf = LayoutNode::Leaf(
                    WindowSlot { slot_id: new_slot_id, command: String::new(), cwd: None, env },
                );
                let old_leaf = LayoutNode::Leaf(existing.duplicate());
                let ratio: u32 = match direction {
                    SplitDirection::Horizontal => 1200,
                    SplitDirection::Vertical => 1000,
                };
                assert(old_leaf@ == TreeView::Leaf(existing@));
                assert(new_leaf@ == TreeView::Leaf(
                    SlotView {
                        slot_id: new_slot_id,
                        command: Seq::empty(),
                        cwd: None,
                        env: Seq::empty(),
                    },
                ));
                let made = LayoutNode::Split(
                    SplitNode {
                        direction,
                        ratio,
                        left: Box::new(old_leaf),
                        right: Box::new(new_leaf),
                    },
                );
                assert(made@ == split_of(existing@, direction, new_slot_id));
                Some(made)
            },
            _ => None,
        };
        match made {
            Some(split) => {
                *node = split;
                true
            },
            None => false,
        }
    } else {
        match node {
            LayoutNode::Leaf(_) => false,
            LayoutNode::Split(split) => {
                let rest = slice_subrange(path, 1, path.len());
                assert(rest@ =~= path@.drop_first());
                match path[0] {
                    Side::Left => replace_leaf_with_split(
                        &mut *split.left,
                        rest,
                        direction,
                        new_slot_id,
                    ),
                    Side::Right => replace_leaf_with_split(
                        &mut *split.right,
                        rest,
                        direction,
                        new_slot_id,
                    ),
                }
            },
        }
    }
}

/// The tree without the child at `path`: the split above it gives way to its
/// other child. None where the path is empty or leads through a leaf.
pub open spec fn without_child(t: TreeView, path: Seq<Side>) -> Option<TreeView>
    decreases path.len(),
{
    if path.len() == 0 {
        None
    } else {
        match t {
            TreeView::Leaf(_) => None,
            TreeView::Split { direction, ratio, left, right } => if path.len() == 1 {
                match path[0] {
                    Side::Left => Some(*right),
                    Side::Right => Some(*left),
                }
            } else {
                match path[0] {
                    Side::Left => match without_child(*left, path.drop_first()) {
                        Some(l) => Some(
                            TreeView::Split { direction, ratio, left: Box::new(l), right },
                        ),
                        None => None,
                    },
                    Side::Right => match without_child(*right, path.drop_first()) {
                        Some(r) => Some(
                            TreeView::Split { direction, ratio, left, right: Box::new(r) },
                        ),
                        None => None,
                    },
                }
            },
        }
    }
}

/// Removes the child at `path`, so that its sibling takes the place of the
/// split above. Says whether it did; where it did not, the tree is
/// unchanged.
pub fn remove_leaf(node: &mut LayoutNode, path: &[Side]) -> (ok: bool)
    ensures
        match without_child(old(node)@, path@) {
            Some(t) => ok && final(node)@ == t,
            None => !ok && final(node)@ == old(node)@,
        },
    decreases path.len(),
{
    if path.len() == 0 {
        return false;
    }
    if path.len() == 1 {
        let sibling = match node {
            LayoutNode::Split(split) => match path[0] {
                Side::Left => Some(split.right.duplicate()),
                Side::Right => Some(split.left.duplicate()),
            },
            LayoutNode::Leaf(_) => None,
        };
        match sibling {
            Some(kept) => {
                *node = kept;
                true
            },
            None => false,
        }
    } else {
        match node {
            LayoutNode::Split(split) => {
                let rest = slice_subrange(path, 1, path.len());
                assert(rest@ =~= path@.drop_first());
                match path[0] {
                    Side::Left => remove_leaf(&mut *split.left, rest),
                    Side::Right => remove_leaf(&mut *split.right, rest),
                }
            },
            LayoutNode::Leaf(_) => false,
        }
    }
}

/// The commands of the leaves, from left to right.
pub open spec fn commands_of(t: TreeView) -> Seq<Seq<char>>
    decreases t,
{
    match t {
        TreeView::Leaf(slot) => seq![slot.command],
        TreeView::Split { left, right, .. } => commands_of(*left) + commands_of(*right),
    }
}

/// Appends the commands of the leaves, from left to right.
pub fn collect_commands(node: &LayoutNode, commands: &mut Vec<String>)
    ensures
        final(commands).deep_view() == old(commands).deep_view() + commands_of(node@),
    decreases node,
{
    match node {
        LayoutNode::Leaf(slot) => {
            commands.push(slot.command.clone());
            assert(commands.deep_view() =~= old(commands).deep_view() + seq![slot.command@]);
        },
        LayoutNode::Split(split) => {
            collect_commands(&split.left, commands);
            collect_commands(&split.right, commands);
            assert(commands.deep_view() =~= old(commands).deep_view() + (commands_of(split.left@)
                + commands_of(split.right@)));
        },
    }
}

/// The leaf that `path` leads to. A path that goes on below a leaf leads to
/// that leaf; one that ends at a split leads to none.
pub open spec fn leaf_at(t: TreeView, path: Seq<Side>) -> Option<SlotView>
    decreases path.len(),
{
    match t {
        TreeView::Leaf(slot) => Some(slot),
        TreeView::Split { left, right, .. } => if path.len() == 0 {
            None
        } else {
            leaf_at(child(*left, *right, path[0]), path.drop_first())
        },
    }
}

/// The leaf that `path` leads to.
pub fn leaf_at_path<'a>(node: &'a LayoutNode, path: &[Side]) -> (out: Option<&'a WindowSlot>)
    ensures
        match out {
            Some(slot) => leaf_at(node@, path@) == Some(slot@),
            None => leaf_at(node@, path@) is None,
        },
{
    let mut cur = node;
    let mut i: usize = 0;
    assert(path@.skip(0) =~= path@);
    while i < path.len()
        invariant
            i <= path.len(),
            leaf_at(node@, path@) == leaf_at(cur@, path@.skip(i as int)),
        decreases path.len() - i,
    {
        match cur {
            LayoutNode::Split(split) => {
                proof {
                    assert(path@.skip(i as int)[0] == path@[i as int]);
                    assert(path@.skip(i as int).drop_first() =~= path@.skip(i as int + 1));
                }
                cur = match path[i] {
                    Side::Left => &*split.left,
                    Side::Right => &*split.right,
                };
            },
            LayoutNode::Leaf(slot) => {
                return Some(slot);
            },
        }
        i += 1;
    }
    match cur {
        LayoutNode::Leaf(slot) => Some(slot),
        LayoutNode::Split(_) => None,
    }
}

/// The split that a path to one of its children names: its direction and its
/// ratio. The last step of the path says which child and is not followed.
pub open spec fn split_above(t: TreeView, path: Seq<Side>) -> Option<(SplitDirection, u32)>
    decreases path.len(),
{
    match t {
        TreeView::Leaf(_) => None,
        TreeView::Split { direction, ratio, left, right } => if path.len() == 0 {
            None
        } else if path.len() == 1 {
            Some((direction, ratio))
        } else {
            split_above(child(*left, *right, path[0]), path.drop_first())
        },
    }
}

/// The tree with the ratio of the split that `path` names set to `ratio`;
/// the tree itself where the path names none.
pub open spec fn with_ratio(t: TreeView, path: Seq<Side>, new_ratio: u32) -> TreeView
    decreases path.len(),
{
    match t {
        TreeView::Leaf(_) => t,
        TreeView::Split { direction, ratio, left, right } => if path.len() == 0 {
            t
        } else if path.len() == 1 {
            TreeView::Split { direction, ratio: new_ratio, left, right }
        } else {
            match path[0] {
                Side::Left => TreeView::Split {
                    direction,
                    ratio,
                    left: Box::new(with_ratio(*left, path.drop_first(), new_ratio)),
                    right,
                },
                Side::Right => TreeView::Split {
                    direction,
                    ratio,
                    left,
                    right: Box::new(with_ratio(*right, path.drop_first(), new_ratio)),
                },
            }
        },
    }
}

/// Changes the ratio of the split that `path` names by `delta` thousandths,
/// held within the editor's limits. Gives the split's direction, its ratio
/// before and its ratio after; none, and the tree unchanged, where the path
/// names no split.
pub fn adjust_ratio(node: &mut LayoutNode, path: &[Side], delta: i32) -> (out: Option<
    (SplitDirection, u32, u32),
>)
    ensures
        match split_above(old(node)@, path@) {
            Some((direction, before)) => out == Some(
                (direction, before, clamped(before + delta)),
            ) && final(node)@ == with_ratio(old(node)@, path@, clamped(before + delta)),
            None => out is None && final(node)@ == old(node)@,
        },
    decreases path.len(),
{
    match node {
        LayoutNode::Split(split) => {
            if path.len() == 0 {
                None
            } else if path.len() == 1 {
                let before = split.ratio;
                let after = clamp_ratio(before as i64 + delta as i64);
                split.ratio = after;
                Some((split.direction, before, after))
            } else {
                let rest = slice_subrange(path, 1, path.len());
                assert(rest@ =~= path@.drop_first());
                match path[0] {
                    Side::Left => adjust_ratio(&mut *split.left, rest, delta),
                    Side::Right => adjust_ratio(&mut *split.right, rest, delta),
                }
            }
        },
        LayoutNode::Leaf(_) => None,
    }
}

/// Sets the ratio of the split that `path` names to `new_ratio`, held within
/// the editor's limits. Gives the split's direction, its ratio before and its
/// ratio after; none, and the tree unchanged, where the path names no split.
pub fn set_ratio(node: &mut LayoutNode, path: &[Side], new_ratio: u32) -> (out: Option<
    (SplitDirection, u32, u32),
>)
    ensures
        match split_above(old(node)@, path@) {
            Some((direction, before)) => out == Some(
                (direction, before, clamped(new_ratio as int)),
            ) && final(node)@ == with_ratio(old(node)@, path@, clamped(new_ratio as int)),
            None => out is None && final(node)@ == old(node)@,
        },
    decreases path.len(),
{
    match node {
        LayoutNode::Split(split) => {
            if path.len() == 0 {
                None
            } else if path.len() == 1 {
                let before = split.ratio;
                let after = clamp_ratio(new_ratio as i64);
                split.ratio = after;
                Some((split.direction, before, after))
            } else {
                let rest = slice_subrange(path, 1, path.len());
                assert(rest@ =~= path@.drop_first());
                match path[0] {
                    Side::Left => set_ratio(&mut *split.left, rest, new_ratio),
                    Side::Right => set_ratio(&mut *split.right, rest, new_ratio),
                }
            }
        },
        LayoutNode::Leaf(_) => None,
    }
}

/// A rectangle of character cells on the screen.
#[derive(Debug, Clone, Copy, PartialEq, Eq, Structural)]
pub struct Rect {
    pub x: u16,
    pub y: u16,
    pub width: u16,
    pub height: u16,
}

/// The cells that the first side of a split gets out of `total`: its share
/// `ratio / (ratio + 1)` of them, a fraction of a cell dropped, and one cell
/// at least.
pub open spec fn first_share(total: int, ratio: int) -> int {
    let share = (ratio * total) / (ratio + 1000);
    if share < 1 {
        1
    } else {
        share
    }
}

fn share_of(total: u16, ratio: u32) -> (out: u16)
    ensures
        out == first_share(total as int, ratio as int),
        1 <= out,
        out <= total || out == 1,
{
    assert(ratio as u64 * total as u64 <= 0xffff_ffff * 0xffff) by (nonlinear_arith)
        requires
            ratio <= 0xffff_ffff,
            total <= 0xffff,
    ;
    let product: u64 = ratio as u64 * total as u64;
    let share: u64 = product / (ratio as u64 + 1000);
    assert(share <= total) by (nonlinear_arith)
        requires
            share == (ratio as int * total as int) / (ratio as int + 1000),
            ratio >= 0,
            total >= 0,
    ;
    if share < 1 {
        1
    } else {
        share as u16
    }
}

/// The two areas that a split divides `area` into: side by side for a
/// horizontal split, one above the other for a vertical one. The first gets
/// its share, the second what is left.
pub fn split_area(area: Rect, dir: SplitDirection, ratio: u32) -> (out: (Rect, Rect))
    requires
        dir == SplitDirection::Horizontal ==> area.x + first_share(area.width as int, ratio as int)
            <= u16::MAX,
        dir == SplitDirection::Vertical ==> area.y + first_share(area.height as int, ratio as int)
            <= u16::MAX,
    ensures
        dir == SplitDirection::Horizontal ==> {
            let w = first_share(area.width as int, ratio as int);
            &&& out.0 == Rect { x: area.x, y: area.y, width: w as u16, height: area.height }
            &&& out.1 == Rect {
                x: (area.x + w) as u16,
                y: area.y,
                width: if area.width >= w {
                    (area.width - w) as u16
                } else {
                    0
                },
                height: area.height,
            }
        },
        dir == SplitDirection::Vertical ==> {
            let h = first_share(area.height as int, ratio as int);
            &&& out.0 == Rect { x: area.x, y: area.y, width: area.width, height: h as u16 }
            &&& out.1 == Rect {
                x: area.x,
                y: (area.y + h) as u16,
                width: area.width,
                height: if area.height >= h {
                    (area.height - h) as u16
                } else {
                    0
                },
            }
        },
{
    match dir {
        SplitDirection::Horizontal => {
            let left_w = share_of(area.width, ratio);
            let right_w: u16 = if area.width >= left_w {
                area.width - left_w
            } else {
                0
            };
            (
                Rect { x: area.x, y: area.y, width: left_w, height: area.height },
                Rect { x: area.x + left_w, y: area.y, width: right_w, height: area.height },
            )
        },
        SplitDirection::Vertical => {
            let top_h = share_of(area.height, ratio);
            let bottom_h: u16 = if area.height >= top_h {
                area.height - top_h
            } else {
                0
            };
            (
                Rect { x: area.x, y: area.y, width: area.width, height: top_h },
                Rect { x: area.x, y: area.y + top_h, width: area.width, height: bottom_h },
            )
        },
    }
}

/// The ratio that a divider at cell `at` gives to a span of `extent` cells
/// that begins at cell `origin`: the cells before the divider over the cells
/// after it, with one cell at least on either side, held within the editor's
/// limits. None where the span has no room for two sides.
pub open spec fn ratio_at(origin: int, extent: int, at: int) -> Option<u32> {
    if extent <= 1 {
        None
    } else {
        let offset = if at >= origin {
            at - origin
        } else {
            0
        };
        let capped = if offset > extent - 1 {
            extent - 1
        } else {
            offset
        };
        let first = if capped < 1 {
            1
        } else {
            capped
        };
        Some(clamped((1000 * first) / (extent - first)))
    }
}

fn ratio_on(origin: u16, extent: u16, at: u16) -> (out: Option<u32>)
    ensures
        out == ratio_at(origin as int, extent as int, at as int),
{
    if extent <= 1 {
        return None;
    }
    let offset: u16 = if at >= origin {
        at - origin
    } else {
        0
    };
    let capped: u16 = if offset > extent - 1 {
        extent - 1
    } else {
        offset
    };
    let first: u16 = if capped < 1 {
        1
    } else {
        capped
    };
    let second: u16 = extent - first;
    Some(clamp_ratio(((1000 * first as u64) / second as u64) as i64))
}

/// The ratio that the pointer at column `x` and row `y` gives to a split of
/// `area`: by the column for a horizontal split, by the row for a vertical
/// one.
pub fn ratio_from_position(area: Rect, direction: SplitDirection, x: u16, y: u16) -> (out: Option<
    u32,
>)
    ensures
        out == match direction {
            SplitDirection::Horizontal => ratio_at(area.x as int, area.width as int, x as int),
            SplitDirection::Vertical => ratio_at(area.y as int, area.height as int, y as int),
        },
{
    match direction {
        SplitDirection::Horizontal => ratio_on(area.x, area.width, x),
        SplitDirection::Vertical => ratio_on(area.y, area.height, y),
    }
}

} // verus!
