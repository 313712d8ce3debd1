use hyprsets::config::{LayoutNode, SplitDirection, SplitNode, WindowSlot, Workset};
use hyprsets::editing::{
    adjust_ratio, clamp_ratio, collect_commands, collect_slot_ids, ensure_layout, first_leaf_path,
    leaf_at_path, next_slot_id, ratio_from_position, remove_leaf, replace_leaf_with_split,
    set_leaf_at_path, set_ratio, split_area, Rect, Side, RATIO_MAX, RATIO_MIN,
};

fn leaf(id: u32) -> LayoutNode {
    LayoutNode::Leaf(WindowSlot {
        slot_id: id,
        command: format!("cmd{id}"),
        cwd: None,
        env: Default::default(),
    })
}

fn split(direction: SplitDirection, ratio: u32, left: LayoutNode, right: LayoutNode) -> LayoutNode {
    LayoutNode::Split(SplitNode {
        direction,
        ratio,
        left: Box::new(left),
        right: Box::new(right),
    })
}

fn rect(x: u16, y: u16, width: u16, height: u16) -> Rect {
    Rect { x, y, width, height }
}

fn ids(node: &LayoutNode) -> Vec<u32> {
    match node {
        LayoutNode::Leaf(slot) => vec![slot.slot_id],
        LayoutNode::Split(s) => {
            let mut out = ids(&s.left);
            out.extend(ids(&s.right));
            out
        }
    }
}

#[test]
fn split_area_horizontal_respects_min_width() {
    let area = rect(0, 0, 2, 5);
    let (left, right) = split_area(area, SplitDirection::Horizontal, 100_000);
    assert_eq!(left.width, 1);
    assert_eq!(right.width, 1);
    assert_eq!(left.height, area.height);
    assert_eq!(right.height, area.height);
    assert_eq!(right.x, left.x + left.width);
}

#[test]
fn split_area_vertical_respects_min_height() {
    let area = rect(5, 5, 10, 3);
    let (top, bottom) = split_area(area, SplitDirection::Vertical, 100);
    assert_eq!(top.height, 1);
    assert_eq!(bottom.height, 2);
    assert_eq!(top.y, 5);
    assert_eq!(bottom.y, 6);
}

#[test]
fn first_leaf_path_prefers_leftmost() {
    let tree = split(
        SplitDirection::Horizontal,
        1000,
        split(SplitDirection::Vertical, 1000, leaf(1), leaf(2)),
        leaf(3),
    );
    assert_eq!(first_leaf_path(&tree), Some(vec![Side::Left, Side::Left]));
}

#[test]
fn replace_leaf_with_split_inserts_new_slot() {
    let mut node = leaf(10);
    let ok = replace_leaf_with_split(&mut node, &[], SplitDirection::Horizontal, 11);
    assert!(ok);
    match node {
        LayoutNode::Split(split) => {
            let left = split.left.as_ref();
            let right = split.right.as_ref();
            match (left, right) {
                (LayoutNode::Leaf(l), LayoutNode::Leaf(r)) => {
                    assert_eq!(l.slot_id, 10);
                    assert_eq!(r.slot_id, 11);
                }
                _ => panic!("split children should be leaves"),
            }
        }
        _ => panic!("expected split"),
    }
}

#[test]
fn remove_leaf_replaces_parent_with_sibling() {
    let mut node = split(SplitDirection::Vertical, 1000, leaf(1), leaf(2));
    assert!(remove_leaf(&mut node, &[Side::Right]));
    match node {
        LayoutNode::Leaf(slot) => assert_eq!(slot.slot_id, 1),
        _ => panic!("expected remaining leaf"),
    }
}

#[test]
fn set_leaf_at_path_updates_target() {
    let mut node = split(SplitDirection::Horizontal, 1000, leaf(1), leaf(2));
    let new_slot = WindowSlot {
        slot_id: 99,
        command: "new".into(),
        cwd: None,
        env: Default::default(),
    };
    assert!(set_leaf_at_path(&mut node, &[Side::Right], new_slot.clone()));
    match node {
        LayoutNode::Split(split) => match split.right.as_ref() {
            LayoutNode::Leaf(slot) => assert_eq!(slot.slot_id, 99),
            _ => panic!("expected leaf"),
        },
        _ => panic!("expected split"),
    }
}

#[test]
fn adjust_ratio_clamps_and_returns_old_new() {
    let mut node = split(SplitDirection::Horizontal, 1000, leaf(1), leaf(2));
    let res = adjust_ratio(&mut node, &[Side::Left], 10_000).expect("should adjust");
    assert!(matches!(res.0, SplitDirection::Horizontal));
    assert_eq!(res.1, 1000);
    assert_eq!(res.2, RATIO_MAX);
    if let LayoutNode::Split(split) = node {
        assert_eq!(split.ratio, RATIO_MAX);
        assert!(matches!(split.direction, SplitDirection::Horizontal));
        let (left, right) = (split.left.as_ref(), split.right.as_ref());
        match (left, right) {
            (LayoutNode::Leaf(l), LayoutNode::Leaf(r)) => {
                assert_eq!(l.slot_id, 1);
                assert_eq!(r.slot_id, 2);
            }
            _ => panic!("split children should be leaves"),
        }
    } else {
        panic!("expected split");
    }
}

#[test]
fn set_ratio_clamps_value() {
    let mut node = split(SplitDirection::Vertical, 1000, leaf(1), leaf(2));
    let res = set_ratio(&mut node, &[Side::Right], 100).expect("should set");
    assert!(matches!(res.0, SplitDirection::Vertical));
    assert_eq!(res.1, 1000);
    if let LayoutNode::Split(split) = &node {
        assert_eq!(split.ratio, RATIO_MIN);
    } else {
        panic!("expected split");
    }
}

#[test]
fn ratio_from_position_horizontal_bounds_and_clamp() {
    let area = rect(10, 0, 10, 5);
    // leftmost selectable point -> minimal ratio > 0
    let r_min = ratio_from_position(area, SplitDirection::Horizontal, 10, 0).unwrap();
    assert!(r_min >= RATIO_MIN);
    // middle -> ~1.0
    let r_mid = ratio_from_position(area, SplitDirection::Horizontal, 15, 0).unwrap();
    assert!((r_mid as f64 / 1000.0 - 1.0).abs() < 1e-3);
    // far right -> near max
    let r_max = ratio_from_position(area, SplitDirection::Horizontal, 19, 0).unwrap();
    assert!(r_max <= RATIO_MAX);
}

#[test]
fn ratio_from_position_vertical_none_when_too_small() {
    let area = rect(0, 0, 5, 1);
    assert!(ratio_from_position(area, SplitDirection::Vertical, 0, 0).is_none());
}

#[test]
fn ratio_from_position_exact_values() {
    let area = rect(10, 20, 10, 6);
    assert_eq!(ratio_from_position(area, SplitDirection::Horizontal, 0, 0), Some(RATIO_MIN));
    assert_eq!(ratio_from_position(area, SplitDirection::Horizontal, 13, 0), Some(428));
    assert_eq!(ratio_from_position(area, SplitDirection::Horizontal, 16, 0), Some(1500));
    assert_eq!(ratio_from_position(area, SplitDirection::Horizontal, 500, 0), Some(RATIO_MAX));
    assert_eq!(ratio_from_position(area, SplitDirection::Vertical, 0, 22), Some(500));
    assert_eq!(ratio_from_position(area, SplitDirection::Vertical, 0, 24), Some(2000));
    assert_eq!(ratio_from_position(rect(0, 0, 1, 9), SplitDirection::Horizontal, 0, 0), None);
    assert_eq!(ratio_from_position(rect(0, 0, 0, 9), SplitDirection::Horizontal, 0, 0), None);
}

#[test]
fn split_area_divides_by_the_ratio() {
    let area = rect(4, 2, 100, 40);
    let (l, r) = split_area(area, SplitDirection::Horizontal, 1000);
    assert_eq!((l.x, l.width, r.x, r.width), (4, 50, 54, 50));
    let (l, r) = split_area(area, SplitDirection::Horizontal, 3000);
    assert_eq!((l.x, l.width, r.x, r.width), (4, 75, 79, 25));
    let (l, r) = split_area(area, SplitDirection::Horizontal, 1200);
    assert_eq!((l.width, r.width), (54, 46));
    let (t, b) = split_area(area, SplitDirection::Vertical, 1000);
    assert_eq!((t.y, t.height, b.y, b.height), (2, 20, 22, 20));
    assert_eq!((t.x, t.width, b.x, b.width), (4, 100, 4, 100));
    let (l, r) = split_area(rect(0, 0, 0, 5), SplitDirection::Horizontal, 1000);
    assert_eq!((l.width, r.width, r.x), (1, 0, 1));
}

#[test]
fn clamp_ratio_holds_the_limits() {
    assert_eq!(clamp_ratio(-5), RATIO_MIN);
    assert_eq!(clamp_ratio(299), RATIO_MIN);
    assert_eq!(clamp_ratio(300), 300);
    assert_eq!(clamp_ratio(1234), 1234);
    assert_eq!(clamp_ratio(2500), 2500);
    assert_eq!(clamp_ratio(2501), RATIO_MAX);
    assert_eq!(clamp_ratio(i64::MAX), RATIO_MAX);
}

#[test]
fn paths_that_miss_change_nothing() {
    let tree = split(SplitDirection::Horizontal, 1000, leaf(1), leaf(2));

    let mut t = tree.clone();
    assert!(!replace_leaf_with_split(&mut t, &[], SplitDirection::Vertical, 9));
    assert!(!replace_leaf_with_split(&mut t, &[Side::Left, Side::Left], SplitDirection::Vertical, 9));
    assert_eq!(ids(&t), vec![1, 2]);

    assert!(!remove_leaf(&mut t, &[]));
    assert!(!remove_leaf(&mut t, &[Side::Left, Side::Right]));
    assert_eq!(ids(&t), vec![1, 2]);

    let slot = WindowSlot { slot_id: 5, command: "x".into(), cwd: None, env: vec![] };
    assert!(!set_leaf_at_path(&mut t, &[], slot.clone()));
    assert!(!set_leaf_at_path(&mut t, &[Side::Right, Side::Left], slot));
    assert_eq!(ids(&t), vec![1, 2]);

    assert!(adjust_ratio(&mut t, &[], 100).is_none());
    assert!(adjust_ratio(&mut t, &[Side::Left, Side::Left], 100).is_none());
    assert!(set_ratio(&mut t, &[], 700).is_none());
    let mut single = leaf(1);
    assert!(set_ratio(&mut single, &[Side::Left], 700).is_none());
    assert!(!remove_leaf(&mut single, &[Side::Left]));
}

#[test]
fn deep_edits_reach_the_right_node() {
    let mut t = split(
        SplitDirection::Horizontal,
        1000,
        leaf(1),
        split(SplitDirection::Vertical, 2000, leaf(2), leaf(3)),
    );
    assert!(replace_leaf_with_split(&mut t, &[Side::Right, Side::Left], SplitDirection::Vertical, 4));
    assert_eq!(ids(&t), vec![1, 2, 4, 3]);
    let new_split = match &t {
        LayoutNode::Split(s) => match s.right.as_ref() {
            LayoutNode::Split(r) => match r.left.as_ref() {
                LayoutNode::Split(made) => (made.ratio, made.direction),
                _ => panic!("expected split"),
            },
            _ => panic!("expected split"),
        },
        _ => panic!("expected split"),
    };
    assert_eq!(new_split, (1000, SplitDirection::Vertical));

    let res = adjust_ratio(&mut t, &[Side::Right, Side::Right], -500).unwrap();
    assert_eq!(res, (SplitDirection::Vertical, 2000, 1500));
    let res = set_ratio(&mut t, &[Side::Left], 9999).unwrap();
    assert_eq!(res, (SplitDirection::Horizontal, 1000, RATIO_MAX));

    assert!(remove_leaf(&mut t, &[Side::Right, Side::Left, Side::Right]));
    assert_eq!(ids(&t), vec![1, 2, 3]);
    assert!(remove_leaf(&mut t, &[Side::Left]));
    assert_eq!(ids(&t), vec![2, 3]);
}

#[test]
fn horizontal_split_starts_wider_on_the_left() {
    let mut node = leaf(1);
    assert!(replace_leaf_with_split(&mut node, &[], SplitDirection::Horizontal, 2));
    match &node {
        LayoutNode::Split(s) => {
            assert_eq!(s.ratio, 1200);
            match s.right.as_ref() {
                LayoutNode::Leaf(slot) => {
                    assert_eq!(slot.command, "");
                    assert!(slot.cwd.is_none());
                    assert!(slot.env.is_empty());
                }
                _ => panic!("expected leaf"),
            }
            match s.left.as_ref() {
                LayoutNode::Leaf(slot) => assert_eq!(slot.command, "cmd1"),
                _ => panic!("expected leaf"),
            }
        }
        _ => panic!("expected split"),
    }
}

#[test]
fn leaf_at_path_follows_the_path() {
    let t = split(
        SplitDirection::Horizontal,
        1000,
        leaf(1),
        split(SplitDirection::Vertical, 1000, leaf(2), leaf(3)),
    );
    assert_eq!(leaf_at_path(&t, &[Side::Left]).map(|s| s.slot_id), Some(1));
    assert_eq!(leaf_at_path(&t, &[Side::Right, Side::Right]).map(|s| s.slot_id), Some(3));
    assert_eq!(leaf_at_path(&t, &[Side::Left, Side::Right, Side::Left]).map(|s| s.slot_id), Some(1));
    assert!(leaf_at_path(&t, &[]).is_none());
    assert!(leaf_at_path(&t, &[Side::Right]).is_none());
    assert_eq!(leaf_at_path(&leaf(8), &[]).map(|s| s.slot_id), Some(8));
}

#[test]
fn commands_and_slot_ids_are_collected_in_order() {
    let t = split(
        SplitDirection::Horizontal,
        1000,
        split(SplitDirection::Vertical, 1000, leaf(7), leaf(2)),
        leaf(5),
    );
    let mut commands = vec!["before".to_string()];
    collect_commands(&t, &mut commands);
    assert_eq!(commands, vec!["before", "cmd7", "cmd2", "cmd5"]);
    assert_eq!(next_slot_id(&t), 8);
    let mut max = 20;
    collect_slot_ids(&t, &mut max);
    assert_eq!(max, 20);
    let mut max = 3;
    collect_slot_ids(&t, &mut max);
    assert_eq!(max, 7);
    assert_eq!(first_leaf_path(&leaf(1)), Some(vec![]));
}

#[test]
fn ensure_layout_makes_a_leaf_of_the_first_command() {
    let mut ws = Workset {
        id: "w".into(),
        name: "W".into(),
        desc: String::new(),
        workspace: None,
        commands: vec!["first".into(), "second".into()],
        cwd: Some("/x".into()),
        env: vec![("A".into(), "1".into())],
        layout: None,
    };
    match ensure_layout(ws.clone()) {
        LayoutNode::Leaf(slot) => {
            assert_eq!(slot.slot_id, 1);
            assert_eq!(slot.command, "first");
            assert!(slot.cwd.is_none());
            assert!(slot.env.is_empty());
        }
        _ => panic!("expected leaf"),
    }
    ws.commands.clear();
    match ensure_layout(ws.clone()) {
        LayoutNode::Leaf(slot) => assert_eq!(slot.command, ""),
        _ => panic!("expected leaf"),
    }
    ws.layout = Some(split(SplitDirection::Vertical, 700, leaf(3), leaf(4)));
    assert_eq!(ids(&ensure_layout(ws)), vec![3, 4]);
}
