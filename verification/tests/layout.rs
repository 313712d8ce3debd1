use hyprsets::config::{count_slots, LayoutNode, SplitDirection, SplitNode, WindowSlot};
use hyprsets::ratio::{
    split_ratio_argument, to_hypr_split_ratio, HYPR_SPLIT_MAX, HYPR_SPLIT_MIN,
};

fn leaf(id: u32, command: &str) -> LayoutNode {
    LayoutNode::Leaf(WindowSlot {
        slot_id: id,
        command: command.into(),
        cwd: None,
        env: Default::default(),
    })
}

fn split(direction: SplitDirection, ratio: u32, left: LayoutNode, right: LayoutNode) -> LayoutNode {
    LayoutNode::Split(SplitNode {
        direction,
        ratio,
        left: Box::new(left),
        right: Box::new(right),
    })
}

#[test]
fn hypr_split_ratio_clamps_bounds() {
    assert!((to_hypr_split_ratio(1000) as f64 / 1000.0 - 1.0).abs() < 1e-6);
    assert_eq!(to_hypr_split_ratio(0), HYPR_SPLIT_MIN);
    assert_eq!(to_hypr_split_ratio(100_000), HYPR_SPLIT_MAX);
}

#[test]
fn count_slots_calculates_total() {
    let layout = split(
        SplitDirection::Horizontal,
        500,
        leaf(1, "a"),
        split(SplitDirection::Vertical, 500, leaf(2, "b"), leaf(3, "c")),
    );
    assert_eq!(count_slots(&layout), 3);
}

#[test]
fn count_slots_of_a_single_leaf() {
    assert_eq!(count_slots(&leaf(9, "x")), 1);
}

#[test]
fn split_ratio_follows_the_formula() {
    // 2r / (r + 1) in thousandths, to the nearest thousandth
    assert_eq!(to_hypr_split_ratio(1200), 1091);
    assert_eq!(to_hypr_split_ratio(500), 667);
    assert_eq!(to_hypr_split_ratio(2000), 1333);
    assert_eq!(to_hypr_split_ratio(3000), 1500);
    assert_eq!(to_hypr_split_ratio(1000), 1000);
    for r in [1u32, 10, 53, 100, 300, 999, 1000, 1200, 2500, 18_999, 19_000, u32::MAX] {
        let x = (r.max(10)) as f64 / 1000.0;
        let exact = (2.0 * x / (x + 1.0)).clamp(0.1, 1.9);
        let got = to_hypr_split_ratio(r) as f64 / 1000.0;
        assert!((got - exact).abs() <= 0.0005 + 1e-9, "{r}: {got} vs {exact}");
    }
}

#[test]
fn split_ratio_is_monotonic_and_bounded() {
    let mut last = 0;
    let mut r: u32 = 0;
    while r <= 30_000 {
        let f = to_hypr_split_ratio(r);
        assert!(f >= last);
        assert!((HYPR_SPLIT_MIN..=HYPR_SPLIT_MAX).contains(&f));
        last = f;
        r += 7;
    }
    assert_eq!(to_hypr_split_ratio(52), HYPR_SPLIT_MIN);
    assert!(to_hypr_split_ratio(54) > HYPR_SPLIT_MIN);
    assert_eq!(to_hypr_split_ratio(19_000), HYPR_SPLIT_MAX);
    assert!(to_hypr_split_ratio(18_900) < HYPR_SPLIT_MAX);
    assert_eq!(to_hypr_split_ratio(u32::MAX), HYPR_SPLIT_MAX);
}

#[test]
fn split_ratio_argument_has_three_decimals() {
    assert_eq!(split_ratio_argument(1091), "exact 1.091");
    assert_eq!(split_ratio_argument(100), "exact 0.100");
    assert_eq!(split_ratio_argument(1900), "exact 1.900");
    assert_eq!(split_ratio_argument(1000), "exact 1.000");
    assert_eq!(split_ratio_argument(1005), "exact 1.005");
    assert_eq!(split_ratio_argument(12_340), "exact 12.340");
    assert_eq!(format!("exact {:.3}", 1.091f64), split_ratio_argument(1091));
}
