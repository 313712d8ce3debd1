use hyprsets::config::TabConfig;
use hyprsets::dialog::{
    cycle_new_dialog_tab, next_field, next_grapheme_end, prev_field, prev_grapheme_start,
    DialogField, NewDialogField, NewDialogState,
};

#[test]
fn next_and_prev_field_cycle_through_form() {
    assert!(matches!(next_field(DialogField::Id), DialogField::Name));
    assert!(matches!(prev_field(DialogField::Id), DialogField::Desc));
    assert!(matches!(next_field(DialogField::Desc), DialogField::Id));
}

#[test]
fn grapheme_navigation_handles_multibyte() {
    let text = "aあい";
    // positions: 0 a, 1 あ, 4 い
    assert_eq!(next_grapheme_end(text, 0), Some(1));
    assert_eq!(next_grapheme_end(text, 1), Some(4));
    assert_eq!(next_grapheme_end(text, 4), Some(7));

    assert_eq!(prev_grapheme_start(text, 4), Some(1));
    assert_eq!(prev_grapheme_start(text, 1), Some(0));
    assert_eq!(prev_grapheme_start(text, 0), None);
}

#[test]
fn grapheme_navigation_at_the_ends() {
    let text = "é😀";
    assert_eq!(next_grapheme_end(text, 0), Some(2));
    assert_eq!(next_grapheme_end(text, 2), Some(6));
    assert_eq!(next_grapheme_end(text, 6), None);
    assert_eq!(next_grapheme_end(text, 60), None);
    assert_eq!(prev_grapheme_start(text, 6), Some(2));
    assert_eq!(prev_grapheme_start(text, 2), Some(0));
    assert_eq!(next_grapheme_end("", 0), None);
    assert_eq!(prev_grapheme_start("", 0), None);
}

#[test]
fn fields_go_round_in_both_directions() {
    let order = [
        DialogField::Id,
        DialogField::Name,
        DialogField::Tab,
        DialogField::Workspace,
        DialogField::Desc,
    ];
    for i in 0..order.len() {
        let next = order[(i + 1) % order.len()];
        assert_eq!(next_field(order[i]), next);
        assert_eq!(prev_field(next), order[i]);
        assert_eq!(prev_field(next_field(order[i])), order[i]);
    }
}

fn tab(id: &str) -> TabConfig {
    TabConfig {
        id: id.into(),
        label: id.to_uppercase(),
        worksets: vec![],
        include_unassigned: false,
    }
}

fn form(selected: Option<&str>) -> NewDialogState {
    NewDialogState {
        id: "i".into(),
        name: "n".into(),
        desc: "d".into(),
        selected_tab: selected.map(|s| s.to_string()),
        focus: NewDialogField::Tab,
    }
}

#[test]
fn tab_choice_goes_round_through_unassigned() {
    let tabs = vec![tab("a"), tab("b"), tab("c")];
    let mut f = form(None);
    let mut seen = Vec::new();
    for _ in 0..5 {
        cycle_new_dialog_tab(&mut f, &tabs, 1);
        seen.push(f.selected_tab.clone());
    }
    assert_eq!(
        seen,
        vec![
            Some("a".to_string()),
            Some("b".to_string()),
            Some("c".to_string()),
            None,
            Some("a".to_string())
        ]
    );
    cycle_new_dialog_tab(&mut f, &tabs, -1);
    assert_eq!(f.selected_tab, None);
    cycle_new_dialog_tab(&mut f, &tabs, -1);
    assert_eq!(f.selected_tab.as_deref(), Some("c"));
    cycle_new_dialog_tab(&mut f, &tabs, -6);
    assert_eq!(f.selected_tab.as_deref(), Some("a"));
    cycle_new_dialog_tab(&mut f, &tabs, 9);
    assert_eq!(f.selected_tab.as_deref(), Some("b"));
    cycle_new_dialog_tab(&mut f, &tabs, 0);
    assert_eq!(f.selected_tab.as_deref(), Some("b"));
    assert_eq!(f.id, "i");
    assert_eq!(f.name, "n");
    assert_eq!(f.desc, "d");
    assert_eq!(f.focus, NewDialogField::Tab);
}

#[test]
fn tab_choice_matches_the_euclidean_remainder() {
    let tabs = vec![tab("a"), tab("b"), tab("c")];
    for start in 0..4usize {
        for delta in -9isize..=9 {
            let selected = if start == 0 { None } else { Some(tabs[start - 1].id.as_str()) };
            let mut f = form(selected);
            cycle_new_dialog_tab(&mut f, &tabs, delta);
            let next = (start as isize + delta).rem_euclid(4) as usize;
            let expected = if next == 0 { None } else { Some(tabs[next - 1].id.clone()) };
            assert_eq!(f.selected_tab, expected);
        }
    }
}

#[test]
fn tab_choice_without_tabs_or_with_unknown_tab() {
    let mut f = form(Some("gone"));
    cycle_new_dialog_tab(&mut f, &vec![], 1);
    assert_eq!(f.selected_tab, None);

    let tabs = vec![tab("a"), tab("b")];
    let mut f = form(Some("gone"));
    cycle_new_dialog_tab(&mut f, &tabs, 1);
    assert_eq!(f.selected_tab.as_deref(), Some("a"));
    let mut f = form(Some("gone"));
    cycle_new_dialog_tab(&mut f, &tabs, -1);
    assert_eq!(f.selected_tab.as_deref(), Some("b"));
}

#[test]
fn tab_choice_takes_the_first_tab_of_an_id() {
    let tabs = vec![tab("a"), tab("b"), tab("a")];
    let mut f = form(Some("a"));
    cycle_new_dialog_tab(&mut f, &tabs, 1);
    assert_eq!(f.selected_tab.as_deref(), Some("b"));
}

#[test]
fn tab_choice_takes_the_largest_steps() {
    let tabs = vec![tab("a"), tab("b"), tab("c")];
    // nothing selected: any step up to the largest fits
    let mut f = form(None);
    cycle_new_dialog_tab(&mut f, &tabs, isize::MAX - 1);
    let next = (isize::MAX - 1).rem_euclid(4) as usize;
    let expected = if next == 0 { None } else { Some(tabs[next - 1].id.clone()) };
    assert_eq!(f.selected_tab, expected);
    let mut f = form(None);
    cycle_new_dialog_tab(&mut f, &tabs, isize::MAX);
    let next = isize::MAX.rem_euclid(4) as usize;
    let expected = if next == 0 { None } else { Some(tabs[next - 1].id.clone()) };
    assert_eq!(f.selected_tab, expected);
    let mut f = form(Some("c"));
    cycle_new_dialog_tab(&mut f, &tabs, isize::MIN);
    let next = (3 + isize::MIN).rem_euclid(4) as usize;
    let expected = if next == 0 { None } else { Some(tabs[next - 1].id.clone()) };
    assert_eq!(f.selected_tab, expected);
    let mut f = form(Some("c"));
    cycle_new_dialog_tab(&mut f, &tabs, isize::MAX - 3);
    let next = isize::MAX.rem_euclid(4) as usize;
    let expected = if next == 0 { None } else { Some(tabs[next - 1].id.clone()) };
    assert_eq!(f.selected_tab, expected);
    // without tabs any step is taken
    let mut f = form(Some("x"));
    cycle_new_dialog_tab(&mut f, &vec![], isize::MAX);
    assert_eq!(f.selected_tab, None);
}
