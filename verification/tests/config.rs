use hyprsets::config::{
    default_version, AllTabPosition, AppConfig, AppState, ConfigError, ConfigWarning, LayoutNode,
    SplitDirection, TabConfig,
};

fn tab(id: &str, label: &str) -> TabConfig {
    TabConfig {
        id: id.into(),
        label: label.into(),
        worksets: vec![],
        include_unassigned: false,
    }
}

fn config(tabs: Vec<TabConfig>) -> AppConfig {
    AppConfig {
        version: 2,
        default_tab: None,
        show_all_tab: None,
        all_tab_position: None,
        tabs,
        worksets: vec![],
    }
}

#[test]
fn default_version_is_one() {
    assert_eq!(default_version(), 1);
}

#[test]
fn default_state_remembers_no_tab() {
    assert!(AppState::default().last_tab_id.is_none());
}

#[test]
fn tabs_with_ids_and_labels_are_valid() {
    assert!(config(vec![]).validate_tabs().is_ok());
    assert!(config(vec![tab("a", "A"), tab("b", "B")]).validate_tabs().is_ok());
    assert!(config(vec![tab(" a ", "A"), tab("a", "A")]).validate_tabs().is_ok());
}

#[test]
fn blank_tab_id_is_refused() {
    let err = config(vec![tab("a", "A"), tab(" \t", "B")]).validate_tabs().unwrap_err();
    assert!(matches!(err, ConfigError::EmptyTabId));
    assert_eq!(err.message(), "tab id must not be empty");
}

#[test]
fn blank_tab_label_is_refused() {
    let err = config(vec![tab("a", "")]).validate_tabs().unwrap_err();
    assert!(matches!(err, ConfigError::EmptyTabLabel(ref id) if id == "a"));
    assert_eq!(err.message(), "tab label must not be empty (id: a)");
}

#[test]
fn duplicate_tab_id_is_refused() {
    let err = config(vec![tab("a", "A"), tab("b", "B"), tab("a", "C")])
        .validate_tabs()
        .unwrap_err();
    assert!(matches!(err, ConfigError::DuplicateTabId(ref id) if id == "a"));
    assert_eq!(err.message(), "duplicate tab id found: a");
}

#[test]
fn first_fault_in_tab_order_wins() {
    let err = config(vec![tab("a", "A"), tab("a", ""), tab("", "x")])
        .validate_tabs()
        .unwrap_err();
    assert!(matches!(err, ConfigError::EmptyTabLabel(ref id) if id == "a"));
    let err = config(vec![tab("a", "A"), tab("a", "B"), tab("", "x")])
        .validate_tabs()
        .unwrap_err();
    assert!(matches!(err, ConfigError::DuplicateTabId(_)));
}

#[test]
fn warnings_name_what_is_ignored() {
    let mut cfg = config(vec![tab("a", "A")]);
    assert!(cfg.warn_tab_version().is_empty());
    cfg.version = 1;
    assert_eq!(cfg.warn_tab_version(), vec![ConfigWarning::TabsInOldVersion]);
    cfg.show_all_tab = Some(true);
    assert_eq!(cfg.warn_tab_version(), vec![ConfigWarning::TabsInOldVersion]);
    cfg.show_all_tab = Some(false);
    cfg.all_tab_position = Some(AllTabPosition::First);
    assert_eq!(
        cfg.warn_tab_version(),
        vec![
            ConfigWarning::TabsInOldVersion,
            ConfigWarning::ShowAllTabIgnored,
            ConfigWarning::AllTabPositionIgnored
        ]
    );
    cfg.tabs.clear();
    assert_eq!(
        cfg.warn_tab_version(),
        vec![ConfigWarning::ShowAllTabIgnored, ConfigWarning::AllTabPositionIgnored]
    );
}

#[test]
fn default_template_holds_the_sample_workset() {
    let cfg = AppConfig::default_template();
    assert_eq!(cfg.version, 1);
    assert!(cfg.tabs.is_empty());
    assert_eq!(cfg.worksets.len(), 1);
    let ws = &cfg.worksets[0];
    assert_eq!(ws.id, "sample");
    assert_eq!(ws.name, "Sample Workset");
    assert_eq!(ws.desc, "Code + Browser example");
    assert_eq!(ws.workspace.as_deref(), Some(""));
    assert_eq!(
        ws.commands,
        vec![
            "code -n \"$HOME/ws/demo\"",
            "omarchy-launch-browser --new-window \"https://example.com\"",
            "hyprctl dispatch movefocus l",
            "hyprctl dispatch splitratio exact 1.2",
        ]
    );
    match ws.layout.as_ref().unwrap() {
        LayoutNode::Split(s) => {
            assert_eq!(s.ratio, 1200);
            assert_eq!(s.direction, SplitDirection::Horizontal);
            match (s.left.as_ref(), s.right.as_ref()) {
                (LayoutNode::Leaf(l), LayoutNode::Leaf(r)) => {
                    assert_eq!((l.slot_id, r.slot_id), (1, 2));
                    assert_eq!(l.command, ws.commands[0]);
                    assert_eq!(r.command, ws.commands[1]);
                }
                _ => panic!("expected two leaves"),
            }
        }
        _ => panic!("expected a split"),
    }
    assert!(cfg.validate_tabs().is_ok());
}
