use hyprsets::config::Workset;
use hyprsets::workspace::{
    workspace_override, WorkspaceBasic, WorkspaceContext, WorkspaceTarget, WorkspaceTargetKind,
};

fn ctx(id: i32, name: &str) -> WorkspaceContext {
    WorkspaceContext::from_basic(WorkspaceBasic {
        id,
        name: name.to_string(),
    })
}

fn workset_on(workspace: Option<&str>) -> Workset {
    Workset {
        id: "id".into(),
        name: "name".into(),
        desc: "".into(),
        workspace: workspace.map(|s| s.to_string()),
        commands: vec![],
        cwd: None,
        env: Vec::new(),
        layout: None,
    }
}

#[test]
fn workspace_target_from_raw_parses_variants() {
    let t1 = WorkspaceTarget::from_raw("special:foo");
    assert!(matches!(t1.kind, WorkspaceTargetKind::Special(Some(_))));
    let ctx_special = t1.context();
    assert!(ctx_special.is_special);
    assert!(t1.matches(&ctx_special));

    let t2 = WorkspaceTarget::from_raw("name:work");
    assert!(matches!(t2.kind, WorkspaceTargetKind::Name(_)));
    let ctx_named = ctx(1, "work");
    assert!(t2.matches(&ctx_named));

    let t3 = WorkspaceTarget::from_raw("3");
    assert!(matches!(t3.kind, WorkspaceTargetKind::Id(3)));
    let ctx_numeric = ctx(3, "");
    assert!(t3.matches(&ctx_numeric));
}

#[test]
fn workspace_override_reads_workset_field() {
    let ws = workset_on(Some("special:test"));
    let target = workspace_override(&ws).expect("should parse override");
    assert!(matches!(target.kind, WorkspaceTargetKind::Special(Some(ref n)) if n == "test"));
}

#[test]
fn workspace_context_label_includes_id_or_name() {
    let unnamed = ctx(4, "");
    assert!(unnamed.label().contains("4"));
    let named = ctx(2, "dev");
    assert!(named.label().contains("dev"));
    assert!(named.label().contains("2"));
}

#[test]
fn workspace_context_matches_by_id_or_name() {
    let base = ctx(1, "alpha");
    assert!(base.matches(&WorkspaceBasic {
        id: 1,
        name: "".into(),
    }));
    assert!(base.matches(&WorkspaceBasic {
        id: 9,
        name: "alpha".into(),
    }));
    assert!(!base.matches(&WorkspaceBasic {
        id: 2,
        name: "beta".into(),
    }));
}

#[test]
fn context_labels_are_exact() {
    assert_eq!(ctx(4, "").label(), "workspace 4");
    assert_eq!(ctx(2, "dev").label(), "workspace dev (id 2)");
    assert_eq!(ctx(-98, "special:pad").label(), "special workspace special:pad (id -98)");
    assert_eq!(ctx(0, "").label(), "special workspace 0");
}

#[test]
fn context_is_special_by_number_or_name() {
    assert!(!ctx(1, "one").is_special);
    assert!(ctx(0, "one").is_special);
    assert!(ctx(-5, "").is_special);
    assert!(ctx(7, "special:x").is_special);
    assert!(ctx(7, "specialty").is_special);
    assert!(!ctx(7, "Special").is_special);
}

#[test]
fn unnamed_context_matches_by_number_only() {
    let base = ctx(3, "");
    assert!(base.matches(&WorkspaceBasic { id: 3, name: "x".into() }));
    assert!(!base.matches(&WorkspaceBasic { id: 4, name: "".into() }));
}

#[test]
fn target_labels_are_exact() {
    assert_eq!(WorkspaceTarget::from_raw("3").label(), "workspace 3");
    assert_eq!(WorkspaceTarget::from_raw("-3").label(), "workspace -3");
    assert_eq!(WorkspaceTarget::from_raw("name:work").label(), "workspace 'work'");
    assert_eq!(WorkspaceTarget::from_raw("special").label(), "special workspace");
    assert_eq!(
        WorkspaceTarget::from_raw("special:pad").label(),
        "special workspace 'pad'"
    );
}

#[test]
fn from_raw_trims_and_reads_numbers_as_std_does() {
    assert!(matches!(WorkspaceTarget::from_raw("  7 ").kind, WorkspaceTargetKind::Id(7)));
    assert!(matches!(WorkspaceTarget::from_raw("+5").kind, WorkspaceTargetKind::Id(5)));
    assert!(matches!(WorkspaceTarget::from_raw("-12").kind, WorkspaceTargetKind::Id(-12)));
    assert!(matches!(WorkspaceTarget::from_raw("007").kind, WorkspaceTargetKind::Id(7)));
    assert!(matches!(
        WorkspaceTarget::from_raw("2147483647").kind,
        WorkspaceTargetKind::Id(2147483647)
    ));
    assert!(matches!(
        WorkspaceTarget::from_raw("-2147483648").kind,
        WorkspaceTargetKind::Id(-2147483648)
    ));
    for text in ["2147483648", "-2147483649", "+", "-", "1 2", "1_000", "0x10", "12a", "99999999999999999999999"] {
        let expected: Result<i32, _> = text.parse::<i32>();
        assert!(expected.is_err());
        assert!(
            matches!(WorkspaceTarget::from_raw(text).kind, WorkspaceTargetKind::Name(ref n) if n == text),
            "{text}"
        );
    }
}

#[test]
fn from_raw_reads_special_in_any_case() {
    assert!(matches!(WorkspaceTarget::from_raw("SPECIAL").kind, WorkspaceTargetKind::Special(None)));
    assert!(matches!(WorkspaceTarget::from_raw(" Special\t").kind, WorkspaceTargetKind::Special(None)));
    assert!(matches!(
        WorkspaceTarget::from_raw("special:").kind,
        WorkspaceTargetKind::Special(Some(ref n)) if n.is_empty()
    ));
    assert!(matches!(
        WorkspaceTarget::from_raw("Special:x").kind,
        WorkspaceTargetKind::Name(ref n) if n == "Special:x"
    ));
    assert!(matches!(
        WorkspaceTarget::from_raw("name:").kind,
        WorkspaceTargetKind::Name(ref n) if n.is_empty()
    ));
    assert!(matches!(
        WorkspaceTarget::from_raw("name: 3").kind,
        WorkspaceTargetKind::Name(ref n) if n == " 3"
    ));
    assert!(matches!(
        WorkspaceTarget::from_raw("work").kind,
        WorkspaceTargetKind::Name(ref n) if n == "work"
    ));
}

#[test]
fn from_raw_trims_unicode_white_space() {
    assert!(matches!(
        WorkspaceTarget::from_raw("\u{3000}\u{a0}9\u{2003}\n").kind,
        WorkspaceTargetKind::Id(9)
    ));
    assert_eq!("\u{3000}\u{a0}9\u{2003}\n".trim(), "9");
}

#[test]
fn target_contexts_are_what_the_window_manager_reports() {
    let by_id = WorkspaceTarget::from_raw("3").context();
    assert_eq!(by_id.workspace.id, 3);
    assert_eq!(by_id.workspace.name, "3");
    assert!(!by_id.is_special);

    let by_name = WorkspaceTarget::from_raw("work").context();
    assert_eq!(by_name.workspace.id, i32::MAX);
    assert_eq!(by_name.workspace.name, "work");

    let pad = WorkspaceTarget::from_raw("special").context();
    assert_eq!(pad.workspace.id, 0);
    assert_eq!(pad.workspace.name, "special");
    assert!(pad.is_special);

    let named_pad = WorkspaceTarget::from_raw("special:music").context();
    assert_eq!(named_pad.workspace.id, 0);
    assert_eq!(named_pad.workspace.name, "special:music");
}

#[test]
fn target_matches_by_number_or_by_the_name_of_the_active_workspace() {
    let three = WorkspaceTarget::from_raw("3");
    assert!(three.matches(&ctx(3, "web")));
    assert!(three.matches(&ctx(8, "3")));
    assert!(!three.matches(&ctx(4, "web")));

    let work = WorkspaceTarget::from_raw("name:work");
    assert!(work.matches(&ctx(5, "work")));
    assert!(!work.matches(&ctx(5, "")));
    assert!(!work.matches(&ctx(5, "play")));

    let pad = WorkspaceTarget::from_raw("special:pad");
    assert!(pad.matches(&ctx(-98, "special:pad")));
    assert!(!pad.matches(&ctx(-98, "special:other")));
}

#[test]
fn override_is_none_without_text_or_with_blank_text() {
    assert!(workspace_override(&workset_on(None)).is_none());
    assert!(workspace_override(&workset_on(Some(""))).is_none());
    assert!(workspace_override(&workset_on(Some("  \t "))).is_none());
    let t = workspace_override(&workset_on(Some(" 4 "))).unwrap();
    assert!(matches!(t.kind, WorkspaceTargetKind::Id(4)));
}
