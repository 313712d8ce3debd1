use hyprsets::config::{LayoutNode, SplitDirection, SplitNode, WindowSlot, Workset};
use hyprsets::gateway::{Client, FailureKind, Reply, Request};
use hyprsets::plan::{plan_layout, PlanStep};
use hyprsets::replay::{run_layout, Replay, ReplayPhase};
use hyprsets::workspace::{WorkspaceBasic, WorkspaceContext, WorkspaceTarget};

fn leaf(id: u32, command: &str) -> LayoutNode {
    LayoutNode::Leaf(WindowSlot {
        slot_id: id,
        command: command.into(),
        cwd: None,
        env: Vec::new(),
    })
}

fn split(ratio: u32, left: LayoutNode, right: LayoutNode) -> LayoutNode {
    LayoutNode::Split(SplitNode {
        direction: SplitDirection::Horizontal,
        ratio,
        left: Box::new(left),
        right: Box::new(right),
    })
}

fn workset(layout: LayoutNode) -> Workset {
    Workset {
        id: "w".into(),
        name: "W".into(),
        desc: String::new(),
        workspace: None,
        commands: vec![],
        cwd: None,
        env: Vec::new(),
        layout: Some(layout),
    }
}

fn window(address: &str, workspace: i32, pid: i32) -> Client {
    Client {
        address: address.into(),
        class: "app".into(),
        title: String::new(),
        pid,
        workspace: WorkspaceBasic { id: workspace, name: workspace.to_string() },
        focus_history_id: 0,
    }
}

/// A window manager that opens one window on workspace 1 for every command
/// run, unless told not to, and focuses what it is told to focus.
struct World {
    clients: Vec<Client>,
    active: Option<String>,
    opens_windows: bool,
    refuses_ratio: bool,
    now: u64,
    log: Vec<String>,
}

impl World {
    fn new() -> World {
        World {
            clients: Vec::new(),
            active: None,
            opens_windows: true,
            refuses_ratio: false,
            now: 0,
            log: Vec::new(),
        }
    }

    fn answer(&mut self, request: &Request) -> Reply {
        self.now += 1;
        match request {
            Request::ListClients => Reply::Clients(self.clients.clone()),
            Request::ActiveClient => Reply::ActiveClient(
                self.active
                    .as_ref()
                    .and_then(|a| self.clients.iter().find(|c| &c.address == a).cloned()),
            ),
            Request::Exec(command) => {
                self.log.push(format!("exec {command}"));
                if self.opens_windows {
                    let address = format!("0x{}", self.clients.len() + 1);
                    self.clients.push(window(&address, 1, 1000));
                    self.active = Some(address);
                }
                Reply::Done
            }
            Request::FocusWindow(address) => {
                self.log.push(format!("focus {address}"));
                self.active = Some(address.clone());
                Reply::Done
            }
            Request::SplitRatio(arg) => {
                self.log.push(format!("splitratio {arg}"));
                if self.refuses_ratio {
                    Reply::Failed("out of range".into())
                } else {
                    Reply::Done
                }
            }
            Request::Sleep(ms) => {
                self.now += ms;
                self.log.push(format!("sleep {ms}"));
                Reply::Done
            }
            other => {
                self.log.push(format!("unexpected {other:?}"));
                Reply::Failed("not served".into())
            }
        }
    }
}

fn drive(
    world: &mut World,
    start: (Replay, Option<Request>),
    ctx: &WorkspaceContext,
    target: Option<&WorkspaceTarget>,
) -> Replay {
    let (mut replay, mut ask) = start;
    let mut turns = 0;
    while let Some(request) = ask {
        let reply = world.answer(&request);
        let next = replay.feed(ctx, target, reply, world.now);
        replay = next.0;
        ask = next.1;
        turns += 1;
        assert!(turns < 10_000, "the replay does not end");
    }
    replay
}

fn workspace_one() -> WorkspaceContext {
    WorkspaceContext::from_basic(WorkspaceBasic { id: 1, name: "1".into() })
}

fn execs(world: &World) -> Vec<String> {
    world.log.iter().filter(|l| l.starts_with("exec ")).cloned().collect()
}

#[test]
fn two_leaf_split_launches_left_then_right_with_ratio() {
    let layout = split(1200, leaf(1, "left"), leaf(2, "right"));
    let ws = workset(layout.clone());
    let mut world = World::new();
    let done = drive(&mut world, run_layout(&layout, &ws), &workspace_one(), None);
    assert!(matches!(done.phase, ReplayPhase::Completed));
    assert_eq!(
        world.log,
        vec![
            "exec left",
            "sleep 1000",
            "focus 0x1",
            "exec right",
            "splitratio exact 1.091",
        ]
    );
}

#[test]
fn ratio_is_applied_only_after_the_window_appeared() {
    let layout = split(1200, leaf(1, "left"), leaf(2, "right"));
    let ws = workset(layout.clone());
    let ctx = workspace_one();
    let (mut replay, mut ask) = run_layout(&layout, &ws);
    let mut windows: Vec<Client> = Vec::new();
    let mut now = 0u64;
    let mut seen: Vec<String> = Vec::new();
    let mut pending_exec = 0;
    while let Some(request) = ask {
        now += 10;
        let reply = match &request {
            Request::ListClients => {
                // a window shows up only at the second look after its launch
                if pending_exec > 0 {
                    pending_exec += 1;
                    if pending_exec > 2 {
                        let address = format!("0x{}", windows.len() + 1);
                        windows.push(window(&address, 1, 77));
                        pending_exec = 0;
                    }
                }
                Reply::Clients(windows.clone())
            }
            Request::ActiveClient => Reply::ActiveClient(windows.last().cloned()),
            Request::Exec(c) => {
                seen.push(format!("exec {c}"));
                pending_exec = 1;
                Reply::Done
            }
            Request::SplitRatio(a) => {
                seen.push(format!("ratio {a} with {} windows", windows.len()));
                Reply::Done
            }
            Request::Sleep(ms) => {
                seen.push(format!("sleep {ms}"));
                Reply::Done
            }
            Request::FocusWindow(a) => {
                seen.push(format!("focus {a}"));
                Reply::Done
            }
            other => panic!("unexpected {other:?}"),
        };
        let next = replay.feed(&ctx, None, reply, now);
        replay = next.0;
        ask = next.1;
    }
    assert!(matches!(replay.phase, ReplayPhase::Completed));
    assert_eq!(
        seen,
        vec![
            "exec left",
            "sleep 100",
            "sleep 1000",
            "focus 0x1",
            "exec right",
            "sleep 100",
            "ratio exact 1.091 with 2 windows",
        ]
    );
}

#[test]
fn every_leaf_is_launched_once_whatever_the_shape() {
    let shapes = vec![
        leaf(1, "a"),
        split(1000, leaf(1, "a"), leaf(2, "b")),
        split(1000, split(1000, leaf(1, "a"), leaf(2, "b")), leaf(3, "c")),
        split(1000, leaf(1, "a"), split(1000, leaf(2, "b"), leaf(3, "c"))),
        split(
            1000,
            split(1000, split(1000, leaf(1, "a"), leaf(2, "b")), leaf(3, "c")),
            split(1000, split(1000, leaf(4, "d"), leaf(5, "e")), leaf(6, "f")),
        ),
    ];
    for layout in shapes {
        let ws = workset(layout.clone());
        let mut world = World::new();
        let done = drive(&mut world, run_layout(&layout, &ws), &workspace_one(), None);
        assert!(matches!(done.phase, ReplayPhase::Completed));
        let mut launched = execs(&world);
        assert_eq!(launched.len(), hyprsets::config::count_slots(&layout));
        launched.sort();
        launched.dedup();
        assert_eq!(launched.len(), hyprsets::config::count_slots(&layout));
        assert_eq!(world.clients.len(), launched.len());
    }
}

#[test]
fn left_split_is_launched_first_and_walked_again_without_launching() {
    // ((a | b) | c): a, b, then c against the window of the left side; the
    // second walk of the left side only sets the focus
    let layout = split(2000, split(500, leaf(1, "a"), leaf(2, "b")), leaf(3, "c"));
    let ws = workset(layout.clone());
    let mut world = World::new();
    let done = drive(&mut world, run_layout(&layout, &ws), &workspace_one(), None);
    assert!(matches!(done.phase, ReplayPhase::Completed));
    assert_eq!(
        world.log,
        vec![
            "exec a",
            "sleep 1000",
            "focus 0x1",
            "exec b",
            "splitratio exact 0.667",
            "sleep 1000",
            "focus 0x1",
            "exec c",
            "splitratio exact 1.333",
            "focus 0x1",
            "focus 0x1",
        ]
    );
    assert_eq!(done.anchor.as_deref(), Some("0x1"));
    assert!(done.held.is_empty());
}

#[test]
fn leaves_are_launched_depth_first_left_before_right() {
    let layout = split(
        1000,
        split(1000, split(1000, leaf(1, "a"), leaf(2, "b")), leaf(3, "c")),
        split(1000, split(1000, leaf(4, "d"), leaf(5, "e")), leaf(6, "f")),
    );
    let ws = workset(layout.clone());
    let mut world = World::new();
    let done = drive(&mut world, run_layout(&layout, &ws), &workspace_one(), None);
    assert!(matches!(done.phase, ReplayPhase::Completed));
    assert_eq!(
        execs(&world),
        vec!["exec a", "exec b", "exec c", "exec d", "exec e", "exec f"]
    );
}

#[test]
fn a_split_leaves_the_window_of_its_right_side_where_the_left_has_none() {
    // no window is ever found for the left leaf: the right side opens
    // against the workspace, and the split leaves the window of the right
    let layout = split(1000, split(1000, leaf(1, "a"), leaf(2, "b")), leaf(3, "c"));
    let ws = workset(layout.clone());
    let ctx = workspace_one();
    let (mut replay, mut ask) = run_layout(&layout, &ws);
    let mut count = 0usize;
    let mut focused: Vec<String> = Vec::new();
    let mut now = 0;
    while let Some(request) = ask {
        now += 1;
        let reply = match &request {
            // windows are counted, but the listing that looks for the new
            // window fails for the first leaf and nothing has the focus
            Request::ListClients => {
                let windows: Vec<Client> =
                    (0..count).map(|i| window(&format!("0x{}", i + 1), 1, 9)).collect();
                if matches!(replay.phase, ReplayPhase::Scanning) && count == 1 {
                    Reply::Failed("busy".into())
                } else {
                    Reply::Clients(windows)
                }
            }
            Request::ActiveClient => Reply::ActiveClient(None),
            Request::Exec(_) => {
                count += 1;
                Reply::Done
            }
            Request::FocusWindow(a) => {
                focused.push(a.clone());
                Reply::Done
            }
            _ => Reply::Done,
        };
        let next = replay.feed(&ctx, None, reply, now);
        replay = next.0;
        ask = next.1;
    }
    assert!(matches!(replay.phase, ReplayPhase::Completed));
    // the inner split had no window on its left and leaves the window that
    // its right leaf found; the outer split focuses it before leaf 3 and
    // again for the second walk
    assert_eq!(focused, vec!["0x1", "0x1"]);
    assert_eq!(replay.anchor.as_deref(), Some("0x1"));
}

#[test]
fn a_slot_id_is_never_launched_twice() {
    let layout = split(1000, leaf(7, "first"), split(1000, leaf(7, "again"), leaf(8, "other")));
    let ws = workset(layout.clone());
    let mut world = World::new();
    let done = drive(&mut world, run_layout(&layout, &ws), &workspace_one(), None);
    assert!(matches!(done.phase, ReplayPhase::Completed));
    assert_eq!(execs(&world), vec!["exec first", "exec other"]);
}

#[test]
fn plan_of_a_deep_left_side_walks_it_again_without_launches() {
    let layout = split(1000, split(1000, leaf(1, "a"), leaf(2, "b")), leaf(3, "c"));
    let ws = workset(layout.clone());
    let plan = plan_layout(&layout, &ws);
    let kinds: Vec<String> = plan
        .iter()
        .map(|s| match s {
            PlanStep::Launch { slot_id, ordinal, ratio, pause, .. } => {
                format!("launch {slot_id} #{ordinal} {ratio:?} {pause}")
            }
            PlanStep::Revisit { slot_id } => format!("revisit {slot_id}"),
            PlanStep::Hold => "hold".into(),
            PlanStep::Focus => "focus".into(),
            PlanStep::Await { ordinal } => format!("await {ordinal}"),
            PlanStep::Release => "release".into(),
        })
        .collect();
    assert_eq!(
        kinds,
        vec![
            "launch 1 #1 None true",
            "hold",
            "focus",
            "launch 2 #2 Some(1000) true",
            "await 2",
            "release",
            "hold",
            "focus",
            "launch 3 #3 Some(1000) false",
            "await 3",
            "focus",
            "hold",
            "revisit 1",
            "hold",
            "focus",
            "revisit 2",
            "await 3",
            "release",
            "release",
            "release",
        ]
    );
}

#[test]
fn leaf_overlays_its_directory_and_environment() {
    let layout = split(
        1000,
        LayoutNode::Leaf(WindowSlot {
            slot_id: 1,
            command: "one".into(),
            cwd: Some("/leaf dir".into()),
            env: vec![("A".into(), "leaf".into())],
        }),
        leaf(2, "two"),
    );
    let mut ws = workset(layout.clone());
    ws.cwd = Some("/tmp/work".into());
    ws.env = vec![("A".into(), "base".into()), ("B".into(), "b".into())];
    let plan = plan_layout(&layout, &ws);
    let commands: Vec<String> = plan
        .iter()
        .filter_map(|s| match s {
            PlanStep::Launch { command, .. } => Some(command.clone()),
            _ => None,
        })
        .collect();
    assert_eq!(
        commands,
        vec![
            "cd '/leaf dir' && A='base' B='b' A='leaf' one",
            "cd '/tmp/work' && A='base' B='b' two",
        ]
    );
}

#[test]
fn window_appear_timeout_is_fatal_and_ends_the_replay() {
    let layout = split(1000, leaf(1, "a"), leaf(2, "b"));
    let ws = workset(layout.clone());
    let mut world = World::new();
    world.opens_windows = false;
    let ctx = workspace_one();
    let done = drive(&mut world, run_layout(&layout, &ws), &ctx, None);
    let error = match &done.phase {
        ReplayPhase::Failed(e) => e.clone(),
        other => panic!("expected a failure, got {other:?}"),
    };
    assert_eq!(error.kind, FailureKind::AppearTimeout);
    assert_eq!(
        error.trail,
        vec![
            "failed to wait for the window of slot #1",
            "workspace 1 (id 1): timed out after 8s waiting for clients (0/1)",
        ]
    );
    assert_eq!(execs(&world), vec!["exec a"]);
    assert!(world.now >= 8000);

    // nothing more is ever asked
    let (after, ask) = done.feed(&ctx, None, Reply::Done, world.now + 1);
    assert!(ask.is_none());
    assert!(matches!(after.phase, ReplayPhase::Failed(_)));
    let (after, ask) = after.feed(&ctx, None, Reply::Clients(vec![]), world.now + 2);
    assert!(ask.is_none());
    assert!(matches!(after.phase, ReplayPhase::Failed(_)));
}

#[test]
fn windows_that_were_there_before_count_as_the_base() {
    let layout = leaf(1, "a");
    let ws = workset(layout.clone());
    let mut world = World::new();
    world.clients.push(window("0xold", 1, 5));
    world.clients.push(window("0xelsewhere", 2, 6));
    world.opens_windows = false;
    let done = drive(&mut world, run_layout(&layout, &ws), &workspace_one(), None);
    match &done.phase {
        ReplayPhase::Failed(e) => assert_eq!(
            e.trail,
            vec![
                "failed to wait for the window of slot #1",
                "workspace 1 (id 1): timed out after 8s waiting for clients (1/2)",
            ]
        ),
        other => panic!("expected a failure, got {other:?}"),
    }
}

#[test]
fn refused_ratio_is_passed_over() {
    let layout = split(100_000, leaf(1, "a"), leaf(2, "b"));
    let ws = workset(layout.clone());
    let mut world = World::new();
    world.refuses_ratio = true;
    let done = drive(&mut world, run_layout(&layout, &ws), &workspace_one(), None);
    assert!(matches!(done.phase, ReplayPhase::Completed));
    assert!(world.log.contains(&"splitratio exact 1.900".to_string()));
}

#[test]
fn failed_exec_names_the_slot() {
    let layout = split(1000, leaf(4, "a"), leaf(5, "b"));
    let ws = workset(layout.clone());
    let ctx = workspace_one();
    let (replay, ask) = run_layout(&layout, &ws);
    assert!(matches!(ask, Some(Request::ListClients)));
    let (replay, ask) = replay.feed(&ctx, None, Reply::Clients(vec![]), 0);
    assert!(matches!(ask, Some(Request::Exec(ref c)) if c == "a"));
    let (replay, ask) = replay.feed(&ctx, None, Reply::Failed("socket closed".into()), 1);
    assert!(ask.is_none());
    match replay.phase {
        ReplayPhase::Failed(e) => {
            assert_eq!(e.kind, FailureKind::Gateway);
            assert_eq!(e.trail, vec!["failed to exec slot #4 command", "socket closed"]);
        }
        other => panic!("expected a failure, got {other:?}"),
    }
}

#[test]
fn failed_first_listing_is_fatal() {
    let layout = leaf(1, "a");
    let ws = workset(layout.clone());
    let (replay, _) = run_layout(&layout, &ws);
    let (replay, ask) = replay.feed(&workspace_one(), None, Reply::Failed("no socket".into()), 0);
    assert!(ask.is_none());
    match replay.phase {
        ReplayPhase::Failed(e) => {
            assert_eq!(e.trail, vec!["failed to list Hyprland clients", "no socket"])
        }
        other => panic!("expected a failure, got {other:?}"),
    }
}

#[test]
fn failed_focus_names_the_address() {
    let layout = split(1000, leaf(1, "a"), leaf(2, "b"));
    let ws = workset(layout.clone());
    let ctx = workspace_one();
    let (mut replay, mut ask) = run_layout(&layout, &ws);
    let mut world = World::new();
    loop {
        let request = ask.clone().expect("the replay ended too early");
        if let Request::FocusWindow(_) = request {
            break;
        }
        let reply = world.answer(&request);
        let next = replay.feed(&ctx, None, reply, world.now);
        replay = next.0;
        ask = next.1;
    }
    let (replay, ask) = replay.feed(&ctx, None, Reply::Failed("gone".into()), world.now);
    assert!(ask.is_none());
    match replay.phase {
        ReplayPhase::Failed(e) => {
            assert_eq!(e.trail, vec!["failed to focus window at address 0x1", "gone"])
        }
        other => panic!("expected a failure, got {other:?}"),
    }
}

#[test]
fn unexpected_reply_is_a_protocol_error() {
    let layout = leaf(1, "a");
    let ws = workset(layout.clone());
    let (replay, _) = run_layout(&layout, &ws);
    let (replay, ask) = replay.feed(&workspace_one(), None, Reply::Line("y".into()), 0);
    assert!(ask.is_none());
    match replay.phase {
        ReplayPhase::Failed(e) => assert_eq!(e.kind, FailureKind::Protocol),
        other => panic!("expected a failure, got {other:?}"),
    }
}

#[test]
fn anchor_is_the_new_window_not_the_focused_one() {
    // the window manager keeps the focus on an old window: the anchor must
    // still be the window that the launch opened
    let layout = split(1000, leaf(1, "a"), leaf(2, "b"));
    let ws = workset(layout.clone());
    let ctx = workspace_one();
    let (mut replay, mut ask) = run_layout(&layout, &ws);
    let mut windows = vec![window("0xold", 1, 5)];
    let mut focused: Vec<String> = Vec::new();
    let mut now = 0;
    while let Some(request) = ask {
        now += 1;
        let reply = match &request {
            Request::ListClients => Reply::Clients(windows.clone()),
            Request::ActiveClient => Reply::ActiveClient(Some(windows[0].clone())),
            Request::Exec(_) => {
                let address = format!("0xnew{}", windows.len());
                windows.push(window(&address, 1, 9));
                Reply::Done
            }
            Request::FocusWindow(a) => {
                focused.push(a.clone());
                Reply::Done
            }
            _ => Reply::Done,
        };
        let next = replay.feed(&ctx, None, reply, now);
        replay = next.0;
        ask = next.1;
    }
    assert!(matches!(replay.phase, ReplayPhase::Completed));
    assert_eq!(focused, vec!["0xnew1"]);
}

#[test]
fn workspace_is_reasserted_before_each_launch() {
    let layout = split(1000, leaf(1, "a"), leaf(2, "b"));
    let ws = workset(layout.clone());
    let target = WorkspaceTarget::from_raw("1");
    let ctx = target.context();
    let (mut replay, mut ask) = run_layout(&layout, &ws);
    let mut windows: Vec<Client> = Vec::new();
    let mut log: Vec<String> = Vec::new();
    let mut now = 0;
    while let Some(request) = ask {
        now += 1;
        let reply = match &request {
            Request::ListClients => {
                log.push("list".into());
                Reply::Clients(windows.clone())
            }
            Request::ActiveClient => {
                log.push("active".into());
                Reply::ActiveClient(windows.last().cloned())
            }
            Request::ActiveMonitor => {
                log.push("monitor".into());
                Reply::Monitor(hyprsets::gateway::Monitor {
                    active_workspace: WorkspaceBasic { id: 1, name: "1".into() },
                    special_workspace: WorkspaceBasic { id: 0, name: String::new() },
                })
            }
            Request::Exec(c) => {
                log.push(format!("exec {c}"));
                let address = format!("0x{}", windows.len() + 1);
                windows.push(window(&address, 1, 9));
                Reply::Done
            }
            Request::FocusWindow(a) => {
                log.push(format!("focus {a}"));
                Reply::Done
            }
            Request::SplitRatio(a) => {
                log.push(format!("ratio {a}"));
                Reply::Done
            }
            Request::Sleep(_) => {
                log.push("sleep".into());
                Reply::Done
            }
            other => panic!("unexpected {other:?}"),
        };
        let next = replay.feed(&ctx, Some(&target), reply, now);
        replay = next.0;
        ask = next.1;
    }
    assert!(matches!(replay.phase, ReplayPhase::Completed));
    assert_eq!(
        log,
        vec![
            "list", // what is there
            "list", "active", "monitor", // the workspace, before the first launch
            "exec a",
            "list",   // the window is there
            "list",   // the new window
            "sleep",
            "focus 0x1",
            "list", "active", // the workspace, after focusing
            "active", // the focus is looked at
            "list", "active", // the workspace, before the second launch
            "exec b",
            "list",
            "ratio exact 1.000",
            "list",
            "list", // all windows are there
        ]
    );
}

#[test]
fn timeout_names_the_time_that_has_passed() {
    let layout = leaf(3, "a");
    let ws = workset(layout.clone());
    let ctx = workspace_one();
    let (replay, _) = run_layout(&layout, &ws);
    let (replay, _) = replay.feed(&ctx, None, Reply::Clients(vec![]), 1_000);
    let (replay, ask) = replay.feed(&ctx, None, Reply::Done, 2_000);
    assert!(matches!(ask, Some(Request::ListClients)));
    // the driver was held up: the look comes half a minute later
    let (replay, ask) = replay.feed(&ctx, None, Reply::Clients(vec![]), 32_700);
    assert!(ask.is_none());
    match replay.phase {
        ReplayPhase::Failed(e) => assert_eq!(
            e.trail,
            vec![
                "failed to wait for the window of slot #3",
                "workspace 1 (id 1): timed out after 30s waiting for clients (0/1)",
            ]
        ),
        other => panic!("expected a failure, got {other:?}"),
    }
}

#[test]
fn failed_listing_while_waiting_names_the_slot() {
    let layout = leaf(3, "a");
    let ws = workset(layout.clone());
    let ctx = workspace_one();
    let (replay, _) = run_layout(&layout, &ws);
    let (replay, _) = replay.feed(&ctx, None, Reply::Clients(vec![]), 0);
    let (replay, _) = replay.feed(&ctx, None, Reply::Done, 1);
    let (replay, ask) = replay.feed(&ctx, None, Reply::Failed("down".into()), 2);
    assert!(ask.is_none());
    match replay.phase {
        ReplayPhase::Failed(e) => assert_eq!(
            e.trail,
            vec![
                "failed to wait for the window of slot #3",
                "failed to list Hyprland clients",
                "down",
            ]
        ),
        other => panic!("expected a failure, got {other:?}"),
    }
}
