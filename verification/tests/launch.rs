use hyprsets::config::{LayoutNode, SplitDirection, SplitNode, WindowSlot, Workset};
use hyprsets::gateway::{Client, FailureKind, Monitor, Reply, Request};
use hyprsets::launch::{run_workset, Launch, Outcome, Stage};
use hyprsets::status::workspace_cleanup_status;
use hyprsets::workspace::WorkspaceBasic;

fn leaf(id: u32, command: &str) -> LayoutNode {
    LayoutNode::Leaf(WindowSlot {
        slot_id: id,
        command: command.into(),
        cwd: None,
        env: Vec::new(),
    })
}

fn workset(workspace: Option<&str>, commands: Vec<&str>, layout: Option<LayoutNode>) -> Workset {
    Workset {
        id: "dev".into(),
        name: "Dev".into(),
        desc: String::new(),
        workspace: workspace.map(|s| s.to_string()),
        commands: commands.into_iter().map(|s| s.to_string()).collect(),
        cwd: None,
        env: Vec::new(),
        layout,
    }
}

fn basic(id: i32) -> WorkspaceBasic {
    WorkspaceBasic { id, name: id.to_string() }
}

fn window(address: &str, workspace: i32, pid: i32) -> Client {
    Client {
        address: address.into(),
        class: "app".into(),
        title: String::new(),
        pid,
        workspace: basic(workspace),
        focus_history_id: 0,
    }
}

/// A window manager with one monitor.
struct World {
    clients: Vec<Client>,
    active: Option<String>,
    workspace: i32,
    switches: bool,
    lock_fails: bool,
    answer: String,
    now: u64,
    log: Vec<String>,
}

impl World {
    fn new() -> World {
        World {
            clients: Vec::new(),
            active: None,
            workspace: 1,
            switches: true,
            lock_fails: false,
            answer: "y".into(),
            now: 0,
            log: Vec::new(),
        }
    }

    fn answer(&mut self, request: &Request) -> Reply {
        self.now += 1;
        match request {
            Request::AcquireLock => {
                self.log.push("lock".into());
                if self.lock_fails {
                    Reply::Failed("failed to open launch lock: /run/x: denied".into())
                } else {
                    Reply::Done
                }
            }
            Request::ListClients => Reply::Clients(self.clients.clone()),
            Request::ActiveClient => Reply::ActiveClient(
                self.active
                    .as_ref()
                    .and_then(|a| self.clients.iter().find(|c| &c.address == a).cloned()),
            ),
            Request::ActiveMonitor => Reply::Monitor(Monitor {
                active_workspace: basic(self.workspace),
                special_workspace: WorkspaceBasic { id: 0, name: String::new() },
            }),
            Request::SwitchWorkspace(target) => {
                self.log.push(format!("switch to {}", target.label()));
                if self.switches {
                    self.workspace = target.context().workspace.id;
                    self.active = None;
                }
                Reply::Done
            }
            Request::Exec(command) => {
                self.log.push(format!("exec {command}"));
                let address = format!("0x{}", self.clients.len() + 1);
                self.clients.push(window(&address, self.workspace, 1000));
                self.active = Some(address);
                Reply::Done
            }
            Request::CloseWindow(address) => {
                self.log.push(format!("close {address}"));
                self.clients.retain(|c| &c.address != address);
                Reply::Done
            }
            Request::FocusWindow(address) => {
                self.log.push(format!("focus {address}"));
                self.active = Some(address.clone());
                Reply::Done
            }
            Request::SplitRatio(arg) => {
                self.log.push(format!("splitratio {arg}"));
                Reply::Done
            }
            Request::Sleep(ms) => {
                self.now += ms;
                self.log.push(format!("sleep {ms}"));
                Reply::Done
            }
            Request::Confirm(_) => {
                self.log.push("ask".into());
                Reply::Line(self.answer.clone())
            }
            Request::ProcessStatus(_) => Reply::Status(None),
        }
    }
}

fn drive(world: &mut World, ws: Workset, preconfirm: bool) -> Outcome {
    let (mut launch, mut ask): (Launch, Option<Request>) = run_workset(ws, preconfirm, 500);
    let mut turns = 0;
    while let Some(request) = ask {
        let reply = world.answer(&request);
        let next = launch.feed(reply, world.now);
        launch = next.0;
        ask = next.1;
        turns += 1;
        assert!(turns < 10_000, "the launch does not end");
    }
    assert!(launch.ended());
    // nothing is asked after the end
    let (after, ask) = launch.feed(Reply::Done, world.now);
    assert!(ask.is_none());
    match after.stage {
        Stage::Done(outcome) => outcome,
        other => panic!("expected the end, got {other:?}"),
    }
}

#[test]
fn lock_is_asked_for_first() {
    let (launch, ask) = run_workset(workset(None, vec!["a"], None), false, 500);
    assert!(matches!(ask, Some(Request::AcquireLock)));
    assert!(matches!(launch.stage, Stage::Locking));
}

#[test]
fn lock_failure_aborts_before_anything_else() {
    let mut world = World::new();
    world.lock_fails = true;
    let outcome = drive(&mut world, workset(None, vec!["a"], None), true);
    match outcome {
        Outcome::Failed(e) => {
            assert_eq!(e.kind, FailureKind::Gateway);
            assert_eq!(e.trail, vec!["failed to open launch lock: /run/x: denied"]);
        }
        other => panic!("expected a failure, got {other:?}"),
    }
    assert_eq!(world.log, vec!["lock"]);
}

#[test]
fn empty_workset_succeeds_with_zero_dispatches() {
    let mut world = World::new();
    let outcome = drive(&mut world, workset(None, vec![], None), false);
    assert!(matches!(outcome, Outcome::Launched));
    assert_eq!(world.log, vec!["lock"]);
}

#[test]
fn commands_run_in_order_with_a_pause_between() {
    let mut world = World::new();
    let mut ws = workset(None, vec!["one", "two", "three"], None);
    ws.cwd = Some("/tmp/work".into());
    ws.env = vec![("FOO".into(), "bar".into())];
    let outcome = drive(&mut world, ws, false);
    assert!(matches!(outcome, Outcome::Launched));
    assert_eq!(
        world.log,
        vec![
            "lock",
            "exec cd '/tmp/work' && FOO='bar' one",
            "sleep 1000",
            "exec cd '/tmp/work' && FOO='bar' two",
            "sleep 1000",
            "exec cd '/tmp/work' && FOO='bar' three",
        ]
    );
}

#[test]
fn layout_is_replayed_after_the_cleanup() {
    let mut world = World::new();
    world.clients.push(window("0xold", 1, 900));
    world.active = Some("0xold".into());
    let layout = LayoutNode::Split(SplitNode {
        direction: SplitDirection::Horizontal,
        ratio: 1200,
        left: Box::new(leaf(1, "left")),
        right: Box::new(leaf(2, "right")),
    });
    let outcome = drive(&mut world, workset(None, vec!["ignored"], Some(layout)), false);
    assert!(matches!(outcome, Outcome::Launched));
    assert_eq!(
        world.log,
        vec![
            "lock",
            "ask",
            "close 0xold",
            "exec left",
            "sleep 1000",
            "focus 0x1",
            "exec right",
            "splitratio exact 1.091",
        ]
    );
}

#[test]
fn declining_the_cleanup_cancels_the_launch() {
    let mut world = World::new();
    world.clients.push(window("0xold", 1, 900));
    world.active = Some("0xold".into());
    world.answer = "n".into();
    let outcome = drive(&mut world, workset(None, vec!["one"], None), false);
    assert!(matches!(outcome, Outcome::Cancelled));
    assert_eq!(world.log, vec!["lock", "ask"]);
    assert_eq!(world.clients.len(), 1);
}

#[test]
fn override_switches_the_workspace_first() {
    let mut world = World::new();
    let outcome = drive(&mut world, workset(Some(" 3 "), vec!["one", "two"], None), false);
    assert!(matches!(outcome, Outcome::Launched));
    assert_eq!(
        world.log,
        vec!["lock", "switch to workspace 3", "exec one", "sleep 1000", "exec two"]
    );
    assert!(world.clients.iter().all(|c| c.workspace.id == 3));
}

#[test]
fn override_that_is_active_already_is_not_switched_to() {
    let mut world = World::new();
    world.workspace = 3;
    let outcome = drive(&mut world, workset(Some("3"), vec!["one"], None), false);
    assert!(matches!(outcome, Outcome::Launched));
    assert_eq!(world.log, vec!["lock", "exec one"]);
}

#[test]
fn switch_that_never_shows_times_out() {
    let mut world = World::new();
    world.switches = false;
    let outcome = drive(&mut world, workset(Some("name:web"), vec!["one"], None), false);
    match outcome {
        Outcome::Failed(e) => {
            assert_eq!(e.kind, FailureKind::SwitchTimeout);
            assert_eq!(e.trail, vec!["timed out after 5s waiting for workspace 'web'"]);
        }
        other => panic!("expected a failure, got {other:?}"),
    }
    assert!(world.now >= 5000);
    assert!(!world.log.iter().any(|l| l.starts_with("exec")));
}

#[test]
fn command_that_steals_the_workspace_is_followed_by_a_switch_back() {
    let mut world = World::new();
    world.workspace = 3;
    let (mut launch, mut ask) = run_workset(workset(Some("3"), vec!["one", "two"], None), true, 500);
    let mut stolen = false;
    while let Some(request) = ask {
        let reply = world.answer(&request);
        if let Request::Exec(_) = request {
            if !stolen {
                // the first command moves the user to workspace 9
                world.workspace = 9;
                world.active = None;
                stolen = true;
            }
        }
        let next = launch.feed(reply, world.now);
        launch = next.0;
        ask = next.1;
    }
    assert!(matches!(launch.stage, Stage::Done(Outcome::Launched)));
    assert_eq!(
        world.log,
        vec!["lock", "exec one", "sleep 1000", "switch to workspace 3", "exec two"]
    );
}

#[test]
fn failures_carry_their_trail() {
    let mut world = World::new();
    let layout = leaf(4, "a");
    let (mut launch, mut ask) = run_workset(workset(None, vec![], Some(layout)), false, 500);
    while let Some(request) = ask.clone() {
        if let Request::Exec(_) = request {
            break;
        }
        let reply = world.answer(&request);
        let next = launch.feed(reply, world.now);
        launch = next.0;
        ask = next.1;
    }
    let (launch, ask) = launch.feed(Reply::Failed("socket closed".into()), world.now);
    assert!(ask.is_none());
    match launch.stage {
        Stage::Done(Outcome::Failed(e)) => {
            assert_eq!(
                e.trail,
                vec![
                    "failed to launch layout (id: dev)",
                    "failed to exec slot #4 command",
                    "socket closed",
                ]
            );
        }
        other => panic!("expected a failure, got {other:?}"),
    }
}

#[test]
fn failed_command_names_the_command_and_the_workset() {
    let mut world = World::new();
    let (mut launch, mut ask) = run_workset(workset(None, vec!["boom"], None), false, 500);
    while let Some(request) = ask.clone() {
        if let Request::Exec(_) = request {
            break;
        }
        let reply = world.answer(&request);
        let next = launch.feed(reply, world.now);
        launch = next.0;
        ask = next.1;
    }
    let (launch, _) = launch.feed(Reply::Failed("refused".into()), world.now);
    match launch.stage {
        Stage::Done(Outcome::Failed(e)) => assert_eq!(
            e.trail,
            vec![
                "failed to run commands (id: dev)",
                "failed to exec command: boom",
                "refused",
            ]
        ),
        other => panic!("expected a failure, got {other:?}"),
    }
}

#[test]
fn failed_cleanup_is_wrapped() {
    let (launch, _) = run_workset(workset(None, vec!["a"], None), false, 500);
    let (launch, _) = launch.feed(Reply::Done, 0);
    let (launch, _) = launch.feed(Reply::Clients(vec![]), 1);
    let (launch, ask) = launch.feed(Reply::ActiveClient(Some(window("0x1", 1, 5))), 2);
    assert!(matches!(ask, Some(Request::ListClients)));
    let (launch, ask) = launch.feed(Reply::Failed("gone".into()), 3);
    assert!(ask.is_none());
    match launch.stage {
        Stage::Done(Outcome::Failed(e)) => assert_eq!(
            e.trail,
            vec![
                "failed to clean target workspace before launch",
                "failed to list Hyprland clients",
                "gone",
            ]
        ),
        other => panic!("expected a failure, got {other:?}"),
    }
}

#[test]
fn active_workspace_comes_from_the_focused_window_then_the_monitor() {
    // a focused window decides
    let (launch, _) = run_workset(workset(None, vec![], None), true, 500);
    let (launch, ask) = launch.feed(Reply::Done, 0);
    assert!(matches!(ask, Some(Request::ListClients)));
    let (launch, ask) = launch.feed(Reply::Clients(vec![]), 1);
    assert!(matches!(ask, Some(Request::ActiveClient)));
    let (launch, _) = launch.feed(Reply::ActiveClient(Some(window("0x1", 7, 5))), 2);
    assert_eq!(launch.ctx.as_ref().unwrap().workspace.id, 7);

    // without one, a special workspace on the monitor comes before the regular one
    let (launch, _) = run_workset(workset(None, vec![], None), true, 500);
    let (launch, _) = launch.feed(Reply::Done, 0);
    let (launch, _) = launch.feed(Reply::Clients(vec![]), 1);
    let (launch, ask) = launch.feed(Reply::ActiveClient(None), 2);
    assert!(matches!(ask, Some(Request::ActiveMonitor)));
    let (launch, _) = launch.feed(
        Reply::Monitor(Monitor {
            active_workspace: basic(2),
            special_workspace: WorkspaceBasic { id: -98, name: "special:pad".into() },
        }),
        3,
    );
    let ctx = launch.ctx.as_ref().unwrap();
    assert_eq!(ctx.workspace.id, -98);
    assert!(ctx.is_special);

    let (launch, _) = run_workset(workset(None, vec![], None), true, 500);
    let (launch, _) = launch.feed(Reply::Done, 0);
    let (launch, _) = launch.feed(Reply::Clients(vec![]), 1);
    let (launch, _) = launch.feed(Reply::ActiveClient(None), 2);
    let (launch, _) = launch.feed(
        Reply::Monitor(Monitor {
            active_workspace: basic(2),
            special_workspace: WorkspaceBasic { id: 0, name: "  ".into() },
        }),
        3,
    );
    assert_eq!(launch.ctx.as_ref().unwrap().workspace.id, 2);
}

#[test]
fn failed_queries_name_the_query() {
    let cases: Vec<(Vec<Reply>, &str)> = vec![
        (vec![Reply::Failed("x".into())], "failed to list Hyprland clients"),
        (
            vec![Reply::Clients(vec![]), Reply::Failed("x".into())],
            "failed to get active window",
        ),
        (
            vec![Reply::Clients(vec![]), Reply::ActiveClient(None), Reply::Failed("x".into())],
            "failed to get active monitor from Hyprland",
        ),
    ];
    for (replies, message) in cases {
        let (launch, _) = run_workset(workset(None, vec![], None), true, 500);
        let (mut launch, _) = launch.feed(Reply::Done, 0);
        for reply in replies {
            launch = launch.feed(reply, 1).0;
        }
        match launch.stage {
            Stage::Done(Outcome::Failed(e)) => assert_eq!(e.trail, vec![message, "x"]),
            other => panic!("expected a failure, got {other:?}"),
        }
    }
}

#[test]
fn cleanup_status_counts_what_would_be_closed() {
    let clients = vec![
        window("0xa", 3, 100),
        window("0xme", 3, 500),
        window("0xb", 4, 100),
        window("0xparent", 3, 400),
    ];
    // for a workset that names its workspace, that workspace is looked at as it is
    let ws = workset(Some("3"), vec![], None);
    let (query, ask) = workspace_cleanup_status(Some(&ws), 500);
    assert!(matches!(ask, Some(Request::ListClients)));
    let (query, ask) = query.feed(Reply::Clients(clients.clone()));
    assert!(matches!(ask, Some(Request::ProcessStatus(500))));
    let (query, ask) = query.feed(Reply::Status(Some("PPid:\t400\n".into())));
    assert!(matches!(ask, Some(Request::ProcessStatus(400))));
    let (query, ask) = query.feed(Reply::Status(None));
    assert!(ask.is_none());
    let status = query.status().expect("the status is known");
    assert_eq!(status.workspace_name, "3");
    assert_eq!(status.closable_windows, 1);

    // without a workset the active workspace is found first
    let (query, _) = workspace_cleanup_status(None, 500);
    let (query, ask) = query.feed(Reply::Clients(clients));
    assert!(matches!(ask, Some(Request::ActiveClient)));
    let (query, ask) = query.feed(Reply::ActiveClient(Some(window("0xb", 4, 100))));
    assert!(matches!(ask, Some(Request::ProcessStatus(500))));
    let (query, _) = query.feed(Reply::Status(None));
    let status = query.status().expect("the status is known");
    assert_eq!(status.workspace_name, "4");
    assert_eq!(status.closable_windows, 1);

    let (query, _) = workspace_cleanup_status(None, 500);
    let (query, ask) = query.feed(Reply::Failed("down".into()));
    assert!(ask.is_none());
    assert!(query.status().is_none());
    match query.phase {
        hyprsets::status::StatusPhase::Failed(e) => assert_eq!(
            e.trail,
            vec![
                "failed to resolve active workspace context",
                "failed to list Hyprland clients",
                "down"
            ]
        ),
        other => panic!("expected a failure, got {other:?}"),
    }
}

#[test]
fn launch_keeps_its_workset() {
    let layout = LayoutNode::Split(SplitNode {
        direction: SplitDirection::Vertical,
        ratio: 700,
        left: Box::new(leaf(1, "left")),
        right: Box::new(leaf(2, "right")),
    });
    let mut ws = workset(Some("2"), vec!["kept"], Some(layout));
    ws.desc = "a description".into();
    ws.cwd = Some("/somewhere".into());
    ws.env = vec![("A".into(), "1".into())];
    let before = format!("{ws:?}");
    let mut world = World::new();
    let (mut launch, mut ask) = run_workset(ws, true, 500);
    assert_eq!(format!("{:?}", launch.workset), before);
    while let Some(request) = ask {
        let reply = world.answer(&request);
        let next = launch.feed(reply, world.now);
        launch = next.0;
        ask = next.1;
        assert_eq!(format!("{:?}", launch.workset), before);
    }
    assert!(matches!(launch.stage, Stage::Done(Outcome::Launched)));
    let (after, _) = launch.feed(Reply::Done, world.now);
    assert_eq!(format!("{:?}", after.workset), before);
}
