use hyprsets::gateway::{Client, FailureKind, Monitor, Reply, Request};
use hyprsets::poll::{
    deadline, poll, wait_for_clients_at_most, wait_for_clients_on_workspace, Verdict, WaitPhase,
};
use hyprsets::resolve::{
    ensure_target_active, ensure_workspace_focus, resolve_active_workspace, Activate, Resolve,
};
use hyprsets::workspace::{WorkspaceBasic, WorkspaceContext, WorkspaceTarget};

fn basic(id: i32) -> WorkspaceBasic {
    WorkspaceBasic { id, name: id.to_string() }
}

fn window(address: &str, workspace: i32) -> Client {
    Client {
        address: address.into(),
        class: "c".into(),
        title: "t".into(),
        pid: 9,
        workspace: basic(workspace),
        focus_history_id: 0,
    }
}

fn ctx(id: i32) -> WorkspaceContext {
    WorkspaceContext::from_basic(basic(id))
}

#[test]
fn one_look_decides() {
    assert_eq!(poll(true, 0, 10), Verdict::Satisfied);
    assert_eq!(poll(true, 99, 10), Verdict::Satisfied);
    assert_eq!(poll(false, 9, 10), Verdict::Retry);
    assert_eq!(poll(false, 10, 10), Verdict::TimedOut);
    assert_eq!(poll(false, 11, 10), Verdict::TimedOut);
}

#[test]
fn deadline_is_held_at_the_end_of_the_clock() {
    assert_eq!(deadline(0, 8000), 8000);
    assert_eq!(deadline(1234, 5000), 6234);
    assert_eq!(deadline(u64::MAX - 5, 8000), u64::MAX);
    assert_eq!(deadline(u64::MAX, 0), u64::MAX);
}

#[test]
fn wait_for_windows_looks_every_hundred_milliseconds_for_eight_seconds() {
    let c = ctx(1);
    let (mut wait, mut ask) = wait_for_clients_on_workspace(2, 1000);
    assert_eq!(wait.deadline, 9000);
    let mut now = 1000;
    let mut looks = 0;
    let mut sleeps = 0;
    while let Some(request) = ask {
        let reply = match request {
            Request::ListClients => {
                looks += 1;
                Reply::Clients(vec![window("0x1", 1), window("0x2", 2)])
            }
            Request::Sleep(ms) => {
                assert_eq!(ms, 100);
                sleeps += 1;
                now += ms;
                Reply::Done
            }
            other => panic!("unexpected {other:?}"),
        };
        let next = wait.feed(&c, reply, now);
        wait = next.0;
        ask = next.1;
    }
    assert_eq!(sleeps, 80);
    assert_eq!(looks, 81);
    match wait.phase {
        WaitPhase::Failed(e) => {
            assert_eq!(e.kind, FailureKind::AppearTimeout);
            assert_eq!(
                e.trail,
                vec!["workspace 1 (id 1): timed out after 8s waiting for clients (1/2)"]
            );
        }
        other => panic!("expected a failure, got {other:?}"),
    }
}

#[test]
fn wait_ends_as_soon_as_the_count_is_there() {
    let c = ctx(1);
    let (wait, _) = wait_for_clients_on_workspace(1, 0);
    let (wait, ask) = wait.feed(&c, Reply::Clients(vec![]), 10);
    assert!(matches!(ask, Some(Request::Sleep(100))));
    let (wait, ask) = wait.feed(&c, Reply::Done, 110);
    assert!(matches!(ask, Some(Request::ListClients)));
    let (wait, ask) = wait.feed(&c, Reply::Clients(vec![window("0x1", 1), window("0x2", 1)]), 120);
    assert!(ask.is_none());
    assert!(matches!(wait.phase, WaitPhase::Reached));
    assert!(wait.ended());

    // a count that is there counts even after the deadline
    let (wait, _) = wait_for_clients_on_workspace(1, 0);
    let (wait, _) = wait.feed(&c, Reply::Clients(vec![window("0x1", 1)]), 99_999);
    assert!(matches!(wait.phase, WaitPhase::Reached));

    let (wait, _) = wait_for_clients_at_most(0, 0);
    let (wait, ask) = wait.feed(&c, Reply::Clients(vec![window("0x1", 2)]), 5);
    assert!(ask.is_none());
    assert!(matches!(wait.phase, WaitPhase::Reached));
}

#[test]
fn failed_listing_ends_the_wait() {
    let (wait, _) = wait_for_clients_at_most(0, 0);
    let (wait, ask) = wait.feed(&ctx(1), Reply::Failed("broken".into()), 5);
    assert!(ask.is_none());
    match wait.phase {
        WaitPhase::Failed(e) => {
            assert_eq!(e.kind, FailureKind::Gateway);
            assert_eq!(e.trail, vec!["failed to list Hyprland clients", "broken"]);
        }
        other => panic!("expected a failure, got {other:?}"),
    }
}

#[test]
fn resolve_keeps_the_first_listing() {
    let (r, ask) = resolve_active_workspace();
    assert!(matches!(ask, Some(Request::ListClients)));
    let listing = vec![window("0x1", 4), window("0x2", 5)];
    let (r, _) = r.feed(Reply::Clients(listing));
    let (r, ask) = r.feed(Reply::ActiveClient(Some(window("0x2", 5))));
    assert!(ask.is_none());
    match r {
        Resolve::Found(found, clients) => {
            assert_eq!(found.workspace.id, 5);
            assert_eq!(clients.len(), 2);
            assert_eq!(clients[0].address, "0x1");
        }
        other => panic!("expected the workspace, got {other:?}"),
    }
}

#[test]
fn focus_without_a_target_is_done_at_once() {
    let (a, ask) = ensure_workspace_focus(None);
    assert!(ask.is_none());
    assert!(matches!(a, Activate::Settled(None)));
}

#[test]
fn focus_on_the_active_workspace_takes_one_look() {
    let target = WorkspaceTarget::from_raw("3");
    let (a, ask) = ensure_workspace_focus(Some(&target));
    assert!(matches!(ask, Some(Request::ListClients)));
    let (a, ask) = a.feed(&target, Reply::Clients(vec![]), 0);
    assert!(matches!(ask, Some(Request::ActiveClient)));
    let (a, ask) = a.feed(&target, Reply::ActiveClient(Some(window("0x1", 3))), 1);
    assert!(ask.is_none());
    assert!(matches!(a, Activate::Settled(Some(ref c)) if c.workspace.id == 3));
}

#[test]
fn activating_switches_and_watches_until_the_workspace_shows() {
    let target = WorkspaceTarget::from_raw("special:pad");
    let elsewhere = Monitor {
        active_workspace: basic(1),
        special_workspace: WorkspaceBasic { id: 0, name: String::new() },
    };
    let there = Monitor {
        active_workspace: basic(1),
        special_workspace: WorkspaceBasic { id: -98, name: "special:pad".into() },
    };
    let (mut a, mut ask) = ensure_target_active();
    let mut log: Vec<String> = Vec::new();
    let mut now = 0;
    let mut looks_after_switch = 0;
    let mut switched = false;
    while let Some(request) = ask {
        now += 1;
        let reply = match &request {
            Request::ListClients => Reply::Clients(vec![]),
            Request::ActiveClient => Reply::ActiveClient(None),
            Request::ActiveMonitor => {
                if switched {
                    looks_after_switch += 1;
                }
                if looks_after_switch >= 3 {
                    Reply::Monitor(there.clone())
                } else {
                    Reply::Monitor(elsewhere.clone())
                }
            }
            Request::SwitchWorkspace(t) => {
                log.push(format!("switch {}", t.label()));
                switched = true;
                Reply::Done
            }
            Request::Sleep(ms) => {
                log.push(format!("sleep {ms}"));
                now += ms;
                Reply::Done
            }
            other => panic!("unexpected {other:?}"),
        };
        let next = a.feed(&target, reply, now);
        a = next.0;
        ask = next.1;
    }
    assert_eq!(log, vec!["switch special workspace 'pad'", "sleep 100", "sleep 100"]);
    assert!(matches!(a, Activate::Settled(Some(ref c)) if c.workspace.name == "special:pad"));
}

#[test]
fn failed_switch_names_the_workspace() {
    let target = WorkspaceTarget::from_raw("7");
    let (a, _) = ensure_target_active();
    let (a, _) = a.feed(&target, Reply::Clients(vec![]), 0);
    let (a, ask) = a.feed(&target, Reply::ActiveClient(Some(window("0x1", 2))), 1);
    assert!(matches!(ask, Some(Request::SwitchWorkspace(_))));
    let (a, ask) = a.feed(&target, Reply::Failed("nope".into()), 2);
    assert!(ask.is_none());
    match a {
        Activate::Failed(e) => assert_eq!(e.trail, vec!["failed to switch to workspace 7", "nope"]),
        other => panic!("expected a failure, got {other:?}"),
    }
}
