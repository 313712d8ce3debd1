//! What passes between a launch and the outside: the requests that a launch
//! makes of its driver, the replies that the driver hands back, and the
//! errors that a launch ends with.
use crate::workspace::{
    context_matches, BasicView, ContextView, TargetView, WorkspaceBasic, WorkspaceContext,
    WorkspaceTarget,
};
use vstd::prelude::*;
use vstd::string::StringExecFns;

verus! {

/// Pause between two launches, in milliseconds.
pub const SLOT_LAUNCH_DELAY: u64 = 1000;

/// How long a launch waits for windows to appear, in milliseconds.
pub const WINDOW_APPEAR_TIMEOUT: u64 = 8000;

/// How long a launch waits for windows to close, in milliseconds.
pub const WINDOW_CLOSE_TIMEOUT: u64 = 8000;

/// Pause between two looks at the window manager while waiting, in
/// milliseconds.
pub const WINDOW_POLL_INTERVAL: u64 = 100;

/// How long a launch waits for a workspace to become active, in milliseconds.
pub const WORKSPACE_SWITCH_TIMEOUT: u64 = 5000;

/// An open window as the window manager reports it.
#[derive(Debug, Clone)]
pub struct Client {
    pub address: String,
    pub class: String,
    pub title: String,
    pub pid: i32,
    pub workspace: WorkspaceBasic,
    /// Rank in the focus history; the focused window has rank zero.
    pub focus_history_id: i8,
}

/// A window as contracts see it.
pub struct ClientView {
    pub address: Seq<char>,
    pub class: Seq<char>,
    pub title: Seq<char>,
    pub pid: i32,
    pub workspace: BasicView,
    pub focus_history_id: i8,
}

impl View for Client {
    type V = ClientView;

    open spec fn view(&self) -> ClientView {
        ClientView {
            address: self.address@,
            class: self.class@,
            title: self.title@,
            pid: self.pid,
            workspace: self.workspace@,
            focus_history_id: self.focus_history_id,
        }
    }
}

impl DeepView for Client {
    type V = ClientView;

    open spec fn deep_view(&self) -> ClientView {
        self@
    }
}

/// The focused monitor as the window manager reports it.
#[derive(Debug, Clone)]
pub struct Monitor {
    pub active_workspace: WorkspaceBasic,
    /// The special workspace shown on the monitor; number zero and a blank
    /// name where none is shown.
    pub special_workspace: WorkspaceBasic,
}

/// A monitor as contracts see it.
pub struct MonitorView {
    pub active_workspace: BasicView,
    pub special_workspace: BasicView,
}

impl View for Monitor {
    type V = MonitorView;

    open spec fn view(&self) -> MonitorView {
        MonitorView {
            active_workspace: self.active_workspace@,
            special_workspace: self.special_workspace@,
        }
    }
}

/// What a launch asks its driver to do next.
#[derive(Debug, Clone)]
pub enum Request {
    /// Take the lock that keeps launches on one machine apart; waits as long
    /// as it takes.
    AcquireLock,
    /// List the open windows.
    ListClients,
    /// Report the focused window, if any.
    ActiveClient,
    /// Report the focused monitor.
    ActiveMonitor,
    /// Run a shell command.
    Exec(String),
    /// Close the window at an address.
    CloseWindow(String),
    /// Switch to a workspace.
    SwitchWorkspace(WorkspaceTarget),
    /// Set the split ratio; the text is the command's argument.
    SplitRatio(String),
    /// Focus the window at an address.
    FocusWindow(String),
    /// Wait for a number of milliseconds.
    Sleep(u64),
    /// Put a yes-or-no question to the user and read one line.
    Confirm(String),
    /// Read the status record of a process.
    ProcessStatus(i32),
}

/// A request as contracts see it.
pub enum RequestView {
    AcquireLock,
    ListClients,
    ActiveClient,
    ActiveMonitor,
    Exec(Seq<char>),
    CloseWindow(Seq<char>),
    SwitchWorkspace(TargetView),
    SplitRatio(Seq<char>),
    FocusWindow(Seq<char>),
    Sleep(u64),
    Confirm(Seq<char>),
    ProcessStatus(i32),
}

impl View for Request {
    type V = RequestView;

    open spec fn view(&self) -> RequestView {
        match self {
            Request::AcquireLock => RequestView::AcquireLock,
            Request::ListClients => RequestView::ListClients,
            Request::ActiveClient => RequestView::ActiveClient,
            Request::ActiveMonitor => RequestView::ActiveMonitor,
            Request::Exec(s) => RequestView::Exec(s@),
            Request::CloseWindow(s) => RequestView::CloseWindow(s@),
            Request::SwitchWorkspace(t) => RequestView::SwitchWorkspace(t@),
            Request::SplitRatio(s) => RequestView::SplitRatio(s@),
            Request::FocusWindow(s) => RequestView::FocusWindow(s@),
            Request::Sleep(ms) => RequestView::Sleep(*ms),
            Request::Confirm(s) => RequestView::Confirm(s@),
            Request::ProcessStatus(pid) => RequestView::ProcessStatus(*pid),
        }
    }
}

impl DeepView for Request {
    type V = RequestView;

    open spec fn deep_view(&self) -> RequestView {
        self@
    }
}

/// What the driver hands back for a request.
#[derive(Debug, Clone)]
pub enum Reply {
    /// The lock is held, the dispatch was accepted, or the pause is over.
    Done,
    Clients(Vec<Client>),
    ActiveClient(Option<Client>),
    Monitor(Monitor),
    /// The line that the user typed.
    Line(String),
    /// The status record, or none where it is missing or unreadable.
    Status(Option<String>),
    /// The request failed; the text says why.
    Failed(String),
}

/// A reply as contracts see it.
pub enum ReplyView {
    Done,
    Clients(Seq<ClientView>),
    ActiveClient(Option<ClientView>),
    Monitor(MonitorView),
    Line(Seq<char>),
    Status(Option<Seq<char>>),
    Failed(Seq<char>),
}

impl View for Reply {
    type V = ReplyView;

    open spec fn view(&self) -> ReplyView {
        match self {
            Reply::Done => ReplyView::Done,
            Reply::Clients(cs) => ReplyView::Clients(cs.deep_view()),
            Reply::ActiveClient(c) => ReplyView::ActiveClient(c.deep_view()),
            Reply::Monitor(m) => ReplyView::Monitor(m@),
            Reply::Line(s) => ReplyView::Line(s@),
            Reply::Status(s) => ReplyView::Status(s.deep_view()),
            Reply::Failed(s) => ReplyView::Failed(s@),
        }
    }
}

/// Why a launch failed.
#[derive(Debug, Clone, Copy, PartialEq, Eq, Structural)]
pub enum FailureKind {
    /// The lock, a query or a dispatch failed.
    Gateway,
    /// Windows did not appear in time.
    AppearTimeout,
    /// Windows did not close in time.
    DrainTimeout,
    /// The workspace did not become active in time.
    SwitchTimeout,
    /// The driver answered with a reply that fits no request made.
    Protocol,
}

/// A fatal error: its kind, and the trail of messages that led to it, the
/// outermost context first and the cause last.
#[derive(Debug, Clone)]
pub struct LaunchError {
    pub kind: FailureKind,
    pub trail: Vec<String>,
}

/// An error as contracts see it.
pub struct ErrorView {
    pub kind: FailureKind,
    pub trail: Seq<Seq<char>>,
}

impl View for LaunchError {
    type V = ErrorView;

    open spec fn view(&self) -> ErrorView {
        ErrorView { kind: self.kind, trail: self.trail.deep_view() }
    }
}

impl DeepView for LaunchError {
    type V = ErrorView;

    open spec fn deep_view(&self) -> ErrorView {
        self@
    }
}

impl ErrorView {
    /// An error with one message.
    pub open spec fn plain(kind: FailureKind, message: Seq<char>) -> ErrorView {
        ErrorView { kind, trail: seq![message] }
    }

    /// A failed request: what the launch was doing, then what the driver said.
    pub open spec fn gateway(context: Seq<char>, cause: Seq<char>) -> ErrorView {
        ErrorView { kind: FailureKind::Gateway, trail: seq![context, cause] }
    }

    /// The error for a reply that fits no request made.
    pub open spec fn protocol() -> ErrorView {
        ErrorView::plain(FailureKind::Protocol, "unexpected reply from the driver"@)
    }

    /// This error with one more message of context in front.
    pub open spec fn wrap(self, context: Seq<char>) -> ErrorView {
        ErrorView { kind: self.kind, trail: seq![context] + self.trail }
    }
}

impl LaunchError {
    /// An error with one message.
    pub fn plain(kind: FailureKind, message: String) -> (e: LaunchError)
        ensures
            e@ == ErrorView::plain(kind, message@),
    {
        let mut trail: Vec<String> = Vec::new();
        trail.push(message);
        let e = LaunchError { kind, trail };
        assert(e@.trail =~= seq![message@]);
        e
    }

    /// A failed request: what the launch was doing, then what the driver said.
    pub fn gateway(context: &str, cause: String) -> (e: LaunchError)
        ensures
            e@ == ErrorView::gateway(context@, cause@),
    {
        let mut trail: Vec<String> = Vec::new();
        trail.push(String::from_str(context));
        trail.push(cause);
        let e = LaunchError { kind: FailureKind::Gateway, trail };
        assert(e@.trail =~= seq![context@, cause@]);
        e
    }

    /// The error for a reply that fits no request made.
    pub fn protocol() -> (e: LaunchError)
        ensures
            e@ == ErrorView::protocol(),
    {
        LaunchError::plain(FailureKind::Protocol, String::from_str("unexpected reply from the driver"))
    }

    /// This error with one more message of context in front.
    pub fn wrap(self, context: String) -> (e: LaunchError)
        ensures
            e@ == self@.wrap(context@),
    {
        let LaunchError { kind, trail } = self;
        let mut trail = trail;
        trail.insert(0, context);
        let e = LaunchError { kind, trail };
        assert(e@.trail =~= seq![context@] + self@.trail);
        e
    }
}

/// The windows among `clients` that are on the workspace of `ctx`.
pub open spec fn clients_on(clients: Seq<ClientView>, ctx: ContextView) -> Seq<ClientView> {
    clients.filter(|c: ClientView| context_matches(ctx, c.workspace))
}

/// Counts the windows on the workspace of `ctx`.
pub fn count_on(clients: &Vec<Client>, ctx: &WorkspaceContext) -> (n: usize)
    ensures
        n == clients_on(clients.deep_view(), ctx@).len(),
{
    let ghost all = clients.deep_view();
    let ghost on = |c: ClientView| context_matches(ctx@, c.workspace);
    let mut n: usize = 0;
    let mut i: usize = 0;
    while i < clients.len()
        invariant
            i <= clients.len(),
            all == clients.deep_view(),
            on == (|c: ClientView| context_matches(ctx@, c.workspace)),
            n == all.take(i as int).filter(on).len(),
            n <= i,
        decreases clients.len() - i,
    {
        proof {
            lemma_filter_step(all, on, i as int);
        }
        if ctx.matches(&clients[i].workspace) {
            n += 1;
        }
        i += 1;
    }
    assert(all.take(clients.len() as int) =~= all);
    n
}

/// Filtering one element more: the element is appended to the result where
/// the predicate holds of it.
pub proof fn lemma_filter_step<A>(s: Seq<A>, pred: spec_fn(A) -> bool, i: int)
    requires
        0 <= i < s.len(),
    ensures
        s.take(i + 1).filter(pred) == if pred(s[i]) {
            s.take(i).filter(pred).push(s[i])
        } else {
            s.take(i).filter(pred)
        },
{
    reveal(Seq::filter);
    assert(s.take(i + 1).drop_last() =~= s.take(i));
    assert(s.take(i + 1).last() == s[i]);
}

} // verus!
