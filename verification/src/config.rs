//! The configuration as the launcher sees it: worksets, their layout trees,
//! and the tabs that group them.
use crate::text::{blank, is_blank};
use vstd::prelude::*;
use vstd::string::StringExecFns;

verus! {

/// The direction in which a split divides its area.
#[derive(Debug, Clone, Copy, PartialEq, Eq, Structural)]
pub enum SplitDirection {
    Horizontal,
    Vertical,
}

/// Where the tab that shows every workset used to stand. No longer used.
#[derive(Debug, Clone, Copy, PartialEq, Eq, Structural)]
pub enum AllTabPosition {
    First,
    Last,
}

/// One window of a layout: the command that opens it, with a working
/// directory and environment of its own laid over the workset's.
#[derive(Debug)]
pub struct WindowSlot {
    pub slot_id: u32,
    pub command: String,
    pub cwd: Option<String>,
    /// Environment assignments, name and value, in the order in which they
    /// are written out. Each name is meant to stand once; where one stands
    /// twice, the later assignment is the one that the shell keeps.
    pub env: Vec<(String, String)>,
}

/// A divider between two subtrees.
#[derive(Debug)]
pub struct SplitNode {
    pub direction: SplitDirection,
    /// Size of the left side over the size of the right side, in thousandths.
    pub ratio: u32,
    pub left: Box<LayoutNode>,
    pub right: Box<LayoutNode>,
}

/// A binary tree of window slots and splits.
#[derive(Debug)]
pub enum LayoutNode {
    Leaf(WindowSlot),
    Split(SplitNode),
}

/// A window slot as contracts see it.
pub struct SlotView {
    pub slot_id: u32,
    pub command: Seq<char>,
    pub cwd: Option<Seq<char>>,
    pub env: Seq<(Seq<char>, Seq<char>)>,
}

/// A layout tree as contracts see it.
pub enum TreeView {
    Leaf(SlotView),
    Split { direction: SplitDirection, ratio: u32, left: Box<TreeView>, right: Box<TreeView> },
}

impl View for WindowSlot {
    type V = SlotView;

    open spec fn view(&self) -> SlotView {
        SlotView {
            slot_id: self.slot_id,
            command: self.command@,
            cwd: self.cwd.deep_view(),
            env: self.env.deep_view(),
        }
    }
}

impl LayoutNode {
    /// The tree as contracts see it.
    pub open spec fn model(&self) -> TreeView
        decreases self,
    {
        match self {
            LayoutNode::Leaf(slot) => TreeView::Leaf(slot@),
            LayoutNode::Split(split) => TreeView::Split {
                direction: split.direction,
                ratio: split.ratio,
                left: Box::new((*split.left).model()),
                right: Box::new((*split.right).model()),
            },
        }
    }
}

impl View for LayoutNode {
    type V = TreeView;

    open spec fn view(&self) -> TreeView {
        self.model()
    }
}

/// A named bundle of commands and an optional layout, launched together.
#[derive(Debug, Clone)]
pub struct Workset {
    pub id: String,
    pub name: String,
    pub desc: String,
    /// The workspace to launch on, as the user wrote it, if not the active one.
    pub workspace: Option<String>,
    pub commands: Vec<String>,
    pub cwd: Option<String>,
    pub env: Vec<(String, String)>,
    pub layout: Option<LayoutNode>,
}

/// A tab of the list screen and the worksets assigned to it.
#[derive(Debug, Clone)]
pub struct TabConfig {
    pub id: String,
    pub label: String,
    pub worksets: Vec<String>,
    pub include_unassigned: bool,
}

/// The whole configuration document.
#[derive(Debug, Clone)]
pub struct AppConfig {
    pub version: u32,
    pub default_tab: Option<String>,
    pub show_all_tab: Option<bool>,
    pub all_tab_position: Option<AllTabPosition>,
    pub tabs: Vec<TabConfig>,
    pub worksets: Vec<Workset>,
}

/// A workset as contracts see it.
pub struct WorksetView {
    pub id: Seq<char>,
    pub name: Seq<char>,
    pub desc: Seq<char>,
    pub workspace: Option<Seq<char>>,
    pub commands: Seq<Seq<char>>,
    pub cwd: Option<Seq<char>>,
    pub env: Seq<(Seq<char>, Seq<char>)>,
    pub layout: Option<TreeView>,
}

impl View for Workset {
    type V = WorksetView;

    open spec fn view(&self) -> WorksetView {
        WorksetView {
            id: self.id@,
            name: self.name@,
            desc: self.desc@,
            workspace: self.workspace.deep_view(),
            commands: self.commands.deep_view(),
            cwd: self.cwd.deep_view(),
            env: self.env.deep_view(),
            layout: match self.layout {
                Some(node) => Some(node@),
                None => None,
            },
        }
    }
}

impl DeepView for Workset {
    type V = WorksetView;

    open spec fn deep_view(&self) -> WorksetView {
        self@
    }
}

/// A tab as contracts see it.
pub struct TabView {
    pub id: Seq<char>,
    pub label: Seq<char>,
    pub worksets: Seq<Seq<char>>,
    pub include_unassigned: bool,
}

impl View for TabConfig {
    type V = TabView;

    open spec fn view(&self) -> TabView {
        TabView {
            id: self.id@,
            label: self.label@,
            worksets: self.worksets.deep_view(),
            include_unassigned: self.include_unassigned,
        }
    }
}

impl DeepView for TabConfig {
    type V = TabView;

    open spec fn deep_view(&self) -> TabView {
        self@
    }
}

/// A configuration as contracts see it.
pub struct ConfigView {
    pub version: u32,
    pub default_tab: Option<Seq<char>>,
    pub show_all_tab: Option<bool>,
    pub all_tab_position: Option<AllTabPosition>,
    pub tabs: Seq<TabView>,
    pub worksets: Seq<WorksetView>,
}

impl View for AppConfig {
    type V = ConfigView;

    open spec fn view(&self) -> ConfigView {
        ConfigView {
            version: self.version,
            default_tab: self.default_tab.deep_view(),
            show_all_tab: self.show_all_tab,
            all_tab_position: self.all_tab_position,
            tabs: self.tabs.deep_view(),
            worksets: self.worksets.deep_view(),
        }
    }
}

/// What the list screen remembers between runs.
#[derive(Debug, Clone)]
pub struct AppState {
    pub last_tab_id: Option<String>,
}

impl Default for AppState {
    fn default() -> (state: AppState)
        ensures
            state.last_tab_id is None,
    {
        AppState { last_tab_id: None }
    }
}

/// The version that a configuration without a version field has.
pub fn default_version() -> (version: u32)
    ensures
        version == 1,
{
    1
}

impl LayoutNode {
    /// The slot ids of the leaves, from left to right.
    pub open spec fn slot_ids(&self) -> Seq<u32>
        decreases self,
    {
        match self {
            LayoutNode::Leaf(slot) => seq![slot.slot_id],
            LayoutNode::Split(split) => split.left.slot_ids() + split.right.slot_ids(),
        }
    }

    /// The number of leaves.
    pub open spec fn leaf_count(&self) -> nat
        decreases self,
    {
        match self {
            LayoutNode::Leaf(_) => 1,
            LayoutNode::Split(split) => split.left.leaf_count() + split.right.leaf_count(),
        }
    }

    /// No slot id occurs on two leaves.
    pub open spec fn distinct_slots(&self) -> bool {
        self.slot_ids().no_duplicates()
    }

    /// There is one slot id for each leaf.
    pub proof fn lemma_slot_ids_len(&self)
        ensures
            self.slot_ids().len() == self.leaf_count(),
            self.leaf_count() >= 1,
        decreases self,
    {
        match self {
            LayoutNode::Leaf(_) => {},
            LayoutNode::Split(split) => {
                split.left.lemma_slot_ids_len();
                split.right.lemma_slot_ids_len();
            },
        }
    }
}

/// The number of leaves of a layout tree, held at the largest machine word
/// where the tree has more.
pub fn count_slots(node: &LayoutNode) -> (count: usize)
    ensures
        count == if node.leaf_count() <= usize::MAX {
            node.leaf_count()
        } else {
            usize::MAX as nat
        },
        count >= 1,
    decreases node,
{
    match node {
        LayoutNode::Leaf(_) => 1,
        LayoutNode::Split(split) => {
            proof {
                split.left.lemma_slot_ids_len();
                split.right.lemma_slot_ids_len();
            }
            let l = count_slots(&split.left);
            let r = count_slots(&split.right);
            if l > usize::MAX - r {
                usize::MAX
            } else {
                l + r
            }
        },
    }
}

/// A copy of a list of environment assignments.
pub fn copy_env(env: &Vec<(String, String)>) -> (out: Vec<(String, String)>)
    ensures
        out@ == env@,
{
    let mut out: Vec<(String, String)> = Vec::new();
    let mut i: usize = 0;
    while i < env.len()
        invariant
            i <= env.len(),
            out@ == env@.take(i as int),
        decreases env.len() - i,
    {
        out.push((env[i].0.clone(), env[i].1.clone()));
        assert(env@.take(i as int + 1) =~= env@.take(i as int).push(env@[i as int]));
        i += 1;
    }
    assert(env@.take(env.len() as int) =~= env@);
    out
}

/// A copy of an optional text.
pub fn copy_opt(text: &Option<String>) -> (out: Option<String>)
    ensures
        out == *text,
{
    match text {
        Some(s) => Some(s.clone()),
        None => None,
    }
}

impl WindowSlot {
    /// A copy of this slot.
    pub fn duplicate(&self) -> (out: WindowSlot)
        ensures
            out.slot_id == self.slot_id,
            out.command == self.command,
            out.cwd == self.cwd,
            out.env@ == self.env@,
            out@ == self@,
    {
        WindowSlot {
            slot_id: self.slot_id,
            command: self.command.clone(),
            cwd: copy_opt(&self.cwd),
            env: copy_env(&self.env),
        }
    }
}

/// A copy of a list of texts.
pub fn copy_texts(texts: &Vec<String>) -> (out: Vec<String>)
    ensures
        out@ == texts@,
{
    let mut out: Vec<String> = Vec::new();
    let mut i: usize = 0;
    while i < texts.len()
        invariant
            i <= texts.len(),
            out@ == texts@.take(i as int),
        decreases texts.len() - i,
    {
        out.push(texts[i].clone());
        assert(texts@.take(i as int + 1) =~= texts@.take(i as int).push(texts@[i as int]));
        i += 1;
    }
    assert(texts@.take(texts.len() as int) =~= texts@);
    out
}

impl Workset {
    /// A copy of this workset.
    pub fn duplicate(&self) -> (out: Workset)
        ensures
            out@ == self@,
    {
        let commands = copy_texts(&self.commands);
        let env = copy_env(&self.env);
        assert(commands.deep_view() =~= self.commands.deep_view());
        assert(env.deep_view() =~= self.env.deep_view());
        Workset {
            id: self.id.clone(),
            name: self.name.clone(),
            desc: self.desc.clone(),
            workspace: copy_opt(&self.workspace),
            commands,
            cwd: copy_opt(&self.cwd),
            env,
            layout: match &self.layout {
                Some(node) => Some(node.duplicate()),
                None => None,
            },
        }
    }
}

impl LayoutNode {
    /// A copy of this tree.
    pub fn duplicate(&self) -> (out: LayoutNode)
        ensures
            out@ == self@,
        decreases self,
    {
        match self {
            LayoutNode::Leaf(slot) => LayoutNode::Leaf(slot.duplicate()),
            LayoutNode::Split(split) => LayoutNode::Split(
                SplitNode {
                    direction: split.direction,
                    ratio: split.ratio,
                    left: Box::new(split.left.duplicate()),
                    right: Box::new(split.right.duplicate()),
                },
            ),
        }
    }
}

impl Clone for WindowSlot {
    fn clone(&self) -> (out: WindowSlot)
        ensures
            out@ == self@,
    {
        self.duplicate()
    }
}

impl Clone for LayoutNode {
    fn clone(&self) -> (out: LayoutNode)
        ensures
            out@ == self@,
    {
        self.duplicate()
    }
}

impl Clone for SplitNode {
    fn clone(&self) -> (out: SplitNode)
        ensures
            out.direction == self.direction,
            out.ratio == self.ratio,
            out.left@ == self.left@,
            out.right@ == self.right@,
    {
        SplitNode {
            direction: self.direction,
            ratio: self.ratio,
            left: Box::new(self.left.duplicate()),
            right: Box::new(self.right.duplicate()),
        }
    }
}


/// What is wrong with the tabs of a configuration.
#[derive(Debug, Clone)]
pub enum ConfigError {
    /// A tab has a blank id.
    EmptyTabId,
    /// The tab of this id has a blank label.
    EmptyTabLabel(String),
    /// This id belongs to more than one tab.
    DuplicateTabId(String),
}

/// A configuration error as contracts see it.
pub enum ConfigErrorView {
    EmptyTabId,
    EmptyTabLabel(Seq<char>),
    DuplicateTabId(Seq<char>),
}

impl View for ConfigError {
    type V = ConfigErrorView;

    open spec fn view(&self) -> ConfigErrorView {
        match self {
            ConfigError::EmptyTabId => ConfigErrorView::EmptyTabId,
            ConfigError::EmptyTabLabel(id) => ConfigErrorView::EmptyTabLabel(id@),
            ConfigError::DuplicateTabId(id) => ConfigErrorView::DuplicateTabId(id@),
        }
    }
}

/// The message of a configuration error.
pub open spec fn config_error_message(e: ConfigErrorView) -> Seq<char> {
    match e {
        ConfigErrorView::EmptyTabId => "tab id must not be empty"@,
        ConfigErrorView::EmptyTabLabel(id) => "tab label must not be empty (id: "@ + id + ")"@,
        ConfigErrorView::DuplicateTabId(id) => "duplicate tab id found: "@ + id,
    }
}

impl ConfigError {
    /// The message of this error.
    pub fn message(&self) -> (out: String)
        ensures
            out@ == config_error_message(self@),
    {
        match self {
            ConfigError::EmptyTabId => String::from_str("tab id must not be empty"),
            ConfigError::EmptyTabLabel(id) => {
                let mut out = String::from_str("tab label must not be empty (id: ");
                out.append(id.as_str());
                out.append(")");
                assert(out@ =~= config_error_message(self@));
                out
            },
            ConfigError::DuplicateTabId(id) => {
                let mut out = String::from_str("duplicate tab id found: ");
                out.append(id.as_str());
                out
            },
        }
    }
}

/// Whether one of the first `n` tabs has the id `id`.
pub open spec fn id_among(tabs: Seq<TabConfig>, n: int, id: Seq<char>) -> bool {
    exists|k: int| 0 <= k < n && k < tabs.len() && #[trigger] tabs[k].id@ == id
}

/// What is wrong with tab `i`, given the tabs before it: a blank id, else a
/// blank label, else an id that a tab before it has.
pub open spec fn tab_fault(tabs: Seq<TabConfig>, i: int) -> Option<ConfigErrorView> {
    let tab = tabs[i];
    if is_blank(tab.id@) {
        Some(ConfigErrorView::EmptyTabId)
    } else if is_blank(tab.label@) {
        Some(ConfigErrorView::EmptyTabLabel(tab.id@))
    } else if id_among(tabs, i, tab.id@) {
        Some(ConfigErrorView::DuplicateTabId(tab.id@))
    } else {
        None
    }
}

/// The first fault among the first `n` tabs, in the order of the tabs.
pub open spec fn first_fault(tabs: Seq<TabConfig>, n: nat) -> Option<ConfigErrorView>
    decreases n,
{
    if n == 0 {
        None
    } else {
        match first_fault(tabs, (n - 1) as nat) {
            Some(fault) => Some(fault),
            None => tab_fault(tabs, n - 1),
        }
    }
}

proof fn lemma_fault_stays(tabs: Seq<TabConfig>, n: nat, m: nat)
    requires
        n <= m,
        first_fault(tabs, n) is Some,
    ensures
        first_fault(tabs, m) == first_fault(tabs, n),
    decreases m,
{
    if m > n {
        lemma_fault_stays(tabs, n, (m - 1) as nat);
    }
}

/// What a configuration holds that is no longer honoured.
#[derive(Debug, Clone, Copy, PartialEq, Eq, Structural)]
pub enum ConfigWarning {
    /// Tabs in a configuration of version 1 or below: tabs are shown anyway.
    TabsInOldVersion,
    /// The tab of all worksets cannot be hidden.
    ShowAllTabIgnored,
    /// The tab of all worksets is always last.
    AllTabPositionIgnored,
}

fn has_tab_id(tabs: &Vec<TabConfig>, n: usize, id: &String) -> (found: bool)
    requires
        n <= tabs.len(),
    ensures
        found == id_among(tabs@, n as int, id@),
{
    let mut k: usize = 0;
    while k < n
        invariant
            k <= n <= tabs.len(),
            !id_among(tabs@, k as int, id@),
        decreases n - k,
    {
        if tabs[k].id == *id {
            return true;
        }
        k += 1;
    }
    false
}

impl AppConfig {
    /// Checks the tabs: every tab has an id and a label that are not blank,
    /// and no two tabs share an id. The first fault found, in the order of
    /// the tabs, is the error.
    pub fn validate_tabs(&self) -> (out: Result<(), ConfigError>)
        ensures
            match out {
                Ok(_) => first_fault(self.tabs@, self.tabs@.len()) is None,
                Err(e) => first_fault(self.tabs@, self.tabs@.len()) == Some(e@),
            },
    {
        let mut i: usize = 0;
        while i < self.tabs.len()
            invariant
                i <= self.tabs.len(),
                first_fault(self.tabs@, i as nat) is None,
            decreases self.tabs.len() - i,
        {
            let tab = &self.tabs[i];
            proof {
                if tab_fault(self.tabs@, i as int) is Some {
                    lemma_fault_stays(self.tabs@, (i + 1) as nat, self.tabs@.len());
                }
            }
            if blank(tab.id.as_str()) {
                return Err(ConfigError::EmptyTabId);
            }
            if blank(tab.label.as_str()) {
                return Err(ConfigError::EmptyTabLabel(tab.id.clone()));
            }
            if has_tab_id(&self.tabs, i, &tab.id) {
                return Err(ConfigError::DuplicateTabId(tab.id.clone()));
            }
            i += 1;
        }
        Ok(())
    }

    /// What the configuration holds that is no longer honoured, in the order
    /// in which it is reported.
    pub fn warn_tab_version(&self) -> (out: Vec<ConfigWarning>)
        ensures
            out@ == (if self.version <= 1 && self.tabs@.len() > 0 {
                seq![ConfigWarning::TabsInOldVersion]
            } else {
                Seq::<ConfigWarning>::empty()
            }) + (if self.show_all_tab == Some(false) {
                seq![ConfigWarning::ShowAllTabIgnored]
            } else {
                Seq::<ConfigWarning>::empty()
            }) + (if self.all_tab_position is Some {
                seq![ConfigWarning::AllTabPositionIgnored]
            } else {
                Seq::<ConfigWarning>::empty()
            }),
    {
        let mut out: Vec<ConfigWarning> = Vec::new();
        if self.version <= 1 && self.tabs.len() > 0 {
            out.push(ConfigWarning::TabsInOldVersion);
        }
        let ghost first = out@;
        match self.show_all_tab {
            Some(false) => {
                out.push(ConfigWarning::ShowAllTabIgnored);
            },
            _ => {},
        }
        let ghost second = out@;
        if self.all_tab_position.is_some() {
            out.push(ConfigWarning::AllTabPositionIgnored);
        }
        assert(out@ =~= first + second.skip(first.len() as int) + out@.skip(second.len() as int));
        out
    }

    /// The configuration that a first run writes: one sample workset of two
    /// windows side by side, the left one 1.2 times as wide as the right one.
    pub fn default_template() -> (cfg: AppConfig)
        ensures
            cfg.version == 1,
            cfg.default_tab is None,
            cfg.show_all_tab is None,
            cfg.all_tab_position is None,
            cfg.tabs@.len() == 0,
            cfg.worksets@.len() == 1,
            cfg.worksets@[0].id@ == "sample"@,
            cfg.worksets@[0].commands@.len() == 4,
            cfg.worksets@[0].layout matches Some(LayoutNode::Split(split)) && split.ratio == 1200
                && split.direction == SplitDirection::Horizontal && split.left.slot_ids()
                == seq![1u32] && split.right.slot_ids() == seq![2u32],
    {
        let code = "code -n \"$HOME/ws/demo\"";
        let browser = "omarchy-launch-browser --new-window \"https://example.com\"";
        let layout = LayoutNode::Split(
            SplitNode {
                direction: SplitDirection::Horizontal,
                ratio: 1200,
                left: Box::new(
                    LayoutNode::Leaf(
                        WindowSlot {
                            slot_id: 1,
                            command: String::from_str(code),
                            cwd: None,
                            env: Vec::new(),
                        },
                    ),
                ),
                right: Box::new(
                    LayoutNode::Leaf(
                        WindowSlot {
                            slot_id: 2,
                            command: String::from_str(browser),
                            cwd: None,
                            env: Vec::new(),
                        },
                    ),
                ),
            },
        );
        let mut commands: Vec<String> = Vec::new();
        commands.push(String::from_str(code));
        commands.push(String::from_str(browser));
        commands.push(String::from_str("hyprctl dispatch movefocus l"));
        commands.push(String::from_str("hyprctl dispatch splitratio exact 1.2"));
        let workset = Workset {
            id: String::from_str("sample"),
            name: String::from_str("Sample Workset"),
            desc: String::from_str("Code + Browser example"),
            workspace: Some(String::new()),
            commands,
            cwd: None,
            env: Vec::new(),
            layout: Some(layout),
        };
        let mut worksets: Vec<Workset> = Vec::new();
        worksets.push(workset);
        AppConfig {
            version: 1,
            default_tab: None,
            show_all_tab: None,
            all_tab_position: None,
            tabs: Vec::new(),
            worksets,
        }
    }
}

} // verus!
