//! Workspaces: how a launch names the virtual desktop it works on, and how it
//! recognises that desktop among those the window manager reports.
use crate::config::Workset;
use crate::decimal::{i32_text, parse_i32, parsed_i32, push_signed_decimal, signed_decimal};
use crate::text::{
    chars_of, eq_ignore_ascii_case, same_ignoring_ascii_case, starts_with, string_of, tail_from,
    trim_chars, trimmed,
};
use vstd::prelude::*;
use vstd::string::StringExecFns;

verus! {

/// A workspace as the window manager reports it: its number and its name.
#[derive(Debug, Clone)]
pub struct WorkspaceBasic {
    pub id: i32,
    pub name: String,
}

/// A reported workspace as contracts see it.
pub struct BasicView {
    pub id: i32,
    pub name: Seq<char>,
}

impl View for WorkspaceBasic {
    type V = BasicView;

    open spec fn view(&self) -> BasicView {
        BasicView { id: self.id, name: self.name@ }
    }
}

impl DeepView for WorkspaceBasic {
    type V = BasicView;

    open spec fn deep_view(&self) -> BasicView {
        self@
    }
}

/// The workspace that a launch works on.
#[derive(Debug, Clone)]
pub struct WorkspaceContext {
    pub workspace: WorkspaceBasic,
    /// Whether it is a special (scratchpad-like) workspace.
    pub is_special: bool,
}

/// A context as contracts see it.
pub struct ContextView {
    pub workspace: BasicView,
    pub is_special: bool,
}

impl View for WorkspaceContext {
    type V = ContextView;

    open spec fn view(&self) -> ContextView {
        ContextView { workspace: self.workspace@, is_special: self.is_special }
    }
}

impl DeepView for WorkspaceContext {
    type V = ContextView;

    open spec fn deep_view(&self) -> ContextView {
        self@
    }
}

/// The ways in which a workset can name its workspace.
#[derive(Debug, Clone)]
pub enum WorkspaceTargetKind {
    Id(i32),
    Name(String),
    Special(Option<String>),
}

/// The workspace that a workset asks for.
#[derive(Debug, Clone)]
pub struct WorkspaceTarget {
    pub kind: WorkspaceTargetKind,
}

/// A target as contracts see it.
pub enum TargetView {
    Id(i32),
    Name(Seq<char>),
    Special(Option<Seq<char>>),
}

impl View for WorkspaceTarget {
    type V = TargetView;

    open spec fn view(&self) -> TargetView {
        match self.kind {
            WorkspaceTargetKind::Id(id) => TargetView::Id(id),
            WorkspaceTargetKind::Name(name) => TargetView::Name(name@),
            WorkspaceTargetKind::Special(None) => TargetView::Special(None),
            WorkspaceTargetKind::Special(Some(name)) => TargetView::Special(Some(name@)),
        }
    }
}

impl DeepView for WorkspaceTarget {
    type V = TargetView;

    open spec fn deep_view(&self) -> TargetView {
        self@
    }
}

/// The context of a reported workspace. It is special when its number is not
/// positive or its name begins with `special`.
pub open spec fn context_of(basic: BasicView) -> ContextView {
    ContextView {
        workspace: basic,
        is_special: basic.id <= 0 || "special"@.is_prefix_of(basic.name),
    }
}

/// A context matches a reported workspace by number, or by name where the
/// context has a name: the window manager addresses workspaces either way.
pub open spec fn context_matches(ctx: ContextView, other: BasicView) -> bool {
    other.id == ctx.workspace.id || (ctx.workspace.name.len() > 0 && other.name
        == ctx.workspace.name)
}

/// How a context is called in messages.
pub open spec fn context_label(ctx: ContextView) -> Seq<char> {
    let prefix = if ctx.is_special {
        "special workspace"@
    } else {
        "workspace"@
    };
    if ctx.workspace.name.len() == 0 {
        prefix + " "@ + signed_decimal(ctx.workspace.id as int)
    } else {
        prefix + " "@ + ctx.workspace.name + " (id "@ + signed_decimal(ctx.workspace.id as int)
            + ")"@
    }
}

/// The target that a user's text names. After trimming: `special:NAME` is the
/// special workspace of that name; `special`, in any case of letters, the
/// unnamed special workspace; `name:NAME` the workspace of that name; a
/// decimal 32-bit integer the workspace of that number; anything else is
/// itself a name.
pub open spec fn target_of(raw: Seq<char>) -> TargetView {
    let t = trimmed(raw);
    if "special:"@.is_prefix_of(t) {
        TargetView::Special(Some(t.skip("special:"@.len() as int)))
    } else if same_ignoring_ascii_case(t, "special"@) {
        TargetView::Special(None)
    } else if "name:"@.is_prefix_of(t) {
        TargetView::Name(t.skip("name:"@.len() as int))
    } else {
        match parsed_i32(t) {
            Some(id) => TargetView::Id(id),
            None => TargetView::Name(t),
        }
    }
}

/// How a target is called in messages.
pub open spec fn target_label(target: TargetView) -> Seq<char> {
    match target {
        TargetView::Id(id) => "workspace "@ + signed_decimal(id as int),
        TargetView::Name(name) => "workspace '"@ + name + "'"@,
        TargetView::Special(None) => "special workspace"@,
        TargetView::Special(Some(name)) => "special workspace '"@ + name + "'"@,
    }
}

/// The workspace that a target stands for, as the window manager would report
/// it once it is active. A numbered one is also known by its number as a
/// name; a named one has no number that any workspace reports.
pub open spec fn target_basic(target: TargetView) -> BasicView {
    match target {
        TargetView::Id(id) => BasicView { id, name: signed_decimal(id as int) },
        TargetView::Name(name) => BasicView { id: i32::MAX, name },
        TargetView::Special(None) => BasicView { id: 0, name: "special"@ },
        TargetView::Special(Some(name)) => BasicView { id: 0, name: "special:"@ + name },
    }
}

/// The context that a target stands for.
pub open spec fn target_context(target: TargetView) -> ContextView {
    context_of(target_basic(target))
}

/// Whether the context `ctx` is the workspace that `target` asks for.
pub open spec fn target_matches(target: TargetView, ctx: ContextView) -> bool {
    context_matches(ctx, target_basic(target))
}

/// The target that a workset asks for: that of its workspace text, unless the
/// text is missing or blank.
pub open spec fn override_of(workspace: Option<Seq<char>>) -> Option<TargetView> {
    match workspace {
        Some(raw) => if trimmed(raw).len() == 0 {
            None
        } else {
            Some(target_of(trimmed(raw)))
        },
        None => None,
    }
}

impl WorkspaceBasic {
    /// A copy of this workspace.
    pub fn duplicate(&self) -> (out: WorkspaceBasic)
        ensures
            out == *self,
    {
        WorkspaceBasic { id: self.id, name: self.name.clone() }
    }
}

impl WorkspaceContext {
    /// The context of a workspace that the window manager reported.
    pub fn from_basic(workspace: WorkspaceBasic) -> (ctx: WorkspaceContext)
        ensures
            ctx@ == context_of(workspace@),
            ctx.workspace == workspace,
    {
        let name = chars_of(workspace.name.as_str());
        let special = chars_of("special");
        let is_special = workspace.id <= 0 || starts_with(&name, &special);
        WorkspaceContext { workspace, is_special }
    }

    /// Whether `other` is this workspace: the same number, or the same name
    /// where this context has one.
    pub fn matches(&self, other: &WorkspaceBasic) -> (same: bool)
        ensures
            same == context_matches(self@, other@),
    {
        other.id == self.workspace.id || (!self.workspace.name.as_str().is_empty() && other.name
            == self.workspace.name)
    }

    /// How this context is called in messages.
    pub fn label(&self) -> (out: String)
        ensures
            out@ == context_label(self@),
    {
        let mut out = String::new();
        if self.is_special {
            out.append("special workspace");
        } else {
            out.append("workspace");
        }
        out.append(" ");
        if self.workspace.name.as_str().is_empty() {
            push_signed_decimal(&mut out, self.workspace.id);
        } else {
            out.append(self.workspace.name.as_str());
            out.append(" (id ");
            push_signed_decimal(&mut out, self.workspace.id);
            out.append(")");
        }
        assert(out@ =~= context_label(self@));
        out
    }

    /// A copy of this context.
    pub fn duplicate(&self) -> (out: WorkspaceContext)
        ensures
            out == *self,
    {
        WorkspaceContext { workspace: self.workspace.duplicate(), is_special: self.is_special }
    }
}

impl WorkspaceTarget {
    /// Reads a target from the text that a user wrote.
    pub fn from_raw(raw: &str) -> (target: WorkspaceTarget)
        ensures
            target@ == target_of(raw@),
    {
        let all = chars_of(raw);
        let t = trim_chars(&all);
        let special_prefix = chars_of("special:");
        if starts_with(&t, &special_prefix) {
            let rest = tail_from(&t, special_prefix.len());
            return WorkspaceTarget { kind: WorkspaceTargetKind::Special(Some(string_of(&rest))) };
        }
        let special = chars_of("special");
        if eq_ignore_ascii_case(&t, &special) {
            return WorkspaceTarget { kind: WorkspaceTargetKind::Special(None) };
        }
        let name_prefix = chars_of("name:");
        if starts_with(&t, &name_prefix) {
            let rest = tail_from(&t, name_prefix.len());
            return WorkspaceTarget { kind: WorkspaceTargetKind::Name(string_of(&rest)) };
        }
        match parse_i32(&t) {
            Some(id) => WorkspaceTarget { kind: WorkspaceTargetKind::Id(id) },
            None => WorkspaceTarget { kind: WorkspaceTargetKind::Name(string_of(&t)) },
        }
    }

    /// How this target is called in messages.
    pub fn label(&self) -> (out: String)
        ensures
            out@ == target_label(self@),
    {
        let mut out = String::new();
        match &self.kind {
            WorkspaceTargetKind::Id(id) => {
                out.append("workspace ");
                push_signed_decimal(&mut out, *id);
            },
            WorkspaceTargetKind::Name(name) => {
                out.append("workspace '");
                out.append(name.as_str());
                out.append("'");
            },
            WorkspaceTargetKind::Special(None) => {
                out.append("special workspace");
            },
            WorkspaceTargetKind::Special(Some(name)) => {
                out.append("special workspace '");
                out.append(name.as_str());
                out.append("'");
            },
        }
        assert(out@ =~= target_label(self@));
        out
    }

    /// The context that this target stands for.
    pub fn context(&self) -> (ctx: WorkspaceContext)
        ensures
            ctx@ == target_context(self@),
    {
        let basic = match &self.kind {
            WorkspaceTargetKind::Id(id) => WorkspaceBasic { id: *id, name: i32_text(*id) },
            WorkspaceTargetKind::Name(name) => WorkspaceBasic { id: i32::MAX, name: name.clone() },
            WorkspaceTargetKind::Special(None) => WorkspaceBasic {
                id: 0,
                name: String::from_str("special"),
            },
            WorkspaceTargetKind::Special(Some(name)) => {
                let mut full = String::from_str("special:");
                full.append(name.as_str());
                WorkspaceBasic { id: 0, name: full }
            },
        };
        WorkspaceContext::from_basic(basic)
    }

    /// Whether `ctx` is the workspace that this target asks for.
    pub fn matches(&self, ctx: &WorkspaceContext) -> (same: bool)
        ensures
            same == target_matches(self@, ctx@),
    {
        let wanted = self.context();
        ctx.matches(&wanted.workspace)
    }

    /// A copy of this target.
    pub fn duplicate(&self) -> (out: WorkspaceTarget)
        ensures
            out == *self,
    {
        let kind = match &self.kind {
            WorkspaceTargetKind::Id(id) => WorkspaceTargetKind::Id(*id),
            WorkspaceTargetKind::Name(name) => WorkspaceTargetKind::Name(name.clone()),
            WorkspaceTargetKind::Special(None) => WorkspaceTargetKind::Special(None),
            WorkspaceTargetKind::Special(Some(name)) => WorkspaceTargetKind::Special(
                Some(name.clone()),
            ),
        };
        WorkspaceTarget { kind }
    }
}

/// The workspace that a workset asks for, if it asks for one.
pub fn workspace_override(ws: &Workset) -> (target: Option<WorkspaceTarget>)
    ensures
        target.deep_view() == override_of(ws.workspace.deep_view()),
{
    match &ws.workspace {
        Some(raw) => {
            let all = chars_of(raw.as_str());
            let t = trim_chars(&all);
            if t.len() == 0 {
                None
            } else {
                let text = string_of(&t);
                Some(WorkspaceTarget::from_raw(text.as_str()))
            }
        },
        None => None,
    }
}

/// What a workset asks for is the target of its workspace text as written:
/// the trimming that finds the text non-blank does not change what it names.
pub proof fn law_override_reads_text(raw: Seq<char>)
    requires
        trimmed(raw).len() > 0,
    ensures
        override_of(Some(raw)) == Some(target_of(raw)),
{
    crate::text::lemma_trimmed_idempotent(raw);
}

} // verus!
