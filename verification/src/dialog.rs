//! The forms of the two screens, as far as they are rules and not drawing:
//! which field follows which, where the cursor goes in a line of text, and
//! which tab a new workset is offered next.
use crate::config::{TabConfig, Workset};
use vstd::prelude::*;
use vstd::string::StringSliceAdditionalSpecFns;
use vstd::utf8::{encode_utf8_valid_utf8, is_char_boundary, is_char_boundary_start_end_of_seq};

verus! {

/// How the list screen ended.
#[derive(Debug, Clone)]
pub enum HomeExit {
    Quit,
    /// Launch the workset of this id; `preconfirm_clean` says that the user
    /// agreed to the closing of windows.
    Run { id: String, preconfirm_clean: bool },
    /// Edit the workset of this id.
    Edit(String),
}

/// How the editor ended.
#[derive(Debug)]
pub enum EditorExit {
    Saved(Workset),
}

/// The fields of the editor's workset form.
#[derive(Debug, Clone, Copy, PartialEq, Eq, Structural)]
pub enum DialogField {
    Id,
    Name,
    Workspace,
    Desc,
    Tab,
}

/// The field after `focus` in the form's order: id, name, tab, workspace,
/// description, and round again.
pub open spec fn field_after(focus: DialogField) -> DialogField {
    match focus {
        DialogField::Id => DialogField::Name,
        DialogField::Name => DialogField::Tab,
        DialogField::Tab => DialogField::Workspace,
        DialogField::Workspace => DialogField::Desc,
        DialogField::Desc => DialogField::Id,
    }
}

/// The field that the focus moves to on the way forward.
pub fn next_field(focus: DialogField) -> (next: DialogField)
    ensures
        next == field_after(focus),
{
    match focus {
        DialogField::Id => DialogField::Name,
        DialogField::Name => DialogField::Tab,
        DialogField::Tab => DialogField::Workspace,
        DialogField::Workspace => DialogField::Desc,
        DialogField::Desc => DialogField::Id,
    }
}

/// The field that the focus moves to on the way back: the one that `focus`
/// comes after.
pub fn prev_field(focus: DialogField) -> (prev: DialogField)
    ensures
        field_after(prev) == focus,
{
    match focus {
        DialogField::Id => DialogField::Desc,
        DialogField::Name => DialogField::Id,
        DialogField::Tab => DialogField::Name,
        DialogField::Workspace => DialogField::Tab,
        DialogField::Desc => DialogField::Workspace,
    }
}

/// Five steps forward lead round the form, and no two fields are followed
/// by the same field: the way back is the way forward undone.
pub proof fn law_fields_cycle(focus: DialogField)
    ensures
        field_after(field_after(field_after(field_after(field_after(focus))))) == focus,
        forall|a: DialogField, b: DialogField| field_after(a) == field_after(b) ==> a == b,
{
}

/// Whether `at` is a place in the text `s` where a character begins or the
/// text ends, counted in bytes.
pub open spec fn boundary(s: &str, at: int) -> bool {
    is_char_boundary(s.spec_bytes(), at)
}

/// The byte position where the character before the cursor begins; none at
/// the start of the text.
pub fn prev_grapheme_start(text: &str, cursor: usize) -> (start: Option<usize>)
    requires
        boundary(text, cursor as int),
    ensures
        cursor == 0 ==> start is None,
        cursor > 0 ==> start is Some && start->0 < cursor && boundary(text, start->0 as int)
            && forall|k: int| start->0 < k < cursor ==> !boundary(text, k),
{
    if cursor == 0 {
        return None;
    }
    proof {
        encode_utf8_valid_utf8(text@);
        is_char_boundary_start_end_of_seq(text.spec_bytes());
    }
    let mut i: usize = cursor - 1;
    while !text.is_char_boundary(i)
        invariant
            i < cursor,
            boundary(text, 0),
            forall|k: int| i < k < cursor ==> !boundary(text, k),
        decreases i,
    {
        i -= 1;
    }
    Some(i)
}

/// The byte position where the character at the cursor ends; none at the end
/// of the text.
pub fn next_grapheme_end(text: &str, cursor: usize) -> (end: Option<usize>)
    requires
        cursor < text.spec_bytes().len() ==> boundary(text, cursor as int),
    ensures
        cursor >= text.spec_bytes().len() ==> end is None,
        cursor < text.spec_bytes().len() ==> end is Some && cursor < end->0
            <= text.spec_bytes().len() && boundary(text, end->0 as int) && forall|k: int|
            cursor < k < end->0 ==> !boundary(text, k),
{
    let len = text.as_bytes().len();
    if cursor >= len {
        return None;
    }
    proof {
        encode_utf8_valid_utf8(text@);
        is_char_boundary_start_end_of_seq(text.spec_bytes());
    }
    let mut j: usize = cursor + 1;
    while !text.is_char_boundary(j)
        invariant
            cursor < j <= len,
            len == text.spec_bytes().len(),
            boundary(text, len as int),
            forall|k: int| cursor < k < j ==> !boundary(text, k),
        decreases len - j,
    {
        j += 1;
    }
    Some(j)
}

/// The fields of the list screen's form for a new workset.
#[derive(Debug, Clone, Copy, PartialEq, Eq, Structural)]
pub enum NewDialogField {
    Name,
    Desc,
    Id,
    Tab,
}

/// The list screen's form for a new workset.
#[derive(Debug, Clone)]
pub struct NewDialogState {
    pub id: String,
    pub name: String,
    pub desc: String,
    /// The tab that the workset goes to; none for unassigned.
    pub selected_tab: Option<String>,
    pub focus: NewDialogField,
}

/// The place of a tab id among the choices of the form: zero stands for
/// unassigned, and the first tab of that id, counted from one, for the id.
/// An id that no tab has counts as unassigned.
pub open spec fn choice_of(tabs: Seq<TabConfig>, selected: Option<Seq<char>>) -> nat
    decreases tabs.len(),
{
    match selected {
        None => 0,
        Some(id) => if tabs.len() == 0 {
            0
        } else if tabs[0].id@ == id {
            1
        } else {
            let rest = choice_of(tabs.drop_first(), selected);
            if rest == 0 {
                0
            } else {
                rest + 1
            }
        },
    }
}

/// The choice `delta` places after `current` among `tabs.len() + 1` choices,
/// going round at either end.
pub open spec fn choice_after(tabs: Seq<TabConfig>, current: nat, delta: int) -> int {
    (current + delta) % (tabs.len() + 1) as int
}

/// The tab id that a choice stands for.
pub open spec fn tab_of_choice(tabs: Seq<TabConfig>, choice: int) -> Option<Seq<char>> {
    if 0 < choice <= tabs.len() {
        Some(tabs[choice - 1].id@)
    } else {
        None
    }
}

fn position_of(tabs: &Vec<TabConfig>, id: &String) -> (at: usize)
    ensures
        at == choice_of(tabs@, Some(id@)),
        at <= tabs.len(),
{
    let mut i: usize = 0;
    assert(tabs@.skip(0) =~= tabs@);
    proof {
        lemma_choice_bound(tabs@, Some(id@));
    }
    while i < tabs.len()
        invariant
            i <= tabs.len(),
            choice_of(tabs@, Some(id@)) == if choice_of(tabs@.skip(i as int), Some(id@)) == 0 {
                0
            } else {
                choice_of(tabs@.skip(i as int), Some(id@)) + i
            },
            choice_of(tabs@.skip(i as int), Some(id@)) <= tabs.len() - i,
        decreases tabs.len() - i,
    {
        proof {
            assert(tabs@.skip(i as int)[0] == tabs@[i as int]);
            assert(tabs@.skip(i as int).drop_first() =~= tabs@.skip(i as int + 1));
            lemma_choice_bound(tabs@.skip(i as int + 1), Some(id@));
        }
        if tabs[i].id == *id {
            return i + 1;
        }
        i += 1;
    }
    0
}

proof fn lemma_choice_bound(tabs: Seq<TabConfig>, selected: Option<Seq<char>>)
    ensures
        choice_of(tabs, selected) <= tabs.len(),
    decreases tabs.len(),
{
    if selected is Some && tabs.len() > 0 {
        lemma_choice_bound(tabs.drop_first(), selected);
    }
}

/// Moves the form's tab choice by `delta` places among unassigned and the
/// tabs, going round at either end. Without tabs the choice is unassigned.
/// The place of the present choice and `delta` together must fit the
/// machine's signed word.
pub fn cycle_new_dialog_tab(form: &mut NewDialogState, tabs: &Vec<TabConfig>, delta: isize)
    requires
        tabs.len() > 0 ==> choice_of(tabs@, old(form).selected_tab.deep_view()) + delta
            <= isize::MAX,
    ensures
        final(form).selected_tab.deep_view() == if tabs.len() == 0 {
            None
        } else {
            tab_of_choice(
                tabs@,
                choice_after(tabs@, choice_of(tabs@, old(form).selected_tab.deep_view()), delta as int),
            )
        },
        final(form).id == old(form).id,
        final(form).name == old(form).name,
        final(form).desc == old(form).desc,
        final(form).focus == old(form).focus,
{
    if tabs.len() == 0 {
        form.selected_tab = None;
        return ;
    }
    let options: i128 = tabs.len() as i128 + 1;
    let current: usize = match &form.selected_tab {
        Some(id) => position_of(tabs, id),
        None => 0,
    };
    let sum: i128 = current as i128 + delta as i128;
    let rem: i128 = sum % options;
    let next: i128 = if rem < 0 {
        rem + options
    } else {
        rem
    };
    assert(next == choice_after(tabs@, current as nat, delta as int)) by {
        lemma_euclid(sum as int, options as int, rem as int);
    }
    if next == 0 {
        form.selected_tab = None;
    } else {
        form.selected_tab = Some(tabs[(next - 1) as usize].id.clone());
    }
}

proof fn lemma_euclid(x: int, m: int, rem: int)
    requires
        m > 0,
        rem == if x >= 0 {
            x % m
        } else {
            -((-x) % m)
        },
    ensures
        x % m == if rem < 0 {
            rem + m
        } else {
            rem
        },
{
    if x < 0 {
        let q = (-x) / m;
        let r = (-x) % m;
        assert(-x == q * m + r) by (nonlinear_arith)
            requires
                q == (-x) / m,
                r == (-x) % m,
                m > 0,
        ;
        if r == 0 {
            assert(x == (-q) * m) by (nonlinear_arith)
                requires
                    -x == q * m + r,
                    r == 0,
            ;
            vstd::arithmetic::div_mod::lemma_fundamental_div_mod_converse(x, m, -q, 0);
        } else {
            assert(x == (-q - 1) * m + (m - r)) by (nonlinear_arith)
                requires
                    -x == q * m + r,
            ;
            vstd::arithmetic::div_mod::lemma_fundamental_div_mod_converse(x, m, -q - 1, m - r);
        }
    }
}

} // verus!
