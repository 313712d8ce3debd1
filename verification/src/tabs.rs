//! Worksets and the tabs that group them: which tab a workset is in, and
//! what a configuration becomes when a workset is saved or moved to a tab. A
//! workset is in one tab at most.
use crate::config::{
    copy_texts, AppConfig, ConfigView, TabConfig, TabView, Workset, WorksetView,
};
use crate::text::same_text;
use vstd::prelude::*;
use vstd::string::StringExecFns;

verus! {

/// A tab as the editor offers it.
#[derive(Debug, Clone)]
pub struct TabOption {
    pub id: String,
    pub label: String,
}

impl DeepView for TabOption {
    type V = (Seq<char>, Seq<char>);

    open spec fn deep_view(&self) -> (Seq<char>, Seq<char>) {
        (self.id@, self.label@)
    }
}

/// Why a workset could not be saved.
#[derive(Debug, Clone, Copy, PartialEq, Eq, Structural)]
pub enum PersistError {
    /// Another workset has the id already.
    IdExists,
}

impl PersistError {
    /// The message of this error.
    pub fn message(&self) -> (out: String)
        ensures
            out@ == "ID already exists"@,
    {
        String::from_str("ID already exists")
    }
}

/// The place of the first of `ids` that is `id`.
pub open spec fn first_index(ids: Seq<Seq<char>>, id: Seq<char>) -> Option<nat>
    decreases ids.len(),
{
    if ids.len() == 0 {
        None
    } else if ids[0] == id {
        Some(0)
    } else {
        match first_index(ids.drop_first(), id) {
            Some(k) => Some(k + 1),
            None => None,
        }
    }
}

/// The ids of the tabs, in order.
pub open spec fn tab_ids(tabs: Seq<TabView>) -> Seq<Seq<char>> {
    Seq::new(tabs.len(), |i: int| tabs[i].id)
}

/// The ids of the worksets, in order.
pub open spec fn workset_ids(worksets: Seq<WorksetView>) -> Seq<Seq<char>> {
    Seq::new(worksets.len(), |i: int| worksets[i].id)
}

/// The place of the first tab that holds the workset `id`.
pub open spec fn first_holder(tabs: Seq<TabView>, id: Seq<char>) -> Option<nat>
    decreases tabs.len(),
{
    if tabs.len() == 0 {
        None
    } else if first_index(tabs[0].worksets, id) is Some {
        Some(0)
    } else {
        match first_holder(tabs.drop_first(), id) {
            Some(k) => Some(k + 1),
            None => None,
        }
    }
}

/// `ids` without `a` and without `b`, the order of the rest kept.
pub open spec fn without(ids: Seq<Seq<char>>, a: Seq<char>, b: Seq<char>) -> Seq<Seq<char>>
    decreases ids.len(),
{
    if ids.len() == 0 {
        Seq::empty()
    } else if ids.last() == a || ids.last() == b {
        without(ids.drop_last(), a, b)
    } else {
        without(ids.drop_last(), a, b).push(ids.last())
    }
}

/// A tab without the worksets `a` and `b`.
pub open spec fn tab_without(tab: TabView, a: Seq<char>, b: Seq<char>) -> TabView {
    TabView { worksets: without(tab.worksets, a, b), ..tab }
}

/// The tabs without the worksets `a` and `b`.
pub open spec fn tabs_without(tabs: Seq<TabView>, a: Seq<char>, b: Seq<char>) -> Seq<TabView> {
    Seq::new(tabs.len(), |i: int| tab_without(tabs[i], a, b))
}

proof fn lemma_first_index_found(ids: Seq<Seq<char>>, id: Seq<char>, i: int)
    requires
        0 <= i < ids.len(),
        ids[i] == id,
        forall|k: int| 0 <= k < i ==> ids[k] != id,
    ensures
        first_index(ids, id) == Some(i as nat),
    decreases i,
{
    if i > 0 {
        assert(ids.drop_first()[i - 1] == ids[i]);
        assert forall|k: int| 0 <= k < i - 1 implies ids.drop_first()[k] != id by {
            assert(ids.drop_first()[k] == ids[k + 1]);
        }
        lemma_first_index_found(ids.drop_first(), id, i - 1);
    }
}

proof fn lemma_first_index_none(ids: Seq<Seq<char>>, id: Seq<char>)
    requires
        forall|k: int| 0 <= k < ids.len() ==> ids[k] != id,
    ensures
        first_index(ids, id) is None,
    decreases ids.len(),
{
    if ids.len() > 0 {
        assert forall|k: int| 0 <= k < ids.drop_first().len() implies ids.drop_first()[k]
            != id by {
            assert(ids.drop_first()[k] == ids[k + 1]);
        }
        lemma_first_index_none(ids.drop_first(), id);
    }
}

proof fn lemma_first_index_bound(ids: Seq<Seq<char>>, id: Seq<char>)
    ensures
        first_index(ids, id) matches Some(k) ==> k < ids.len() && ids[k as int] == id,
    decreases ids.len(),
{
    if ids.len() > 0 && ids[0] != id {
        lemma_first_index_bound(ids.drop_first(), id);
        if let Some(k) = first_index(ids.drop_first(), id) {
            assert(ids.drop_first()[k as int] == ids[k as int + 1]);
        }
    }
}

proof fn lemma_first_holder_found(tabs: Seq<TabView>, id: Seq<char>, i: int)
    requires
        0 <= i < tabs.len(),
        first_index(tabs[i].worksets, id) is Some,
        forall|k: int| 0 <= k < i ==> first_index(#[trigger] tabs[k].worksets, id) is None,
    ensures
        first_holder(tabs, id) == Some(i as nat),
    decreases i,
{
    if i > 0 {
        assert(tabs.drop_first()[i - 1] == tabs[i]);
        assert forall|k: int| 0 <= k < i - 1 implies first_index(
            #[trigger] tabs.drop_first()[k].worksets,
            id,
        ) is None by {
            assert(tabs.drop_first()[k] == tabs[k + 1]);
        }
        lemma_first_holder_found(tabs.drop_first(), id, i - 1);
    }
}

proof fn lemma_first_holder_none(tabs: Seq<TabView>, id: Seq<char>)
    requires
        forall|k: int| 0 <= k < tabs.len() ==> first_index(#[trigger] tabs[k].worksets, id) is None,
    ensures
        first_holder(tabs, id) is None,
    decreases tabs.len(),
{
    if tabs.len() > 0 {
        assert forall|k: int| 0 <= k < tabs.drop_first().len() implies first_index(
            #[trigger] tabs.drop_first()[k].worksets,
            id,
        ) is None by {
            assert(tabs.drop_first()[k] == tabs[k + 1]);
        }
        lemma_first_holder_none(tabs.drop_first(), id);
    }
}

/// The place of the first of `ids` that is `id`.
pub fn index_of(ids: &Vec<String>, id: &str) -> (out: Option<usize>)
    ensures
        match out {
            Some(i) => first_index(ids.deep_view(), id@) == Some(i as nat) && i < ids.len(),
            None => first_index(ids.deep_view(), id@) is None,
        },
{
    let ghost model = ids.deep_view();
    let mut i: usize = 0;
    while i < ids.len()
        invariant
            i <= ids.len(),
            model == ids.deep_view(),
            forall|k: int| 0 <= k < i ==> model[k] != id@,
        decreases ids.len() - i,
    {
        if same_text(ids[i].as_str(), id) {
            proof {
                assert(model[i as int] == id@);
                lemma_first_index_found(model, id@, i as int);
            }
            return Some(i);
        }
        i += 1;
    }
    proof {
        lemma_first_index_none(model, id@);
    }
    None
}

fn tab_index(tabs: &Vec<TabConfig>, id: &str) -> (out: Option<usize>)
    ensures
        match out {
            Some(i) => first_index(tab_ids(tabs.deep_view()), id@) == Some(i as nat) && i
                < tabs.len(),
            None => first_index(tab_ids(tabs.deep_view()), id@) is None,
        },
{
    let ghost model = tab_ids(tabs.deep_view());
    let mut i: usize = 0;
    while i < tabs.len()
        invariant
            i <= tabs.len(),
            model == tab_ids(tabs.deep_view()),
            forall|k: int| 0 <= k < i ==> model[k] != id@,
        decreases tabs.len() - i,
    {
        if same_text(tabs[i].id.as_str(), id) {
            proof {
                assert(model[i as int] == id@);
                lemma_first_index_found(model, id@, i as int);
            }
            return Some(i);
        }
        i += 1;
    }
    proof {
        lemma_first_index_none(model, id@);
    }
    None
}

fn workset_index(worksets: &Vec<Workset>, id: &str) -> (out: Option<usize>)
    ensures
        match out {
            Some(i) => first_index(workset_ids(worksets.deep_view()), id@) == Some(i as nat) && i
                < worksets.len(),
            None => first_index(workset_ids(worksets.deep_view()), id@) is None,
        },
{
    let ghost model = workset_ids(worksets.deep_view());
    let mut i: usize = 0;
    while i < worksets.len()
        invariant
            i <= worksets.len(),
            model == workset_ids(worksets.deep_view()),
            forall|k: int| 0 <= k < i ==> model[k] != id@,
        decreases worksets.len() - i,
    {
        if same_text(worksets[i].id.as_str(), id) {
            proof {
                assert(model[i as int] == id@);
                lemma_first_index_found(model, id@, i as int);
            }
            return Some(i);
        }
        i += 1;
    }
    proof {
        lemma_first_index_none(model, id@);
    }
    None
}

fn strip(ids: &Vec<String>, a: &str, b: &str) -> (out: Vec<String>)
    ensures
        out.deep_view() == without(ids.deep_view(), a@, b@),
{
    let ghost model = ids.deep_view();
    let mut out: Vec<String> = Vec::new();
    let mut i: usize = 0;
    assert(out.deep_view() =~= without(model.take(0), a@, b@));
    while i < ids.len()
        invariant
            i <= ids.len(),
            model == ids.deep_view(),
            out.deep_view() == without(model.take(i as int), a@, b@),
        decreases ids.len() - i,
    {
        let ghost before = out.deep_view();
        proof {
            assert(model.take(i as int + 1).drop_last() =~= model.take(i as int));
            assert(model.take(i as int + 1).last() == ids@[i as int]@);
        }
        if !same_text(ids[i].as_str(), a) && !same_text(ids[i].as_str(), b) {
            out.push(ids[i].clone());
            assert(out.deep_view() =~= before.push(ids@[i as int]@));
        }
        i += 1;
    }
    assert(model.take(ids.len() as int) =~= model);
    out
}

/// The tabs with `change` in place of the worksets of tab `at`, and with the
/// worksets `a` and `b` taken out of every other tab.
spec fn rebuilt(tabs: Seq<TabView>, a: Seq<char>, b: Seq<char>, at: Option<int>, change: Seq<Seq<char>>)
    -> Seq<TabView> {
    Seq::new(
        tabs.len(),
        |i: int|
            if at == Some(i) {
                TabView { worksets: change, ..tabs[i] }
            } else {
                tab_without(tabs[i], a, b)
            },
    )
}

fn rebuild(tabs: &Vec<TabConfig>, a: &str, b: &str, at: Option<usize>, change: Vec<String>) -> (out:
    Vec<TabConfig>)
    ensures
        out.deep_view() == rebuilt(
            tabs.deep_view(),
            a@,
            b@,
            match at {
                Some(k) => Some(k as int),
                None => None,
            },
            change.deep_view(),
        ),
{
    let ghost model = tabs.deep_view();
    let ghost place: Option<int> = match at {
        Some(k) => Some(k as int),
        None => None,
    };
    let ghost want = rebuilt(model, a@, b@, place, change.deep_view());
    let mut out: Vec<TabConfig> = Vec::new();
    let mut i: usize = 0;
    while i < tabs.len()
        invariant
            i <= tabs.len(),
            model == tabs.deep_view(),
            want == rebuilt(model, a@, b@, place, change.deep_view()),
            place == (match at {
                Some(k) => Some(k as int),
                None => None::<int>,
            }),
            out.deep_view().len() == i,
            forall|k: int| 0 <= k < i ==> out.deep_view()[k] == want[k],
        decreases tabs.len() - i,
    {
        let ghost before = out.deep_view();
        let tab = &tabs[i];
        let worksets = if at == Some(i) {
            copy_texts(&change)
        } else {
            strip(&tab.worksets, a, b)
        };
        assert(at == Some(i) ==> worksets.deep_view() =~= change.deep_view());
        let made = TabConfig {
            id: tab.id.clone(),
            label: tab.label.clone(),
            worksets,
            include_unassigned: tab.include_unassigned,
        };
        assert(model[i as int] == tabs@[i as int]@);
        assert(made@ == want[i as int]);
        out.push(made);
        assert(out.deep_view() =~= before.push(made@));
        i += 1;
    }
    assert(out.deep_view() =~= want);
    out
}

/// The message for a workset that is not there: it names the id asked for
/// and the ids that there are.
pub open spec fn not_found_message(ids: Seq<Seq<char>>, id: Seq<char>) -> Seq<char> {
    "workset not found: "@ + id + ". available: "@ + if ids.len() == 0 {
        "<none>"@
    } else {
        joined(ids)
    }
}

/// The texts in a row, with a comma and a space between two of them.
pub open spec fn joined(texts: Seq<Seq<char>>) -> Seq<char>
    decreases texts.len(),
{
    if texts.len() == 0 {
        Seq::empty()
    } else if texts.len() == 1 {
        texts[0]
    } else {
        joined(texts.drop_last()) + ", "@ + texts.last()
    }
}

/// Finds the workset of the id `id`: the first of that id, or the message
/// that says which worksets there are.
pub fn find_workset<'a>(cfg: &'a AppConfig, id: &str) -> (out: Result<&'a Workset, String>)
    ensures
        match out {
            Ok(ws) => first_index(workset_ids(cfg@.worksets), id@) matches Some(i) && ws@
                == cfg@.worksets[i as int],
            Err(message) => first_index(workset_ids(cfg@.worksets), id@) is None && message@
                == not_found_message(workset_ids(cfg@.worksets), id@),
        },
{
    match workset_index(&cfg.worksets, id) {
        Some(i) => {
            assert(cfg@.worksets[i as int] == cfg.worksets@[i as int]@);
            Ok(&cfg.worksets[i])
        },
        None => {
            let ghost ids = workset_ids(cfg@.worksets);
            let mut message = String::from_str("workset not found: ");
            message.append(id);
            message.append(". available: ");
            let ghost head = message@;
            if cfg.worksets.len() == 0 {
                message.append("<none>");
            } else {
                let mut k: usize = 0;
                while k < cfg.worksets.len()
                    invariant
                        k <= cfg.worksets.len(),
                        cfg.worksets.len() > 0,
                        ids == workset_ids(cfg@.worksets),
                        message@ == head + joined(ids.take(k as int)),
                    decreases cfg.worksets.len() - k,
                {
                    let ghost next = ids.take(k as int + 1);
                    proof {
                        assert(next.drop_last() =~= ids.take(k as int));
                        assert(next.last() == cfg.worksets@[k as int].id@);
                    }
                    if k > 0 {
                        message.append(", ");
                    }
                    message.append(cfg.worksets[k].id.as_str());
                    assert(message@ =~= head + joined(next));
                    k += 1;
                }
                assert(ids.take(cfg.worksets.len() as int) =~= ids);
            }
            assert(message@ =~= not_found_message(ids, id@));
            Err(message)
        },
    }
}

/// The tabs as the editor offers them, and the id of the first tab that
/// holds the workset `workset_id`.
pub fn load_tab_state(cfg: &AppConfig, workset_id: &str) -> (out: (Vec<TabOption>, Option<String>))
    ensures
        out.0.deep_view() == Seq::new(
            cfg@.tabs.len(),
            |i: int| (cfg@.tabs[i].id, cfg@.tabs[i].label),
        ),
        out.1.deep_view() == match first_holder(cfg@.tabs, workset_id@) {
            Some(k) => Some(cfg@.tabs[k as int].id),
            None => None,
        },
{
    let ghost tabs = cfg@.tabs;
    let mut selected: Option<String> = None;
    let mut options: Vec<TabOption> = Vec::new();
    let mut i: usize = 0;
    while i < cfg.tabs.len()
        invariant
            i <= cfg.tabs.len(),
            tabs == cfg@.tabs,
            options.deep_view().len() == i,
            forall|k: int| 0 <= k < i ==> options.deep_view()[k] == (tabs[k].id, tabs[k].label),
            match selected {
                Some(id) => exists|h: int|
                    0 <= h < i && first_holder(tabs, workset_id@) == Some(h as nat) && id@
                        == tabs[h].id,
                None => forall|k: int|
                    0 <= k < i ==> first_index(#[trigger] tabs[k].worksets, workset_id@) is None,
            },
        decreases cfg.tabs.len() - i,
    {
        let tab = &cfg.tabs[i];
        assert(tabs[i as int] == cfg.tabs@[i as int]@);
        if selected.is_none() {
            if index_of(&tab.worksets, workset_id).is_some() {
                proof {
                    lemma_first_holder_found(tabs, workset_id@, i as int);
                }
                selected = Some(tab.id.clone());
            }
        }
        let ghost before = options.deep_view();
        options.push(TabOption { id: tab.id.clone(), label: tab.label.clone() });
        assert(options.deep_view() =~= before.push((tab.id@, tab.label@)));
        i += 1;
    }
    proof {
        if selected is None {
            lemma_first_holder_none(tabs, workset_id@);
        }
        assert(options.deep_view() =~= Seq::new(tabs.len(), |i: int| (tabs[i].id, tabs[i].label)));
    }
    (options, selected)
}

/// Whether a workset other than the one saved as `saved_id` has the id `id`.
pub open spec fn id_taken(worksets: Seq<WorksetView>, id: Seq<char>, saved_id: Seq<char>) -> bool {
    id != saved_id && first_index(workset_ids(worksets), id) is Some
}

/// The worksets with `ws` saved: in place of the workset that was saved as
/// `saved_id`, else in place of the workset of its own id, else at the end.
pub open spec fn saved_worksets(worksets: Seq<WorksetView>, ws: WorksetView, saved_id: Seq<char>)
    -> Seq<WorksetView> {
    match first_index(workset_ids(worksets), saved_id) {
        Some(i) => worksets.update(i as int, ws),
        None => match first_index(workset_ids(worksets), ws.id) {
            Some(i) => worksets.update(i as int, ws),
            None => worksets.push(ws),
        },
    }
}

/// The configuration with `ws` saved and put into the tab `selected`, if one
/// is selected and there is a tab of that id. The workset leaves every other
/// tab, under its old id as under its new one; a configuration that comes to
/// hold a workset in a tab is of version 2 at least.
pub open spec fn persisted(
    cfg: ConfigView,
    ws: WorksetView,
    saved_id: Seq<char>,
    selected: Option<Seq<char>>,
) -> ConfigView {
    let worksets = saved_worksets(cfg.worksets, ws, saved_id);
    let stripped = tabs_without(cfg.tabs, saved_id, ws.id);
    match selected {
        Some(target) => match first_index(tab_ids(cfg.tabs), target) {
            Some(k) => ConfigView {
                version: if cfg.version < 2 {
                    2
                } else {
                    cfg.version
                },
                worksets,
                tabs: stripped.update(
                    k as int,
                    TabView {
                        worksets: stripped[k as int].worksets.push(ws.id),
                        ..stripped[k as int]
                    },
                ),
                ..cfg
            },
            None => ConfigView { worksets, tabs: stripped, ..cfg },
        },
        None => ConfigView { worksets, tabs: stripped, ..cfg },
    }
}

/// Saves the workset `ws`, which was last saved as `saved_id`, and puts it
/// into the tab `selected_tab`. Refused, with the configuration unchanged,
/// where another workset has its id.
pub fn persist_workset(
    cfg: &mut AppConfig,
    ws: &Workset,
    saved_id: &str,
    selected_tab: &Option<String>,
) -> (out: Result<(), PersistError>)
    ensures
        match out {
            Ok(_) => !id_taken(old(cfg)@.worksets, ws@.id, saved_id@) && final(cfg)@ == persisted(
                old(cfg)@,
                ws@,
                saved_id@,
                selected_tab.deep_view(),
            ),
            Err(e) => e == PersistError::IdExists && id_taken(
                old(cfg)@.worksets,
                ws@.id,
                saved_id@,
            ) && final(cfg)@ == old(cfg)@,
        },
{
    let ghost before = cfg@;
    let own = workset_index(&cfg.worksets, ws.id.as_str());
    if own.is_some() && !same_text(ws.id.as_str(), saved_id) {
        return Err(PersistError::IdExists);
    }
    let copy = ws.duplicate();
    match workset_index(&cfg.worksets, saved_id) {
        Some(i) => {
            cfg.worksets.set(i, copy);
            assert(cfg.worksets.deep_view() =~= before.worksets.update(i as int, ws@));
        },
        None => match own {
            Some(i) => {
                cfg.worksets.set(i, copy);
                assert(cfg.worksets.deep_view() =~= before.worksets.update(i as int, ws@));
            },
            None => {
                cfg.worksets.push(copy);
                assert(cfg.worksets.deep_view() =~= before.worksets.push(ws@));
            },
        },
    }
    let target: Option<usize> = match selected_tab {
        Some(t) => tab_index(&cfg.tabs, t.as_str()),
        None => None,
    };
    let change: Vec<String> = match target {
        Some(k) => {
            let mut list = strip(&cfg.tabs[k].worksets, saved_id, ws.id.as_str());
            let ghost kept = list.deep_view();
            list.push(ws.id.clone());
            assert(list.deep_view() =~= kept.push(ws.id@));
            assert(before.tabs[k as int] == cfg.tabs@[k as int]@);
            list
        },
        None => Vec::new(),
    };
    let tabs = rebuild(&cfg.tabs, saved_id, ws.id.as_str(), target, change);
    proof {
        let stripped = tabs_without(before.tabs, saved_id@, ws@.id);
        match target {
            Some(k) => {
                assert(tabs.deep_view() =~= stripped.update(
                    k as int,
                    TabView {
                        worksets: stripped[k as int].worksets.push(ws@.id),
                        ..stripped[k as int]
                    },
                ));
            },
            None => {
                assert(tabs.deep_view() =~= stripped);
            },
        }
    }
    if target.is_some() && cfg.version < 2 {
        cfg.version = 2;
    }
    cfg.tabs = tabs;
    Ok(())
}

/// The place where a workset goes in the list of its tab: where it stood
/// before if it stays in its tab, held at the end of the list; else the end.
pub open spec fn place_in(
    tabs: Seq<TabView>,
    workset_id: Seq<char>,
    target: Seq<char>,
    list: Seq<Seq<char>>,
) -> int {
    match first_holder(tabs, workset_id) {
        Some(h) => if tabs[h as int].id == target {
            let was = first_index(tabs[h as int].worksets, workset_id)->0;
            if was < list.len() {
                was as int
            } else {
                list.len() as int
            }
        } else {
            list.len() as int
        },
        None => list.len() as int,
    }
}

/// The configuration with the workset moved to the tab `tab_id`, or out of
/// all tabs where none is given, and whether that could be done. A
/// configuration without tabs stays as it is. A tab that does not exist
/// cannot take the workset, which is then in no tab.
pub open spec fn assigned(cfg: ConfigView, workset_id: Seq<char>, tab_id: Option<Seq<char>>) -> (
    ConfigView,
    bool,
) {
    if cfg.tabs.len() == 0 {
        (cfg, true)
    } else {
        let version = if cfg.version < 2 {
            2
        } else {
            cfg.version
        };
        let stripped = tabs_without(cfg.tabs, workset_id, workset_id);
        match tab_id {
            None => (ConfigView { version, tabs: stripped, ..cfg }, true),
            Some(target) => match first_index(tab_ids(cfg.tabs), target) {
                None => (ConfigView { version, tabs: stripped, ..cfg }, false),
                Some(k) => {
                    let list = stripped[k as int].worksets;
                    let at = place_in(cfg.tabs, workset_id, target, list);
                    (
                        ConfigView {
                            version,
                            tabs: stripped.update(
                                k as int,
                                TabView {
                                    worksets: list.insert(at, workset_id),
                                    ..stripped[k as int]
                                },
                            ),
                            ..cfg
                        },
                        true,
                    )
                },
            },
        }
    }
}

fn holder_of(tabs: &Vec<TabConfig>, workset_id: &str) -> (out: Option<(usize, usize)>)
    ensures
        match out {
            Some((h, pos)) => h < tabs.len() && first_holder(tabs.deep_view(), workset_id@) == Some(
                h as nat,
            ) && first_index(tabs.deep_view()[h as int].worksets, workset_id@) == Some(pos as nat),
            None => first_holder(tabs.deep_view(), workset_id@) is None,
        },
{
    let ghost model = tabs.deep_view();
    let mut i: usize = 0;
    while i < tabs.len()
        invariant
            i <= tabs.len(),
            model == tabs.deep_view(),
            forall|k: int| 0 <= k < i ==> first_index(#[trigger] model[k].worksets, workset_id@) is None,
        decreases tabs.len() - i,
    {
        assert(model[i as int] == tabs@[i as int]@);
        match index_of(&tabs[i].worksets, workset_id) {
            Some(pos) => {
                proof {
                    lemma_first_holder_found(model, workset_id@, i as int);
                }
                return Some((i, pos));
            },
            None => {},
        }
        i += 1;
    }
    proof {
        lemma_first_holder_none(model, workset_id@);
    }
    None
}

/// Moves a workset to the tab `tab_id`, or out of all tabs where none is
/// given. Says whether that could be done.
pub fn assign_workset_to_tab(cfg: &mut AppConfig, workset_id: &str, tab_id: Option<&str>) -> (ok:
    bool)
    ensures
        (final(cfg)@, ok) == assigned(old(cfg)@, workset_id@, tab_id.deep_view()),
{
    if cfg.tabs.len() == 0 {
        return true;
    }
    let ghost before = cfg@;
    if cfg.version < 2 {
        cfg.version = 2;
    }
    let previous = holder_of(&cfg.tabs, workset_id);
    let target: Option<usize> = match tab_id {
        Some(t) => tab_index(&cfg.tabs, t),
        None => None,
    };
    let change: Vec<String> = match target {
        Some(k) => {
            let mut list = strip(&cfg.tabs[k].worksets, workset_id, workset_id);
            assert(before.tabs[k as int] == cfg.tabs@[k as int]@);
            let end = list.len();
            let at: usize = match previous {
                Some((h, pos)) => {
                    assert(before.tabs[h as int] == cfg.tabs@[h as int]@);
                    if same_text(cfg.tabs[h].id.as_str(), cfg.tabs[k].id.as_str()) {
                        if pos < end {
                            pos
                        } else {
                            end
                        }
                    } else {
                        end
                    }
                },
                None => end,
            };
            proof {
                lemma_first_index_bound(tab_ids(before.tabs), tab_id->0@);
            }
            let ghost kept = list.deep_view();
            list.insert(at, String::from_str(workset_id));
            assert(list.deep_view() =~= kept.insert(at as int, workset_id@));
            list
        },
        None => Vec::new(),
    };
    let tabs = rebuild(&cfg.tabs, workset_id, workset_id, target, change);
    proof {
        let stripped = tabs_without(before.tabs, workset_id@, workset_id@);
        match target {
            Some(k) => {
                let list = stripped[k as int].worksets;
                let at = place_in(before.tabs, workset_id@, tab_id->0@, list);
                assert(tabs.deep_view() =~= stripped.update(
                    k as int,
                    TabView { worksets: list.insert(at, workset_id@), ..stripped[k as int] },
                ));
            },
            None => {
                assert(tabs.deep_view() =~= stripped);
            },
        }
    }
    cfg.tabs = tabs;
    match (tab_id, target) {
        (Some(_), None) => false,
        _ => true,
    }
}

/// Takes a workset out of every tab.
pub fn remove_workset_from_tabs(cfg: &mut AppConfig, workset_id: &str)
    ensures
        final(cfg)@ == (ConfigView {
            tabs: tabs_without(old(cfg)@.tabs, workset_id@, workset_id@),
            ..old(cfg)@
        }),
{
    let tabs = rebuild(&cfg.tabs, workset_id, workset_id, None, Vec::new());
    assert(tabs.deep_view() =~= tabs_without(cfg@.tabs, workset_id@, workset_id@));
    cfg.tabs = tabs;
}

} // verus!
