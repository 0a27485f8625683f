//! Which tabs and workspaces to rename, and the title that follows.

use vstd::prelude::*;

use crate::config::{Config, ConfigView};
use crate::rename::{rename_views, Rename, RenameView};
use crate::snapshot::{Pane, Snapshot, Tab, Workspace};
use crate::state::{plan_label, LabelKind, State, StateView};
use crate::text::{blank, find_text};
use crate::text::{is_blank, optional_str_view, optional_view, trimmed, views};
use crate::title::build_title;

verus! {

/// What a directory is called, in the two shapes the plugin needs.
#[derive(Debug, Clone, PartialEq, Eq)]
pub struct Names {
    /// Worktree/repo root basename, else the directory basename.
    pub tab: String,
    /// `repo` on the default branch, `repo/branch` elsewhere, else basename.
    pub workspace: String,
}

impl Default for Names {
    fn default() -> (names: Names)
        ensures
            names.tab@ == Seq::<char>::empty(),
            names.workspace@ == Seq::<char>::empty(),
    {
        Names { tab: String::new(), workspace: String::new() }
    }
}

#[derive(Debug, Clone, PartialEq, Eq)]
pub struct Plan {
    pub tabs: Vec<Rename>,
    pub workspaces: Vec<Rename>,
    /// `None` means there is nothing focused to describe; clear the title.
    pub title: Option<String>,
}

/// A plan in mathematical terms.
#[verifier::ext_equal]
pub struct PlanView {
    pub tabs: Seq<RenameView>,
    pub workspaces: Seq<RenameView>,
    pub title: Option<Seq<char>>,
}

impl View for Plan {
    type V = PlanView;

    open spec fn view(&self) -> PlanView {
        PlanView {
            tabs: rename_views(self.tabs@),
            workspaces: rename_views(self.workspaces@),
            title: optional_view(self.title),
        }
    }
}

impl Default for Plan {
    fn default() -> (plan: Plan)
        ensures
            plan@ == (PlanView { tabs: Seq::empty(), workspaces: Seq::empty(), title: None }),
    {
        let plan: Plan = Plan { tabs: Vec::new(), workspaces: Vec::new(), title: None };
        plan
    }
}

/// A tab or a workspace as far as its label goes.
pub struct Slot {
    pub id: Seq<char>,
    pub label: Seq<char>,
    pub number: Option<u32>,
}

pub open spec fn tab_slot(tab: Tab) -> Slot {
    Slot { id: tab.tab_id@, label: tab.label@, number: tab.number }
}

pub open spec fn workspace_slot(workspace: Workspace) -> Slot {
    Slot { id: workspace.workspace_id@, label: workspace.label@, number: workspace.number }
}

pub open spec fn tab_slots(tabs: Seq<Tab>) -> Seq<Slot> {
    tabs.map_values(|tab: Tab| tab_slot(tab))
}

pub open spec fn workspace_slots(workspaces: Seq<Workspace>) -> Seq<Slot> {
    workspaces.map_values(|workspace: Workspace| workspace_slot(workspace))
}

/// The directory that a pane gives a name after, if it has one.
pub open spec fn directory_of(pane: Option<Pane>) -> Option<Seq<char>> {
    match pane {
        Some(pane) => if is_blank(pane.cwd@) {
            None
        } else {
            Some(pane.cwd@)
        },
        None => None,
    }
}

impl Snapshot {
    /// For each tab, the directory it is named after.
    pub open spec fn tab_directories(&self) -> Seq<Option<Seq<char>>> {
        self.tabs@.map_values(|tab: Tab| directory_of(self.tab_pane(tab.tab_id@)))
    }

    /// For each workspace, the directory it is named after.
    pub open spec fn workspace_directories(&self) -> Seq<Option<Seq<char>>> {
        self.workspaces@.map_values(
            |workspace: Workspace| directory_of(self.workspace_pane(workspace)),
        )
    }
}

/// What becomes of the labels of a number of slots, taken in order, where
/// `desired` holds the label that each should read; a blank one means that the
/// slot is to be left as it is.
pub open spec fn planned(
    state: StateView,
    kind: LabelKind,
    slots: Seq<Slot>,
    desired: Seq<Seq<char>>,
) -> (StateView, Seq<RenameView>)
    decreases slots.len(),
{
    if slots.len() == 0 {
        (state, Seq::empty())
    } else {
        let (before, renames) = planned(state, kind, slots.drop_last(), desired);
        let slot = slots.last();
        let (after, label) = before.planning(
            kind,
            slot.id,
            slot.label,
            slot.number,
            desired[slots.len() - 1],
        );
        (
            after,
            match label {
                Some(label) => renames.push(RenameView { id: slot.id, label }),
                None => renames,
            },
        )
    }
}

/// The tab labels that names ask for.
pub open spec fn tab_labels(names: Seq<Names>) -> Seq<Seq<char>> {
    names.map_values(|names: Names| names.tab@)
}

/// The workspace labels that names ask for.
pub open spec fn workspace_labels(names: Seq<Names>) -> Seq<Seq<char>> {
    names.map_values(|names: Names| names.workspace@)
}

/// The plan for a snapshot, and the state that it leaves behind, where the two
/// sequences hold the label that each tab and each workspace should read.
pub open spec fn plan_of(
    snapshot: Snapshot,
    config: ConfigView,
    state: StateView,
    home: Option<Seq<char>>,
    tab_labels: Seq<Seq<char>>,
    workspace_labels: Seq<Seq<char>>,
) -> (StateView, PlanView) {
    let (middle, tabs) = if config.rename_tabs {
        planned(state, LabelKind::Tab, tab_slots(snapshot.tabs@), tab_labels)
    } else {
        (state, Seq::empty())
    };
    let (end, workspaces) = if config.rename_workspaces {
        planned(
            middle,
            LabelKind::Workspace,
            workspace_slots(snapshot.workspaces@),
            workspace_labels,
        )
    } else {
        (middle, Seq::empty())
    };
    (
        end,
        PlanView { tabs, workspaces, title: snapshot.title(config, home, tabs, workspaces) },
    )
}

/// Whether a plan takes the names of this directory.
pub open spec fn asks_about(snapshot: Snapshot, config: ConfigView, directory: Seq<char>) -> bool {
    ||| config.rename_tabs && snapshot.tab_directories().contains(Some(directory))
    ||| config.rename_workspaces && snapshot.workspace_directories().contains(Some(directory))
}

/// The directories that a plan takes the names of, tabs first, as often as they
/// are taken.
pub open spec fn directories_asked(
    snapshot: Snapshot,
    config: ConfigView,
) -> Seq<Option<Seq<char>>> {
    let tabs = if config.rename_tabs {
        snapshot.tab_directories()
    } else {
        Seq::empty()
    };
    let workspaces = if config.rename_workspaces {
        snapshot.workspace_directories()
    } else {
        Seq::empty()
    };
    tabs + workspaces
}

/// A list with a directory added to it, unless it is there already.
pub open spec fn with_directory(
    known: Seq<Seq<char>>,
    directory: Option<Seq<char>>,
) -> Seq<Seq<char>> {
    match directory {
        Some(directory) => if known.contains(directory) {
            known
        } else {
            known.push(directory)
        },
        None => known,
    }
}

/// Each of the directories once, in the order in which they first come.
pub open spec fn each_once(asked: Seq<Option<Seq<char>>>) -> Seq<Seq<char>>
    decreases asked.len(),
{
    if asked.len() == 0 {
        Seq::empty()
    } else {
        with_directory(each_once(asked.drop_last()), asked.last())
    }
}

/// The tab label that a directory asks for, where `answers` holds the names of
/// each of the directories that are `known`; none where there is no directory.
pub open spec fn tab_label_for(
    known: Seq<Seq<char>>,
    answers: Seq<Names>,
    directory: Option<Seq<char>>,
) -> Seq<char> {
    match directory {
        Some(directory) => answers[known.index_of(directory)].tab@,
        None => Seq::empty(),
    }
}

/// The workspace label that a directory asks for.
pub open spec fn workspace_label_for(
    known: Seq<Seq<char>>,
    answers: Seq<Names>,
    directory: Option<Seq<char>>,
) -> Seq<char> {
    match directory {
        Some(directory) => answers[known.index_of(directory)].workspace@,
        None => Seq::empty(),
    }
}

/// The plan for a snapshot, and the state that it leaves behind, where `answers`
/// holds the names of each directory that the plan is about, each once.
pub open spec fn plan_once_asked(
    snapshot: Snapshot,
    config: ConfigView,
    state: StateView,
    home: Option<Seq<char>>,
    answers: Seq<Names>,
) -> (StateView, PlanView) {
    let known = each_once(directories_asked(snapshot, config));
    plan_of(
        snapshot,
        config,
        state,
        home,
        snapshot.tab_directories().map_values(
            |directory: Option<Seq<char>>| tab_label_for(known, answers, directory),
        ),
        snapshot.workspace_directories().map_values(
            |directory: Option<Seq<char>>| workspace_label_for(known, answers, directory),
        ),
    )
}

/// `names` is an answer of `resolve` for `directory`, or, where there is no
/// directory to ask about, blank.
pub open spec fn answers<F: FnMut(&str) -> Names>(
    resolve: F,
    directory: Option<Seq<char>>,
    names: Names,
) -> bool {
    match directory {
        Some(directory) => exists|asked: &str|
            asked@ == directory && #[trigger] call_ensures(resolve, (asked,), names),
        None => names.tab@.len() == 0 && names.workspace@.len() == 0,
    }
}

/// `names` holds an answer of `resolve` for each of the directories.
pub open spec fn answers_all<F: FnMut(&str) -> Names>(
    resolve: F,
    directories: Seq<Option<Seq<char>>>,
    names: Seq<Names>,
) -> bool {
    &&& names.len() == directories.len()
    &&& forall|i: int|
        0 <= i < names.len() ==> answers(resolve, directories[i], #[trigger] names[i])
}

/// The names are answers of `resolve` for the directories that the tabs and
/// workspaces are named after, and `outcome` is the plan that they ask for,
/// with the state that it leaves behind.
pub open spec fn names_lead_to<F: FnMut(&str) -> Names>(
    resolve: F,
    snapshot: Snapshot,
    config: ConfigView,
    home: Option<Seq<char>>,
    tab_names: Seq<Names>,
    workspace_names: Seq<Names>,
    state: StateView,
    outcome: (StateView, PlanView),
) -> bool {
    &&& config.rename_tabs ==> answers_all(resolve, snapshot.tab_directories(), tab_names)
    &&& config.rename_workspaces ==> answers_all(
        resolve,
        snapshot.workspace_directories(),
        workspace_names,
    )
    &&& outcome == plan_of(
        snapshot,
        config,
        state,
        home,
        tab_labels(tab_names),
        workspace_labels(workspace_names),
    )
}

/// Decide on one label and add the rename, if it takes one, to the list.
fn plan_slot(
    state: &mut State,
    renames: &mut Vec<Rename>,
    kind: LabelKind,
    id: &str,
    label: &str,
    number: Option<u32>,
    desired: &str,
)
    ensures
        ({
            let (after, written) = old(state)@.planning(kind, id@, label@, number, desired@);
            &&& final(state)@ == after
            &&& rename_views(final(renames)@) == match written {
                Some(written) => rename_views(old(renames)@).push(
                    RenameView { id: id@, label: written },
                ),
                None => rename_views(old(renames)@),
            }
        }),
{
    match plan_label(state, kind, id, label, number, desired) {
        Some(label) => {
            renames.push(Rename { id: id.to_string(), label: label.to_string() });
        },
        None => {},
    }
}

/// The plan for a snapshot where what each tab and each workspace should be
/// called is known: one entry for each of them, blank names for one that has no
/// directory to be called after.
pub fn plan_from_names(
    snapshot: &Snapshot,
    config: &Config,
    state: &mut State,
    home: Option<&str>,
    tab_names: &Vec<Names>,
    workspace_names: &Vec<Names>,
) -> (plan: Plan)
    requires
        config.rename_tabs ==> tab_names@.len() == snapshot.tabs@.len(),
        config.rename_workspaces ==> workspace_names@.len() == snapshot.workspaces@.len(),
    ensures
        (final(state)@, plan@) == plan_of(
            *snapshot,
            config@,
            old(state)@,
            optional_str_view(home),
            tab_labels(tab_names@),
            workspace_labels(workspace_names@),
        ),
{
    let mut tabs: Vec<Rename> = Vec::new();
    let mut workspaces: Vec<Rename> = Vec::new();
    let ghost start = state@;
    let ghost t_slots = tab_slots(snapshot.tabs@);
    let ghost t_labels = tab_labels(tab_names@);
    let ghost w_slots = workspace_slots(snapshot.workspaces@);
    let ghost w_labels = workspace_labels(workspace_names@);

    if config.rename_tabs {
        let mut i: usize = 0;
        while i < snapshot.tabs.len()
            invariant
                i <= snapshot.tabs@.len(),
                tab_names@.len() == snapshot.tabs@.len(),
                t_slots == tab_slots(snapshot.tabs@),
                t_labels == tab_labels(tab_names@),
                (state@, rename_views(tabs@)) == planned(
                    start,
                    LabelKind::Tab,
                    t_slots.take(i as int),
                    t_labels,
                ),
            decreases snapshot.tabs@.len() - i,
        {
            let tab: &Tab = &snapshot.tabs[i];
            proof {
                let next = t_slots.take(i + 1);
                assert(next.drop_last() =~= t_slots.take(i as int));
            }
            plan_slot(
                state,
                &mut tabs,
                LabelKind::Tab,
                tab.tab_id.as_str(),
                tab.label.as_str(),
                tab.number,
                tab_names[i].tab.as_str(),
            );
            i = i + 1;
        }
        assert(t_slots.take(i as int) =~= t_slots);
    }
    let ghost middle = state@;

    if config.rename_workspaces {
        let mut i: usize = 0;
        while i < snapshot.workspaces.len()
            invariant
                i <= snapshot.workspaces@.len(),
                workspace_names@.len() == snapshot.workspaces@.len(),
                w_slots == workspace_slots(snapshot.workspaces@),
                w_labels == workspace_labels(workspace_names@),
                (state@, rename_views(workspaces@)) == planned(
                    middle,
                    LabelKind::Workspace,
                    w_slots.take(i as int),
                    w_labels,
                ),
            decreases snapshot.workspaces@.len() - i,
        {
            let workspace: &Workspace = &snapshot.workspaces[i];
            proof {
                let next = w_slots.take(i + 1);
                assert(next.drop_last() =~= w_slots.take(i as int));
            }
            plan_slot(
                state,
                &mut workspaces,
                LabelKind::Workspace,
                workspace.workspace_id.as_str(),
                workspace.label.as_str(),
                workspace.number,
                workspace_names[i].workspace.as_str(),
            );
            i = i + 1;
        }
        assert(w_slots.take(i as int) =~= w_slots);
    }

    let title: Option<String> = build_title(snapshot, config, home, &tabs, &workspaces);
    Plan { tabs, workspaces, title }
}

/// Listing directories once loses none, adds none and repeats none.
proof fn lemma_each_once(asked: Seq<Option<Seq<char>>>)
    ensures
        each_once(asked).no_duplicates(),
        forall|directory: Seq<char>| #[trigger]
            each_once(asked).contains(directory) <==> asked.contains(Some(directory)),
    decreases asked.len(),
{
    if asked.len() > 0 {
        let before = asked.drop_last();
        lemma_each_once(before);
        assert forall|directory: Seq<char>| #[trigger]
            each_once(asked).contains(directory) <==> asked.contains(Some(directory)) by {
            if asked.contains(Some(directory)) && asked.last() != Some(directory) {
                let i = choose|i: int| 0 <= i < asked.len() && asked[i] == Some(directory);
                assert(before[i] == Some(directory));
            }
            if before.contains(Some(directory)) {
                let i = choose|i: int| 0 <= i < before.len() && before[i] == Some(directory);
                assert(asked[i] == Some(directory));
                assert(each_once(before).contains(directory));
                let k = choose|k: int|
                    0 <= k < each_once(before).len() && each_once(before)[k] == directory;
                assert(each_once(asked)[k] == directory);
            }
            if asked.last() == Some(directory) && !each_once(before).contains(directory) {
                assert(each_once(asked).last() == directory);
            }
            if each_once(asked).contains(directory) && !each_once(before).contains(directory) {
                assert(asked.last() == Some(directory));
            }
        }
    }
}

/// What is asked about is what the list of directories holds.
proof fn lemma_directories_asked(snapshot: Snapshot, config: ConfigView)
    ensures
        forall|directory: Seq<char>|
            directories_asked(snapshot, config).contains(Some(directory)) <==> #[trigger]
            asks_about(snapshot, config, directory),
{
    let tabs = if config.rename_tabs {
        snapshot.tab_directories()
    } else {
        Seq::empty()
    };
    let workspaces = if config.rename_workspaces {
        snapshot.workspace_directories()
    } else {
        Seq::empty()
    };
    let all = directories_asked(snapshot, config);
    assert forall|directory: Seq<char>|
        all.contains(Some(directory)) <==> #[trigger] asks_about(snapshot, config, directory) by {
        let wanted = Some(directory);
        if all.contains(wanted) {
            let i = choose|i: int| 0 <= i < all.len() && all[i] == wanted;
            if i < tabs.len() {
                assert(tabs[i] == wanted);
            } else {
                assert(workspaces[i - tabs.len()] == wanted);
            }
        }
        if tabs.contains(wanted) {
            let i = choose|i: int| 0 <= i < tabs.len() && tabs[i] == wanted;
            assert(all[i] == wanted);
        }
        if workspaces.contains(wanted) {
            let i = choose|i: int| 0 <= i < workspaces.len() && workspaces[i] == wanted;
            assert(all[tabs.len() + i] == wanted);
        }
    }
}

/// Add the directory that a pane gives a name after, unless it is there
/// already.
fn push_directory(known: &mut Vec<String>, pane: Option<&Pane>)
    ensures
        views(final(known)@) == with_directory(
            views(old(known)@),
            directory_of(
                match pane {
                    Some(pane) => Some(*pane),
                    None => None,
                },
            ),
        ),
{
    match pane {
        Some(pane) => {
            if !blank(pane.cwd.as_str()) {
                if find_text(known, pane.cwd.as_str()).is_none() {
                    known.push(pane.cwd.clone());
                }
            }
        },
        None => {},
    }
}

/// The directories that a plan takes the names of: each of them once, in the
/// order in which they first come, tabs before workspaces.
pub fn directories_to_name(snapshot: &Snapshot, config: &Config) -> (directories: Vec<String>)
    ensures
        views(directories@) == each_once(directories_asked(*snapshot, config@)),
        views(directories@).no_duplicates(),
        forall|directory: Seq<char>| #[trigger]
            views(directories@).contains(directory) <==> asks_about(
                *snapshot,
                config@,
                directory,
            ),
{
    let mut directories: Vec<String> = Vec::new();
    let ghost tabs = snapshot.tab_directories();
    let ghost workspaces = snapshot.workspace_directories();
    let ghost mut listed: Seq<Option<Seq<char>>> = Seq::empty();

    if config.rename_tabs {
        let mut i: usize = 0;
        while i < snapshot.tabs.len()
            invariant
                i <= snapshot.tabs@.len(),
                tabs == snapshot.tab_directories(),
                views(directories@) == each_once(tabs.take(i as int)),
            decreases snapshot.tabs@.len() - i,
        {
            push_directory(
                &mut directories,
                snapshot.active_pane_of_tab(snapshot.tabs[i].tab_id.as_str()),
            );
            assert(tabs.take(i + 1).drop_last() =~= tabs.take(i as int));
            i = i + 1;
        }
        assert(tabs.take(i as int) =~= tabs);
        proof {
            listed = tabs;
        }
    }
    if config.rename_workspaces {
        let mut i: usize = 0;
        assert(listed + workspaces.take(0) =~= listed);
        while i < snapshot.workspaces.len()
            invariant
                i <= snapshot.workspaces@.len(),
                workspaces == snapshot.workspace_directories(),
                views(directories@) == each_once(listed + workspaces.take(i as int)),
            decreases snapshot.workspaces@.len() - i,
        {
            push_directory(
                &mut directories,
                snapshot.active_pane_of_workspace(&snapshot.workspaces[i]),
            );
            assert((listed + workspaces.take(i + 1)).drop_last() =~= listed + workspaces.take(
                i as int,
            ));
            i = i + 1;
        }
        assert(workspaces.take(i as int) =~= workspaces);
        proof {
            listed = listed + workspaces;
        }
    }
    proof {
        assert(listed =~= directories_asked(*snapshot, config@));
        lemma_each_once(listed);
        lemma_directories_asked(*snapshot, config@);
    }
    directories
}

/// The names for what a pane gives a name to, out of the answers for the known
/// directories.
fn names_for(pane: Option<&Pane>, known: &Vec<String>, answers: &Vec<Names>) -> (names: Names)
    requires
        answers@.len() == known@.len(),
        views(known@).no_duplicates(),
        pane matches Some(pane) ==> directory_of(Some(*pane)) matches Some(directory) ==> views(
            known@,
        ).contains(directory),
    ensures
        ({
            let directory = directory_of(
                match pane {
                    Some(pane) => Some(*pane),
                    None => None,
                },
            );
            &&& names.tab@ == tab_label_for(views(known@), answers@, directory)
            &&& names.workspace@ == workspace_label_for(views(known@), answers@, directory)
        }),
{
    match pane {
        Some(pane) => if blank(pane.cwd.as_str()) {
            Names::default()
        } else {
            match find_text(known, pane.cwd.as_str()) {
                Some(i) => {
                    assert(views(known@).index_of(pane.cwd@) == i);
                    Names {
                        tab: answers[i].tab.clone(),
                        workspace: answers[i].workspace.clone(),
                    }
                },
                None => Names::default(),
            }
        },
        None => Names::default(),
    }
}

/// The plan for a snapshot where the names of the directories that
/// `directories_to_name` lists are known, in that order: each directory is
/// asked about only once, however many tabs and workspaces share it.
pub fn plan_from_answers(
    snapshot: &Snapshot,
    config: &Config,
    state: &mut State,
    home: Option<&str>,
    answers: &Vec<Names>,
) -> (plan: Plan)
    requires
        answers@.len() == each_once(directories_asked(*snapshot, config@)).len(),
    ensures
        (final(state)@, plan@) == plan_once_asked(
            *snapshot,
            config@,
            old(state)@,
            optional_str_view(home),
            answers@,
        ),
{
    let known: Vec<String> = directories_to_name(snapshot, config);
    let ghost t_dirs = snapshot.tab_directories();
    let ghost w_dirs = snapshot.workspace_directories();
    let ghost t_labels = t_dirs.map_values(
        |directory: Option<Seq<char>>| tab_label_for(views(known@), answers@, directory),
    );
    let ghost w_labels = w_dirs.map_values(
        |directory: Option<Seq<char>>| workspace_label_for(views(known@), answers@, directory),
    );

    let mut tab_names: Vec<Names> = Vec::new();
    if config.rename_tabs {
        let mut i: usize = 0;
        while i < snapshot.tabs.len()
            invariant
                i <= snapshot.tabs@.len(),
                config.rename_tabs,
                t_dirs == snapshot.tab_directories(),
                answers@.len() == known@.len(),
                views(known@).no_duplicates(),
                forall|directory: Seq<char>| #[trigger]
                    views(known@).contains(directory) <==> asks_about(
                        *snapshot,
                        config@,
                        directory,
                    ),
                t_labels == t_dirs.map_values(
                    |directory: Option<Seq<char>>|
                        tab_label_for(views(known@), answers@, directory),
                ),
                tab_labels(tab_names@) == t_labels.take(i as int),
            decreases snapshot.tabs@.len() - i,
        {
            let pane: Option<&Pane> = snapshot.active_pane_of_tab(
                snapshot.tabs[i].tab_id.as_str(),
            );
            assert(t_dirs.contains(t_dirs[i as int]));
            let names: Names = names_for(pane, &known, answers);
            let ghost before = tab_names@;
            tab_names.push(names);
            assert(tab_labels(tab_names@) =~= tab_labels(before).push(names.tab@));
            i = i + 1;
        }
        assert(tab_labels(tab_names@) =~= t_labels);
    }

    let mut workspace_names: Vec<Names> = Vec::new();
    if config.rename_workspaces {
        let mut i: usize = 0;
        while i < snapshot.workspaces.len()
            invariant
                i <= snapshot.workspaces@.len(),
                config.rename_workspaces,
                w_dirs == snapshot.workspace_directories(),
                answers@.len() == known@.len(),
                views(known@).no_duplicates(),
                forall|directory: Seq<char>| #[trigger]
                    views(known@).contains(directory) <==> asks_about(
                        *snapshot,
                        config@,
                        directory,
                    ),
                w_labels == w_dirs.map_values(
                    |directory: Option<Seq<char>>|
                        workspace_label_for(views(known@), answers@, directory),
                ),
                workspace_labels(workspace_names@) == w_labels.take(i as int),
            decreases snapshot.workspaces@.len() - i,
        {
            let pane: Option<&Pane> = snapshot.active_pane_of_workspace(&snapshot.workspaces[i]);
            assert(w_dirs.contains(w_dirs[i as int]));
            let names: Names = names_for(pane, &known, answers);
            let ghost before = workspace_names@;
            workspace_names.push(names);
            assert(workspace_labels(workspace_names@) =~= workspace_labels(before).push(
                names.workspace@,
            ));
            i = i + 1;
        }
        assert(workspace_labels(workspace_names@) =~= w_labels);
    }

    plan_from_names(snapshot, config, state, home, &tab_names, &workspace_names)
}

/// Build the full plan: which tabs and workspaces to rename, and the window
/// title that follows from the labels those renames will leave behind.
///
/// `resolve` maps a directory to its names; the caller supplies the git-aware
/// implementation. `state` is updated in place to record what we now own.
pub fn plan<F: FnMut(&str) -> Names>(
    snapshot: &Snapshot,
    config: &Config,
    state: &mut State,
    home: Option<&str>,
    mut resolve: F,
) -> (plan: Plan)
    requires
        forall|asked: &str|
            asks_about(*snapshot, config@, asked@) ==> #[trigger] call_requires(
                resolve,
                (asked,),
            ),
    ensures
        exists|tab_names: Seq<Names>, workspace_names: Seq<Names>|
            names_lead_to(
                resolve,
                *snapshot,
                config@,
                optional_str_view(home),
                tab_names,
                workspace_names,
                old(state)@,
                (final(state)@, plan@),
            ),
{
    let ghost asked = resolve;
    let ghost t_dirs = snapshot.tab_directories();
    let ghost w_dirs = snapshot.workspace_directories();

    let mut tab_names: Vec<Names> = Vec::new();
    if config.rename_tabs {
        let mut i: usize = 0;
        while i < snapshot.tabs.len()
            invariant
                i <= snapshot.tabs@.len(),
                config.rename_tabs,
                t_dirs == snapshot.tab_directories(),
                resolve == asked,
                forall|dir: &str|
                    asks_about(*snapshot, config@, dir@) ==> #[trigger] call_requires(
                        resolve,
                        (dir,),
                    ),
                answers_all(asked, t_dirs.take(i as int), tab_names@),
            decreases snapshot.tabs@.len() - i,
        {
            let names: Names = match snapshot.active_pane_of_tab(
                snapshot.tabs[i].tab_id.as_str(),
            ) {
                Some(pane) => if blank(pane.cwd.as_str()) {
                    Names::default()
                } else {
                    assert(t_dirs[i as int] == Some(pane.cwd@));
                    resolve(pane.cwd.as_str())
                },
                None => Names::default(),
            };
            tab_names.push(names);
            i = i + 1;
        }
    }

    let mut workspace_names: Vec<Names> = Vec::new();
    if config.rename_workspaces {
        let mut i: usize = 0;
        while i < snapshot.workspaces.len()
            invariant
                i <= snapshot.workspaces@.len(),
                config.rename_workspaces,
                w_dirs == snapshot.workspace_directories(),
                resolve == asked,
                forall|dir: &str|
                    asks_about(*snapshot, config@, dir@) ==> #[trigger] call_requires(
                        resolve,
                        (dir,),
                    ),
                answers_all(asked, w_dirs.take(i as int), workspace_names@),
            decreases snapshot.workspaces@.len() - i,
        {
            let names: Names = match snapshot.active_pane_of_workspace(&snapshot.workspaces[i]) {
                Some(pane) => if blank(pane.cwd.as_str()) {
                    Names::default()
                } else {
                    assert(w_dirs[i as int] == Some(pane.cwd@));
                    resolve(pane.cwd.as_str())
                },
                None => Names::default(),
            };
            workspace_names.push(names);
            i = i + 1;
        }
    }

    let plan: Plan = plan_from_names(
        snapshot,
        config,
        state,
        home,
        &tab_names,
        &workspace_names,
    );
    assert(names_lead_to(
        asked,
        *snapshot,
        config@,
        optional_str_view(home),
        tab_names@,
        workspace_names@,
        old(state)@,
        (state@, plan@),
    ));
    plan
}

/// Asking about each directory once is enough: where `resolve` has one answer
/// for each directory, a plan that asks every time and a plan from the answers,
/// each asked for once, are the same.
pub proof fn asking_once_is_enough<F: FnMut(&str) -> Names>(
    resolve: F,
    snapshot: Snapshot,
    config: ConfigView,
    home: Option<Seq<char>>,
    tab_names: Seq<Names>,
    workspace_names: Seq<Names>,
    state: StateView,
    outcome: (StateView, PlanView),
    once: Seq<Names>,
)
    requires
        names_lead_to(
            resolve,
            snapshot,
            config,
            home,
            tab_names,
            workspace_names,
            state,
            outcome,
        ),
        forall|one: &str, other: &str, names: Names, others: Names|
            one@ == other@ && #[trigger] call_ensures(resolve, (one,), names)
                && #[trigger] call_ensures(resolve, (other,), others) ==> names.tab@ == others.tab@
                && names.workspace@ == others.workspace@,
        ({
            let known = each_once(directories_asked(snapshot, config));
            &&& once.len() == known.len()
            &&& forall|i: int|
                0 <= i < once.len() ==> answers(resolve, Some(known[i]), #[trigger] once[i])
        }),
    ensures
        outcome == plan_once_asked(snapshot, config, state, home, once),
{
    let known = each_once(directories_asked(snapshot, config));
    lemma_each_once(directories_asked(snapshot, config));
    lemma_directories_asked(snapshot, config);
    let tabs = snapshot.tab_directories();
    let workspaces = snapshot.workspace_directories();
    if config.rename_tabs {
        assert forall|i: int| 0 <= i < tabs.len() implies #[trigger] tab_labels(tab_names)[i]
            == tab_label_for(known, once, tabs[i]) by {
            if tabs[i] is Some {
                let directory = tabs[i]->0;
                assert(tabs.contains(Some(directory)));
                assert(asks_about(snapshot, config, directory));
                assert(known.contains(directory));
            }
        }
        assert(tab_labels(tab_names) =~= tabs.map_values(
            |directory: Option<Seq<char>>| tab_label_for(known, once, directory),
        ));
    }
    if config.rename_workspaces {
        assert forall|i: int| 0 <= i < workspaces.len() implies #[trigger] workspace_labels(
            workspace_names,
        )[i] == workspace_label_for(known, once, workspaces[i]) by {
            if workspaces[i] is Some {
                let directory = workspaces[i]->0;
                assert(workspaces.contains(Some(directory)));
                assert(asks_about(snapshot, config, directory));
                assert(known.contains(directory));
            }
        }
        assert(workspace_labels(workspace_names) =~= workspaces.map_values(
            |directory: Option<Seq<char>>| workspace_label_for(known, once, directory),
        ));
    }
}

/// A tab is named after the directory of its active pane, a workspace after that
/// of its active tab's, and neither after a blank one.
pub proof fn directories_in_words(snapshot: Snapshot, i: int)
    ensures
        snapshot.tab_directories().len() == snapshot.tabs@.len(),
        snapshot.workspace_directories().len() == snapshot.workspaces@.len(),
        0 <= i < snapshot.tabs@.len() ==> snapshot.tab_directories()[i] == {
            let pane = snapshot.tab_pane(snapshot.tabs@[i].tab_id@);
            if pane is Some && trimmed(pane->0.cwd@).len() > 0 {
                Some(pane->0.cwd@)
            } else {
                None
            }
        },
        0 <= i < snapshot.workspaces@.len() ==> snapshot.workspace_directories()[i] == {
            let pane = snapshot.workspace_pane(snapshot.workspaces@[i]);
            if pane is Some && trimmed(pane->0.cwd@).len() > 0 {
                Some(pane->0.cwd@)
            } else {
                None
            }
        },
{
}

/// A tab takes the tab's part of its names, a workspace the workspace's.
pub proof fn names_have_two_parts(names: Seq<Names>, i: int)
    ensures
        tab_labels(names).len() == names.len(),
        workspace_labels(names).len() == names.len(),
        0 <= i < names.len() ==> tab_labels(names)[i] == names[i].tab@,
        0 <= i < names.len() ==> workspace_labels(names)[i] == names[i].workspace@,
{
}

/// What a plan knows of a tab and of a workspace is what the snapshot says.
pub proof fn slots_in_words(snapshot: Snapshot, i: int)
    ensures
        ({
            let tabs = tab_slots(snapshot.tabs@);
            let workspaces = workspace_slots(snapshot.workspaces@);
            &&& tabs.len() == snapshot.tabs@.len()
            &&& workspaces.len() == snapshot.workspaces@.len()
            &&& 0 <= i < tabs.len() ==> tabs[i].id == snapshot.tabs@[i].tab_id@ && tabs[i].label
                == snapshot.tabs@[i].label@ && tabs[i].number == snapshot.tabs@[i].number
            &&& 0 <= i < workspaces.len() ==> workspaces[i].id
                == snapshot.workspaces@[i].workspace_id@ && workspaces[i].label
                == snapshot.workspaces@[i].label@ && workspaces[i].number
                == snapshot.workspaces@[i].number
        }),
{
}

/// Labels are decided one after the other: a further one is decided in the state
/// that the others leave, and adds its rename, if it takes one, at the end.
pub proof fn labels_are_decided_in_order(
    state: StateView,
    kind: LabelKind,
    slots: Seq<Slot>,
    slot: Slot,
    desired: Seq<Seq<char>>,
)
    ensures
        planned(state, kind, Seq::empty(), desired) == (state, Seq::<RenameView>::empty()),
        ({
            let (before, renames) = planned(state, kind, slots, desired);
            let (after, more) = planned(state, kind, slots.push(slot), desired);
            let (decided, written) = before.planning(
                kind,
                slot.id,
                slot.label,
                slot.number,
                desired[slots.len() as int],
            );
            &&& after == decided
            &&& written is None ==> more == renames
            &&& written matches Some(label) ==> more == renames.push(
                RenameView { id: slot.id, label },
            )
        }),
{
    assert(slots.push(slot).drop_last() =~= slots);
}

/// Tabs are planned first, workspaces in the state that this leaves, each only
/// where it is asked for; the title goes with the renames of both.
pub proof fn a_plan_in_two_parts(
    snapshot: Snapshot,
    config: ConfigView,
    state: StateView,
    home: Option<Seq<char>>,
    tab_labels: Seq<Seq<char>>,
    workspace_labels: Seq<Seq<char>>,
)
    ensures
        ({
            let (after, plan) = plan_of(
                snapshot,
                config,
                state,
                home,
                tab_labels,
                workspace_labels,
            );
            let tabs = planned(state, LabelKind::Tab, tab_slots(snapshot.tabs@), tab_labels);
            let middle = if config.rename_tabs {
                tabs.0
            } else {
                state
            };
            let workspaces = planned(
                middle,
                LabelKind::Workspace,
                workspace_slots(snapshot.workspaces@),
                workspace_labels,
            );
            &&& config.rename_tabs ==> plan.tabs == tabs.1
            &&& !config.rename_tabs ==> plan.tabs.len() == 0
            &&& config.rename_workspaces ==> plan.workspaces == workspaces.1 && after
                == workspaces.0
            &&& !config.rename_workspaces ==> plan.workspaces.len() == 0 && after == middle
            &&& plan.title == snapshot.title(config, home, plan.tabs, plan.workspaces)
        }),
{
}

/// A plan asks about a directory exactly when a tab or a workspace is named
/// after it and renaming of that kind is on.
pub proof fn what_is_asked_about(snapshot: Snapshot, config: ConfigView, directory: Seq<char>)
    ensures
        asks_about(snapshot, config, directory) <==> ({
            ||| config.rename_tabs && exists|i: int|
                0 <= i < snapshot.tabs@.len() && #[trigger] snapshot.tab_directories()[i] == Some(
                    directory,
                )
            ||| config.rename_workspaces && exists|i: int|
                0 <= i < snapshot.workspaces@.len()
                    && #[trigger] snapshot.workspace_directories()[i] == Some(directory)
        }),
{
}

/// A directory that comes again is not listed again; a new one is listed at the
/// end.
pub proof fn directories_are_listed_as_they_come(
    asked: Seq<Option<Seq<char>>>,
    directory: Seq<char>,
)
    ensures
        each_once(Seq::empty()).len() == 0,
        each_once(asked.push(None)) == each_once(asked),
        asked.contains(Some(directory)) ==> each_once(asked.push(Some(directory))) == each_once(
            asked,
        ),
        !asked.contains(Some(directory)) ==> each_once(asked.push(Some(directory))) == each_once(
            asked,
        ).push(directory),
{
    lemma_each_once(asked);
    assert(asked.push(None).drop_last() =~= asked);
    assert(asked.push(Some(directory)).drop_last() =~= asked);
    assert(each_once(asked).contains(directory) <==> asked.contains(Some(directory)));
}

/// The tabs' directories come first, then the workspaces', each only where it is
/// asked for.
pub proof fn tabs_ask_before_workspaces(snapshot: Snapshot, config: ConfigView)
    ensures
        config.rename_tabs && config.rename_workspaces ==> directories_asked(snapshot, config)
            == snapshot.tab_directories() + snapshot.workspace_directories(),
        config.rename_tabs && !config.rename_workspaces ==> directories_asked(snapshot, config)
            == snapshot.tab_directories(),
        !config.rename_tabs && config.rename_workspaces ==> directories_asked(snapshot, config)
            == snapshot.workspace_directories(),
        !config.rename_tabs && !config.rename_workspaces ==> directories_asked(
            snapshot,
            config,
        ).len() == 0,
{
}

/// Names asked for once go to every tab and workspace that is named after the
/// directory: the plan is the one for the labels that hold, for each of them,
/// its part of the answer about its directory.
pub proof fn answers_go_to_their_directories(
    snapshot: Snapshot,
    config: ConfigView,
    state: StateView,
    home: Option<Seq<char>>,
    answers: Seq<Names>,
    tab_labels: Seq<Seq<char>>,
    workspace_labels: Seq<Seq<char>>,
)
    requires
        ({
            let known = each_once(directories_asked(snapshot, config));
            &&& tab_labels.len() == snapshot.tabs@.len()
            &&& workspace_labels.len() == snapshot.workspaces@.len()
            &&& answers.len() == known.len()
            &&& forall|i: int, k: int|
                0 <= i < tab_labels.len() && 0 <= k < known.len()
                    && snapshot.tab_directories()[i] == Some(known[k]) ==> #[trigger] tab_labels[i]
                    == (#[trigger] answers[k]).tab@
            &&& forall|i: int|
                0 <= i < tab_labels.len() && snapshot.tab_directories()[i] is None ==> (
                #[trigger] tab_labels[i]).len() == 0
            &&& forall|i: int, k: int|
                0 <= i < workspace_labels.len() && 0 <= k < known.len()
                    && snapshot.workspace_directories()[i] == Some(known[k])
                    ==> #[trigger] workspace_labels[i] == (#[trigger] answers[k]).workspace@
            &&& forall|i: int|
                0 <= i < workspace_labels.len() && snapshot.workspace_directories()[i] is None
                    ==> (#[trigger] workspace_labels[i]).len() == 0
        }),
    ensures
        plan_once_asked(snapshot, config, state, home, answers) == plan_of(
            snapshot,
            config,
            state,
            home,
            tab_labels,
            workspace_labels,
        ),
{
    let known = each_once(directories_asked(snapshot, config));
    lemma_each_once(directories_asked(snapshot, config));
    lemma_directories_asked(snapshot, config);
    let tabs = snapshot.tab_directories();
    let workspaces = snapshot.workspace_directories();
    if config.rename_tabs {
        assert forall|i: int| 0 <= i < tabs.len() implies #[trigger] tab_labels[i]
            == tab_label_for(known, answers, tabs[i]) by {
            if tabs[i] is Some {
                let directory = tabs[i]->0;
                assert(tabs.contains(Some(directory)));
                assert(asks_about(snapshot, config, directory));
                assert(known.contains(directory));
                let k = known.index_of(directory);
                assert(tab_labels[i] == answers[k].tab@);
            }
        }
        assert(tab_labels =~= tabs.map_values(
            |directory: Option<Seq<char>>| tab_label_for(known, answers, directory),
        ));
    }
    if config.rename_workspaces {
        assert forall|i: int| 0 <= i < workspaces.len() implies #[trigger] workspace_labels[i]
            == workspace_label_for(known, answers, workspaces[i]) by {
            if workspaces[i] is Some {
                let directory = workspaces[i]->0;
                assert(workspaces.contains(Some(directory)));
                assert(asks_about(snapshot, config, directory));
                assert(known.contains(directory));
                let k = known.index_of(directory);
                assert(workspace_labels[i] == answers[k].workspace@);
            }
        }
        assert(workspace_labels =~= workspaces.map_values(
            |directory: Option<Seq<char>>| workspace_label_for(known, answers, directory),
        ));
    }
}

/// A plan that asks as it goes takes, for each tab and workspace with a
/// directory, an answer about that very directory, and blank names for the rest;
/// it is the plan for the tabs' parts and the workspaces' parts of those.
pub proof fn a_plan_rests_on_answers<F: FnMut(&str) -> Names>(
    resolve: F,
    snapshot: Snapshot,
    config: ConfigView,
    home: Option<Seq<char>>,
    tab_names: Seq<Names>,
    workspace_names: Seq<Names>,
    state: StateView,
    outcome: (StateView, PlanView),
    i: int,
)
    requires
        names_lead_to(
            resolve,
            snapshot,
            config,
            home,
            tab_names,
            workspace_names,
            state,
            outcome,
        ),
    ensures
        config.rename_tabs ==> tab_names.len() == snapshot.tabs@.len(),
        config.rename_workspaces ==> workspace_names.len() == snapshot.workspaces@.len(),
        config.rename_tabs && 0 <= i < tab_names.len() ==> match snapshot.tab_directories()[i] {
            Some(directory) => exists|asked: &str|
                asked@ == directory && #[trigger] call_ensures(resolve, (asked,), tab_names[i]),
            None => tab_names[i].tab@.len() == 0,
        },
        config.rename_workspaces && 0 <= i < workspace_names.len()
            ==> match snapshot.workspace_directories()[i] {
            Some(directory) => exists|asked: &str|
                asked@ == directory && #[trigger] call_ensures(
                    resolve,
                    (asked,),
                    workspace_names[i],
                ),
            None => workspace_names[i].workspace@.len() == 0,
        },
        outcome == plan_of(
            snapshot,
            config,
            state,
            home,
            tab_labels(tab_names),
            workspace_labels(workspace_names),
        ),
{
    if config.rename_tabs && 0 <= i < tab_names.len() {
        assert(answers(resolve, snapshot.tab_directories()[i], tab_names[i]));
    }
    if config.rename_workspaces && 0 <= i < workspace_names.len() {
        assert(answers(resolve, snapshot.workspace_directories()[i], workspace_names[i]));
    }
}

} // verus!
