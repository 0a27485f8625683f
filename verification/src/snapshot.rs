//! The part of a session snapshot that naming and titling read.

use vstd::prelude::*;

use crate::search::{find_first, first_index, is_first};
use crate::search::{lemma_first_index, lemma_first_index_is, lemma_first_index_none};
use crate::text::{optional_view, same_text};

verus! {

#[derive(Debug, Clone)]
pub struct Workspace {
    pub workspace_id: String,
    pub label: String,
    pub number: Option<u32>,
    pub active_tab_id: Option<String>,
}

#[derive(Debug, Clone)]
pub struct Tab {
    pub tab_id: String,
    pub workspace_id: String,
    pub label: String,
    pub number: Option<u32>,
}

#[derive(Debug, Clone)]
pub struct Pane {
    pub pane_id: String,
    pub tab_id: String,
    pub cwd: String,
    pub focused: bool,
}

#[derive(Debug, Clone)]
pub struct Layout {
    pub tab_id: String,
    pub focused_pane_id: Option<String>,
}

#[derive(Debug, Clone)]
pub struct Snapshot {
    pub workspaces: Vec<Workspace>,
    pub tabs: Vec<Tab>,
    pub panes: Vec<Pane>,
    pub layouts: Vec<Layout>,
    pub focused_workspace_id: Option<String>,
    pub focused_tab_id: Option<String>,
    pub focused_pane_id: Option<String>,
}

/// Being the workspace with this id.
pub open spec fn workspace_is(id: Seq<char>) -> spec_fn(Workspace) -> bool {
    |workspace: Workspace| workspace.workspace_id@ == id
}

/// Being the tab with this id.
pub open spec fn tab_is(id: Seq<char>) -> spec_fn(Tab) -> bool {
    |tab: Tab| tab.tab_id@ == id
}

/// Being the pane with this id.
pub open spec fn pane_is(id: Seq<char>) -> spec_fn(Pane) -> bool {
    |pane: Pane| pane.pane_id@ == id
}

/// Being the layout of this tab.
pub open spec fn lays_out(tab_id: Seq<char>) -> spec_fn(Layout) -> bool {
    |layout: Layout| layout.tab_id@ == tab_id
}

/// Being a pane of this tab.
pub open spec fn stands_in(tab_id: Seq<char>) -> spec_fn(Pane) -> bool {
    |pane: Pane| pane.tab_id@ == tab_id
}

/// Being a pane of this tab that is flagged focused.
pub open spec fn focused_in(tab_id: Seq<char>) -> spec_fn(Pane) -> bool {
    |pane: Pane| pane.tab_id@ == tab_id && pane.focused
}

/// The first workspace with this id.
pub open spec fn workspace_with_id(workspaces: Seq<Workspace>, id: Seq<char>) -> Option<int> {
    first_index(workspaces, workspace_is(id))
}

/// The first tab with this id.
pub open spec fn tab_with_id(tabs: Seq<Tab>, id: Seq<char>) -> Option<int> {
    first_index(tabs, tab_is(id))
}

/// The first pane with this id.
pub open spec fn pane_with_id(panes: Seq<Pane>, id: Seq<char>) -> Option<int> {
    first_index(panes, pane_is(id))
}

/// The pane that the tab's layout names, where it names one that exists.
pub open spec fn pane_by_layout(
    layouts: Seq<Layout>,
    panes: Seq<Pane>,
    tab_id: Seq<char>,
) -> Option<int> {
    match first_index(layouts, lays_out(tab_id)) {
        Some(i) => match layouts[i].focused_pane_id {
            Some(pane_id) => pane_with_id(panes, pane_id@),
            None => None,
        },
        None => None,
    }
}

/// The position of the pane that names a tab: the tab's focused pane per the
/// layout, else the first of its panes flagged focused, else its first pane.
pub open spec fn active_pane(
    layouts: Seq<Layout>,
    panes: Seq<Pane>,
    tab_id: Seq<char>,
) -> Option<int> {
    let by_layout = pane_by_layout(layouts, panes, tab_id);
    let flagged = first_index(panes, focused_in(tab_id));
    if by_layout is Some {
        by_layout
    } else if flagged is Some {
        flagged
    } else {
        first_index(panes, stands_in(tab_id))
    }
}

/// The pane at a position, where there is one.
pub open spec fn pane_at(panes: Seq<Pane>, at: Option<int>) -> Option<Pane> {
    match at {
        Some(i) => Some(panes[i]),
        None => None,
    }
}

impl Snapshot {
    /// The pane that names a tab.
    pub open spec fn tab_pane(&self, tab_id: Seq<char>) -> Option<Pane> {
        pane_at(self.panes@, active_pane(self.layouts@, self.panes@, tab_id))
    }

    /// The pane that names a workspace: that of its active tab.
    pub open spec fn workspace_pane(&self, workspace: Workspace) -> Option<Pane> {
        match workspace.active_tab_id {
            Some(tab_id) => self.tab_pane(tab_id@),
            None => None,
        }
    }

    /// The first workspace with this id.
    pub fn find_workspace(&self, id: &str) -> (r: Option<&Workspace>)
        ensures
            match r {
                Some(workspace) => workspace_with_id(self.workspaces@, id@) matches Some(i)
                    && self.workspaces@[i] == *workspace,
                None => workspace_with_id(self.workspaces@, id@) is None,
            },
    {
        let test = |workspace: &Workspace| -> (yes: bool)
            ensures
                yes == (workspace.workspace_id@ == id@),
        {
            same_text(workspace.workspace_id.as_str(), id)
        };
        let found: Option<usize> = find_first(&self.workspaces, test, Ghost(workspace_is(id@)));
        match found {
            Some(i) => Some(&self.workspaces[i]),
            None => None,
        }
    }

    /// The first tab with this id.
    pub fn find_tab(&self, id: &str) -> (r: Option<&Tab>)
        ensures
            match r {
                Some(tab) => tab_with_id(self.tabs@, id@) matches Some(i) && self.tabs@[i] == *tab,
                None => tab_with_id(self.tabs@, id@) is None,
            },
    {
        let test = |tab: &Tab| -> (yes: bool)
            ensures
                yes == (tab.tab_id@ == id@),
        {
            same_text(tab.tab_id.as_str(), id)
        };
        let found: Option<usize> = find_first(&self.tabs, test, Ghost(tab_is(id@)));
        match found {
            Some(i) => Some(&self.tabs[i]),
            None => None,
        }
    }

    /// The first pane with this id.
    pub fn find_pane(&self, id: &str) -> (r: Option<&Pane>)
        ensures
            match r {
                Some(pane) => pane_at(self.panes@, pane_with_id(self.panes@, id@)) == Some(*pane),
                None => pane_with_id(self.panes@, id@) is None,
            },
    {
        let test = |pane: &Pane| -> (yes: bool)
            ensures
                yes == (pane.pane_id@ == id@),
        {
            same_text(pane.pane_id.as_str(), id)
        };
        let found: Option<usize> = find_first(&self.panes, test, Ghost(pane_is(id@)));
        match found {
            Some(i) => Some(&self.panes[i]),
            None => None,
        }
    }

    /// The pane that the tab's layout names, where it names one that exists.
    fn pane_from_layout(&self, tab_id: &str) -> (r: Option<&Pane>)
        ensures
            match r {
                Some(pane) => pane_at(
                    self.panes@,
                    pane_by_layout(self.layouts@, self.panes@, tab_id@),
                ) == Some(*pane),
                None => pane_by_layout(self.layouts@, self.panes@, tab_id@) is None,
            },
    {
        let test = |layout: &Layout| -> (yes: bool)
            ensures
                yes == (layout.tab_id@ == tab_id@),
        {
            same_text(layout.tab_id.as_str(), tab_id)
        };
        let found: Option<usize> = find_first(&self.layouts, test, Ghost(lays_out(tab_id@)));
        match found {
            Some(i) => match &self.layouts[i].focused_pane_id {
                Some(pane_id) => self.find_pane(pane_id.as_str()),
                None => None,
            },
            None => None,
        }
    }

    /// The pane whose directory names a tab: the tab's focused pane per the
    /// layout, else any pane flagged focused, else the tab's first pane.
    /// tmux names a window after its *active* pane, and so do we.
    pub fn active_pane_of_tab(&self, tab_id: &str) -> (r: Option<&Pane>)
        ensures
            match r {
                Some(pane) => self.tab_pane(tab_id@) == Some(*pane),
                None => self.tab_pane(tab_id@) is None,
            },
    {
        let from_layout: Option<&Pane> = self.pane_from_layout(tab_id);
        if from_layout.is_some() {
            return from_layout;
        }
        let test = |pane: &Pane| -> (yes: bool)
            ensures
                yes == (pane.tab_id@ == tab_id@ && pane.focused),
        {
            same_text(pane.tab_id.as_str(), tab_id) && pane.focused
        };
        let flagged: Option<usize> = find_first(&self.panes, test, Ghost(focused_in(tab_id@)));
        match flagged {
            Some(i) => {
                return Some(&self.panes[i]);
            },
            None => {},
        }
        let test = |pane: &Pane| -> (yes: bool)
            ensures
                yes == (pane.tab_id@ == tab_id@),
        {
            same_text(pane.tab_id.as_str(), tab_id)
        };
        let first: Option<usize> = find_first(&self.panes, test, Ghost(stands_in(tab_id@)));
        match first {
            Some(i) => Some(&self.panes[i]),
            None => None,
        }
    }

    /// The pane whose directory names a workspace: that of its active tab.
    pub fn active_pane_of_workspace(&self, workspace: &Workspace) -> (r: Option<&Pane>)
        ensures
            match r {
                Some(pane) => self.workspace_pane(*workspace) == Some(*pane),
                None => self.workspace_pane(*workspace) is None,
            },
    {
        match &workspace.active_tab_id {
            Some(tab_id) => self.active_pane_of_tab(tab_id.as_str()),
            None => None,
        }
    }
}

/// A pane that the layout of a tab names wins over every other pane of the
/// tab.
pub proof fn the_layout_decides_the_active_pane(snapshot: Snapshot, layout: int, pane: int)
    requires
        is_first(
            snapshot.layouts@,
            lays_out(snapshot.layouts@[layout].tab_id@),
            layout,
        ),
        snapshot.layouts@[layout].focused_pane_id matches Some(id) && is_first(
            snapshot.panes@,
            pane_is(id@),
            pane,
        ),
    ensures
        snapshot.tab_pane(snapshot.layouts@[layout].tab_id@) == Some(snapshot.panes@[pane]),
{
    let tab_id = snapshot.layouts@[layout].tab_id@;
    let id = snapshot.layouts@[layout].focused_pane_id->0;
    lemma_first_index_is(snapshot.layouts@, lays_out(tab_id), layout);
    lemma_first_index_is(snapshot.panes@, pane_is(id@), pane);
}

/// A tab with a pane has an active pane.
pub proof fn a_tab_with_a_pane_has_an_active_pane(snapshot: Snapshot, pane: int)
    requires
        0 <= pane < snapshot.panes@.len(),
    ensures
        snapshot.tab_pane(snapshot.panes@[pane].tab_id@) is Some,
{
    let tab_id = snapshot.panes@[pane].tab_id@;
    lemma_first_index(snapshot.panes@, stands_in(tab_id));
}

/// The first layout of a tab, where there is one, names no pane that exists.
pub open spec fn no_layout_decides(snapshot: Snapshot, tab_id: Seq<char>) -> bool {
    forall|i: int, j: int, id: Seq<char>|
        #![trigger snapshot.layouts@[i], snapshot.panes@[j], id.len()]
        0 <= i < snapshot.layouts@.len() && 0 <= j < snapshot.panes@.len()
            && snapshot.layouts@[i].tab_id@ == tab_id && (forall|k: int|
            0 <= k < i ==> (#[trigger] snapshot.layouts@[k]).tab_id@ != tab_id)
            && optional_view(snapshot.layouts@[i].focused_pane_id) == Some(id)
            ==> snapshot.panes@[j].pane_id@ != id
}

/// The pane that names a tab, by the layout: where the tab's first layout names
/// a pane that exists, it is the first pane with that id.
pub proof fn the_layout_names_the_pane(snapshot: Snapshot, tab_id: Seq<char>, i: int, j: int)
    requires
        0 <= i < snapshot.layouts@.len(),
        snapshot.layouts@[i].tab_id@ == tab_id,
        forall|k: int| 0 <= k < i ==> (#[trigger] snapshot.layouts@[k]).tab_id@ != tab_id,
        0 <= j < snapshot.panes@.len(),
        snapshot.layouts@[i].focused_pane_id matches Some(id) && snapshot.panes@[j].pane_id@ == id@
            && forall|k: int| 0 <= k < j ==> (#[trigger] snapshot.panes@[k]).pane_id@ != id@,
    ensures
        snapshot.tab_pane(tab_id) == Some(snapshot.panes@[j]),
{
    let id = snapshot.layouts@[i].focused_pane_id->0@;
    lemma_first_index_is(snapshot.layouts@, lays_out(tab_id), i);
    lemma_first_index_is(snapshot.panes@, pane_is(id), j);
}

/// The pane that names a tab, where no layout decides: the first of its panes
/// that is flagged focused, else the first of its panes, else none.
pub proof fn without_a_layout_the_focused_pane_counts(
    snapshot: Snapshot,
    tab_id: Seq<char>,
    j: int,
)
    requires
        no_layout_decides(snapshot, tab_id),
        0 <= j < snapshot.panes@.len() && snapshot.panes@[j].tab_id@ == tab_id,
        snapshot.panes@[j].focused || forall|k: int|
            0 <= k < snapshot.panes@.len() && (#[trigger] snapshot.panes@[k]).tab_id@ == tab_id
                ==> !snapshot.panes@[k].focused,
        forall|k: int|
            0 <= k < j && (#[trigger] snapshot.panes@[k]).tab_id@ == tab_id
                ==> snapshot.panes@[j].focused && !snapshot.panes@[k].focused,
    ensures
        snapshot.tab_pane(tab_id) == Some(snapshot.panes@[j]),
{
    lemma_no_layout_decides(snapshot, tab_id);
    if snapshot.panes@[j].focused {
        lemma_first_index_is(snapshot.panes@, focused_in(tab_id), j);
    } else {
        lemma_first_index_none(snapshot.panes@, focused_in(tab_id));
        lemma_first_index_is(snapshot.panes@, stands_in(tab_id), j);
    }
}

/// A tab without panes is named after none, unless its layout decides.
pub proof fn a_tab_without_panes_has_no_active_pane(snapshot: Snapshot, tab_id: Seq<char>)
    requires
        no_layout_decides(snapshot, tab_id),
        forall|k: int|
            0 <= k < snapshot.panes@.len() ==> (#[trigger] snapshot.panes@[k]).tab_id@ != tab_id,
    ensures
        snapshot.tab_pane(tab_id) is None,
{
    lemma_no_layout_decides(snapshot, tab_id);
    lemma_first_index_none(snapshot.panes@, focused_in(tab_id));
    lemma_first_index_none(snapshot.panes@, stands_in(tab_id));
}

proof fn lemma_no_layout_decides(snapshot: Snapshot, tab_id: Seq<char>)
    requires
        no_layout_decides(snapshot, tab_id),
    ensures
        pane_by_layout(snapshot.layouts@, snapshot.panes@, tab_id) is None,
{
    lemma_first_index(snapshot.layouts@, lays_out(tab_id));
    match first_index(snapshot.layouts@, lays_out(tab_id)) {
        Some(i) => {
            assert(snapshot.layouts@[i].tab_id@ == tab_id);
            assert forall|k: int| 0 <= k < i implies (#[trigger] snapshot.layouts@[k]).tab_id@
                != tab_id by {
                assert(!lays_out(tab_id)(snapshot.layouts@[k]));
            }
            if snapshot.layouts@[i].focused_pane_id is Some {
                let id = snapshot.layouts@[i].focused_pane_id->0@;
                assert(id.len() >= 0);
                assert forall|j: int| 0 <= j < snapshot.panes@.len() implies !pane_is(id)(
                    #[trigger] snapshot.panes@[j],
                ) by {
                    assert(snapshot.layouts@[i].tab_id@ == tab_id);
                }
                lemma_first_index_none(snapshot.panes@, pane_is(id));
            }
        },
        None => {},
    }
}

/// A workspace is named after the pane of its active tab, and after none where
/// it has no active tab.
pub proof fn a_workspace_follows_its_active_tab(snapshot: Snapshot, workspace: Workspace)
    ensures
        workspace.active_tab_id matches Some(tab_id) ==> snapshot.workspace_pane(workspace)
            == snapshot.tab_pane(tab_id@),
        workspace.active_tab_id is None ==> snapshot.workspace_pane(workspace) is None,
{
}

} // verus!
