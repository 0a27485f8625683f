//! The window title.

use vstd::prelude::*;

use crate::config::{Config, ConfigView};
use crate::paths::{render_path, rendered_path};
use crate::rename::{effective_label, label_after, rename_views, Rename, RenameView};
use crate::search::{lemma_first_index_is, lemma_first_index_none};
use crate::snapshot::{pane_at, pane_is, pane_with_id, tab_is, tab_with_id};
use crate::snapshot::{workspace_is, workspace_with_id};
use crate::snapshot::{Pane, Snapshot, Tab, Workspace};
use crate::text::{is_blank, joined, lemma_trimmed, optional_str_view, optional_view, trimmed, views};
use crate::text::{join, trim};

verus! {

/// A title field: nothing where there is nothing to show.
pub open spec fn field(text: Option<Seq<char>>) -> Seq<Seq<char>> {
    match text {
        Some(text) => if is_blank(text) {
            Seq::empty()
        } else {
            seq![trimmed(text)]
        },
        None => Seq::empty(),
    }
}

impl Snapshot {
    /// The focused workspace, where the snapshot lists it.
    pub open spec fn focused_workspace(&self) -> Option<Workspace> {
        match self.focused_workspace_id {
            Some(id) => match workspace_with_id(self.workspaces@, id@) {
                Some(i) => Some(self.workspaces@[i]),
                None => None,
            },
            None => None,
        }
    }

    /// The id of the focused tab: the one that is flagged so, else the active
    /// tab of the focused workspace.
    pub open spec fn focused_tab_name(&self) -> Option<Seq<char>> {
        match (self.focused_tab_id, self.focused_workspace()) {
            (Some(id), _) => Some(id@),
            (None, Some(workspace)) => optional_view(workspace.active_tab_id),
            (None, None) => None,
        }
    }

    /// The focused tab, where the snapshot lists it.
    pub open spec fn focused_tab(&self) -> Option<Tab> {
        match self.focused_tab_name() {
            Some(id) => match tab_with_id(self.tabs@, id) {
                Some(i) => Some(self.tabs@[i]),
                None => None,
            },
            None => None,
        }
    }

    /// The pane that is flagged focused, where the snapshot lists it.
    pub open spec fn flagged_pane(&self) -> Option<Pane> {
        match self.focused_pane_id {
            Some(id) => pane_at(self.panes@, pane_with_id(self.panes@, id@)),
            None => None,
        }
    }

    /// The focused pane: the one that is flagged so, else the active pane of
    /// the focused tab.
    pub open spec fn focused_pane(&self) -> Option<Pane> {
        match (self.flagged_pane(), self.focused_tab_name()) {
            (Some(pane), _) => Some(pane),
            (None, Some(id)) => self.tab_pane(id),
            (None, None) => None,
        }
    }

    /// The fields of the title, once the renames are done: the labels of the
    /// focused workspace and tab and the focused pane's directory, each
    /// trimmed, without those that are blank.
    pub open spec fn title_fields(
        &self,
        config: ConfigView,
        home: Option<Seq<char>>,
        tabs: Seq<RenameView>,
        workspaces: Seq<RenameView>,
    ) -> Seq<Seq<char>> {
        field(
            match self.focused_workspace() {
                Some(workspace) => Some(
                    label_after(workspaces, workspace.workspace_id@, workspace.label@),
                ),
                None => None,
            },
        ) + field(
            match self.focused_tab() {
                Some(tab) => Some(label_after(tabs, tab.tab_id@, tab.label@)),
                None => None,
            },
        ) + field(
            match self.focused_pane() {
                Some(pane) => Some(rendered_path(pane.cwd@, config.path_style, home)),
                None => None,
            },
        )
    }

    /// The title, once the renames are done. Where no workspace is focused, or
    /// there is nothing to show of what is, there is no title.
    pub open spec fn title(
        &self,
        config: ConfigView,
        home: Option<Seq<char>>,
        tabs: Seq<RenameView>,
        workspaces: Seq<RenameView>,
    ) -> Option<Seq<char>> {
        let fields = self.title_fields(config, home, tabs, workspaces);
        if self.focused_workspace_id is None || fields.len() == 0 {
            None
        } else {
            Some(joined(fields, config.separator))
        }
    }
}

/// Add a field to the title, unless it is blank.
fn push_field(fields: &mut Vec<String>, text: &str)
    ensures
        views(final(fields)@) == views(old(fields)@) + field(Some(text@)),
{
    let text: &str = trim(text);
    if !text.is_empty() {
        fields.push(text.to_string());
    }
}

/// The window title that follows from a snapshot and the renames that are
/// about to be issued, so that the title never lags a rename by one event.
pub fn build_title(
    snapshot: &Snapshot,
    config: &Config,
    home: Option<&str>,
    tabs: &Vec<Rename>,
    workspaces: &Vec<Rename>,
) -> (title: Option<String>)
    ensures
        optional_view(title) == snapshot.title(
            config@,
            optional_str_view(home),
            rename_views(tabs@),
            rename_views(workspaces@),
        ),
{
    let workspace: Option<&Workspace> = match &snapshot.focused_workspace_id {
        Some(id) => snapshot.find_workspace(id.as_str()),
        None => {
            return None;
        },
    };
    let tab_id: Option<&str> = match &snapshot.focused_tab_id {
        Some(id) => Some(id.as_str()),
        None => match workspace {
            Some(workspace) => match &workspace.active_tab_id {
                Some(id) => Some(id.as_str()),
                None => None,
            },
            None => None,
        },
    };
    let tab: Option<&Tab> = match tab_id {
        Some(id) => snapshot.find_tab(id),
        None => None,
    };
    let flagged: Option<&Pane> = match &snapshot.focused_pane_id {
        Some(id) => snapshot.find_pane(id.as_str()),
        None => None,
    };
    let pane: Option<&Pane> = match flagged {
        Some(pane) => Some(pane),
        None => match tab_id {
            Some(id) => snapshot.active_pane_of_tab(id),
            None => None,
        },
    };

    let mut fields: Vec<String> = Vec::new();
    proof {
        let none = Seq::<Seq<char>>::empty();
        assert(forall|s: Seq<Seq<char>>| #[trigger] (s + none) == s);
        assert(forall|s: Seq<Seq<char>>| #[trigger] (none + s) == s);
    }
    match workspace {
        Some(workspace) => {
            let label: String = effective_label(
                workspaces,
                workspace.workspace_id.as_str(),
                workspace.label.as_str(),
            );
            push_field(&mut fields, label.as_str());
        },
        None => {},
    }
    match tab {
        Some(tab) => {
            let label: String = effective_label(tabs, tab.tab_id.as_str(), tab.label.as_str());
            push_field(&mut fields, label.as_str());
        },
        None => {},
    }
    match pane {
        Some(pane) => {
            let path: String = render_path(pane.cwd.as_str(), config.path_style, home);
            push_field(&mut fields, path.as_str());
        },
        None => {},
    }
    if fields.len() == 0 {
        None
    } else {
        Some(join(&fields, config.separator.as_str()))
    }
}

/// A title has at most three fields, none of them blank, and none with white
/// space around it.
pub proof fn title_fields_are_trimmed(
    snapshot: Snapshot,
    config: ConfigView,
    home: Option<Seq<char>>,
    tabs: Seq<RenameView>,
    workspaces: Seq<RenameView>,
)
    ensures
        ({
            let fields = snapshot.title_fields(config, home, tabs, workspaces);
            &&& fields.len() <= 3
            &&& forall|i: int|
                0 <= i < fields.len() ==> (#[trigger] fields[i]).len() > 0 && trimmed(fields[i])
                    == fields[i]
        }),
{
    assert forall|text: Option<Seq<char>>, i: int|
        0 <= i < #[trigger] field(text).len() implies (#[trigger] field(text)[i]).len() > 0
        && trimmed(field(text)[i]) == field(text)[i] by {
        lemma_trimmed(text->0);
    }
}

/// With nothing focused there is no title: it is cleared.
pub proof fn with_nothing_focused_there_is_no_title(
    snapshot: Snapshot,
    config: ConfigView,
    home: Option<Seq<char>>,
    tabs: Seq<RenameView>,
    workspaces: Seq<RenameView>,
)
    requires
        snapshot.focused_workspace_id is None,
    ensures
        snapshot.title(config, home, tabs, workspaces) is None,
{
}

/// Where the focused workspace, tab and directory all have something to show,
/// the title is the three of them in this order, with the separator between.
pub proof fn a_full_title_reads_workspace_tab_path(
    snapshot: Snapshot,
    config: ConfigView,
    home: Option<Seq<char>>,
    tabs: Seq<RenameView>,
    workspaces: Seq<RenameView>,
)
    requires
        snapshot.focused_workspace() matches Some(workspace) && !is_blank(
            label_after(workspaces, workspace.workspace_id@, workspace.label@),
        ),
        snapshot.focused_tab() matches Some(tab) && !is_blank(
            label_after(tabs, tab.tab_id@, tab.label@),
        ),
        snapshot.focused_pane() matches Some(pane) && !is_blank(
            rendered_path(pane.cwd@, config.path_style, home),
        ),
    ensures
        ({
            let workspace = snapshot.focused_workspace()->0;
            let tab = snapshot.focused_tab()->0;
            let pane = snapshot.focused_pane()->0;
            snapshot.title(config, home, tabs, workspaces) == Some(
                trimmed(label_after(workspaces, workspace.workspace_id@, workspace.label@))
                    + config.separator + trimmed(label_after(tabs, tab.tab_id@, tab.label@))
                    + config.separator + trimmed(
                    rendered_path(pane.cwd@, config.path_style, home),
                ),
            )
        }),
{
    reveal_with_fuel(joined, 3);
}

/// What the title shows of a workspace, a tab and a path: those that are not
/// blank, trimmed, in this order, with the separator between.
pub open spec fn title_from(
    workspace: Option<Seq<char>>,
    tab: Option<Seq<char>>,
    path: Option<Seq<char>>,
    separator: Seq<char>,
) -> Option<Seq<char>> {
    let shows = |text: Option<Seq<char>>| text is Some && trimmed(text->0).len() > 0;
    let w = trimmed(workspace->0);
    let t = trimmed(tab->0);
    let p = trimmed(path->0);
    if shows(workspace) {
        if shows(tab) {
            if shows(path) {
                Some(w + separator + t + separator + p)
            } else {
                Some(w + separator + t)
            }
        } else if shows(path) {
            Some(w + separator + p)
        } else {
            Some(w)
        }
    } else if shows(tab) {
        if shows(path) {
            Some(t + separator + p)
        } else {
            Some(t)
        }
    } else if shows(path) {
        Some(p)
    } else {
        None
    }
}

/// `i` is where the first workspace with this id stands, if there is one.
pub open spec fn finds_workspace(
    snapshot: Snapshot,
    id: Seq<char>,
    i: Option<int>,
) -> bool {
    match i {
        Some(i) => 0 <= i < snapshot.workspaces@.len() && snapshot.workspaces@[i].workspace_id@
            == id && forall|k: int|
            0 <= k < i ==> (#[trigger] snapshot.workspaces@[k]).workspace_id@ != id,
        None => forall|k: int|
            0 <= k < snapshot.workspaces@.len() ==> (
            #[trigger] snapshot.workspaces@[k]).workspace_id@ != id,
    }
}

/// `i` is where the first tab with this id stands, if there is an id and such a
/// tab.
pub open spec fn finds_tab(snapshot: Snapshot, id: Option<Seq<char>>, i: Option<int>) -> bool {
    match i {
        Some(i) => 0 <= i < snapshot.tabs@.len() && Some(snapshot.tabs@[i].tab_id@) == id
            && forall|k: int| 0 <= k < i ==> Some((#[trigger] snapshot.tabs@[k]).tab_id@) != id,
        None => forall|k: int|
            0 <= k < snapshot.tabs@.len() ==> Some((#[trigger] snapshot.tabs@[k]).tab_id@) != id,
    }
}

/// `i` is where the first pane with this id stands, if there is an id and such a
/// pane.
pub open spec fn finds_pane(snapshot: Snapshot, id: Option<Seq<char>>, i: Option<int>) -> bool {
    match i {
        Some(i) => 0 <= i < snapshot.panes@.len() && Some(snapshot.panes@[i].pane_id@) == id
            && forall|k: int| 0 <= k < i ==> Some((#[trigger] snapshot.panes@[k]).pane_id@) != id,
        None => forall|k: int|
            0 <= k < snapshot.panes@.len() ==> Some((#[trigger] snapshot.panes@[k]).pane_id@) != id,
    }
}

/// The title shows the focused workspace and tab, by the labels they will read,
/// and the directory of the focused pane. The tab is the focused one, or, where
/// none is, the active tab of the workspace; the pane is the focused one, or,
/// where none is, the active pane of that tab.
pub proof fn the_title_shows_what_is_focused(
    snapshot: Snapshot,
    config: ConfigView,
    home: Option<Seq<char>>,
    tabs: Seq<RenameView>,
    workspaces: Seq<RenameView>,
    w: Option<int>,
    t: Option<int>,
    p: Option<int>,
    tab_id: Option<Seq<char>>,
)
    requires
        snapshot.focused_workspace_id matches Some(id) && finds_workspace(snapshot, id@, w),
        tab_id == if snapshot.focused_tab_id is Some {
            optional_view(snapshot.focused_tab_id)
        } else if w is Some {
            optional_view(snapshot.workspaces@[w->0].active_tab_id)
        } else {
            None
        },
        finds_tab(snapshot, tab_id, t),
        finds_pane(snapshot, optional_view(snapshot.focused_pane_id), p),
    ensures
        ({
            let workspace = if w is Some {
                Some(
                    label_after(
                        workspaces,
                        snapshot.workspaces@[w->0].workspace_id@,
                        snapshot.workspaces@[w->0].label@,
                    ),
                )
            } else {
                None
            };
            let tab = if t is Some {
                Some(
                    label_after(
                        tabs,
                        snapshot.tabs@[t->0].tab_id@,
                        snapshot.tabs@[t->0].label@,
                    ),
                )
            } else {
                None
            };
            let pane = if p is Some {
                Some(snapshot.panes@[p->0])
            } else if tab_id is Some {
                snapshot.tab_pane(tab_id->0)
            } else {
                None
            };
            let path = if pane is Some {
                Some(rendered_path(pane->0.cwd@, config.path_style, home))
            } else {
                None
            };
            snapshot.title(config, home, tabs, workspaces) == title_from(
                workspace,
                tab,
                path,
                config.separator,
            )
        }),
{
    reveal_with_fuel(joined, 3);
    let id = snapshot.focused_workspace_id->0@;
    match w {
        Some(i) => lemma_first_index_is(snapshot.workspaces@, workspace_is(id), i),
        None => lemma_first_index_none(snapshot.workspaces@, workspace_is(id)),
    }
    if tab_id is Some {
        match t {
            Some(i) => lemma_first_index_is(snapshot.tabs@, tab_is(tab_id->0), i),
            None => lemma_first_index_none(snapshot.tabs@, tab_is(tab_id->0)),
        }
    }
    if snapshot.focused_pane_id is Some {
        let pane_id = snapshot.focused_pane_id->0@;
        match p {
            Some(i) => lemma_first_index_is(snapshot.panes@, pane_is(pane_id), i),
            None => lemma_first_index_none(snapshot.panes@, pane_is(pane_id)),
        }
    }
}

} // verus!
