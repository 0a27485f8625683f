use herdr_title_rename::{
    basename, directories_to_name, plan, plan_from_answers, plan_from_names, Config, Layout, Names,
    Pane, Plan, Rename, Snapshot, State, Tab, Workspace,
};

const HOME: &str = "/Users/adam";

fn text(value: &str) -> String {
    value.to_string()
}

fn workspace(id: &str, label: &str, number: Option<u32>, active_tab: Option<&str>) -> Workspace {
    Workspace {
        workspace_id: text(id),
        label: text(label),
        number,
        active_tab_id: active_tab.map(text),
    }
}

fn tab(id: &str, label: &str, number: Option<u32>) -> Tab {
    Tab {
        tab_id: text(id),
        workspace_id: text("w1"),
        label: text(label),
        number,
    }
}

fn pane(id: &str, tab: &str, cwd: &str, focused: bool) -> Pane {
    Pane {
        pane_id: text(id),
        tab_id: text(tab),
        cwd: text(cwd),
        focused,
    }
}

fn layout(tab: &str, focused_pane: Option<&str>) -> Layout {
    Layout {
        tab_id: text(tab),
        focused_pane_id: focused_pane.map(text),
    }
}

fn empty_snapshot() -> Snapshot {
    Snapshot {
        workspaces: vec![],
        tabs: vec![],
        panes: vec![],
        layouts: vec![],
        focused_workspace_id: None,
        focused_tab_id: None,
        focused_pane_id: None,
    }
}

/// One workspace, one tab, one focused pane — the common case.
fn simple_snapshot(workspace_label: &str, tab_label: &str, cwd: &str) -> Snapshot {
    Snapshot {
        workspaces: vec![workspace("w1", workspace_label, Some(1), Some("w1:t1"))],
        tabs: vec![tab("w1:t1", tab_label, Some(1))],
        panes: vec![pane("w1:p1", "w1:t1", cwd, true)],
        layouts: vec![layout("w1:t1", Some("w1:p1"))],
        focused_workspace_id: Some(text("w1")),
        focused_tab_id: Some(text("w1:t1")),
        focused_pane_id: Some(text("w1:p1")),
    }
}

fn names(tab: &str, workspace: &str) -> Names {
    Names {
        tab: text(tab),
        workspace: text(workspace),
    }
}

fn rename(id: &str, label: &str) -> Rename {
    Rename {
        id: text(id),
        label: text(label),
    }
}

#[test]
fn title_matches_the_tmux_three_field_shape() {
    let snapshot = simple_snapshot("chezmoi", "chezmoi", "/Users/adam/.local/share/chezmoi");
    let mut state = State::default();
    let plan = plan(
        &snapshot,
        &Config::default(),
        &mut state,
        Some(HOME),
        |_: &str| names("chezmoi", "chezmoi"),
    );
    assert_eq!(
        plan.title.as_deref(),
        Some("chezmoi | chezmoi | ~/.local/share/chezmoi")
    );
}

#[test]
fn default_numeric_labels_are_adopted_and_renamed() {
    let snapshot = simple_snapshot("1", "1", "/Users/adam/dev/moov/infra/feature");
    let mut state = State::default();
    let plan = plan(
        &snapshot,
        &Config::default(),
        &mut state,
        Some(HOME),
        |_: &str| names("feature", "infra/feature"),
    );

    assert_eq!(
        plan.tabs,
        vec![Rename {
            id: "w1:t1".to_string(),
            label: "feature".to_string()
        }]
    );
    assert_eq!(
        plan.workspaces,
        vec![Rename {
            id: "w1".to_string(),
            label: "infra/feature".to_string()
        }]
    );
    // The title reflects the labels the renames will leave behind, not the
    // stale ones in the snapshot.
    assert_eq!(
        plan.title.as_deref(),
        Some("infra/feature | feature | ~/dev/moov/infra/feature")
    );
}

#[test]
fn a_label_we_never_set_is_left_alone() {
    let snapshot = simple_snapshot("my-project", "notes", "/Users/adam/notes");
    let mut state = State::default();
    let plan = plan(
        &snapshot,
        &Config::default(),
        &mut state,
        Some(HOME),
        |_: &str| names("notes-repo", "notes-repo"),
    );

    assert!(plan.tabs.is_empty());
    assert!(plan.workspaces.is_empty());
    assert!(state.released.contains(&"w1:t1".to_string()));
    assert_eq!(plan.title.as_deref(), Some("my-project | notes | ~/notes"));
}

#[test]
fn a_manual_rename_after_we_took_ownership_releases_the_label() {
    let mut state = State::default();

    // First pass adopts the default label.
    let first = simple_snapshot("1", "1", "/Users/adam/dev/app");
    let plan_one = plan(&first, &Config::default(), &mut state, Some(HOME), |_: &str| {
        names("app", "app")
    });
    assert_eq!(plan_one.tabs.len(), 1);

    // Second pass: the user has renamed the tab by hand.
    let second = simple_snapshot("app", "hand-picked", "/Users/adam/dev/app");
    let plan_two = plan(&second, &Config::default(), &mut state, Some(HOME), |_: &str| {
        names("app", "app")
    });
    assert!(plan_two.tabs.is_empty());
    assert!(state.released.contains(&"w1:t1".to_string()));

    // And it stays released even after the directory changes.
    let third = simple_snapshot("app", "hand-picked", "/Users/adam/dev/other");
    let plan_three = plan(&third, &Config::default(), &mut state, Some(HOME), |_: &str| {
        names("other", "other")
    });
    assert!(plan_three.tabs.is_empty());
}

#[test]
fn a_rename_still_in_flight_is_not_mistaken_for_a_manual_one() {
    let mut state = State::default();

    // Adopt and rename.
    let first = simple_snapshot("1", "1", "/Users/adam/dev/app");
    assert_eq!(
        plan(&first, &Config::default(), &mut state, Some(HOME), |_: &str| {
            names("app", "app")
        })
        .tabs
        .len(),
        1
    );

    // A concurrent event sees the label before the rename has landed. The
    // default label is proof it is still ours, not the user's doing.
    let racing = simple_snapshot("1", "1", "/Users/adam/dev/app");
    let plan_two = plan(&racing, &Config::default(), &mut state, Some(HOME), |_: &str| {
        names("app", "app")
    });
    assert!(!state.released.contains(&"w1:t1".to_string()));
    assert_eq!(plan_two.tabs[0].label, "app");
}

#[test]
fn an_unchanged_label_issues_no_call_but_keeps_ownership() {
    let mut state = State::default();
    let first = simple_snapshot("1", "1", "/Users/adam/dev/app");
    plan(&first, &Config::default(), &mut state, Some(HOME), |_: &str| {
        names("app", "app")
    });

    let second = simple_snapshot("app", "app", "/Users/adam/dev/app");
    let plan_two = plan(&second, &Config::default(), &mut state, Some(HOME), |_: &str| {
        names("app", "app")
    });
    assert!(plan_two.tabs.is_empty());
    assert!(!state.released.contains(&"w1:t1".to_string()));
    assert_eq!(state.tabs.get("w1:t1").map(String::as_str), Some("app"));
}

#[test]
fn renaming_can_be_switched_off_without_losing_the_title() {
    let config = Config {
        rename_tabs: false,
        rename_workspaces: false,
        ..Config::default()
    };
    let snapshot = simple_snapshot("1", "1", "/Users/adam/dev/app");
    let mut state = State::default();
    let plan = plan(&snapshot, &config, &mut state, Some(HOME), |_: &str| {
        names("app", "app")
    });

    assert!(plan.tabs.is_empty());
    assert!(plan.workspaces.is_empty());
    assert_eq!(plan.title.as_deref(), Some("1 | 1 | ~/dev/app"));
}

#[test]
fn the_tab_is_named_after_its_active_pane_not_its_first() {
    let snapshot = Snapshot {
        workspaces: vec![workspace("w1", "1", Some(1), Some("w1:t1"))],
        tabs: vec![tab("w1:t1", "1", Some(1))],
        panes: vec![
            pane("w1:p1", "w1:t1", "/Users/adam/dev/first", false),
            pane("w1:p2", "w1:t1", "/Users/adam/dev/active", false),
        ],
        layouts: vec![layout("w1:t1", Some("w1:p2"))],
        focused_workspace_id: Some(text("w1")),
        focused_tab_id: Some(text("w1:t1")),
        focused_pane_id: Some(text("w1:p2")),
    };
    let mut state = State::default();
    let plan = plan(
        &snapshot,
        &Config::default(),
        &mut state,
        Some(HOME),
        |cwd: &str| names(basename(cwd), basename(cwd)),
    );
    assert_eq!(plan.tabs[0].label, "active");
}

#[test]
fn an_empty_snapshot_clears_the_title() {
    let snapshot = empty_snapshot();
    let mut state = State::default();
    let plan = plan(
        &snapshot,
        &Config::default(),
        &mut state,
        Some(HOME),
        |_: &str| Names::default(),
    );
    assert_eq!(plan.title, None);
    assert_eq!(plan, Plan::default());
}

#[test]
fn the_active_pane_falls_back_to_the_focused_then_the_first() {
    let mut snapshot = empty_snapshot();
    snapshot.panes = vec![
        pane("p1", "t1", "/one", false),
        pane("p2", "t1", "/two", true),
        pane("p3", "t2", "/three", false),
    ];
    // No layout: the pane flagged focused.
    assert_eq!(snapshot.active_pane_of_tab("t1").unwrap().pane_id, "p2");
    // None flagged: the first pane of the tab.
    assert_eq!(snapshot.active_pane_of_tab("t2").unwrap().pane_id, "p3");
    assert!(snapshot.active_pane_of_tab("t3").is_none());
    // A layout that names no pane, or one that is gone, does not count.
    snapshot.layouts = vec![layout("t1", None)];
    assert_eq!(snapshot.active_pane_of_tab("t1").unwrap().pane_id, "p2");
    snapshot.layouts = vec![layout("t1", Some("gone"))];
    assert_eq!(snapshot.active_pane_of_tab("t1").unwrap().pane_id, "p2");
    // One that names a pane does, and the first layout of the tab decides.
    snapshot.layouts = vec![layout("t1", Some("p1")), layout("t1", Some("p2"))];
    assert_eq!(snapshot.active_pane_of_tab("t1").unwrap().pane_id, "p1");

    let with_tab = workspace("w", "", None, Some("t2"));
    let without = workspace("w", "", None, None);
    assert_eq!(snapshot.active_pane_of_workspace(&with_tab).unwrap().pane_id, "p3");
    assert!(snapshot.active_pane_of_workspace(&without).is_none());
}

#[test]
fn the_resolver_is_asked_only_for_what_is_named() {
    let mut snapshot = empty_snapshot();
    snapshot.tabs = vec![tab("t1", "", None), tab("t2", "", None), tab("t3", "", None)];
    snapshot.panes = vec![pane("p1", "t1", "/one", false), pane("p2", "t2", "  ", false)];
    snapshot.workspaces = vec![
        workspace("w1", "", None, Some("t1")),
        workspace("w2", "", None, None),
    ];
    let mut asked: Vec<String> = vec![];
    let mut state = State::default();
    let plan = plan(&snapshot, &Config::default(), &mut state, None, |cwd: &str| {
        asked.push(cwd.to_string());
        names("tab", "workspace")
    });
    assert_eq!(asked, vec![text("/one"), text("/one")]);
    assert_eq!(plan.tabs, vec![rename("t1", "tab")]);
    assert_eq!(plan.workspaces, vec![rename("w1", "workspace")]);
    assert_eq!(plan.title, None);
}

#[test]
fn blank_names_rename_nothing() {
    let snapshot = simple_snapshot("mine", "1", "/dev/app");
    let mut state = State::default();
    let plan = plan(&snapshot, &Config::default(), &mut state, None, |_: &str| names(" ", ""));
    assert!(plan.tabs.is_empty());
    assert!(plan.workspaces.is_empty());
    assert!(state.released.is_empty());
}

#[test]
fn the_title_leaves_blank_fields_out() {
    let config = Config {
        separator: text("/"),
        ..Config::default()
    };
    let mut snapshot = simple_snapshot(" ws ", "\t", "/dev/app");
    let mut state = State::default();
    let made = plan(&snapshot, &config, &mut state, None, |_: &str| Names::default());
    assert_eq!(made.title.as_deref(), Some("ws//dev/app"));

    // Focus that points nowhere shows nothing, and then there is no title.
    snapshot.focused_workspace_id = Some(text("gone"));
    snapshot.focused_tab_id = Some(text("gone"));
    snapshot.focused_pane_id = None;
    let made = plan(&snapshot, &config, &mut state, None, |_: &str| Names::default());
    assert_eq!(made.title, None);
}

#[test]
fn the_title_finds_tab_and_pane_through_the_workspace() {
    let mut snapshot = simple_snapshot("ws", "tab", "/dev/app");
    snapshot.focused_tab_id = None;
    snapshot.focused_pane_id = None;
    let mut state = State::default();
    let made = plan(
        &snapshot,
        &Config::default(),
        &mut state,
        None,
        |_: &str| Names::default(),
    );
    assert_eq!(made.title.as_deref(), Some("ws | tab | /dev/app"));
}

#[test]
fn a_second_run_with_the_plan_carried_out_changes_nothing() {
    let mut state = State::default();
    let first = simple_snapshot("1", "hand", "/Users/adam/dev/app");
    let resolve = |cwd: &str| names(basename(cwd), basename(cwd));
    let plan_one = plan(&first, &Config::default(), &mut state, Some(HOME), resolve);
    assert_eq!(plan_one.workspaces, vec![rename("w1", "app")]);

    let second = simple_snapshot("app", "hand", "/Users/adam/dev/app");
    let mut later = state.clone();
    let plan_two = plan(&second, &Config::default(), &mut later, Some(HOME), resolve);
    assert!(plan_two.tabs.is_empty());
    assert!(plan_two.workspaces.is_empty());
    assert_eq!(plan_two.title, plan_one.title);
    assert_eq!(later.released, state.released);
    assert_eq!(later.workspaces.pairs(), state.workspaces.pairs());
    assert_eq!(later.tabs.pairs(), state.tabs.pairs());
}

#[test]
fn a_tab_and_a_workspace_with_one_id_are_released_together() {
    let mut snapshot = simple_snapshot("1", "hand", "/dev/app");
    snapshot.workspaces[0].workspace_id = text("x");
    snapshot.tabs[0].tab_id = text("x");
    snapshot.panes[0].tab_id = text("x");
    snapshot.workspaces[0].active_tab_id = Some(text("x"));
    snapshot.layouts = vec![];
    let mut state = State::default();
    let made = plan(&snapshot, &Config::default(), &mut state, None, |_: &str| names("a", "b"));
    assert!(made.tabs.is_empty());
    assert!(made.workspaces.is_empty());
    assert_eq!(state.released, vec![text("x")]);
}

#[test]
fn a_plan_can_be_made_from_names_that_are_known() {
    let snapshot = simple_snapshot("1", "1", "/Users/adam/dev/app");
    let mut state = State::default();
    let known = vec![names("tab", "workspace")];
    let made = plan_from_names(
        &snapshot,
        &Config::default(),
        &mut state,
        Some(HOME),
        &known,
        &known,
    );
    assert_eq!(made.tabs, vec![rename("w1:t1", "tab")]);
    assert_eq!(made.workspaces, vec![rename("w1", "workspace")]);
    assert_eq!(made.title.as_deref(), Some("workspace | tab | ~/dev/app"));
}

#[test]
fn the_last_of_two_renames_of_one_id_shows_in_the_title() {
    let mut snapshot = simple_snapshot("ws", "1", "/dev/app");
    snapshot.tabs.push(tab("w1:t1", "1", Some(1)));
    let mut state = State::default();
    let made = plan_from_names(
        &snapshot,
        &Config::default(),
        &mut state,
        None,
        &vec![names("a", ""), names("b", "")],
        &vec![names("", "")],
    );
    assert_eq!(made.tabs, vec![rename("w1:t1", "a"), rename("w1:t1", "b")]);
    assert_eq!(made.title.as_deref(), Some("ws | b | /dev/app"));
}

#[test]
fn each_directory_is_asked_about_once() {
    let mut snapshot = simple_snapshot("1", "1", "/dev/app");
    snapshot.tabs.push(tab("w1:t2", "2", Some(2)));
    snapshot.tabs.push(tab("w1:t3", "3", Some(3)));
    snapshot.tabs.push(tab("w1:t4", "4", Some(4)));
    snapshot.panes.push(pane("w1:p2", "w1:t2", "/dev/other", false));
    snapshot.panes.push(pane("w1:p3", "w1:t3", "/dev/app", false));
    snapshot.panes.push(pane("w1:p4", "w1:t4", "  ", false));

    let mut config = Config::default();
    assert_eq!(
        directories_to_name(&snapshot, &config),
        vec!["/dev/app".to_string(), "/dev/other".to_string()]
    );
    let mut state = State::default();
    let answers = vec![names("app", "repo"), names("other", "else")];
    let made = plan_from_answers(&snapshot, &config, &mut state, None, &answers);
    assert_eq!(
        made.tabs,
        vec![
            rename("w1:t1", "app"),
            rename("w1:t2", "other"),
            rename("w1:t3", "app"),
        ]
    );
    assert_eq!(made.workspaces, vec![rename("w1", "repo")]);

    // The same as asking every time.
    let mut other = State::default();
    let asked = plan(&snapshot, &config, &mut other, None, |cwd: &str| {
        if cwd == "/dev/app" {
            names("app", "repo")
        } else {
            names("other", "else")
        }
    });
    assert_eq!(asked, made);

    config.rename_tabs = false;
    assert_eq!(
        directories_to_name(&snapshot, &config),
        vec!["/dev/app".to_string()]
    );
    config.rename_workspaces = false;
    assert!(directories_to_name(&snapshot, &config).is_empty());
}
