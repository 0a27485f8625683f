use herdr_title_rename::{is_default_label, plan_label, LabelKind, Labels, SavedState, State};

/// The state file's text, built by calls on JSON values.
fn to_json(state: &State) -> String {
    let saved = state.to_saved();
    let object = |pairs: Vec<(String, String)>| {
        let mut members = serde_json::Map::new();
        for (id, label) in pairs {
            members.insert(id, serde_json::Value::String(label));
        }
        serde_json::Value::Object(members)
    };
    let mut members = serde_json::Map::new();
    members.insert("tabs".to_string(), object(saved.tabs));
    members.insert("workspaces".to_string(), object(saved.workspaces));
    members.insert(
        "released".to_string(),
        serde_json::Value::Array(
            saved.released.into_iter().map(serde_json::Value::String).collect(),
        ),
    );
    serde_json::Value::Object(members).to_string()
}

/// What a JSON reader makes of the text of a state file: a missing key counts as
/// an empty one.
fn from_json(raw: &str) -> Option<SavedState> {
    let value: serde_json::Value = serde_json::from_str(raw).ok()?;
    let members = value.as_object()?;
    let pairs = |name: &str| -> Option<Vec<(String, String)>> {
        match members.get(name) {
            Some(labels) => labels
                .as_object()?
                .iter()
                .map(|(id, label)| Some((id.clone(), label.as_str()?.to_string())))
                .collect(),
            None => Some(Vec::new()),
        }
    };
    let released = match members.get("released") {
        Some(ids) => ids
            .as_array()?
            .iter()
            .map(|id| id.as_str().map(str::to_string))
            .collect::<Option<Vec<String>>>()?,
        None => Vec::new(),
    };
    Some(SavedState {
        tabs: pairs("tabs")?,
        workspaces: pairs("workspaces")?,
        released,
    })
}

#[test]
fn state_round_trips_and_survives_garbage() {
    let mut state = State::default();
    state.tabs.insert("w1:t1".to_string(), "app".to_string());
    state.release("w1:t2");
    let reloaded = State::parse(from_json(&to_json(&state)));
    assert_eq!(reloaded.tabs.get("w1:t1").map(String::as_str), Some("app"));
    assert!(reloaded.is_released("w1:t2"));
    assert!(State::parse(from_json("")).tabs.pairs().is_empty());
}

#[test]
fn a_saved_state_reads_back_in_full() {
    let mut state = State::default();
    state.tabs.insert("t".to_string(), "one".to_string());
    state.tabs.insert("u".to_string(), "two".to_string());
    state.workspaces.insert("w".to_string(), "three".to_string());
    state.release("x");
    let back = State::parse(Some(state.to_saved()));
    assert_eq!(back.tabs.get("t").map(String::as_str), Some("one"));
    assert_eq!(back.tabs.get("u").map(String::as_str), Some("two"));
    assert_eq!(back.tabs.get("w"), None);
    assert_eq!(back.workspaces.get("w").map(String::as_str), Some("three"));
    assert_eq!(back.released, vec!["x".to_string()]);
}

#[test]
fn releasing_twice_lists_an_id_once() {
    let mut state = State::default();
    assert!(!state.is_released("a"));
    state.release("a");
    state.release("a");
    state.release("b");
    assert_eq!(state.released, vec!["a".to_string(), "b".to_string()]);
}

#[test]
fn a_label_is_replaced_by_a_later_one() {
    let mut labels = Labels::new();
    labels.insert("a".to_string(), "1".to_string());
    labels.insert("b".to_string(), "2".to_string());
    labels.insert("a".to_string(), "3".to_string());
    assert_eq!(labels.get("a").map(String::as_str), Some("3"));
    assert_eq!(labels.get("b").map(String::as_str), Some("2"));
    assert_eq!(labels.get("c"), None);
    assert_eq!(labels.pairs().len(), 2);

    let again = Labels::from_pairs(vec![
        ("a".to_string(), "1".to_string()),
        ("a".to_string(), "2".to_string()),
    ]);
    assert_eq!(again.get("a").map(String::as_str), Some("2"));
    assert_eq!(again.clone().pairs(), again.pairs());
}

#[test]
fn default_labels() {
    assert!(is_default_label("", None));
    assert!(is_default_label("  ", Some(3)));
    assert!(is_default_label("3", Some(3)));
    assert!(is_default_label(" 3\n", Some(3)));
    assert!(!is_default_label("4", Some(3)));
    assert!(!is_default_label("03", Some(3)));
    assert!(!is_default_label("3a", Some(3)));
    assert!(is_default_label("0", Some(0)));
    assert!(is_default_label("4294967295", Some(4294967295)));
    assert!(!is_default_label("14294967295", Some(4294967295)));
    assert!(is_default_label("0042", None));
    assert!(!is_default_label("4 2", None));
    assert!(!is_default_label("\u{664}", None));
}

#[test]
fn a_label_is_planned_by_who_wrote_it() {
    let mut state = State::default();
    // Adopted while it is a default.
    assert_eq!(
        plan_label(&mut state, LabelKind::Tab, "t", "1", Some(1), "app"),
        Some("app")
    );
    assert_eq!(state.tabs.get("t").map(String::as_str), Some("app"));
    assert_eq!(state.workspaces.get("t"), None);
    // Ours, and it should read otherwise now.
    assert_eq!(
        plan_label(&mut state, LabelKind::Tab, "t", "app", Some(1), "lib"),
        Some("lib")
    );
    // Already right.
    assert_eq!(plan_label(&mut state, LabelKind::Tab, "t", "lib", Some(1), "lib"), None);
    assert!(!state.is_released("t"));
    // No name for it: nothing happens, even to a label of the user's.
    assert_eq!(plan_label(&mut state, LabelKind::Tab, "t", "mine", Some(1), " "), None);
    assert!(!state.is_released("t"));
    // The user's.
    assert_eq!(plan_label(&mut state, LabelKind::Tab, "t", "mine", Some(1), "lib"), None);
    assert!(state.is_released("t"));
    // For good, even when it reads as a default again.
    assert_eq!(plan_label(&mut state, LabelKind::Tab, "t", "1", Some(1), "lib"), None);
    assert_eq!(state.tabs.get("t").map(String::as_str), Some("lib"));
}

#[test]
fn a_workspace_label_is_kept_apart_from_a_tab_label() {
    let mut state = State::default();
    state.tabs.insert("x".to_string(), "app".to_string());
    // What was written to the tab says nothing about the workspace.
    assert_eq!(
        plan_label(&mut state, LabelKind::Workspace, "x", "app", None, "lib"),
        None
    );
    assert!(state.is_released("x"));
}

#[test]
fn a_state_file_may_lack_keys() {
    let state = State::parse(from_json(r#"{"tabs":{"t1":"app"}}"#));
    assert_eq!(state.tabs.get("t1").map(String::as_str), Some("app"));
    assert!(state.workspaces.pairs().is_empty());
    assert!(state.released.is_empty());
}
