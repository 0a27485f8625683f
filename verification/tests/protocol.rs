use herdr_title_rename::run::{apply_requests, dry_run_report, ending, mode, title_line, Mode};
use herdr_title_rename::{
    accept_line, check_response, session_snapshot_request, snapshot_from_response,
    tab_rename_request, window_title_request, workspace_rename_request, Body, Envelope, Plan,
    Rename, Snapshot, Workspace,
};

/// The error in a reply, as a JSON reader sees it.
fn error_in(raw: &str) -> Result<Option<String>, String> {
    let value: serde_json::Value = serde_json::from_str(raw).map_err(|error| error.to_string())?;
    Ok(value
        .get("error")
        .filter(|error| !error.is_null())
        .map(|error| error.to_string()))
}

/// A reply as a JSON reader sees it; of the snapshot, only the workspaces.
fn envelope(raw: &str) -> Result<Envelope, String> {
    let error = error_in(raw)?;
    let value: serde_json::Value = serde_json::from_str(raw).map_err(|error| error.to_string())?;
    let result = value.get("result").map(|result| Body {
        snapshot: result.get("snapshot").map(|snapshot| Snapshot {
            workspaces: snapshot["workspaces"]
                .as_array()
                .unwrap()
                .iter()
                .map(|workspace| Workspace {
                    workspace_id: workspace["workspace_id"].as_str().unwrap().to_string(),
                    label: workspace["label"].as_str().unwrap().to_string(),
                    number: None,
                    active_tab_id: None,
                })
                .collect(),
            tabs: vec![],
            panes: vec![],
            layouts: vec![],
            focused_workspace_id: None,
            focused_tab_id: None,
            focused_pane_id: None,
        }),
    });
    Ok(Envelope { result, error })
}

#[test]
fn snapshot_envelope_handling() {
    let snapshot = snapshot_from_response(envelope(
        r#"{"id":"x","result":{"type":"session_snapshot","snapshot":{"workspaces":[{"workspace_id":"w1","label":"a"}]}}}"#,
    ))
    .expect("snapshot");
    assert_eq!(snapshot.workspaces.len(), 1);

    assert!(snapshot_from_response(envelope(r#"{"error":{"code":"nope"}}"#)).is_err());
    assert!(snapshot_from_response(envelope(r#"{"result":{}}"#)).is_err());
    assert!(snapshot_from_response(envelope("not json")).is_err());
}

#[test]
fn requests_carry_the_documented_methods() {
    assert!(session_snapshot_request().contains("\"session.snapshot\""));
    assert!(window_title_request(Some("t")).contains("\"client.window_title.set\""));
    assert!(window_title_request(None).contains("\"client.window_title.clear\""));
    assert!(tab_rename_request("w1:t1", "app").contains("\"tab.rename\""));
    assert!(workspace_rename_request("w1", "app").contains("\"workspace.rename\""));
    assert!(check_response(error_in(r#"{"result":{"type":"ok"}}"#)).is_ok());
    assert!(check_response(error_in(r#"{"error":{"code":"tab_not_found"}}"#)).is_err());
}

#[test]
fn replies_are_answered_in_words() {
    assert_eq!(
        snapshot_from_response(Err("eof".to_string())).unwrap_err(),
        "malformed API response: eof"
    );
    assert_eq!(
        snapshot_from_response(envelope(r#"{"error":{"code":"nope"},"result":{}}"#)).unwrap_err(),
        "API error: {\"code\":\"nope\"}"
    );
    assert_eq!(
        snapshot_from_response(envelope("{}")).unwrap_err(),
        "API response carried no snapshot"
    );
    assert_eq!(
        snapshot_from_response(envelope(r#"{"result":{}}"#)).unwrap_err(),
        "API response carried no snapshot"
    );
    assert_eq!(
        check_response(Err("eof".to_string())).unwrap_err(),
        "malformed API response: eof"
    );
    assert_eq!(
        check_response(Ok(Some("7".to_string()))).unwrap_err(),
        "API error: 7"
    );
    assert_eq!(accept_line("{}\n".to_string()), Ok("{}\n".to_string()));
    assert_eq!(
        accept_line(" \n".to_string()),
        Err("empty response from Herdr".to_string())
    );
}

#[test]
fn requests_in_full() {
    assert_eq!(
        session_snapshot_request(),
        r#"{"id":"herdr-title-rename:snapshot","method":"session.snapshot","params":{}}"#
    );
    assert_eq!(
        window_title_request(Some("a | b")),
        r#"{"id":"herdr-title-rename:title-set","method":"client.window_title.set","params":{"title":"a | b"}}"#
    );
    assert_eq!(
        window_title_request(None),
        r#"{"id":"herdr-title-rename:title-clear","method":"client.window_title.clear","params":{}}"#
    );
    assert_eq!(
        tab_rename_request("w1:t1", "app"),
        r#"{"id":"herdr-title-rename:tab-rename","method":"tab.rename","params":{"label":"app","tab_id":"w1:t1"}}"#
    );
    assert_eq!(
        workspace_rename_request("w1", "a/b"),
        r#"{"id":"herdr-title-rename:workspace-rename","method":"workspace.rename","params":{"label":"a/b","workspace_id":"w1"}}"#
    );
}

#[test]
fn requests_stay_on_one_line_and_read_back() {
    let label = "two\nlines\r\t\"quoted\" \\ \u{1} caf\u{e9}";
    let request = tab_rename_request("t\n1", label);
    assert!(request.chars().all(|c| c >= ' '));
    let value: serde_json::Value = serde_json::from_str(&request).expect("request");
    assert_eq!(value["params"]["label"].as_str(), Some(label));
    assert_eq!(value["params"]["tab_id"].as_str(), Some("t\n1"));
}

fn rename(id: &str, label: &str) -> Rename {
    Rename {
        id: id.to_string(),
        label: label.to_string(),
    }
}

fn some_plan() -> Plan {
    Plan {
        tabs: vec![rename("t1", "one"), rename("t2", "two")],
        workspaces: vec![rename("w1", "ws")],
        title: Some("the title".to_string()),
    }
}

#[test]
fn a_plan_is_carried_out_in_order_with_the_title_last() {
    assert_eq!(
        apply_requests(&some_plan()),
        vec![
            tab_rename_request("t1", "one"),
            tab_rename_request("t2", "two"),
            workspace_rename_request("w1", "ws"),
            window_title_request(Some("the title")),
        ]
    );
    assert_eq!(apply_requests(&Plan::default()), vec![window_title_request(None)]);
}

#[test]
fn a_run_ends_with_what_failed() {
    let plan = some_plan();
    let fine = vec![Ok(()), Ok(()), Ok(()), Ok(())];
    assert_eq!(ending(&plan, &fine), Ok(()));
    let failed = vec![Ok(()), Err("gone".to_string()), Err("busy".to_string()), Ok(())];
    assert_eq!(
        ending(&plan, &failed),
        Err("tab t2: gone; workspace w1: busy".to_string())
    );
    // The title counts before the renames.
    let title = vec![Err("gone".to_string()), Ok(()), Ok(()), Err("no title".to_string())];
    assert_eq!(ending(&plan, &title), Err("no title".to_string()));
}

#[test]
fn a_dry_run_says_what_it_would_do() {
    assert_eq!(
        dry_run_report(&some_plan()),
        vec![
            "would rename tab t1 -> one".to_string(),
            "would rename tab t2 -> two".to_string(),
            "would rename workspace w1 -> ws".to_string(),
            "title: the title".to_string(),
        ]
    );
    assert_eq!(
        dry_run_report(&Plan::default()),
        vec!["title: (cleared)".to_string()]
    );
    assert_eq!(title_line(Some("x")), "x");
    assert_eq!(title_line(None), "(cleared)");
}

#[test]
fn arguments_choose_the_mode() {
    let arguments = |list: &[&str]| -> Vec<String> { list.iter().map(|a| a.to_string()).collect() };
    assert_eq!(mode(&arguments(&["plugin"])), Mode::Apply);
    assert_eq!(mode(&arguments(&["plugin", "--dry-run"])), Mode::DryRun);
    assert_eq!(mode(&arguments(&["plugin", "--dry-run", "--clear"])), Mode::Clear);
    assert_eq!(mode(&arguments(&["plugin", "--clearly"])), Mode::Apply);
}
