//! The requests that the plugin sends, each the text of a JSON object.

use vstd::prelude::*;

use crate::json::{insert_member, members, new_object, object_text, Member};
use crate::json::{is_one_line, json_text, Json};
use crate::text::optional_str_view;

verus! {

/// The text of a request.
pub open spec fn request_text(
    id: Seq<char>,
    method: Seq<char>,
    params: Map<Seq<char>, Json>,
) -> Seq<char> {
    json_text(
        map!["id"@ => Json::Text(id), "method"@ => Json::Text(method), "params"@ => Json::Object(params)],
    )
}

/// The request for a snapshot of the session.
pub open spec fn snapshot_request_text() -> Seq<char> {
    request_text("herdr-title-rename:snapshot"@, "session.snapshot"@, Map::empty())
}

/// The request that sets the window title, or, without a title, clears it.
pub open spec fn title_request_text(title: Option<Seq<char>>) -> Seq<char> {
    match title {
        Some(title) => request_text(
            "herdr-title-rename:title-set"@,
            "client.window_title.set"@,
            map!["title"@ => Json::Text(title)],
        ),
        None => request_text(
            "herdr-title-rename:title-clear"@,
            "client.window_title.clear"@,
            Map::empty(),
        ),
    }
}

/// The request that labels a tab.
pub open spec fn tab_request_text(tab_id: Seq<char>, label: Seq<char>) -> Seq<char> {
    request_text(
        "herdr-title-rename:tab-rename"@,
        "tab.rename"@,
        map!["tab_id"@ => Json::Text(tab_id), "label"@ => Json::Text(label)],
    )
}

/// The request that labels a workspace.
pub open spec fn workspace_request_text(workspace_id: Seq<char>, label: Seq<char>) -> Seq<char> {
    request_text(
        "herdr-title-rename:workspace-rename"@,
        "workspace.rename"@,
        map!["workspace_id"@ => Json::Text(workspace_id), "label"@ => Json::Text(label)],
    )
}

fn request(
    id: &str,
    method: &str,
    params: serde_json::Map<String, serde_json::Value>,
) -> (text: String)
    ensures
        text@ == request_text(id@, method@, members(params)),
        is_one_line(text@),
{
    let mut object = new_object();
    insert_member(&mut object, "id", Member::Text(id.to_string()));
    insert_member(&mut object, "method", Member::Text(method.to_string()));
    insert_member(&mut object, "params", Member::Object(params));
    object_text(object)
}

/// The request for a snapshot of the session.
pub fn session_snapshot_request() -> (text: String)
    ensures
        text@ == snapshot_request_text(),
        is_one_line(text@),
{
    request("herdr-title-rename:snapshot", "session.snapshot", new_object())
}

/// The request that sets the window title, or, without a title, clears it.
pub fn window_title_request(title: Option<&str>) -> (text: String)
    ensures
        text@ == title_request_text(optional_str_view(title)),
        is_one_line(text@),
{
    match title {
        Some(title) => {
            let mut params = new_object();
            insert_member(&mut params, "title", Member::Text(title.to_string()));
            request("herdr-title-rename:title-set", "client.window_title.set", params)
        },
        None => request(
            "herdr-title-rename:title-clear",
            "client.window_title.clear",
            new_object(),
        ),
    }
}

/// The request that labels a tab.
pub fn tab_rename_request(tab_id: &str, label: &str) -> (text: String)
    ensures
        text@ == tab_request_text(tab_id@, label@),
        is_one_line(text@),
{
    let mut params = new_object();
    insert_member(&mut params, "tab_id", Member::Text(tab_id.to_string()));
    insert_member(&mut params, "label", Member::Text(label.to_string()));
    request("herdr-title-rename:tab-rename", "tab.rename", params)
}

/// The request that labels a workspace.
pub fn workspace_rename_request(workspace_id: &str, label: &str) -> (text: String)
    ensures
        text@ == workspace_request_text(workspace_id@, label@),
        is_one_line(text@),
{
    let mut params = new_object();
    insert_member(&mut params, "workspace_id", Member::Text(workspace_id.to_string()));
    insert_member(&mut params, "label", Member::Text(label.to_string()));
    request("herdr-title-rename:workspace-rename", "workspace.rename", params)
}

/// Every request carries its id, its method and its parameters, and nothing
/// else; what is asked for stands in the parameters as it was given.
pub proof fn requests_in_words(id: Seq<char>, label: Seq<char>)
    ensures
        snapshot_request_text() == json_text(
            map!["id"@ => Json::Text("herdr-title-rename:snapshot"@),
                "method"@ => Json::Text("session.snapshot"@),
                "params"@ => Json::Object(Map::empty())],
        ),
        title_request_text(None) == json_text(
            map!["id"@ => Json::Text("herdr-title-rename:title-clear"@),
                "method"@ => Json::Text("client.window_title.clear"@),
                "params"@ => Json::Object(Map::empty())],
        ),
        title_request_text(Some(label)) == json_text(
            map!["id"@ => Json::Text("herdr-title-rename:title-set"@),
                "method"@ => Json::Text("client.window_title.set"@),
                "params"@ => Json::Object(map!["title"@ => Json::Text(label)])],
        ),
        tab_request_text(id, label) == json_text(
            map!["id"@ => Json::Text("herdr-title-rename:tab-rename"@),
                "method"@ => Json::Text("tab.rename"@),
                "params"@ => Json::Object(
                    map!["tab_id"@ => Json::Text(id), "label"@ => Json::Text(label)])],
        ),
        workspace_request_text(id, label) == json_text(
            map!["id"@ => Json::Text("herdr-title-rename:workspace-rename"@),
                "method"@ => Json::Text("workspace.rename"@),
                "params"@ => Json::Object(
                    map!["workspace_id"@ => Json::Text(id), "label"@ => Json::Text(label)])],
        ),
{
}

} // verus!
