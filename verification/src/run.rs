//! One run of the plugin: what it was asked to do, what it sends, and how it
//! ends.

use vstd::prelude::*;
use vstd::string::StringExecFns;

use crate::plan::{Plan, PlanView};
use crate::rename::{rename_views, Rename, RenameView};
use crate::requests::{tab_rename_request, window_title_request, workspace_rename_request};
use crate::requests::{tab_request_text, title_request_text, workspace_request_text};
use crate::text::{find_text, join};
use crate::text::{joined, optional_str_view, views};

verus! {

/// What a run was asked to do.
#[derive(Debug, Clone, Copy, PartialEq, Eq, Structural)]
pub enum Mode {
    /// Clear the window title and do nothing else.
    Clear,
    /// Report what the run would do and change nothing.
    DryRun,
    /// Rename and set the title.
    Apply,
}

/// What the arguments ask for; `--clear` counts before `--dry-run`.
pub open spec fn mode_for(arguments: Seq<Seq<char>>) -> Mode {
    if arguments.contains("--clear"@) {
        Mode::Clear
    } else if arguments.contains("--dry-run"@) {
        Mode::DryRun
    } else {
        Mode::Apply
    }
}

/// What the arguments ask for; `--clear` counts before `--dry-run`.
pub fn mode(arguments: &Vec<String>) -> (mode: Mode)
    ensures
        mode == mode_for(views(arguments@)),
{
    if find_text(arguments, "--clear").is_some() {
        Mode::Clear
    } else if find_text(arguments, "--dry-run").is_some() {
        Mode::DryRun
    } else {
        Mode::Apply
    }
}

/// The title as the log shows it.
pub open spec fn logged_title(title: Option<Seq<char>>) -> Seq<char> {
    match title {
        Some(title) => title,
        None => "(cleared)"@,
    }
}

/// The title as the log shows it.
pub fn title_line(title: Option<&str>) -> (line: String)
    ensures
        line@ == logged_title(optional_str_view(title)),
{
    match title {
        Some(title) => title.to_string(),
        None => "(cleared)".to_string(),
    }
}

/// A rename in words, after what it would do.
pub open spec fn rename_line(what: Seq<char>, rename: RenameView) -> Seq<char> {
    what + rename.id + " -> "@ + rename.label
}

/// Renames in words.
pub open spec fn rename_lines(what: Seq<char>, renames: Seq<RenameView>) -> Seq<Seq<char>> {
    renames.map_values(|rename: RenameView| rename_line(what, rename))
}

/// A plan in words: the tabs, the workspaces, then the title.
pub open spec fn report_of(plan: PlanView) -> Seq<Seq<char>> {
    rename_lines("would rename tab "@, plan.tabs) + rename_lines(
        "would rename workspace "@,
        plan.workspaces,
    ) + seq!["title: "@ + logged_title(plan.title)]
}

fn push_rename_lines(lines: &mut Vec<String>, what: &str, renames: &Vec<Rename>)
    ensures
        views(final(lines)@) == views(old(lines)@) + rename_lines(
            what@,
            rename_views(renames@),
        ),
{
    let ghost start = views(lines@);
    let ghost all = rename_lines(what@, rename_views(renames@));
    let mut i: usize = 0;
    while i < renames.len()
        invariant
            i <= renames.len(),
            all == rename_lines(what@, rename_views(renames@)),
            views(lines@) == start + all.take(i as int),
        decreases renames.len() - i,
    {
        let ghost before = lines@;
        let mut line: String = what.to_string();
        line.append(renames[i].id.as_str());
        line.append(" -> ");
        line.append(renames[i].label.as_str());
        lines.push(line);
        proof {
            assert(views(lines@) =~= views(before).push(line@));
        }
        i = i + 1;
    }
}

/// The lines that a dry run prints: the tabs, the workspaces, then the title.
pub fn dry_run_report(plan: &Plan) -> (lines: Vec<String>)
    ensures
        views(lines@) == report_of(plan@),
{
    let mut lines: Vec<String> = Vec::new();
    push_rename_lines(&mut lines, "would rename tab ", &plan.tabs);
    push_rename_lines(&mut lines, "would rename workspace ", &plan.workspaces);
    let title: String = match &plan.title {
        Some(title) => title_line(Some(title.as_str())),
        None => title_line(None),
    };
    let mut line: String = "title: ".to_string();
    line.append(title.as_str());
    lines.push(line);
    lines
}

/// The requests that carry out tab renames.
pub open spec fn tab_requests(renames: Seq<RenameView>) -> Seq<Seq<char>> {
    renames.map_values(|rename: RenameView| tab_request_text(rename.id, rename.label))
}

/// The requests that carry out workspace renames.
pub open spec fn workspace_requests(renames: Seq<RenameView>) -> Seq<Seq<char>> {
    renames.map_values(|rename: RenameView| workspace_request_text(rename.id, rename.label))
}

/// The requests that carry out a plan: one for each tab, one for each
/// workspace, and last the one for the title.
pub open spec fn requests_of(plan: PlanView) -> Seq<Seq<char>> {
    tab_requests(plan.tabs) + workspace_requests(plan.workspaces) + seq![
        title_request_text(plan.title),
    ]
}

/// The requests that carry out a plan, in order: one for each tab, one for each
/// workspace, and last the one for the title. All of them are sent, whatever
/// becomes of the earlier ones: a failed rename is reported but must not stop
/// the title from updating — the title is the part time tracking depends on.
pub fn apply_requests(plan: &Plan) -> (requests: Vec<String>)
    ensures
        views(requests@) == requests_of(plan@),
{
    let mut requests: Vec<String> = Vec::new();
    let ghost tabs = tab_requests(plan@.tabs);
    let ghost workspaces = workspace_requests(plan@.workspaces);

    let mut i: usize = 0;
    while i < plan.tabs.len()
        invariant
            i <= plan.tabs.len(),
            tabs == tab_requests(plan@.tabs),
            views(requests@) == tabs.take(i as int),
        decreases plan.tabs.len() - i,
    {
        let ghost before = requests@;
        let rename: &Rename = &plan.tabs[i];
        let request: String = tab_rename_request(rename.id.as_str(), rename.label.as_str());
        requests.push(request);
        proof {
            assert(views(requests@) =~= views(before).push(request@));
        }
        i = i + 1;
    }

    let mut j: usize = 0;
    while j < plan.workspaces.len()
        invariant
            j <= plan.workspaces.len(),
            workspaces == workspace_requests(plan@.workspaces),
            views(requests@) == tabs + workspaces.take(j as int),
        decreases plan.workspaces.len() - j,
    {
        let ghost before = requests@;
        let rename: &Rename = &plan.workspaces[j];
        let request: String = workspace_rename_request(
            rename.id.as_str(),
            rename.label.as_str(),
        );
        requests.push(request);
        proof {
            assert(views(requests@) =~= views(before).push(request@));
        }
        j = j + 1;
    }
    assert(workspaces.take(j as int) =~= workspaces);

    let title: String = match &plan.title {
        Some(title) => window_title_request(Some(title.as_str())),
        None => window_title_request(None),
    };
    requests.push(title);
    requests
}

/// What a request that failed is reported as, after what it was about.
pub open spec fn failure_line(what: Seq<char>, id: Seq<char>, error: Seq<char>) -> Seq<char> {
    what + id + ": "@ + error
}

/// The failures among the first `count` renames, where `results` holds what
/// became of each from `offset` on.
pub open spec fn failures(
    what: Seq<char>,
    renames: Seq<RenameView>,
    results: Seq<Result<(), String>>,
    offset: int,
    count: nat,
) -> Seq<Seq<char>>
    decreases count,
{
    if count == 0 {
        Seq::empty()
    } else {
        let i = (count - 1) as nat;
        let before = failures(what, renames, results, offset, i);
        match results[offset + i] {
            Ok(_) => before,
            Err(error) => before.push(failure_line(what, renames[i as int].id, error@)),
        }
    }
}

/// The failures among a plan's renames, tabs first.
pub open spec fn rename_failures(
    plan: PlanView,
    results: Seq<Result<(), String>>,
) -> Seq<Seq<char>> {
    failures("tab "@, plan.tabs, results, 0, plan.tabs.len()) + failures(
        "workspace "@,
        plan.workspaces,
        results,
        plan.tabs.len() as int,
        plan.workspaces.len(),
    )
}

/// How a run ends, where `results` holds what became of each request: with the
/// error of the title request, else with the failed renames, else well.
pub open spec fn ending_of(plan: PlanView, results: Seq<Result<(), String>>) -> Option<Seq<char>> {
    match results.last() {
        Err(error) => Some(error@),
        Ok(_) => if rename_failures(plan, results).len() == 0 {
            None
        } else {
            Some(joined(rename_failures(plan, results), "; "@))
        },
    }
}

fn push_failures(
    lines: &mut Vec<String>,
    what: &str,
    renames: &Vec<Rename>,
    results: &Vec<Result<(), String>>,
    offset: usize,
)
    requires
        offset + renames@.len() <= results@.len(),
    ensures
        views(final(lines)@) == views(old(lines)@) + failures(
            what@,
            rename_views(renames@),
            results@,
            offset as int,
            renames@.len(),
        ),
{
    let ghost start = views(lines@);
    let total: usize = results.len();
    let mut i: usize = 0;
    while i < renames.len()
        invariant
            i <= renames.len(),
            total == results@.len(),
            offset + renames@.len() <= total,
            views(lines@) == start + failures(
                what@,
                rename_views(renames@),
                results@,
                offset as int,
                i as nat,
            ),
        decreases renames.len() - i,
    {
        let ghost before = lines@;
        match &results[offset + i] {
            Ok(_) => {},
            Err(error) => {
                let mut line: String = what.to_string();
                line.append(renames[i].id.as_str());
                line.append(": ");
                line.append(error.as_str());
                lines.push(line);
                proof {
                    assert(views(lines@) =~= views(before).push(line@));
                }
            },
        }
        i = i + 1;
    }
}

/// How a run ends, where `results` holds what became of each of the plan's
/// requests, in order: with the error of the title request, else with the
/// failed renames, else well.
pub fn ending(plan: &Plan, results: &Vec<Result<(), String>>) -> (r: Result<(), String>)
    requires
        results@.len() == requests_of(plan@).len(),
    ensures
        match ending_of(plan@, results@) {
            Some(error) => r matches Err(message) && message@ == error,
            None => r is Ok,
        },
{
    match &results[results.len() - 1] {
        Err(error) => {
            return Err(error.clone());
        },
        Ok(_) => {},
    }
    let mut lines: Vec<String> = Vec::new();
    push_failures(&mut lines, "tab ", &plan.tabs, results, 0);
    push_failures(&mut lines, "workspace ", &plan.workspaces, results, plan.tabs.len());
    if lines.len() == 0 {
        Ok(())
    } else {
        Err(join(&lines, "; "))
    }
}

/// Whatever a plan renames, its last request is the one for the title.
pub proof fn the_title_is_always_requested(plan: PlanView)
    ensures
        requests_of(plan).len() == plan.tabs.len() + plan.workspaces.len() + 1,
        requests_of(plan).last() == title_request_text(plan.title),
{
}

proof fn lemma_failures(
    what: Seq<char>,
    renames: Seq<RenameView>,
    results: Seq<Result<(), String>>,
    offset: int,
    count: nat,
)
    ensures
        failures(what, renames, results, offset, count).len() == 0 <==> forall|i: int|
            offset <= i < offset + count ==> (#[trigger] results[i]) is Ok,
    decreases count,
{
    if count > 0 {
        lemma_failures(what, renames, results, offset, (count - 1) as nat);
        if results[offset + count - 1] is Ok {
            assert((forall|j: int|
                offset <= j < offset + count - 1 ==> (#[trigger] results[j]) is Ok) ==> (forall|
                i: int,
            |
                offset <= i < offset + count ==> (#[trigger] results[i]) is Ok));
        }
    }
}

/// A run ends well exactly when every request did.
pub proof fn a_run_ends_well_when_every_request_did(
    plan: PlanView,
    results: Seq<Result<(), String>>,
)
    requires
        results.len() == requests_of(plan).len(),
    ensures
        ending_of(plan, results) is None <==> forall|i: int|
            0 <= i < results.len() ==> (#[trigger] results[i]) is Ok,
{
    let tabs = plan.tabs.len();
    let workspaces = plan.workspaces.len();
    lemma_failures("tab "@, plan.tabs, results, 0, tabs);
    lemma_failures("workspace "@, plan.workspaces, results, tabs as int, workspaces);
}

/// What the arguments ask for, wherever they stand: to clear before all else,
/// else to report only, else to apply.
pub proof fn arguments_in_words(arguments: Seq<Seq<char>>, i: int)
    requires
        0 <= i < arguments.len(),
    ensures
        arguments[i] == "--clear"@ ==> mode_for(arguments) == Mode::Clear,
        (forall|k: int| 0 <= k < arguments.len() ==> #[trigger] arguments[k] != "--clear"@)
            && arguments[i] == "--dry-run"@ ==> mode_for(arguments) == Mode::DryRun,
        (forall|k: int|
            0 <= k < arguments.len() ==> #[trigger] arguments[k] != "--clear"@ && arguments[k]
                != "--dry-run"@) ==> mode_for(arguments) == Mode::Apply,
{
}

/// The log shows the title itself, or `(cleared)` where there is none.
pub proof fn the_log_shows_the_title(title: Seq<char>)
    ensures
        logged_title(Some(title)) == title,
        logged_title(None) == "(cleared)"@,
{
}

/// The report has a line for each tab, then one for each workspace, then one for
/// the title, and no other.
pub proof fn the_report_line_by_line(plan: PlanView, i: int)
    ensures
        ({
            let report = report_of(plan);
            let tabs = plan.tabs.len();
            let workspaces = plan.workspaces.len();
            &&& report.len() == tabs + workspaces + 1
            &&& 0 <= i < tabs ==> report[i] == "would rename tab "@ + plan.tabs[i].id + " -> "@
                + plan.tabs[i].label
            &&& 0 <= i < workspaces ==> report[tabs + i] == "would rename workspace "@
                + plan.workspaces[i].id + " -> "@ + plan.workspaces[i].label
            &&& report.last() == "title: "@ + (if plan.title is Some {
                plan.title->0
            } else {
                "(cleared)"@
            })
        }),
{
}

/// A plan sends a request for each tab, then one for each workspace, then the
/// one for the title, and no other.
pub proof fn the_requests_one_by_one(plan: PlanView, i: int)
    ensures
        ({
            let requests = requests_of(plan);
            let tabs = plan.tabs.len();
            let workspaces = plan.workspaces.len();
            &&& requests.len() == tabs + workspaces + 1
            &&& 0 <= i < tabs ==> requests[i] == tab_request_text(
                plan.tabs[i].id,
                plan.tabs[i].label,
            )
            &&& 0 <= i < workspaces ==> requests[tabs + i] == workspace_request_text(
                plan.workspaces[i].id,
                plan.workspaces[i].label,
            )
            &&& requests.last() == title_request_text(plan.title)
        }),
{
}

/// A run whose title request failed ends with that error, whatever became of the
/// renames.
pub proof fn the_title_error_counts_first(plan: PlanView, results: Seq<Result<(), String>>)
    requires
        results.len() > 0,
    ensures
        results[results.len() - 1] matches Err(error) ==> ending_of(plan, results) == Some(error@),
{
}

/// Where the title request went well and renames failed, a run ends with a line
/// for each rename that failed, and for no other, tabs before workspaces.
pub proof fn failed_renames_are_reported(plan: PlanView, results: Seq<Result<(), String>>)
    requires
        results.len() == plan.tabs.len() + plan.workspaces.len() + 1,
        results[results.len() - 1] is Ok,
    ensures
        ({
            let tabs = failures("tab "@, plan.tabs, results, 0, plan.tabs.len());
            let workspaces = failures(
                "workspace "@,
                plan.workspaces,
                results,
                plan.tabs.len() as int,
                plan.workspaces.len(),
            );
            &&& (forall|i: int| 0 <= i < results.len() ==> (#[trigger] results[i]) is Ok)
                ==> ending_of(plan, results) is None
            &&& (exists|i: int| 0 <= i < results.len() && (#[trigger] results[i]) is Err)
                ==> ending_of(plan, results) == Some(joined(tabs + workspaces, "; "@))
        }),
{
    a_run_ends_well_when_every_request_did(plan, results);
}

/// A further rename adds a line to the failures exactly where it failed: what it
/// was about, its id, and the error.
pub proof fn a_failure_adds_a_line(
    what: Seq<char>,
    renames: Seq<RenameView>,
    results: Seq<Result<(), String>>,
    offset: int,
    count: nat,
)
    ensures
        failures(what, renames, results, offset, 0).len() == 0,
        results[offset + count] is Ok ==> failures(what, renames, results, offset, count + 1)
            == failures(what, renames, results, offset, count),
        results[offset + count] matches Err(error) ==> failures(
            what,
            renames,
            results,
            offset,
            count + 1,
        ) == failures(what, renames, results, offset, count).push(
            what + renames[count as int].id + ": "@ + error@,
        ),
{
}

} // verus!
