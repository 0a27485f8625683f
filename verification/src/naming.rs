//! What a directory is called: the tab after its worktree, the workspace after
//! its repository and branch.

use vstd::prelude::*;
use vstd::string::{StrSliceExecFns, StringExecFns};

use crate::paths::{base_name, lemma_last_slash, parent_of};
use crate::paths::{basename, parent};
use crate::text::{last_slash, optional_str_view, optional_view, trimmed, views};
use crate::text::{same_text, strip_prefix, trim};

verus! {

/// What a program is to be asked about a directory.
#[derive(Debug, Clone, Copy, PartialEq, Eq, Structural)]
pub enum Question {
    /// The root of the worktree.
    TopLevel,
    /// Where the repository keeps its data; fails outside a repository.
    GitDirectory,
    /// Whether the repository is bare.
    IsBare,
    /// The worktrees of the repository, the main one first.
    Worktrees,
    /// The branch that is checked out.
    CurrentBranch,
    /// The repository's default branch.
    DefaultBranch,
}

/// The program that answers a question.
pub open spec fn program_for(question: Question) -> Seq<char> {
    match question {
        Question::DefaultBranch => "wt"@,
        _ => "git"@,
    }
}

/// The arguments that put a question to its program.
pub open spec fn arguments_for(question: Question) -> Seq<Seq<char>> {
    match question {
        Question::TopLevel => seq!["rev-parse"@, "--show-toplevel"@],
        Question::GitDirectory => seq!["rev-parse"@, "--git-dir"@],
        Question::IsBare => seq!["rev-parse"@, "--is-bare-repository"@],
        Question::Worktrees => seq!["worktree"@, "list"@, "--porcelain"@],
        Question::CurrentBranch => seq!["branch"@, "--show-current"@],
        Question::DefaultBranch => seq!["config"@, "state"@, "default-branch"@],
    }
}

impl Question {
    /// The program that answers the question.
    pub fn program(self) -> (program: &'static str)
        ensures
            program@ == program_for(self),
    {
        match self {
            Question::DefaultBranch => "wt",
            _ => "git",
        }
    }

    /// The arguments that put the question to its program.
    pub fn arguments(self) -> (arguments: Vec<String>)
        ensures
            views(arguments@) == arguments_for(self),
    {
        let mut arguments: Vec<String> = Vec::new();
        match self {
            Question::TopLevel => {
                arguments.push("rev-parse".to_string());
                arguments.push("--show-toplevel".to_string());
            },
            Question::GitDirectory => {
                arguments.push("rev-parse".to_string());
                arguments.push("--git-dir".to_string());
            },
            Question::IsBare => {
                arguments.push("rev-parse".to_string());
                arguments.push("--is-bare-repository".to_string());
            },
            Question::Worktrees => {
                arguments.push("worktree".to_string());
                arguments.push("list".to_string());
                arguments.push("--porcelain".to_string());
            },
            Question::CurrentBranch => {
                arguments.push("branch".to_string());
                arguments.push("--show-current".to_string());
            },
            Question::DefaultBranch => {
                arguments.push("config".to_string());
                arguments.push("state".to_string());
                arguments.push("default-branch".to_string());
            },
        }
        arguments
    }
}

/// The answer in what a program printed: its output, trimmed, if it succeeded.
pub fn command_output(succeeded: bool, printed: &str) -> (answer: Option<String>)
    ensures
        optional_view(answer) == if succeeded {
            Some(trimmed(printed@))
        } else {
            None
        },
{
    if succeeded {
        Some(trim(printed).to_string())
    } else {
        None
    }
}

/// Worktree root basename, else the directory basename.
pub open spec fn tab_name_of(cwd: Seq<char>, root: Option<Seq<char>>) -> Seq<char> {
    match root {
        Some(root) => if root.len() > 0 {
            base_name(root)
        } else {
            base_name(cwd)
        },
        None => base_name(cwd),
    }
}

/// The directory in which a workspace's questions are asked: worktrunk keeps
/// the bare repo in `.bare`; git commands belong in the project root above it.
pub open spec fn asking_directory(cwd: Seq<char>) -> Seq<char> {
    if base_name(cwd) == ".bare"@ {
        match parent_of(cwd) {
            Some(above) => above,
            None => cwd,
        }
    } else {
        cwd
    }
}

/// The first line of a text, without its line ending.
pub open spec fn first_line(text: Seq<char>) -> Seq<char> {
    let end = line_end(text, 0);
    let line = text.take(end);
    if end < text.len() && line.len() > 0 && line.last() == '\r' {
        line.drop_last()
    } else {
        line
    }
}

/// The position of the first line feed from `start` on, or the end of the text.
pub open spec fn line_end(text: Seq<char>, start: int) -> int
    decreases text.len() - start,
{
    if start < 0 || start >= text.len() {
        text.len() as int
    } else if text[start] == '\n' {
        start
    } else {
        line_end(text, start + 1)
    }
}

/// The path on the first line of a porcelain worktree listing; empty where the
/// listing does not start with a worktree.
pub open spec fn main_worktree(listing: Option<Seq<char>>) -> Seq<char> {
    match listing {
        Some(listing) => if "worktree "@.is_prefix_of(first_line(listing)) {
            first_line(listing).skip("worktree "@.len() as int)
        } else {
            Seq::empty()
        },
        None => Seq::empty(),
    }
}

/// The repo's name: the basename of its main worktree, or of the directory
/// holding `.bare` when worktrunk laid it out that way.
pub open spec fn repo_name_of(directory: Seq<char>, listing: Option<Seq<char>>) -> Seq<char> {
    let main = main_worktree(listing);
    if main.len() == 0 {
        base_name(directory)
    } else if base_name(main) == ".bare"@ {
        match parent_of(main) {
            Some(above) => base_name(above),
            None => base_name(main),
        }
    } else {
        base_name(main)
    }
}

/// The default branch where worktrunk knows it, else the usual name.
pub open spec fn default_branch_of(answer: Option<Seq<char>>) -> Seq<char> {
    match answer {
        Some(branch) => if branch.len() > 0 {
            branch
        } else {
            "main"@
        },
        None => "main"@,
    }
}

/// `repo` on the default branch, `repo/branch` on any other.
pub open spec fn repo_and_branch(
    repo: Seq<char>,
    branch: Seq<char>,
    default_branch: Seq<char>,
) -> Seq<char> {
    if branch == default_branch {
        repo
    } else {
        repo + seq!['/'] + branch
    }
}

/// Worktree root basename, else the directory basename. `root` is the answer
/// to `Question::TopLevel`.
pub fn tab_name(cwd: &str, root: Option<&str>) -> (name: String)
    ensures
        name@ == tab_name_of(cwd@, optional_str_view(root)),
{
    match root {
        Some(root) => if root.is_empty() {
            basename(cwd).to_string()
        } else {
            basename(root).to_string()
        },
        None => basename(cwd).to_string(),
    }
}

/// The first line of a text, without its line ending.
fn take_first_line(text: &str) -> (line: &str)
    ensures
        line@ == first_line(text@),
{
    let len: usize = text.unicode_len();
    let mut end: usize = 0;
    while end < len && text.get_char(end) != '\n'
        invariant
            end <= len,
            len == text@.len(),
            line_end(text@, 0) == line_end(text@, end as int),
        decreases len - end,
    {
        end = end + 1;
    }
    if end < len && end > 0 && text.get_char(end - 1) == '\r' {
        text.substring_char(0, end - 1)
    } else {
        text.substring_char(0, end)
    }
}

/// The repo's name: the basename of its main worktree, or of the directory
/// holding `.bare` when worktrunk laid it out that way. `listing` is the answer
/// to `Question::Worktrees`.
pub fn repo_name(directory: &str, listing: Option<&str>) -> (name: String)
    ensures
        name@ == repo_name_of(directory@, optional_str_view(listing)),
{
    let main: &str = match listing {
        Some(listing) => match strip_prefix(take_first_line(listing), "worktree ") {
            Some(path) => path,
            None => {
                return basename(directory).to_string();
            },
        },
        None => {
            return basename(directory).to_string();
        },
    };
    if main.is_empty() {
        return basename(directory).to_string();
    }
    if same_text(basename(main), ".bare") {
        return match parent(main) {
            Some(above) => basename(above).to_string(),
            None => basename(main).to_string(),
        };
    }
    basename(main).to_string()
}

/// How far the naming of a workspace has come.
#[derive(Debug, Clone, PartialEq, Eq)]
pub enum Stage {
    /// Is the directory in a repository?
    Repository,
    /// Is the repository bare?
    Bareness,
    /// Where is the repository's main worktree?
    MainWorktree,
    /// Which branch is checked out?
    Branch { repo: String },
    /// Is that the default branch?
    DefaultBranch { repo: String, branch: String },
}

/// A stage in mathematical terms.
pub enum StageView {
    Repository,
    Bareness,
    MainWorktree,
    Branch { repo: Seq<char> },
    DefaultBranch { repo: Seq<char>, branch: Seq<char> },
}

impl View for Stage {
    type V = StageView;

    open spec fn view(&self) -> StageView {
        match self {
            Stage::Repository => StageView::Repository,
            Stage::Bareness => StageView::Bareness,
            Stage::MainWorktree => StageView::MainWorktree,
            Stage::Branch { repo } => StageView::Branch { repo: repo@ },
            Stage::DefaultBranch { repo, branch } => StageView::DefaultBranch {
                repo: repo@,
                branch: branch@,
            },
        }
    }
}

/// A workspace being named: one question is open, in one directory.
#[derive(Debug, Clone, PartialEq, Eq)]
pub struct WorkspaceNaming {
    pub directory: String,
    pub stage: Stage,
}

/// What an answer leads to: a further question, or the name.
#[derive(Debug, Clone, PartialEq, Eq)]
pub enum Progress {
    Asking(WorkspaceNaming),
    Named(String),
}

/// Where an answer leads in mathematical terms.
pub enum ProgressView {
    Asking { directory: Seq<char>, stage: StageView },
    Named(Seq<char>),
}

impl View for Progress {
    type V = ProgressView;

    open spec fn view(&self) -> ProgressView {
        match self {
            Progress::Asking(naming) => ProgressView::Asking {
                directory: naming.directory@,
                stage: naming.stage@,
            },
            Progress::Named(name) => ProgressView::Named(name@),
        }
    }
}

/// The question that is open at a stage.
pub open spec fn open_question(stage: StageView) -> Question {
    match stage {
        StageView::Repository => Question::GitDirectory,
        StageView::Bareness => Question::IsBare,
        StageView::MainWorktree => Question::Worktrees,
        StageView::Branch { .. } => Question::CurrentBranch,
        StageView::DefaultBranch { .. } => Question::DefaultBranch,
    }
}

/// Where the answer to the open question leads.
pub open spec fn after_answer(
    directory: Seq<char>,
    stage: StageView,
    answer: Option<Seq<char>>,
) -> ProgressView {
    match stage {
        StageView::Repository => match answer {
            Some(_) => ProgressView::Asking { directory, stage: StageView::Bareness },
            None => ProgressView::Named(base_name(directory)),
        },
        StageView::Bareness => if answer == Some("true"@) {
            ProgressView::Named(base_name(directory))
        } else {
            ProgressView::Asking { directory, stage: StageView::MainWorktree }
        },
        StageView::MainWorktree => ProgressView::Asking {
            directory,
            stage: StageView::Branch { repo: repo_name_of(directory, answer) },
        },
        StageView::Branch { repo } => match answer {
            Some(branch) => if branch.len() > 0 {
                ProgressView::Asking {
                    directory,
                    stage: StageView::DefaultBranch { repo, branch },
                }
            } else {
                ProgressView::Named(repo)
            },
            None => ProgressView::Named(repo),
        },
        StageView::DefaultBranch { repo, branch } => ProgressView::Named(
            repo_and_branch(repo, branch, default_branch_of(answer)),
        ),
    }
}

impl WorkspaceNaming {
    /// Begin to name the workspace of a directory.
    pub fn start(cwd: &str) -> (naming: WorkspaceNaming)
        ensures
            naming.directory@ == asking_directory(cwd@),
            naming.stage@ == StageView::Repository,
    {
        let directory: &str = if same_text(basename(cwd), ".bare") {
            match parent(cwd) {
                Some(above) => above,
                None => cwd,
            }
        } else {
            cwd
        };
        WorkspaceNaming { directory: directory.to_string(), stage: Stage::Repository }
    }

    /// The question that is open.
    pub fn question(&self) -> (question: Question)
        ensures
            question == open_question(self.stage@),
    {
        match &self.stage {
            Stage::Repository => Question::GitDirectory,
            Stage::Bareness => Question::IsBare,
            Stage::MainWorktree => Question::Worktrees,
            Stage::Branch { .. } => Question::CurrentBranch,
            Stage::DefaultBranch { .. } => Question::DefaultBranch,
        }
    }

    /// Take the answer to the open question; `None` is that of a program that
    /// failed or could not be run.
    pub fn answer(self, answer: Option<&str>) -> (progress: Progress)
        ensures
            progress@ == after_answer(self.directory@, self.stage@, optional_str_view(answer)),
    {
        let directory: String = self.directory;
        match self.stage {
            Stage::Repository => match answer {
                Some(_) => Progress::Asking(
                    WorkspaceNaming { directory, stage: Stage::Bareness },
                ),
                None => Progress::Named(basename(directory.as_str()).to_string()),
            },
            Stage::Bareness => {
                let bare: bool = match answer {
                    Some(answer) => same_text(answer, "true"),
                    None => false,
                };
                if bare {
                    Progress::Named(basename(directory.as_str()).to_string())
                } else {
                    Progress::Asking(WorkspaceNaming { directory, stage: Stage::MainWorktree })
                }
            },
            Stage::MainWorktree => {
                let repo: String = repo_name(directory.as_str(), answer);
                Progress::Asking(WorkspaceNaming { directory, stage: Stage::Branch { repo } })
            },
            Stage::Branch { repo } => match answer {
                Some(branch) => if branch.is_empty() {
                    Progress::Named(repo)
                } else {
                    let branch: String = branch.to_string();
                    Progress::Asking(
                        WorkspaceNaming { directory, stage: Stage::DefaultBranch { repo, branch } },
                    )
                },
                None => Progress::Named(repo),
            },
            // worktrunk knows the repo's default branch; without it, fall back
            // to the usual name so a plain clone still collapses to just the
            // repo name.
            Stage::DefaultBranch { repo, branch } => {
                let on_default: bool = match answer {
                    Some(answer) => if answer.is_empty() {
                        same_text(branch.as_str(), "main")
                    } else {
                        same_text(branch.as_str(), answer)
                    },
                    None => same_text(branch.as_str(), "main"),
                };
                if on_default {
                    Progress::Named(repo)
                } else {
                    let mut name: String = repo;
                    proof {
                        reveal_strlit("/");
                        assert("/"@ =~= seq!['/']);
                    }
                    name.append("/");
                    name.append(branch.as_str());
                    Progress::Named(name)
                }
            },
        }
    }
}

/// The answers that the programs would give about a directory.
pub struct Answers {
    pub git_directory: Option<Seq<char>>,
    pub is_bare: Option<Seq<char>>,
    pub worktrees: Option<Seq<char>>,
    pub current_branch: Option<Seq<char>>,
    pub default_branch: Option<Seq<char>>,
}

impl Answers {
    /// The answer to one question; naming a workspace does not ask for the top
    /// level.
    pub open spec fn to(self, question: Question) -> Option<Seq<char>> {
        match question {
            Question::TopLevel => None,
            Question::GitDirectory => self.git_directory,
            Question::IsBare => self.is_bare,
            Question::Worktrees => self.worktrees,
            Question::CurrentBranch => self.current_branch,
            Question::DefaultBranch => self.default_branch,
        }
    }
}

/// The workspace's name, from the answers: the base name of the directory
/// outside a repository and in a bare one, else `repo` on the default branch or
/// on none, `repo/branch` on any other.
pub open spec fn workspace_name_of(cwd: Seq<char>, answers: Answers) -> Seq<char> {
    let directory = asking_directory(cwd);
    let repo = repo_name_of(directory, answers.worktrees);
    if answers.git_directory is None || answers.is_bare == Some("true"@) {
        base_name(directory)
    } else {
        match answers.current_branch {
            Some(branch) => if branch.len() > 0 {
                repo_and_branch(repo, branch, default_branch_of(answers.default_branch))
            } else {
                repo
            },
            None => repo,
        }
    }
}

/// The state of a naming after `steps` answers.
pub open spec fn naming_after(cwd: Seq<char>, answers: Answers, steps: nat) -> ProgressView
    decreases steps,
{
    if steps == 0 {
        ProgressView::Asking { directory: asking_directory(cwd), stage: StageView::Repository }
    } else {
        match naming_after(cwd, answers, (steps - 1) as nat) {
            ProgressView::Asking { directory, stage } => after_answer(
                directory,
                stage,
                answers.to(open_question(stage)),
            ),
            ProgressView::Named(name) => ProgressView::Named(name),
        }
    }
}

/// Naming a workspace ends after at most five answers, with the name that the
/// answers call for.
pub proof fn naming_ends_with_the_workspace_name(cwd: Seq<char>, answers: Answers)
    ensures
        naming_after(cwd, answers, 5) == ProgressView::Named(workspace_name_of(cwd, answers)),
{
    reveal_with_fuel(naming_after, 6);
}

/// A directory outside any repository names its workspace and its tab alike,
/// unless it is a `.bare` directory.
pub proof fn outside_a_repository_the_base_name_counts(cwd: Seq<char>, answers: Answers)
    requires
        answers.git_directory is None,
        base_name(cwd) != ".bare"@,
    ensures
        workspace_name_of(cwd, answers) == base_name(cwd),
        tab_name_of(cwd, None) == base_name(cwd),
{
}

/// On the default branch a workspace is called after its repository; on any
/// other, after the repository and the branch.
pub proof fn the_branch_shows_only_off_the_default_branch(cwd: Seq<char>, answers: Answers)
    requires
        answers.git_directory is Some,
        answers.is_bare != Some("true"@),
        answers.current_branch matches Some(branch) && branch.len() > 0,
    ensures
        ({
            let branch = answers.current_branch->0;
            let repo = repo_name_of(asking_directory(cwd), answers.worktrees);
            let name = workspace_name_of(cwd, answers);
            if branch == default_branch_of(answers.default_branch) {
                name == repo
            } else {
                name == repo + seq!['/'] + branch
            }
        }),
{
}

/// The `.bare` directory of a project, taken apart.
proof fn lemma_bare_directory(project: Seq<char>)
    requires
        project.len() > 0,
    ensures
        base_name(project + "/.bare"@) == ".bare"@,
        parent_of(project + "/.bare"@) == Some(project),
{
    reveal_strlit("/.bare");
    reveal_strlit(".bare");
    let path = project + "/.bare"@;
    let at = project.len() as int;
    assert(last_slash(path) == Some(at)) by {
        lemma_last_slash(path);
        assert(path[at] == '/');
    }
}

/// In a `.bare` directory the project directory above it gives the name.
pub proof fn a_bare_checkout_is_called_after_its_project(project: Seq<char>, answers: Answers)
    requires
        answers.is_bare == Some("true"@),
        project.len() > 0,
    ensures
        workspace_name_of(project + "/.bare"@, answers) == base_name(project),
{
    lemma_bare_directory(project);
}

/// A repository whose main worktree is a `.bare` directory is called after the
/// directory that holds it.
pub proof fn a_repository_in_a_bare_directory_is_called_after_its_project(
    directory: Seq<char>,
    listing: Seq<char>,
    project: Seq<char>,
)
    requires
        first_line(listing) == "worktree "@ + (project + "/.bare"@),
        project.len() > 0,
    ensures
        repo_name_of(directory, Some(listing)) == base_name(project),
{
    let path = project + "/.bare"@;
    let line = "worktree "@ + path;
    assert(line.skip("worktree "@.len() as int) =~= path);
    lemma_bare_directory(project);
}

/// A tab whose worktree root is known is called after that root, wherever in the
/// worktree its directory is; without one it is called after the directory.
pub proof fn a_tab_is_called_after_its_worktree_root(
    cwd: Seq<char>,
    other: Seq<char>,
    root: Seq<char>,
)
    requires
        root.len() > 0,
    ensures
        tab_name_of(cwd, Some(root)) == base_name(root),
        tab_name_of(cwd, Some(root)) == tab_name_of(other, Some(root)),
        tab_name_of(cwd, Some(Seq::empty())) == base_name(cwd),
        tab_name_of(cwd, None) == base_name(cwd),
{
}

proof fn lemma_line_end(text: Seq<char>, start: int, end: int)
    requires
        0 <= start <= end <= text.len(),
        forall|i: int| start <= i < end ==> #[trigger] text[i] != '\n',
        end < text.len() ==> text[end] == '\n',
    ensures
        line_end(text, start) == end,
    decreases end - start,
{
    if start < end {
        lemma_line_end(text, start + 1, end);
    }
}

/// The first line is what comes before the first line feed; a carriage return
/// before that line feed belongs to the line ending.
pub proof fn the_first_line_ends_at_the_line_feed(line: Seq<char>, rest: Seq<char>)
    requires
        forall|i: int| 0 <= i < line.len() ==> #[trigger] line[i] != '\n',
    ensures
        first_line(line) == line,
        line.len() == 0 || line[line.len() - 1] != '\r' ==> first_line(line + seq!['\n'] + rest)
            == line,
        first_line(line + seq!['\r', '\n'] + rest) == line,
{
    let plain = line + seq!['\n'] + rest;
    let returned = line + seq!['\r', '\n'] + rest;
    let n = line.len() as int;
    lemma_line_end(line, 0, n);
    assert(line.take(n) =~= line);
    assert forall|i: int| 0 <= i < n implies #[trigger] plain[i] != '\n' by {
        assert(plain[i] == line[i]);
    }
    assert(plain[n] == '\n');
    lemma_line_end(plain, 0, n);
    assert(plain.take(n) =~= line);
    assert forall|i: int| 0 <= i < n + 1 implies #[trigger] returned[i] != '\n' by {
        if i < n {
            assert(returned[i] == line[i]);
        } else {
            assert(returned[i] == '\r');
        }
    }
    assert(returned[n + 1] == '\n');
    lemma_line_end(returned, 0, n + 1);
    assert(returned.take(n + 1) =~= line.push('\r'));
    assert(line.push('\r').drop_last() =~= line);
}

/// A repository is called after its main worktree, whichever of its directories
/// was asked about; where the main worktree is a `.bare` directory, after the
/// directory that holds it.
pub proof fn a_repository_is_called_after_its_main_worktree(
    directory: Seq<char>,
    other: Seq<char>,
    listing: Seq<char>,
    path: Seq<char>,
)
    requires
        first_line(listing) == "worktree "@ + path,
        path.len() > 0,
    ensures
        repo_name_of(directory, Some(listing)) == repo_name_of(other, Some(listing)),
        base_name(path) != ".bare"@ ==> repo_name_of(directory, Some(listing)) == base_name(path),
        base_name(path) == ".bare"@ ==> repo_name_of(directory, Some(listing)) == (
        if parent_of(path) is Some {
            base_name(parent_of(path)->0)
        } else {
            base_name(path)
        }),
{
    let line = "worktree "@ + path;
    assert(line.skip("worktree "@.len() as int) =~= path);
    assert("worktree "@ =~= line.take("worktree "@.len() as int));
}

/// The same, over the listing as `git` prints it.
pub proof fn a_worktree_listing_names_the_repository(
    directory: Seq<char>,
    path: Seq<char>,
    rest: Seq<char>,
)
    requires
        path.len() > 0,
        forall|i: int| 0 <= i < path.len() ==> #[trigger] path[i] != '\n',
        path[path.len() - 1] != '\r',
        base_name(path) != ".bare"@,
    ensures
        repo_name_of(directory, Some("worktree "@ + path)) == base_name(path),
        repo_name_of(directory, Some("worktree "@ + path + seq!['\n'] + rest)) == base_name(path),
{
    reveal_strlit("worktree ");
    let line = "worktree "@ + path;
    assert forall|i: int| 0 <= i < line.len() implies #[trigger] line[i] != '\n' by {
        if i >= 9 {
            assert(line[i] == path[i - 9]);
        }
    }
    assert(line[line.len() - 1] == path[path.len() - 1]);
    the_first_line_ends_at_the_line_feed(line, rest);
    a_repository_is_called_after_its_main_worktree(directory, directory, line, path);
    a_repository_is_called_after_its_main_worktree(
        directory,
        directory,
        line + seq!['\n'] + rest,
        path,
    );
}

/// Where the listing names no worktree, the directory gives the name.
pub proof fn without_a_worktree_the_directory_gives_the_name(
    directory: Seq<char>,
    listing: Seq<char>,
)
    requires
        !"worktree "@.is_prefix_of(first_line(listing)) || first_line(listing) == "worktree "@,
    ensures
        repo_name_of(directory, None) == base_name(directory),
        repo_name_of(directory, Some(listing)) == base_name(directory),
{
    assert("worktree "@.skip("worktree "@.len() as int).len() == 0);
}

/// Where the questions about a workspace are asked: in the directory itself,
/// unless that is a `.bare` directory with something above it.
pub proof fn questions_are_asked_above_a_bare_directory(cwd: Seq<char>)
    ensures
        base_name(cwd) != ".bare"@ ==> asking_directory(cwd) == cwd,
        base_name(cwd) == ".bare"@ && parent_of(cwd) is None ==> asking_directory(cwd) == cwd,
        base_name(cwd) == ".bare"@ && parent_of(cwd) is Some ==> asking_directory(cwd)
            == parent_of(cwd)->0,
{
}

/// All the questions about a workspace are asked in one directory, one after the
/// other: whether there is a repository, whether it is bare, where its main
/// worktree is, which branch is checked out, and which is the default.
pub proof fn questions_come_in_order(cwd: Seq<char>, answers: Answers, steps: nat)
    ensures
        naming_after(cwd, answers, steps) matches ProgressView::Asking { directory, stage } ==> {
            let question = open_question(stage);
            &&& directory == asking_directory(cwd)
            &&& steps < 5
            &&& steps == 0 ==> question == Question::GitDirectory
            &&& steps == 1 ==> question == Question::IsBare
            &&& steps == 2 ==> question == Question::Worktrees
            &&& steps == 3 ==> question == Question::CurrentBranch
            &&& steps == 4 ==> question == Question::DefaultBranch
        },
    decreases steps,
{
    reveal_with_fuel(naming_after, 6);
    if steps > 5 {
        questions_come_in_order(cwd, answers, (steps - 1) as nat);
    }
}

/// Outside a repository, and in a bare one, a workspace is called after the
/// directory that was asked about.
pub proof fn without_a_worktree_a_workspace_is_called_after_its_directory(
    cwd: Seq<char>,
    answers: Answers,
)
    requires
        answers.git_directory is None || answers.is_bare == Some("true"@),
    ensures
        naming_after(cwd, answers, 5) == ProgressView::Named(base_name(asking_directory(cwd))),
{
    naming_ends_with_the_workspace_name(cwd, answers);
}

/// In a repository that is not bare, a workspace is called after the repository,
/// with the branch behind it exactly where a branch is checked out that is not
/// the default: the one `wt` names, or `main` where it names none.
pub proof fn a_workspace_is_called_after_repository_and_branch(cwd: Seq<char>, answers: Answers)
    requires
        answers.git_directory is Some,
        answers.is_bare != Some("true"@),
    ensures
        ({
            let repo = repo_name_of(asking_directory(cwd), answers.worktrees);
            let detached = answers.current_branch is None || answers.current_branch->0.len() == 0;
            let unknown = answers.default_branch is None || answers.default_branch->0.len() == 0;
            let branch = answers.current_branch->0;
            let name = naming_after(cwd, answers, 5);
            &&& detached ==> name == ProgressView::Named(repo)
            &&& !detached && unknown && branch == "main"@ ==> name == ProgressView::Named(repo)
            &&& !detached && unknown && branch != "main"@ ==> name == ProgressView::Named(
                repo + seq!['/'] + branch,
            )
            &&& !detached && !unknown && branch == answers.default_branch->0 ==> name
                == ProgressView::Named(repo)
            &&& !detached && !unknown && branch != answers.default_branch->0 ==> name
                == ProgressView::Named(repo + seq!['/'] + branch)
        }),
{
    naming_ends_with_the_workspace_name(cwd, answers);
}

/// Two directories of one repository have one workspace name, wherever in it
/// they are.
pub proof fn directories_of_one_repository_share_its_name(
    cwd: Seq<char>,
    other: Seq<char>,
    answers: Answers,
    path: Seq<char>,
)
    requires
        answers.git_directory is Some,
        answers.is_bare != Some("true"@),
        answers.worktrees matches Some(listing) && first_line(listing) == "worktree "@ + path,
        path.len() > 0,
    ensures
        naming_after(cwd, answers, 5) == naming_after(other, answers, 5),
{
    naming_ends_with_the_workspace_name(cwd, answers);
    naming_ends_with_the_workspace_name(other, answers);
    a_repository_is_called_after_its_main_worktree(
        asking_directory(cwd),
        asking_directory(other),
        answers.worktrees->0,
        path,
    );
}

/// What each question is put to, and how.
pub proof fn questions_in_words()
    ensures
        program_for(Question::DefaultBranch) == "wt"@,
        forall|question: Question|
            question != Question::DefaultBranch ==> #[trigger] program_for(question) == "git"@,
        arguments_for(Question::TopLevel) == seq!["rev-parse"@, "--show-toplevel"@],
        arguments_for(Question::GitDirectory) == seq!["rev-parse"@, "--git-dir"@],
        arguments_for(Question::IsBare) == seq!["rev-parse"@, "--is-bare-repository"@],
        arguments_for(Question::Worktrees) == seq!["worktree"@, "list"@, "--porcelain"@],
        arguments_for(Question::CurrentBranch) == seq!["branch"@, "--show-current"@],
        arguments_for(Question::DefaultBranch) == seq!["config"@, "state"@, "default-branch"@],
{
}

} // verus!
