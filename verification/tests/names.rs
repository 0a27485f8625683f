use herdr_title_rename::{
    command_output, repo_name, tab_name, Progress, Question, Stage, WorkspaceNaming,
};

/// Name the workspace of a directory with a table of answers, and list what was
/// asked.
fn name_workspace(cwd: &str, answers: &[(Question, &str)]) -> (String, Vec<Question>) {
    let mut asked = vec![];
    let mut naming = WorkspaceNaming::start(cwd);
    loop {
        let question = naming.question();
        asked.push(question);
        let answer = answers
            .iter()
            .find(|(about, _)| *about == question)
            .map(|(_, answer)| *answer);
        match naming.answer(answer) {
            Progress::Asking(next) => naming = next,
            Progress::Named(name) => return (name, asked),
        }
    }
}

#[test]
fn a_tab_is_called_after_its_worktree() {
    assert_eq!(tab_name("/dev/app/src", Some("/dev/app")), "app");
    assert_eq!(tab_name("/dev/app/src", Some("")), "src");
    assert_eq!(tab_name("/dev/app/src", None), "src");
}

#[test]
fn outside_a_repository_the_directory_gives_the_name() {
    let (name, asked) = name_workspace("/tmp/notes", &[]);
    assert_eq!(name, "notes");
    assert_eq!(asked, vec![Question::GitDirectory]);
}

#[test]
fn a_bare_checkout_is_called_after_the_project() {
    let naming = WorkspaceNaming::start("/dev/project/.bare");
    assert_eq!(naming.directory, "/dev/project");
    assert_eq!(naming.stage, Stage::Repository);
    let (name, asked) = name_workspace(
        "/dev/project/.bare",
        &[(Question::GitDirectory, "."), (Question::IsBare, "true")],
    );
    assert_eq!(name, "project");
    assert_eq!(asked, vec![Question::GitDirectory, Question::IsBare]);
    // A `.bare` with nothing above it is asked about itself.
    assert_eq!(WorkspaceNaming::start(".bare").directory, ".bare");
}

#[test]
fn the_default_branch_is_not_shown() {
    let answers = [
        (Question::GitDirectory, ".git"),
        (Question::IsBare, "false"),
        (Question::Worktrees, "worktree /dev/app\nHEAD 1234\nbranch refs/heads/trunk\n"),
        (Question::CurrentBranch, "trunk"),
        (Question::DefaultBranch, "trunk"),
    ];
    let (name, asked) = name_workspace("/dev/app", &answers);
    assert_eq!(name, "app");
    assert_eq!(
        asked,
        vec![
            Question::GitDirectory,
            Question::IsBare,
            Question::Worktrees,
            Question::CurrentBranch,
            Question::DefaultBranch,
        ]
    );
}

#[test]
fn another_branch_is_shown() {
    let mut answers = vec![
        (Question::GitDirectory, ".git"),
        (Question::Worktrees, "worktree /dev/app"),
        (Question::CurrentBranch, "feature/x"),
    ];
    assert_eq!(name_workspace("/dev/app-x", &answers).0, "app/feature/x");
    // Without worktrunk, and with a worktrunk that does not know, `main` is the
    // default.
    answers[2] = (Question::CurrentBranch, "main");
    assert_eq!(name_workspace("/dev/app-x", &answers).0, "app");
    answers.push((Question::DefaultBranch, ""));
    assert_eq!(name_workspace("/dev/app-x", &answers).0, "app");
    answers[3] = (Question::DefaultBranch, "trunk");
    assert_eq!(name_workspace("/dev/app-x", &answers).0, "app/main");
}

#[test]
fn a_detached_head_shows_the_repository_alone() {
    let answers = [
        (Question::GitDirectory, ".git"),
        (Question::Worktrees, "worktree /dev/app"),
        (Question::CurrentBranch, ""),
    ];
    let (name, asked) = name_workspace("/dev/app", &answers);
    assert_eq!(name, "app");
    assert_eq!(asked.len(), 4);
}

#[test]
fn repositories_are_called_after_their_main_worktree() {
    assert_eq!(repo_name("/dev/app-x", Some("worktree /dev/app\nHEAD 1")), "app");
    assert_eq!(repo_name("/dev/app-x", Some("worktree /dev/app\r\nHEAD 1")), "app");
    assert_eq!(repo_name("/dev/app/x", Some("worktree /dev/app/.bare\nbare")), "app");
    assert_eq!(repo_name("/dev/app/x", Some("worktree .bare")), ".bare");
    assert_eq!(repo_name("/dev/app-x", Some("HEAD 1\nworktree /dev/app")), "app-x");
    assert_eq!(repo_name("/dev/app-x", Some("worktree ")), "app-x");
    assert_eq!(repo_name("/dev/app-x", Some("")), "app-x");
    assert_eq!(repo_name("/dev/app-x", None), "app-x");
}

#[test]
fn questions_are_put_to_git_and_worktrunk() {
    assert_eq!(Question::TopLevel.program(), "git");
    assert_eq!(Question::TopLevel.arguments(), vec!["rev-parse", "--show-toplevel"]);
    assert_eq!(Question::GitDirectory.arguments(), vec!["rev-parse", "--git-dir"]);
    assert_eq!(Question::IsBare.arguments(), vec!["rev-parse", "--is-bare-repository"]);
    assert_eq!(Question::Worktrees.arguments(), vec!["worktree", "list", "--porcelain"]);
    assert_eq!(Question::CurrentBranch.arguments(), vec!["branch", "--show-current"]);
    assert_eq!(Question::DefaultBranch.program(), "wt");
    assert_eq!(
        Question::DefaultBranch.arguments(),
        vec!["config", "state", "default-branch"]
    );
}

#[test]
fn the_output_of_a_failed_command_is_no_answer() {
    assert_eq!(command_output(true, " main\n"), Some("main".to_string()));
    assert_eq!(command_output(true, ""), Some(String::new()));
    assert_eq!(command_output(false, "fatal"), None);
}
