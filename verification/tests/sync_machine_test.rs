use curlish::sync::{self, GitOutput, Reply, Step, SyncConfig, SyncOp, SyncStatus};

fn cfg() -> SyncConfig {
    SyncConfig {
        repo_url: String::from("/tmp/remote.git"),
        branch: String::from("main"),
        local_dir: String::from("/tmp/local"),
    }
}

fn ok(stdout: &str) -> Reply {
    Reply::Ran(Some(GitOutput {
        success: true,
        stdout: String::from(stdout),
        stderr: String::new(),
    }))
}

fn failed(stderr: &str) -> Reply {
    Reply::Ran(Some(GitOutput {
        success: false,
        stdout: String::new(),
        stderr: String::from(stderr),
    }))
}

fn git_args(step: &Step) -> Vec<String> {
    match step {
        Step::Do(SyncOp::Git { args, .. }) => args.clone(),
        other => panic!("expected a git command, got {other:?}"),
    }
}

/// Runs an existing clone through the repository checks up to the point
/// where the task itself begins.
fn through_existing_repo(run: &mut sync::SyncRun, first: Reply) -> Step {
    let s = run.step(first);
    assert!(matches!(s, Step::Do(SyncOp::RepoExists)));
    let s = run.step(Reply::Flag(true));
    assert_eq!(git_args(&s), vec!["config", "user.name"]);
    let s = run.step(ok("me"));
    assert_eq!(git_args(&s), vec!["config", "user.email"]);
    let s = run.step(ok("me@x"));
    assert_eq!(git_args(&s), vec!["remote", "set-url", "origin", "/tmp/remote.git"]);
    run.step(ok(""))
}

#[test]
fn push_machine_diverged_is_conflict() {
    let mut run = sync::push(&cfg());
    assert!(matches!(run.step(Reply::Start), Step::Do(SyncOp::RepoExists)));
    let s = through_existing_repo(&mut run, Reply::Flag(true));
    assert_eq!(git_args(&s), vec!["fetch", "origin", "main"]);
    let s = run.step(ok(""));
    assert_eq!(git_args(&s), vec!["rev-list", "--count", "origin/main..HEAD"]);
    let s = run.step(ok("2\n"));
    assert_eq!(git_args(&s), vec!["rev-list", "--count", "HEAD..origin/main"]);
    let s = run.step(ok("1\n"));
    assert!(matches!(s, Step::Finished(Ok(SyncStatus::Conflict))));
}

#[test]
fn push_machine_remote_ahead_pulls() {
    let mut run = sync::push(&cfg());
    run.step(Reply::Start);
    through_existing_repo(&mut run, Reply::Flag(true));
    run.step(ok(""));
    run.step(ok("0"));
    let s = run.step(ok("3"));
    assert_eq!(git_args(&s), vec!["reset", "--hard", "origin/main"]);
    let s = run.step(ok(""));
    assert!(matches!(s, Step::Do(SyncOp::CopyFromRepo)));
    assert!(matches!(run.step(Reply::Done), Step::Finished(Ok(SyncStatus::Synced))));
}

#[test]
fn push_machine_local_ahead_commits_and_pushes() {
    let mut run = sync::push(&cfg());
    run.step(Reply::Start);
    through_existing_repo(&mut run, Reply::Flag(true));
    run.step(ok(""));
    run.step(ok("1"));
    let s = run.step(ok("0"));
    assert!(matches!(s, Step::Do(SyncOp::CopyToRepo)));
    let s = run.step(Reply::Done);
    assert_eq!(git_args(&s), vec!["status", "--porcelain"]);
    let s = run.step(ok(" M requests.json\n"));
    assert_eq!(git_args(&s), vec!["add", "."]);
    let s = run.step(ok(""));
    assert_eq!(git_args(&s), vec!["commit", "-m", "curlish sync"]);
    let s = run.step(ok(""));
    assert_eq!(git_args(&s), vec!["fetch", "origin", "main"]);
    let s = run.step(ok(""));
    assert_eq!(git_args(&s), vec!["rebase", "origin/main"]);
    let s = run.step(ok(""));
    assert_eq!(git_args(&s), vec!["push", "origin", "main"]);
    assert!(matches!(run.step(ok("")), Step::Finished(Ok(SyncStatus::Synced))));
}

#[test]
fn push_machine_fresh_clone_with_history_is_conflict() {
    let mut run = sync::push(&cfg());
    run.step(Reply::Start);
    let s = run.step(Reply::Flag(false));
    assert!(matches!(s, Step::Do(SyncOp::RepoExists)));
    let s = run.step(Reply::Flag(false));
    assert_eq!(git_args(&s), vec!["clone", "/tmp/remote.git", "/tmp/local"]);
    let s = run.step(ok(""));
    assert_eq!(git_args(&s), vec!["config", "user.name"]);
    let s = run.step(failed(""));
    assert_eq!(git_args(&s), vec!["config", "user.email"]);
    let s = run.step(failed(""));
    assert_eq!(git_args(&s), vec!["config", "user.name", "curlish"]);
    let s = run.step(ok(""));
    assert_eq!(git_args(&s), vec!["config", "user.email", "curlish@localhost"]);
    let s = run.step(ok(""));
    assert_eq!(git_args(&s), vec!["remote", "set-url", "origin", "/tmp/remote.git"]);
    let s = run.step(ok(""));
    assert_eq!(git_args(&s), vec!["fetch", "origin", "main"]);
    let s = run.step(ok(""));
    assert_eq!(git_args(&s), vec!["rev-list", "--count", "origin/main"]);
    assert!(matches!(run.step(ok(" 4 ")), Step::Finished(Ok(SyncStatus::Conflict))));
}

#[test]
fn push_machine_empty_remote_bootstraps() {
    let mut run = sync::push(&cfg());
    run.step(Reply::Start);
    through_existing_repo(&mut run, Reply::Flag(true));
    let s = run.step(failed("fatal: couldn't find remote ref main"));
    assert!(matches!(s, Step::Do(SyncOp::CopyToRepo)));
    run.step(Reply::Done);
    run.step(ok(""));
    let s = run.step(failed("fatal: couldn't find remote ref main\n"));
    assert_eq!(git_args(&s), vec!["checkout", "-B", "main"]);
    let s = run.step(ok(""));
    assert_eq!(git_args(&s), vec!["add", "."]);
    let s = run.step(ok(""));
    assert_eq!(git_args(&s), vec!["commit", "-m", "curlish: initial sync"]);
    let s = run.step(ok(""));
    assert_eq!(git_args(&s), vec!["push", "-u", "origin", "main"]);
    match run.step(failed("  rejected  ")) {
        Step::Finished(Err(msg)) => assert_eq!(msg, "Initial push failed: rejected"),
        other => panic!("unexpected {other:?}"),
    }
}

#[test]
fn push_machine_rebase_failure_is_conflict() {
    let mut run = sync::push(&cfg());
    run.step(Reply::Start);
    through_existing_repo(&mut run, Reply::Flag(true));
    run.step(failed("network down"));
    run.step(Reply::Done);
    run.step(ok(""));
    let s = run.step(ok(""));
    assert_eq!(git_args(&s), vec!["rebase", "origin/main"]);
    let s = run.step(failed("conflict"));
    assert_eq!(git_args(&s), vec!["rebase", "--abort"]);
    assert!(matches!(run.step(ok("")), Step::Finished(Ok(SyncStatus::Conflict))));
}

#[test]
fn push_machine_without_repo_is_disabled() {
    let mut run = sync::push(&cfg());
    run.step(Reply::Start);
    run.step(Reply::Flag(false));
    run.step(Reply::Flag(false));
    let s = run.step(failed("no such remote"));
    assert!(matches!(s, Step::Do(SyncOp::RepoExists)));
    let s = run.step(Reply::Flag(false));
    assert!(matches!(s, Step::Do(SyncOp::CreateDir)));
    let s = run.step(Reply::Io(Err(String::from("denied"))));
    assert!(matches!(s, Step::Finished(Ok(SyncStatus::Disabled))));
}

#[test]
fn force_pull_fetches_resets_and_copies() {
    let mut run = sync::force_pull(&cfg());
    let s = through_existing_repo(&mut run, Reply::Start);
    assert_eq!(git_args(&s), vec!["fetch", "origin", "main"]);
    let s = run.step(ok(""));
    assert_eq!(git_args(&s), vec!["reset", "--hard", "origin/main"]);
    assert!(matches!(run.step(ok("")), Step::Do(SyncOp::CopyFromRepo)));
    assert!(matches!(run.step(Reply::Done), Step::Finished(Ok(SyncStatus::Synced))));
}

#[test]
fn force_pull_reports_fetch_failure() {
    let mut run = sync::force_pull(&cfg());
    through_existing_repo(&mut run, Reply::Start);
    match run.step(failed(" bad ref \n")) {
        Step::Finished(Err(msg)) => assert_eq!(msg, "Fetch failed: bad ref"),
        other => panic!("unexpected {other:?}"),
    }
}

#[test]
fn force_push_copies_commits_and_forces() {
    let mut run = sync::force_push(&cfg());
    let s = through_existing_repo(&mut run, Reply::Start);
    assert!(matches!(s, Step::Do(SyncOp::CopyToRepo)));
    let s = run.step(Reply::Done);
    assert_eq!(git_args(&s), vec!["status", "--porcelain"]);
    let s = run.step(ok(""));
    assert_eq!(git_args(&s), vec!["push", "--force", "origin", "main"]);
    assert!(matches!(run.step(ok("")), Step::Finished(Ok(SyncStatus::Synced))));
}

#[test]
fn init_removes_directory_without_repo() {
    let mut run = sync::init(&cfg());
    assert!(matches!(run.step(Reply::Start), Step::Do(SyncOp::DirExists)));
    assert!(matches!(run.step(Reply::Flag(true)), Step::Do(SyncOp::RepoExists)));
    assert!(matches!(run.step(Reply::Flag(false)), Step::Do(SyncOp::RemoveDir)));
    let s = through_existing_repo(&mut run, Reply::Done);
    assert!(matches!(s, Step::Do(SyncOp::CopyFromRepo)));
    assert!(matches!(run.step(Reply::Done), Step::Finished(Ok(SyncStatus::Synced))));
}

#[test]
fn init_reports_clone_failure() {
    let mut run = sync::init(&cfg());
    run.step(Reply::Start);
    run.step(Reply::Flag(false));
    run.step(Reply::Flag(false));
    match run.step(Reply::Ran(None)) {
        Step::Finished(Err(msg)) => assert_eq!(msg, "Failed to run git clone"),
        other => panic!("unexpected {other:?}"),
    }
}

#[test]
fn push_machine_in_sync_commits_nothing() {
    let mut run = sync::push(&cfg());
    run.step(Reply::Start);
    through_existing_repo(&mut run, Reply::Flag(true));
    run.step(ok(""));
    run.step(ok("0"));
    let s = run.step(ok("0"));
    assert!(matches!(s, Step::Do(SyncOp::CopyToRepo)));
    let s = run.step(Reply::Done);
    assert_eq!(git_args(&s), vec!["status", "--porcelain"]);
    let s = run.step(ok(""));
    assert_eq!(git_args(&s), vec!["fetch", "origin", "main"]);
    let s = run.step(ok(""));
    assert_eq!(git_args(&s), vec!["rebase", "origin/main"]);
    let s = run.step(ok(""));
    assert_eq!(git_args(&s), vec!["push", "origin", "main"]);
    assert!(matches!(run.step(ok("")), Step::Finished(Ok(SyncStatus::Synced))));
}

#[test]
fn push_machine_fresh_clone_of_empty_remote_pushes_branch() {
    let mut run = sync::push(&cfg());
    run.step(Reply::Start);
    let s = run.step(Reply::Flag(false));
    assert!(matches!(s, Step::Do(SyncOp::RepoExists)));
    let s = run.step(Reply::Flag(false));
    assert_eq!(git_args(&s), vec!["clone", "/tmp/remote.git", "/tmp/local"]);
    run.step(ok(""));
    run.step(ok("me"));
    let s = run.step(ok("me@x"));
    assert_eq!(git_args(&s), vec!["remote", "set-url", "origin", "/tmp/remote.git"]);
    let s = run.step(ok(""));
    assert_eq!(git_args(&s), vec!["fetch", "origin", "main"]);
    let s = run.step(failed("fatal: couldn't find remote ref main"));
    assert!(matches!(s, Step::Do(SyncOp::CopyToRepo)));
    let s = run.step(Reply::Done);
    assert_eq!(git_args(&s), vec!["status", "--porcelain"]);
    let s = run.step(ok("?? requests.json\n"));
    assert_eq!(git_args(&s), vec!["add", "."]);
    run.step(ok(""));
    let s = run.step(ok(""));
    assert_eq!(git_args(&s), vec!["fetch", "origin", "main"]);
    let s = run.step(failed("fatal: couldn't find remote ref main"));
    assert_eq!(git_args(&s), vec!["checkout", "-B", "main"]);
    let s = run.step(ok(""));
    assert_eq!(git_args(&s), vec!["add", "."]);
    let s = run.step(ok(""));
    assert_eq!(git_args(&s), vec!["commit", "-m", "curlish: initial sync"]);
    let s = run.step(ok(""));
    assert_eq!(git_args(&s), vec!["push", "-u", "origin", "main"]);
    assert!(matches!(run.step(ok("")), Step::Finished(Ok(SyncStatus::Synced))));
}
