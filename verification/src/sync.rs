use vstd::prelude::*;
use crate::text::{chars_of, contains_str, has_substring, parse_unsigned, parse_usize, trim, trim_str, views};

verus! {

/// Where the settings of sync are kept.
pub open spec fn sync_config_file() -> Seq<char> {
    ".curlish-sync.toml"@
}

/// The directory that the sync repository is cloned into by default.
pub open spec fn sync_repo_dir() -> Seq<char> {
    ".curlish-repo"@
}

/// The settings of sync: the remote repository, its branch, and the local
/// clone.
#[derive(Debug)]
pub struct SyncConfig {
    pub repo_url: String,
    pub branch: String,
    pub local_dir: String,
}

impl Clone for SyncConfig {
    fn clone(&self) -> (r: Self)
        ensures
            r == *self,
    {
        SyncConfig {
            repo_url: self.repo_url.clone(),
            branch: self.branch.clone(),
            local_dir: self.local_dir.clone(),
        }
    }
}

/// How a sync ended.
#[derive(Debug, Clone, Copy, PartialEq, Eq, Structural)]
pub enum SyncStatus {
    Disabled,
    Synced,
    Conflict,
}

/// The branch that sync uses where the settings name none.
pub fn default_branch() -> (r: String)
    ensures
        r@ == "main"@,
{
    String::from_str("main")
}

/// The local clone that sync uses where the settings name none.
pub fn default_local_dir() -> (r: String)
    ensures
        r@ == sync_repo_dir(),
{
    String::from_str(".curlish-repo")
}

/// The file that holds the settings of sync.
pub fn config_path() -> (r: String)
    ensures
        r@ == sync_config_file(),
{
    String::from_str(".curlish-sync.toml")
}


/// What a sync operation asks of the machine it runs on, one step at a time.
#[derive(Debug)]
pub enum SyncOp {
    /// Whether the local clone holds a `.git` directory; answer with `Reply::Flag`.
    RepoExists,
    /// Whether the local clone's directory exists; answer with `Reply::Flag`.
    DirExists,
    /// Remove the local clone's directory, ignoring errors; answer with `Reply::Done`.
    RemoveDir,
    /// Create the local clone's directory and its parents; answer with `Reply::Io`.
    CreateDir,
    /// Run git with these arguments, in the local clone where `in_repo` holds;
    /// answer with `Reply::Ran`.
    Git { args: Vec<String>, in_repo: bool },
    /// Copy the store file out of the local clone where it is there, ignoring
    /// errors; answer with `Reply::Done`.
    CopyFromRepo,
    /// Copy the store file into the local clone where it exists, ignoring
    /// errors; answer with `Reply::Done`.
    CopyToRepo,
}

/// What came of a git command that ran: whether it succeeded, and its
/// output and error output read as UTF-8 with bad bytes replaced.
#[derive(Debug)]
pub struct GitOutput {
    pub success: bool,
    pub stdout: String,
    pub stderr: String,
}

/// The answer to the last `SyncOp`.
#[derive(Debug)]
pub enum Reply {
    /// Nothing asked yet: the first call.
    Start,
    Flag(bool),
    Done,
    Io(Result<(), String>),
    /// The output of git, none where git could not be run.
    Ran(Option<GitOutput>),
}

/// The next thing to do, or how the operation ended.
#[derive(Debug)]
pub enum Step {
    Do(SyncOp),
    Finished(Result<SyncStatus, String>),
}

/// The sync operations.
#[derive(Debug, Clone, Copy, PartialEq, Eq, Structural)]
pub enum SyncTask {
    /// Set up the local clone and take the store from it.
    Init,
    /// Bring the store and the remote together.
    Push,
    /// Make the remote hold the local store.
    ForcePush,
    /// Make the local store what the remote holds.
    ForcePull,
}

/// Where a sync operation stands.
#[derive(Debug, Clone, Copy, PartialEq, Eq, Structural)]
pub enum Stage {
    /// Nothing done yet.
    Begin,
    /// Init: asked whether the directory exists.
    InitDirChecked,
    /// Init: asked whether the directory holds a repository.
    InitRepoChecked,
    /// Init: asked to remove the directory.
    InitDirRemoved,
    /// Push: asked whether the repository existed before.
    PushRepoChecked,
    /// Making sure of the repository: asked whether it exists.
    RepoChecked,
    /// Asked to clone the remote.
    Cloned,
    /// The clone failed: asked whether the repository exists now.
    RepoCheckedAfterClone,
    /// Asked to create the directory for a new repository.
    DirCreated,
    /// Asked to run `git init`.
    Initialized,
    /// Asked to add the remote.
    RemoteAdded,
    /// Asked to make the branch.
    BranchMade,
    /// Asked whether a user name is set.
    UserNameChecked,
    /// Asked whether a user e-mail is set.
    UserEmailChecked,
    /// Asked to set the user name.
    UserNameSet,
    /// Asked to set the user e-mail.
    UserEmailSet,
    /// Asked to point the remote at the URL.
    RemoteUrlSet,
    /// Push: asked to fetch the branch.
    Fetched,
    /// Push: asked how many commits the remote branch has.
    RemoteCounted,
    /// Push: asked how many commits the local side is ahead.
    LocalAheadCounted,
    /// Push: asked how many commits the remote side is ahead.
    RemoteAheadCounted,
    /// Push: asked to reset to the remote.
    ResetToRemote,
    /// Asked to copy the store out of the repository; the task is then done.
    CopiedFromRepo,
    /// Asked to copy the store into the repository.
    CopiedToRepo,
    /// Asked for the status of the repository.
    StatusChecked,
    /// Asked to stage the changes.
    Added,
    /// Asked to commit the changes.
    Committed,
    /// Push: asked to fetch before the rebase.
    SyncFetched,
    /// Push: asked to rebase onto the remote.
    Rebased,
    /// Push: asked to abort the rebase.
    RebaseAborted,
    /// Push: asked to push.
    Pushed,
    /// Push: the remote branch does not exist yet; asked to put the clone on
    /// a local branch of that name.
    BootstrapCheckedOut,
    /// Push: asked to stage everything.
    BootstrapAdded,
    /// Push: asked for the first commit.
    BootstrapCommitted,
    /// Push: asked for the first push.
    BootstrapPushed,
    /// Force push: asked to push with force.
    ForcePushed,
    /// Force pull: asked to fetch.
    PullFetched,
    /// Force pull: asked to reset to the remote.
    PullReset,
    /// Finished.
    Ended,
}

/// A sync operation under way.
#[derive(Debug)]
pub struct SyncRun {
    pub task: SyncTask,
    pub stage: Stage,
    pub repo_url: String,
    pub branch: String,
    pub local_dir: String,
    pub repo_existed: bool,
    pub needs_name: bool,
    pub needs_email: bool,
    pub local_ahead: usize,
}


/// Whether the answer says yes.
pub open spec fn flag(r: Reply) -> bool {
    r matches Reply::Flag(true)
}

/// The output of git in the answer, none where git could not be run.
pub open spec fn ran(r: Reply) -> Option<GitOutput> {
    match r {
        Reply::Ran(x) => x,
        _ => None,
    }
}

/// Git ran and its error output says that the remote branch does not exist.
pub open spec fn has_remote_ref_error(r: Reply) -> bool {
    ran(r) matches Some(o) && has_substring(o.stderr@, "couldn't find remote ref"@)
}

/// Git ran and succeeded.
pub open spec fn succeeded(r: Reply) -> bool {
    ran(r) matches Some(o) && o.success
}

/// The error output of git, trimmed, the empty text where git could not be run.
pub open spec fn err_text(r: Reply) -> Seq<char> {
    match ran(r) {
        Some(o) => trim(o.stderr@),
        None => Seq::empty(),
    }
}

/// The number that `git rev-list --count` printed: its trimmed output read as
/// a `usize`, 0 where git could not be run or printed something else.
pub open spec fn rev_count(r: Reply) -> nat {
    match ran(r) {
        Some(o) => match parse_unsigned(trim(o.stdout@)) {
            Some(v) => if v <= usize::MAX {
                v
            } else {
                0
            },
            None => 0,
        },
        None => 0,
    }
}

/// `s` asks to run git with `args`, in the local clone where `in_repo` holds.
pub open spec fn runs_git(s: Step, args: Seq<Seq<char>>, in_repo: bool) -> bool {
    &&& s matches Step::Do(SyncOp::Git { args: a, in_repo: i })
    &&& views(a@) == args
    &&& i == in_repo
}

/// `s` ends the operation with the error `msg`.
pub open spec fn fails_with(s: Step, msg: Seq<char>) -> bool {
    s matches Step::Finished(Err(e)) && e@ == msg
}

/// `s` ends the operation with `status`.
pub open spec fn ends_with(s: Step, status: SyncStatus) -> bool {
    s matches Step::Finished(Ok(x)) && x == status
}

/// `m2` is `m` moved to `stage`.
pub open spec fn at(m: SyncRun, m2: SyncRun, stage: Stage) -> bool {
    m2 == SyncRun { stage: stage, ..m }
}

/// The remote branch as git names it: `origin/<branch>`.
pub open spec fn remote_ref(m: SyncRun) -> Seq<char> {
    "origin/"@ + m.branch@
}

/// What follows once the local clone is ready: the first step of the task.
pub open spec fn after_repo(m: SyncRun, m2: SyncRun, s: Step) -> bool {
    match m.task {
        SyncTask::Push => at(m, m2, Stage::Fetched) && runs_git(
            s,
            seq!["fetch"@, "origin"@, m.branch@],
            true,
        ),
        SyncTask::ForcePull => at(m, m2, Stage::PullFetched) && runs_git(
            s,
            seq!["fetch"@, "origin"@, m.branch@],
            true,
        ),
        SyncTask::ForcePush => at(m, m2, Stage::CopiedToRepo) && s matches Step::Do(
            SyncOp::CopyToRepo,
        ),
        SyncTask::Init => at(m, m2, Stage::CopiedFromRepo) && s matches Step::Do(
            SyncOp::CopyFromRepo,
        ),
    }
}

/// What follows when the local clone cannot be made ready: a push reports
/// sync as unavailable, the other tasks fail with `msg`.
pub open spec fn repo_failed(m: SyncRun, msg: Seq<char>, m2: SyncRun, s: Step) -> bool {
    &&& at(m, m2, Stage::Ended)
    &&& if m.task == SyncTask::Push {
        ends_with(s, SyncStatus::Disabled)
    } else {
        fails_with(s, msg)
    }
}

/// The git user settings are done: the remote is pointed at the URL.
pub open spec fn set_remote_url(m: SyncRun, m2: SyncRun, s: Step) -> bool {
    at(m, m2, Stage::RemoteUrlSet) && runs_git(
        s,
        seq!["remote"@, "set-url"@, "origin"@, m.repo_url@],
        true,
    )
}

/// The store is in the local clone: the push goes on by looking at the
/// status of the repository.
pub open spec fn check_status(m: SyncRun, m2: SyncRun, s: Step) -> bool {
    at(m, m2, Stage::StatusChecked) && runs_git(s, seq!["status"@, "--porcelain"@], true)
}

/// After the local changes are committed (or there were none).
pub open spec fn after_commit(m: SyncRun, m2: SyncRun, s: Step) -> bool {
    if m.task == SyncTask::ForcePush {
        at(m, m2, Stage::ForcePushed) && runs_git(
            s,
            seq!["push"@, "--force"@, "origin"@, m.branch@],
            true,
        )
    } else {
        at(m, m2, Stage::SyncFetched) && runs_git(s, seq!["fetch"@, "origin"@, m.branch@], true)
    }
}

/// `m2` and `s` are what the answer `r` makes of the operation `m`.
pub open spec fn sync_next(m: SyncRun, r: Reply, m2: SyncRun, s: Step) -> bool {
    match m.stage {
        Stage::Begin => match m.task {
            SyncTask::Init => at(m, m2, Stage::InitDirChecked) && s matches Step::Do(SyncOp::DirExists),
            SyncTask::Push => at(m, m2, Stage::PushRepoChecked) && s matches Step::Do(SyncOp::RepoExists),
            _ => at(m, m2, Stage::RepoChecked) && s matches Step::Do(SyncOp::RepoExists),
        },
        Stage::InitDirChecked => if flag(r) {
            at(m, m2, Stage::InitRepoChecked) && s matches Step::Do(SyncOp::RepoExists)
        } else {
            at(m, m2, Stage::RepoChecked) && s matches Step::Do(SyncOp::RepoExists)
        },
        Stage::InitRepoChecked => if flag(r) {
            at(m, m2, Stage::RepoChecked) && s matches Step::Do(SyncOp::RepoExists)
        } else {
            at(m, m2, Stage::InitDirRemoved) && s matches Step::Do(SyncOp::RemoveDir)
        },
        Stage::InitDirRemoved => at(m, m2, Stage::RepoChecked) && s matches Step::Do(SyncOp::RepoExists),
        Stage::PushRepoChecked => m2 == (SyncRun { stage: Stage::RepoChecked, repo_existed: flag(r), ..m })
            && s matches Step::Do(SyncOp::RepoExists),
        Stage::RepoChecked => if flag(r) {
            at(m, m2, Stage::UserNameChecked) && runs_git(s, seq!["config"@, "user.name"@], true)
        } else {
            at(m, m2, Stage::Cloned) && runs_git(s, seq!["clone"@, m.repo_url@, m.local_dir@], false)
        },
        Stage::Cloned => match ran(r) {
            None => repo_failed(m, "Failed to run git clone"@, m2, s),
            Some(o) => if o.success {
                at(m, m2, Stage::UserNameChecked) && runs_git(s, seq!["config"@, "user.name"@], true)
            } else {
                at(m, m2, Stage::RepoCheckedAfterClone) && s matches Step::Do(SyncOp::RepoExists)
            },
        },
        Stage::RepoCheckedAfterClone => if flag(r) {
            at(m, m2, Stage::UserNameChecked) && runs_git(s, seq!["config"@, "user.name"@], true)
        } else {
            at(m, m2, Stage::DirCreated) && s matches Step::Do(SyncOp::CreateDir)
        },
        Stage::DirCreated => if r matches Reply::Io(Err(_)) {
            repo_failed(m, "Failed to create sync repo directory"@, m2, s)
        } else {
            at(m, m2, Stage::Initialized) && runs_git(s, seq!["init"@], true)
        },
        Stage::Initialized => match ran(r) {
            None => repo_failed(m, "Failed to run git init"@, m2, s),
            Some(o) => if !o.success {
                repo_failed(m, "git init failed: "@ + err_text(r), m2, s)
            } else {
                at(m, m2, Stage::RemoteAdded) && runs_git(
                    s,
                    seq!["remote"@, "add"@, "origin"@, m.repo_url@],
                    true,
                )
            },
        },
        Stage::RemoteAdded => at(m, m2, Stage::BranchMade) && runs_git(
            s,
            seq!["checkout"@, "-b"@, m.branch@],
            true,
        ),
        Stage::BranchMade => at(m, m2, Stage::UserNameChecked) && runs_git(
            s,
            seq!["config"@, "user.name"@],
            true,
        ),
        Stage::UserNameChecked => m2 == (SyncRun {
            stage: Stage::UserEmailChecked,
            needs_name: !succeeded(r),
            ..m
        }) && runs_git(s, seq!["config"@, "user.email"@], true),
        Stage::UserEmailChecked => {
            let m1 = SyncRun { needs_email: !succeeded(r), ..m };
            if m.needs_name {
                at(m1, m2, Stage::UserNameSet) && runs_git(
                    s,
                    seq!["config"@, "user.name"@, "curlish"@],
                    true,
                )
            } else if !succeeded(r) {
                at(m1, m2, Stage::UserEmailSet) && runs_git(
                    s,
                    seq!["config"@, "user.email"@, "curlish@localhost"@],
                    true,
                )
            } else {
                set_remote_url(m1, m2, s)
            }
        },
        Stage::UserNameSet => if m.needs_email {
            at(m, m2, Stage::UserEmailSet) && runs_git(
                s,
                seq!["config"@, "user.email"@, "curlish@localhost"@],
                true,
            )
        } else {
            set_remote_url(m, m2, s)
        },
        Stage::UserEmailSet => set_remote_url(m, m2, s),
        Stage::RemoteUrlSet => after_repo(m, m2, s),
        Stage::Fetched => match ran(r) {
            None => at(m, m2, Stage::Ended) && fails_with(s, "Failed to run git fetch"@),
            Some(o) => if !m.repo_existed && o.success {
                at(m, m2, Stage::RemoteCounted) && runs_git(
                    s,
                    seq!["rev-list"@, "--count"@, remote_ref(m)],
                    true,
                )
            } else if m.repo_existed && o.success {
                at(m, m2, Stage::LocalAheadCounted) && runs_git(
                    s,
                    seq!["rev-list"@, "--count"@, remote_ref(m) + "..HEAD"@],
                    true,
                )
            } else {
                at(m, m2, Stage::CopiedToRepo) && s matches Step::Do(SyncOp::CopyToRepo)
            },
        },
        Stage::RemoteCounted => if rev_count(r) > 0 {
            at(m, m2, Stage::Ended) && ends_with(s, SyncStatus::Conflict)
        } else {
            at(m, m2, Stage::CopiedToRepo) && s matches Step::Do(SyncOp::CopyToRepo)
        },
        Stage::LocalAheadCounted => m2 == (SyncRun {
            stage: Stage::RemoteAheadCounted,
            local_ahead: rev_count(r) as usize,
            ..m
        }) && runs_git(s, seq!["rev-list"@, "--count"@, "HEAD.."@ + remote_ref(m)], true),
        Stage::RemoteAheadCounted => if m.local_ahead > 0 && rev_count(r) > 0 {
            at(m, m2, Stage::Ended) && ends_with(s, SyncStatus::Conflict)
        } else if rev_count(r) > 0 && m.local_ahead == 0 {
            at(m, m2, Stage::ResetToRemote) && runs_git(
                s,
                seq!["reset"@, "--hard"@, remote_ref(m)],
                true,
            )
        } else {
            at(m, m2, Stage::CopiedToRepo) && s matches Step::Do(SyncOp::CopyToRepo)
        },
        Stage::ResetToRemote => match ran(r) {
            None => at(m, m2, Stage::Ended) && fails_with(s, "Failed to reset to remote"@),
            Some(o) => if !o.success {
                at(m, m2, Stage::Ended) && fails_with(s, "Reset failed: "@ + err_text(r))
            } else {
                at(m, m2, Stage::CopiedFromRepo) && s matches Step::Do(SyncOp::CopyFromRepo)
            },
        },
        Stage::CopiedFromRepo => at(m, m2, Stage::Ended) && ends_with(s, SyncStatus::Synced),
        Stage::CopiedToRepo => check_status(m, m2, s),
        Stage::StatusChecked => match ran(r) {
            None => at(m, m2, Stage::Ended) && fails_with(s, "Failed to run git status"@),
            Some(o) => if o.stdout@.len() > 0 {
                at(m, m2, Stage::Added) && runs_git(s, seq!["add"@, "."@], true)
            } else {
                after_commit(m, m2, s)
            },
        },
        Stage::Added => at(m, m2, Stage::Committed) && runs_git(
            s,
            seq!["commit"@, "-m"@, "curlish sync"@],
            true,
        ),
        Stage::Committed => after_commit(m, m2, s),
        Stage::SyncFetched => match ran(r) {
            None => at(m, m2, Stage::Ended) && fails_with(s, "Failed to run git fetch"@),
            Some(o) => if o.success {
                at(m, m2, Stage::Rebased) && runs_git(s, seq!["rebase"@, remote_ref(m)], true)
            } else if has_remote_ref_error(r) {
                at(m, m2, Stage::BootstrapCheckedOut) && runs_git(
                    s,
                    seq!["checkout"@, "-B"@, m.branch@],
                    true,
                )
            } else {
                at(m, m2, Stage::Ended) && fails_with(s, "Fetch failed: "@ + err_text(r))
            },
        },
        Stage::Rebased => match ran(r) {
            None => at(m, m2, Stage::Ended) && fails_with(s, "Failed to run git rebase"@),
            Some(o) => if o.success {
                at(m, m2, Stage::Pushed) && runs_git(s, seq!["push"@, "origin"@, m.branch@], true)
            } else {
                at(m, m2, Stage::RebaseAborted) && runs_git(s, seq!["rebase"@, "--abort"@], true)
            },
        },
        Stage::RebaseAborted => at(m, m2, Stage::Ended) && ends_with(s, SyncStatus::Conflict),
        Stage::Pushed => match ran(r) {
            None => at(m, m2, Stage::Ended) && fails_with(s, "Failed to run git push"@),
            Some(o) => at(m, m2, Stage::Ended) && if o.success {
                ends_with(s, SyncStatus::Synced)
            } else {
                fails_with(s, "Push failed: "@ + err_text(r))
            },
        },
        Stage::BootstrapCheckedOut => at(m, m2, Stage::BootstrapAdded) && runs_git(
            s,
            seq!["add"@, "."@],
            true,
        ),
        Stage::BootstrapAdded => at(m, m2, Stage::BootstrapCommitted) && runs_git(
            s,
            seq!["commit"@, "-m"@, "curlish: initial sync"@],
            true,
        ),
        Stage::BootstrapCommitted => at(m, m2, Stage::BootstrapPushed) && runs_git(
            s,
            seq!["push"@, "-u"@, "origin"@, m.branch@],
            true,
        ),
        Stage::BootstrapPushed => match ran(r) {
            None => at(m, m2, Stage::Ended) && fails_with(s, "Failed to push"@),
            Some(o) => at(m, m2, Stage::Ended) && if o.success {
                ends_with(s, SyncStatus::Synced)
            } else {
                fails_with(s, "Initial push failed: "@ + err_text(r))
            },
        },
        Stage::ForcePushed => match ran(r) {
            None => at(m, m2, Stage::Ended) && fails_with(s, "Failed to run git push --force"@),
            Some(o) => at(m, m2, Stage::Ended) && if o.success {
                ends_with(s, SyncStatus::Synced)
            } else {
                fails_with(s, "Force push failed: "@ + err_text(r))
            },
        },
        Stage::PullFetched => match ran(r) {
            None => at(m, m2, Stage::Ended) && fails_with(s, "Failed to fetch"@),
            Some(o) => if o.success {
                at(m, m2, Stage::PullReset) && runs_git(
                    s,
                    seq!["reset"@, "--hard"@, remote_ref(m)],
                    true,
                )
            } else {
                at(m, m2, Stage::Ended) && fails_with(s, "Fetch failed: "@ + err_text(r))
            },
        },
        Stage::PullReset => match ran(r) {
            None => at(m, m2, Stage::Ended) && fails_with(s, "Failed to reset"@),
            Some(o) => if o.success {
                at(m, m2, Stage::CopiedFromRepo) && s matches Step::Do(SyncOp::CopyFromRepo)
            } else {
                at(m, m2, Stage::Ended) && fails_with(s, "Reset failed: "@ + err_text(r))
            },
        },
        Stage::Ended => at(m, m2, Stage::Ended) && fails_with(s, "sync already finished"@),
    }
}


/// The pieces as owned strings.
fn to_strings(parts: &[&str]) -> (r: Vec<String>)
    ensures
        views(r@) == parts@.map_values(|p: &str| p@),
{
    let mut r: Vec<String> = Vec::new();
    let mut i: usize = 0;
    while i < parts.len()
        invariant
            i <= parts@.len(),
            views(r@) == parts@.take(i as int).map_values(|p: &str| p@),
        decreases parts@.len() - i,
    {
        let ghost before = views(r@);
        r.push(String::from_str(parts[i]));
        assert(views(r@) =~= before.push(parts@[i as int]@));
        assert(parts@.take(i + 1).map_values(|p: &str| p@) =~= before.push(parts@[i as int]@));
        i += 1;
    }
    assert(parts@.take(parts@.len() as int) =~= parts@);
    r
}

/// A step that runs git with one argument.
fn git1(a: &str, in_repo: bool) -> (s: Step)
    ensures
        runs_git(s, seq![a@], in_repo),
{
    let parts: [&str; 1] = [a];
    let args = to_strings(&parts);
    assert(parts@.map_values(|p: &str| p@) =~= seq![a@]);
    Step::Do(SyncOp::Git { args, in_repo })
}

/// A step that runs git with two arguments.
fn git2(a: &str, b: &str, in_repo: bool) -> (s: Step)
    ensures
        runs_git(s, seq![a@, b@], in_repo),
{
    let parts: [&str; 2] = [a, b];
    let args = to_strings(&parts);
    assert(parts@.map_values(|p: &str| p@) =~= seq![a@, b@]);
    Step::Do(SyncOp::Git { args, in_repo })
}

/// A step that runs git with three arguments.
fn git3(a: &str, b: &str, c: &str, in_repo: bool) -> (s: Step)
    ensures
        runs_git(s, seq![a@, b@, c@], in_repo),
{
    let parts: [&str; 3] = [a, b, c];
    let args = to_strings(&parts);
    assert(parts@.map_values(|p: &str| p@) =~= seq![a@, b@, c@]);
    Step::Do(SyncOp::Git { args, in_repo })
}

/// A step that runs git with four arguments.
fn git4(a: &str, b: &str, c: &str, d: &str, in_repo: bool) -> (s: Step)
    ensures
        runs_git(s, seq![a@, b@, c@, d@], in_repo),
{
    let parts: [&str; 4] = [a, b, c, d];
    let args = to_strings(&parts);
    assert(parts@.map_values(|p: &str| p@) =~= seq![a@, b@, c@, d@]);
    Step::Do(SyncOp::Git { args, in_repo })
}

impl SyncRun {
    fn new(task: SyncTask, cfg: &SyncConfig) -> (r: Self)
        ensures
            r.task == task,
            r.stage == Stage::Begin,
            r.repo_url == cfg.repo_url,
            r.branch == cfg.branch,
            r.local_dir == cfg.local_dir,
            !r.repo_existed,
            !r.needs_name,
            !r.needs_email,
            r.local_ahead == 0,
    {
        SyncRun {
            task,
            stage: Stage::Begin,
            repo_url: cfg.repo_url.clone(),
            branch: cfg.branch.clone(),
            local_dir: cfg.local_dir.clone(),
            repo_existed: false,
            needs_name: false,
            needs_email: false,
            local_ahead: 0,
        }
    }
}

/// Sets up the local clone (removing its directory first where it holds no
/// repository) and takes the store from it. Run with `SyncRun::step`.
pub fn init(cfg: &SyncConfig) -> (r: SyncRun)
    ensures
        r.task == SyncTask::Init && r.stage == Stage::Begin && r.repo_url == cfg.repo_url
            && r.branch == cfg.branch && r.local_dir == cfg.local_dir,
{
    SyncRun::new(SyncTask::Init, cfg)
}

/// Brings the store and the remote together: a conflict where both sides
/// have their own commits (or a new clone meets a remote with history), a
/// pull where only the remote is ahead, else a commit and a push. Run with
/// `SyncRun::step`.
pub fn push(cfg: &SyncConfig) -> (r: SyncRun)
    ensures
        r.task == SyncTask::Push && r.stage == Stage::Begin && r.repo_url == cfg.repo_url
            && r.branch == cfg.branch && r.local_dir == cfg.local_dir,
{
    SyncRun::new(SyncTask::Push, cfg)
}

/// Makes the remote hold the local store. Run with `SyncRun::step`.
pub fn force_push(cfg: &SyncConfig) -> (r: SyncRun)
    ensures
        r.task == SyncTask::ForcePush && r.stage == Stage::Begin && r.repo_url == cfg.repo_url
            && r.branch == cfg.branch && r.local_dir == cfg.local_dir,
{
    SyncRun::new(SyncTask::ForcePush, cfg)
}

/// Makes the local store what the remote holds. Run with `SyncRun::step`.
pub fn force_pull(cfg: &SyncConfig) -> (r: SyncRun)
    ensures
        r.task == SyncTask::ForcePull && r.stage == Stage::Begin && r.repo_url == cfg.repo_url
            && r.branch == cfg.branch && r.local_dir == cfg.local_dir,
{
    SyncRun::new(SyncTask::ForcePull, cfg)
}


/// Whether the answer says yes.
fn flag_exec(r: &Reply) -> (b: bool)
    ensures
        b == flag(*r),
{
    match r {
        Reply::Flag(b) => *b,
        _ => false,
    }
}

/// The number that `git rev-list --count` printed.
fn rev_count_exec(r: &Reply) -> (n: usize)
    ensures
        n as nat == rev_count(*r),
{
    match r {
        Reply::Ran(Some(o)) => {
            let t = trim_str(o.stdout.as_str());
            match parse_usize(t.as_str()) {
                Some(v) => v,
                None => 0,
            }
        },
        _ => 0,
    }
}

/// `prefix` followed by the trimmed error output of git.
fn with_err_text(prefix: &str, r: &Reply) -> (msg: String)
    ensures
        msg@ == prefix@ + err_text(*r),
{
    let mut m = String::from_str(prefix);
    match r {
        Reply::Ran(Some(o)) => {
            let t = trim_str(o.stderr.as_str());
            m.append(t.as_str());
        },
        _ => {
            assert(m@ =~= prefix@ + Seq::<char>::empty());
        },
    }
    m
}

fn fail(msg: &str) -> (s: Step)
    ensures
        fails_with(s, msg@),
{
    Step::Finished(Err(String::from_str(msg)))
}

impl SyncRun {
    fn goto(&mut self, stage: Stage)
        ensures
            at(*old(self), *final(self), stage),
    {
        self.stage = stage;
    }

    fn after_repo_exec(&mut self) -> (s: Step)
        ensures
            after_repo(*old(self), *final(self), s),
    {
        match self.task {
            SyncTask::Push => {
                self.goto(Stage::Fetched);
                git3("fetch", "origin", self.branch.as_str(), true)
            },
            SyncTask::ForcePull => {
                self.goto(Stage::PullFetched);
                git3("fetch", "origin", self.branch.as_str(), true)
            },
            SyncTask::ForcePush => {
                self.goto(Stage::CopiedToRepo);
                Step::Do(SyncOp::CopyToRepo)
            },
            SyncTask::Init => {
                self.goto(Stage::CopiedFromRepo);
                Step::Do(SyncOp::CopyFromRepo)
            },
        }
    }

    fn repo_failed_exec(&mut self, msg: String) -> (s: Step)
        ensures
            repo_failed(*old(self), msg@, *final(self), s),
    {
        self.goto(Stage::Ended);
        if self.task == SyncTask::Push {
            Step::Finished(Ok(SyncStatus::Disabled))
        } else {
            Step::Finished(Err(msg))
        }
    }

    fn set_remote_url_exec(&mut self) -> (s: Step)
        ensures
            set_remote_url(*old(self), *final(self), s),
    {
        self.goto(Stage::RemoteUrlSet);
        git4("remote", "set-url", "origin", self.repo_url.as_str(), true)
    }

    fn after_commit_exec(&mut self) -> (s: Step)
        ensures
            after_commit(*old(self), *final(self), s),
    {
        if self.task == SyncTask::ForcePush {
            self.goto(Stage::ForcePushed);
            git4("push", "--force", "origin", self.branch.as_str(), true)
        } else {
            self.goto(Stage::SyncFetched);
            git3("fetch", "origin", self.branch.as_str(), true)
        }
    }

    fn remote_ref_exec(&self) -> (r: String)
        ensures
            r@ == remote_ref(*self),
    {
        let mut r = String::from_str("origin/");
        r.append(self.branch.as_str());
        r
    }
}


impl SyncRun {
    /// Takes the answer to the last step and gives the next one, or how the
    /// operation ended. The first call takes `Reply::Start`.
    pub fn step(&mut self, reply: Reply) -> (s: Step)
        ensures
            sync_next(*old(self), reply, *final(self), s),
    {
        match self.stage {
            Stage::Begin => match self.task {
                SyncTask::Init => {
                    self.goto(Stage::InitDirChecked);
                    Step::Do(SyncOp::DirExists)
                },
                SyncTask::Push => {
                    self.goto(Stage::PushRepoChecked);
                    Step::Do(SyncOp::RepoExists)
                },
                _ => {
                    self.goto(Stage::RepoChecked);
                    Step::Do(SyncOp::RepoExists)
                },
            },
            Stage::InitDirChecked => {
                if flag_exec(&reply) {
                    self.goto(Stage::InitRepoChecked);
                } else {
                    self.goto(Stage::RepoChecked);
                }
                Step::Do(SyncOp::RepoExists)
            },
            Stage::InitRepoChecked => {
                if flag_exec(&reply) {
                    self.goto(Stage::RepoChecked);
                    Step::Do(SyncOp::RepoExists)
                } else {
                    self.goto(Stage::InitDirRemoved);
                    Step::Do(SyncOp::RemoveDir)
                }
            },
            Stage::InitDirRemoved => {
                self.goto(Stage::RepoChecked);
                Step::Do(SyncOp::RepoExists)
            },
            Stage::PushRepoChecked => {
                self.repo_existed = flag_exec(&reply);
                self.goto(Stage::RepoChecked);
                Step::Do(SyncOp::RepoExists)
            },
            Stage::RepoChecked => {
                if flag_exec(&reply) {
                    self.goto(Stage::UserNameChecked);
                    git2("config", "user.name", true)
                } else {
                    self.goto(Stage::Cloned);
                    git3("clone", self.repo_url.as_str(), self.local_dir.as_str(), false)
                }
            },
            Stage::Cloned => match reply {
                Reply::Ran(Some(o)) => {
                    if o.success {
                        self.goto(Stage::UserNameChecked);
                        git2("config", "user.name", true)
                    } else {
                        self.goto(Stage::RepoCheckedAfterClone);
                        Step::Do(SyncOp::RepoExists)
                    }
                },
                _ => self.repo_failed_exec(String::from_str("Failed to run git clone")),
            },
            Stage::RepoCheckedAfterClone => {
                if flag_exec(&reply) {
                    self.goto(Stage::UserNameChecked);
                    git2("config", "user.name", true)
                } else {
                    self.goto(Stage::DirCreated);
                    Step::Do(SyncOp::CreateDir)
                }
            },
            Stage::DirCreated => match reply {
                Reply::Io(Err(_)) => self.repo_failed_exec(
                    String::from_str("Failed to create sync repo directory"),
                ),
                _ => {
                    self.goto(Stage::Initialized);
                    git1("init", true)
                },
            },
            Stage::Initialized => {
                let ok = match &reply {
                    Reply::Ran(Some(o)) => Some(o.success),
                    _ => None,
                };
                match ok {
                    None => self.repo_failed_exec(String::from_str("Failed to run git init")),
                    Some(false) => {
                        let msg = with_err_text("git init failed: ", &reply);
                        self.repo_failed_exec(msg)
                    },
                    Some(true) => {
                        self.goto(Stage::RemoteAdded);
                        git4("remote", "add", "origin", self.repo_url.as_str(), true)
                    },
                }
            },
            Stage::RemoteAdded => {
                self.goto(Stage::BranchMade);
                git3("checkout", "-b", self.branch.as_str(), true)
            },
            Stage::BranchMade => {
                self.goto(Stage::UserNameChecked);
                git2("config", "user.name", true)
            },
            Stage::UserNameChecked => {
                let ok = match &reply {
                    Reply::Ran(Some(o)) => o.success,
                    _ => false,
                };
                self.needs_name = !ok;
                self.goto(Stage::UserEmailChecked);
                git2("config", "user.email", true)
            },
            Stage::UserEmailChecked => {
                let ok = match &reply {
                    Reply::Ran(Some(o)) => o.success,
                    _ => false,
                };
                self.needs_email = !ok;
                if self.needs_name {
                    self.goto(Stage::UserNameSet);
                    git3("config", "user.name", "curlish", true)
                } else if !ok {
                    self.goto(Stage::UserEmailSet);
                    git3("config", "user.email", "curlish@localhost", true)
                } else {
                    self.set_remote_url_exec()
                }
            },
            Stage::UserNameSet => {
                if self.needs_email {
                    self.goto(Stage::UserEmailSet);
                    git3("config", "user.email", "curlish@localhost", true)
                } else {
                    self.set_remote_url_exec()
                }
            },
            Stage::UserEmailSet => self.set_remote_url_exec(),
            Stage::RemoteUrlSet => self.after_repo_exec(),
            Stage::Fetched => {
                let ok = match &reply {
                    Reply::Ran(Some(o)) => Some(o.success),
                    _ => None,
                };
                match ok {
                    None => {
                        self.goto(Stage::Ended);
                        fail("Failed to run git fetch")
                    },
                    Some(success) => {
                        if !self.repo_existed && success {
                            let r = self.remote_ref_exec();
                            self.goto(Stage::RemoteCounted);
                            git3("rev-list", "--count", r.as_str(), true)
                        } else if self.repo_existed && success {
                            let mut r = self.remote_ref_exec();
                            r.append("..HEAD");
                            self.goto(Stage::LocalAheadCounted);
                            git3("rev-list", "--count", r.as_str(), true)
                        } else {
                            self.goto(Stage::CopiedToRepo);
                            Step::Do(SyncOp::CopyToRepo)
                        }
                    },
                }
            },
            Stage::RemoteCounted => {
                if rev_count_exec(&reply) > 0 {
                    self.goto(Stage::Ended);
                    Step::Finished(Ok(SyncStatus::Conflict))
                } else {
                    self.goto(Stage::CopiedToRepo);
                    Step::Do(SyncOp::CopyToRepo)
                }
            },
            Stage::LocalAheadCounted => {
                self.local_ahead = rev_count_exec(&reply);
                let mut r = String::from_str("HEAD..");
                let rr = self.remote_ref_exec();
                r.append(rr.as_str());
                self.goto(Stage::RemoteAheadCounted);
                git3("rev-list", "--count", r.as_str(), true)
            },
            Stage::RemoteAheadCounted => {
                let remote_ahead = rev_count_exec(&reply);
                if self.local_ahead > 0 && remote_ahead > 0 {
                    self.goto(Stage::Ended);
                    Step::Finished(Ok(SyncStatus::Conflict))
                } else if remote_ahead > 0 && self.local_ahead == 0 {
                    let r = self.remote_ref_exec();
                    self.goto(Stage::ResetToRemote);
                    git3("reset", "--hard", r.as_str(), true)
                } else {
                    self.goto(Stage::CopiedToRepo);
                    Step::Do(SyncOp::CopyToRepo)
                }
            },
            Stage::ResetToRemote => {
                let ok = match &reply {
                    Reply::Ran(Some(o)) => Some(o.success),
                    _ => None,
                };
                self.goto(Stage::Ended);
                match ok {
                    None => fail("Failed to reset to remote"),
                    Some(false) => Step::Finished(Err(with_err_text("Reset failed: ", &reply))),
                    Some(true) => {
                        self.goto(Stage::CopiedFromRepo);
                        Step::Do(SyncOp::CopyFromRepo)
                    },
                }
            },
            Stage::CopiedFromRepo => {
                self.goto(Stage::Ended);
                Step::Finished(Ok(SyncStatus::Synced))
            },
            Stage::CopiedToRepo => {
                self.goto(Stage::StatusChecked);
                git2("status", "--porcelain", true)
            },
            Stage::StatusChecked => {
                let changed = match &reply {
                    Reply::Ran(Some(o)) => Some(o.stdout.as_str().unicode_len() > 0),
                    _ => None,
                };
                match changed {
                    None => {
                        self.goto(Stage::Ended);
                        fail("Failed to run git status")
                    },
                    Some(true) => {
                        self.goto(Stage::Added);
                        git2("add", ".", true)
                    },
                    Some(false) => self.after_commit_exec(),
                }
            },
            Stage::Added => {
                self.goto(Stage::Committed);
                git3("commit", "-m", "curlish sync", true)
            },
            Stage::Committed => self.after_commit_exec(),
            Stage::SyncFetched => {
                let outcome = match &reply {
                    Reply::Ran(Some(o)) => {
                        if o.success {
                            Some(0u8)
                        } else if contains_str(o.stderr.as_str(), "couldn't find remote ref") {
                            Some(1u8)
                        } else {
                            Some(2u8)
                        }
                    },
                    _ => None,
                };
                match outcome {
                    None => {
                        self.goto(Stage::Ended);
                        fail("Failed to run git fetch")
                    },
                    Some(0u8) => {
                        let r = self.remote_ref_exec();
                        self.goto(Stage::Rebased);
                        git2("rebase", r.as_str(), true)
                    },
                    Some(1u8) => {
                        self.goto(Stage::BootstrapCheckedOut);
                        git3("checkout", "-B", self.branch.as_str(), true)
                    },
                    Some(_) => {
                        self.goto(Stage::Ended);
                        Step::Finished(Err(with_err_text("Fetch failed: ", &reply)))
                    },
                }
            },
            Stage::Rebased => {
                let ok = match &reply {
                    Reply::Ran(Some(o)) => Some(o.success),
                    _ => None,
                };
                match ok {
                    None => {
                        self.goto(Stage::Ended);
                        fail("Failed to run git rebase")
                    },
                    Some(true) => {
                        self.goto(Stage::Pushed);
                        git3("push", "origin", self.branch.as_str(), true)
                    },
                    Some(false) => {
                        self.goto(Stage::RebaseAborted);
                        git2("rebase", "--abort", true)
                    },
                }
            },
            Stage::RebaseAborted => {
                self.goto(Stage::Ended);
                Step::Finished(Ok(SyncStatus::Conflict))
            },
            Stage::Pushed => {
                let ok = match &reply {
                    Reply::Ran(Some(o)) => Some(o.success),
                    _ => None,
                };
                self.goto(Stage::Ended);
                match ok {
                    None => fail("Failed to run git push"),
                    Some(true) => Step::Finished(Ok(SyncStatus::Synced)),
                    Some(false) => Step::Finished(Err(with_err_text("Push failed: ", &reply))),
                }
            },
            Stage::BootstrapCheckedOut => {
                self.goto(Stage::BootstrapAdded);
                git2("add", ".", true)
            },
            Stage::BootstrapAdded => {
                self.goto(Stage::BootstrapCommitted);
                git3("commit", "-m", "curlish: initial sync", true)
            },
            Stage::BootstrapCommitted => {
                self.goto(Stage::BootstrapPushed);
                git4("push", "-u", "origin", self.branch.as_str(), true)
            },
            Stage::BootstrapPushed => {
                let ok = match &reply {
                    Reply::Ran(Some(o)) => Some(o.success),
                    _ => None,
                };
                self.goto(Stage::Ended);
                match ok {
                    None => fail("Failed to push"),
                    Some(true) => Step::Finished(Ok(SyncStatus::Synced)),
                    Some(false) => Step::Finished(Err(with_err_text("Initial push failed: ", &reply))),
                }
            },
            Stage::ForcePushed => {
                let ok = match &reply {
                    Reply::Ran(Some(o)) => Some(o.success),
                    _ => None,
                };
                self.goto(Stage::Ended);
                match ok {
                    None => fail("Failed to run git push --force"),
                    Some(true) => Step::Finished(Ok(SyncStatus::Synced)),
                    Some(false) => Step::Finished(Err(with_err_text("Force push failed: ", &reply))),
                }
            },
            Stage::PullFetched => {
                let ok = match &reply {
                    Reply::Ran(Some(o)) => Some(o.success),
                    _ => None,
                };
                match ok {
                    None => {
                        self.goto(Stage::Ended);
                        fail("Failed to fetch")
                    },
                    Some(true) => {
                        let r = self.remote_ref_exec();
                        self.goto(Stage::PullReset);
                        git3("reset", "--hard", r.as_str(), true)
                    },
                    Some(false) => {
                        self.goto(Stage::Ended);
                        Step::Finished(Err(with_err_text("Fetch failed: ", &reply)))
                    },
                }
            },
            Stage::PullReset => {
                let ok = match &reply {
                    Reply::Ran(Some(o)) => Some(o.success),
                    _ => None,
                };
                match ok {
                    None => {
                        self.goto(Stage::Ended);
                        fail("Failed to reset")
                    },
                    Some(true) => {
                        self.goto(Stage::CopiedFromRepo);
                        Step::Do(SyncOp::CopyFromRepo)
                    },
                    Some(false) => {
                        self.goto(Stage::Ended);
                        Step::Finished(Err(with_err_text("Reset failed: ", &reply)))
                    },
                }
            },
            Stage::Ended => fail("sync already finished"),
        }
    }
}

} // verus!
