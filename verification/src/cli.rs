//! The decisions of the command-line commands, between the steps that talk
//! to git and to the user.

use vstd::prelude::*;
use crate::text::{blank, decimal, decimal_text, is_yes, is_yes_answer, trimmed};

verus! {

/// Options of `commit`.
#[derive(Debug, Clone)]
pub struct CommitArgs {
    /// Commit message.
    pub message: Option<String>,
    /// Only commit staged changes (don't auto-stage).
    pub staged_only: bool,
    /// Display what would be committed without executing.
    pub dry_run: bool,
    /// Skip confirmation prompts.
    pub yes: bool,
}

/// Options of `rebase`.
#[derive(Debug, Clone)]
pub struct RebaseArgs {
    /// Number of recent commits to rebase (default: since last tag).
    pub last: Option<usize>,
    /// Skip confirmation prompt.
    pub yes: bool,
}

/// Options of `review`.
#[derive(Debug, Clone)]
pub struct ReviewArgs {
    /// Additional context or instructions for the review.
    pub message: Option<String>,
    /// Post the review as a comment on the GitHub PR.
    pub comment: bool,
}

/// Options of `worktree`.
#[derive(Debug, Clone)]
pub struct WorktreeArgs {
    /// Additional context or instructions for branch naming.
    pub message: Option<String>,
}

/// Why a command stopped.
#[derive(Debug, Clone, PartialEq, Eq)]
pub enum CliError {
    MessageRequired,
    NoChangesToCommit,
    CommitCancelled,
    StageFailed,
    NoStagedChanges,
    NoCommitsToRebase,
    RebaseCancelled,
    RebaseFailed,
    WorktreeExists(String),
    WorktreeFailed,
    PrHasNoChanges(u64),
}

pub open spec fn cli_error_text(e: CliError) -> Seq<char> {
    match e {
        CliError::MessageRequired => "commit message required (-m). For AI-generated messages, use sr via MCP"@,
        CliError::NoChangesToCommit => "no changes to commit"@,
        CliError::CommitCancelled => "cancelled \u{2014} use -s to commit only staged changes, or -y to skip prompts"@,
        CliError::StageFailed => "failed to stage files"@,
        CliError::NoStagedChanges => "no staged changes to commit"@,
        CliError::NoCommitsToRebase => "no commits found to rebase"@,
        CliError::RebaseCancelled => "cancelled"@,
        CliError::RebaseFailed => "rebase failed"@,
        CliError::WorktreeExists(p) => "worktree path already exists: "@ + p@,
        CliError::WorktreeFailed => "failed to create worktree"@,
        CliError::PrHasNoChanges(n) => "PR #"@ + decimal(n as nat) + " has no changes to review"@,
    }
}

impl CliError {
    /// The text that tells the user why the command stopped.
    pub fn message(&self) -> (r: String)
        ensures
            r@ == cli_error_text(*self),
    {
        match self {
            CliError::MessageRequired => "commit message required (-m). For AI-generated messages, use sr via MCP".to_owned(),
            CliError::NoChangesToCommit => "no changes to commit".to_owned(),
            CliError::CommitCancelled => "cancelled \u{2014} use -s to commit only staged changes, or -y to skip prompts".to_owned(),
            CliError::StageFailed => "failed to stage files".to_owned(),
            CliError::NoStagedChanges => "no staged changes to commit".to_owned(),
            CliError::NoCommitsToRebase => "no commits found to rebase".to_owned(),
            CliError::RebaseCancelled => "cancelled".to_owned(),
            CliError::RebaseFailed => "rebase failed".to_owned(),
            CliError::WorktreeExists(p) => {
                let mut r = "worktree path already exists: ".to_owned();
                r.append(p.as_str());
                r
            },
            CliError::WorktreeFailed => "failed to create worktree".to_owned(),
            CliError::PrHasNoChanges(n) => {
                let mut r = "PR #".to_owned();
                let num = decimal_text(*n);
                r.append(num.as_str());
                r.append(" has no changes to review");
                r
            },
        }
    }
}

// ---------------------------------------------------------------------------
// commit
// ---------------------------------------------------------------------------

/// What `commit` has just learnt.
pub enum CommitEvent {
    /// The command starts.
    Start,
    /// `git status --porcelain` printed this.
    Status(String),
    /// The user answered the confirmation prompt with this.
    Answer(String),
    /// `git add -A` succeeded or not.
    StagedAll(bool),
    /// Whether anything is staged.
    HasStaged(bool),
    /// The commit was made.
    Committed,
}

/// What `commit` does next.
#[derive(Debug, PartialEq, Eq)]
pub enum CommitAction {
    /// Read `git status --porcelain`.
    ReadStatus,
    /// Show the changes and ask whether to stage them all.
    Confirm,
    /// Run `git add -A`.
    StageAll,
    /// Ask whether anything is staged.
    CheckStaged,
    /// Show what would be committed with this message, and stop.
    DryRun(String),
    /// Commit with this message.
    Commit(String),
    /// Report the new commit and stop.
    Finish,
    /// Stop with this error.
    Fail(CliError),
}

/// The next step of `commit` for what it has just learnt: a message is
/// required; unless only staged changes are committed, the working tree
/// must have changes and, unless told yes beforehand, the user must confirm
/// that they all get staged; something must end up staged; a dry run stops
/// before committing.
pub open spec fn spec_commit_step(args: CommitArgs, event: CommitEvent) -> CommitAction {
    match event {
        CommitEvent::Start => if args.message is None {
            CommitAction::Fail(CliError::MessageRequired)
        } else if args.staged_only {
            CommitAction::CheckStaged
        } else {
            CommitAction::ReadStatus
        },
        CommitEvent::Status(s) => if trimmed(s@).len() == 0 {
            CommitAction::Fail(CliError::NoChangesToCommit)
        } else if args.yes {
            CommitAction::StageAll
        } else {
            CommitAction::Confirm
        },
        CommitEvent::Answer(a) => if is_yes_answer(a@) {
            CommitAction::StageAll
        } else {
            CommitAction::Fail(CliError::CommitCancelled)
        },
        CommitEvent::StagedAll(ok) => if ok {
            CommitAction::CheckStaged
        } else {
            CommitAction::Fail(CliError::StageFailed)
        },
        CommitEvent::HasStaged(b) => if !b {
            CommitAction::Fail(CliError::NoStagedChanges)
        } else {
            match args.message {
                None => CommitAction::Fail(CliError::MessageRequired),
                Some(m) => if args.dry_run {
                    CommitAction::DryRun(m)
                } else {
                    CommitAction::Commit(m)
                },
            }
        },
        CommitEvent::Committed => CommitAction::Finish,
    }
}

/// The next step of `commit`.
pub fn commit_step(args: &CommitArgs, event: CommitEvent) -> (r: CommitAction)
    ensures
        r == spec_commit_step(*args, event),
{
    match event {
        CommitEvent::Start => {
            if args.message.is_none() {
                CommitAction::Fail(CliError::MessageRequired)
            } else if args.staged_only {
                CommitAction::CheckStaged
            } else {
                CommitAction::ReadStatus
            }
        },
        CommitEvent::Status(s) => {
            if blank(s.as_str()) {
                CommitAction::Fail(CliError::NoChangesToCommit)
            } else if args.yes {
                CommitAction::StageAll
            } else {
                CommitAction::Confirm
            }
        },
        CommitEvent::Answer(a) => {
            if is_yes(a.as_str()) {
                CommitAction::StageAll
            } else {
                CommitAction::Fail(CliError::CommitCancelled)
            }
        },
        CommitEvent::StagedAll(ok) => {
            if ok {
                CommitAction::CheckStaged
            } else {
                CommitAction::Fail(CliError::StageFailed)
            }
        },
        CommitEvent::HasStaged(b) => {
            if !b {
                CommitAction::Fail(CliError::NoStagedChanges)
            } else {
                match &args.message {
                    None => CommitAction::Fail(CliError::MessageRequired),
                    Some(m) => {
                        if args.dry_run {
                            CommitAction::DryRun(m.clone())
                        } else {
                            CommitAction::Commit(m.clone())
                        }
                    },
                }
            }
        },
        CommitEvent::Committed => CommitAction::Finish,
    }
}


/// A dry run never commits: with `dry_run` set no event leads to a commit,
/// and once something is staged a run with a message shows what it would
/// commit instead, whether or not only staged changes were asked for and
/// whatever the confirmation. Without `dry_run`, the commit is made exactly
/// when something is staged, with the message given and nothing else.
pub proof fn law_dry_run_never_commits(args: CommitArgs, event: CommitEvent)
    ensures
        args.dry_run ==> !(spec_commit_step(args, event) is Commit),
        spec_commit_step(args, event) is Commit ==> {
            &&& !args.dry_run
            &&& event == CommitEvent::HasStaged(true)
            &&& args.message == Some(spec_commit_step(args, event)->Commit_0)
        },
        event == CommitEvent::HasStaged(true) && args.message is Some ==> spec_commit_step(args, event) == if args.dry_run {
            CommitAction::DryRun(args.message->0)
        } else {
            CommitAction::Commit(args.message->0)
        },
{
}

// ---------------------------------------------------------------------------
// rebase
// ---------------------------------------------------------------------------

/// The number of commits to rebase when none was given: those since the last
/// tag, of which there must be at least one.
pub fn commits_to_rebase(since_last_tag: usize) -> (r: Result<usize, CliError>)
    ensures
        r == (if since_last_tag == 0 {
            Err(CliError::NoCommitsToRebase)
        } else {
            Ok(since_last_tag)
        }),
{
    if since_last_tag == 0 {
        Err(CliError::NoCommitsToRebase)
    } else {
        Ok(since_last_tag)
    }
}

/// Go on with the rebase only when the user said yes.
pub fn rebase_confirmed(answer: &str) -> (r: Result<(), CliError>)
    ensures
        r == (if is_yes_answer(answer@) { Ok(()) } else { Err(CliError::RebaseCancelled) }),
{
    if is_yes(answer) {
        Ok(())
    } else {
        Err(CliError::RebaseCancelled)
    }
}

/// The base revision of a rebase of the last `count` commits: `HEAD~count`.
pub fn rebase_base(count: usize) -> (r: String)
    ensures
        r@ == "HEAD~"@ + decimal(count as nat),
{
    let mut r = "HEAD~".to_owned();
    let n = decimal_text(count as u64);
    r.append(n.as_str());
    r
}

// ---------------------------------------------------------------------------
// worktree
// ---------------------------------------------------------------------------

/// The directory of the new worktree, beside the repository:
/// `<repository directory>-<branch>`, with `repo` when the repository
/// directory has no usable name.
pub fn worktree_dir_name(repo_dir: Option<&str>, branch: &str) -> (r: String)
    ensures
        r@ == match repo_dir {
            Some(d) => d@,
            None => "repo"@,
        } + "-"@ + branch@,
{
    let mut r = match repo_dir {
        Some(d) => d.to_owned(),
        None => "repo".to_owned(),
    };
    r.append("-");
    r.append(branch);
    r
}

/// What `worktree` has just learnt.
pub enum WorktreeEvent {
    /// Whether the worktree path exists already, and whether the working
    /// tree has changes to carry over.
    Checked { path_exists: bool, has_changes: bool },
    /// `git stash push` succeeded or not.
    Stashed(bool),
    /// `git worktree add` succeeded or not; whether changes were stashed.
    Added { success: bool, stashed: bool },
    /// `git stash pop` in the new worktree succeeded or not.
    Popped(bool),
}

/// What `worktree` does next.
#[derive(Debug, PartialEq, Eq)]
pub enum WorktreeAction {
    /// Stash the changes, untracked files included.
    Stash,
    /// Add the worktree with its new branch; whether changes were stashed.
    Add { stashed: bool },
    /// Give the stashed changes back to the repository, then fail.
    RestoreAndFail,
    /// Apply the stashed changes in the new worktree.
    PopInWorktree,
    /// Report the new worktree; warn first that the stash could not be applied.
    Report { warn: bool },
    /// Stop with this error.
    Fail(CliError),
}

/// The next step of `worktree`: an existing path stops it; changes are
/// stashed first and carried over; a failed `worktree add` gives stashed
/// changes back before failing.
pub open spec fn spec_worktree_step(path: String, event: WorktreeEvent) -> WorktreeAction {
    match event {
        WorktreeEvent::Checked { path_exists, has_changes } => if path_exists {
            WorktreeAction::Fail(CliError::WorktreeExists(path))
        } else if has_changes {
            WorktreeAction::Stash
        } else {
            WorktreeAction::Add { stashed: false }
        },
        WorktreeEvent::Stashed(ok) => WorktreeAction::Add { stashed: ok },
        WorktreeEvent::Added { success, stashed } => if !success {
            if stashed {
                WorktreeAction::RestoreAndFail
            } else {
                WorktreeAction::Fail(CliError::WorktreeFailed)
            }
        } else if stashed {
            WorktreeAction::PopInWorktree
        } else {
            WorktreeAction::Report { warn: false }
        },
        WorktreeEvent::Popped(ok) => WorktreeAction::Report { warn: !ok },
    }
}

/// The next step of `worktree`; `path` is the worktree's path.
pub fn worktree_step(path: &String, event: WorktreeEvent) -> (r: WorktreeAction)
    ensures
        r == spec_worktree_step(*path, event),
{
    match event {
        WorktreeEvent::Checked { path_exists, has_changes } => {
            if path_exists {
                WorktreeAction::Fail(CliError::WorktreeExists(path.clone()))
            } else if has_changes {
                WorktreeAction::Stash
            } else {
                WorktreeAction::Add { stashed: false }
            }
        },
        WorktreeEvent::Stashed(ok) => WorktreeAction::Add { stashed: ok },
        WorktreeEvent::Added { success, stashed } => {
            if !success {
                if stashed {
                    WorktreeAction::RestoreAndFail
                } else {
                    WorktreeAction::Fail(CliError::WorktreeFailed)
                }
            } else if stashed {
                WorktreeAction::PopInWorktree
            } else {
                WorktreeAction::Report { warn: false }
            }
        },
        WorktreeEvent::Popped(ok) => WorktreeAction::Report { warn: !ok },
    }
}


/// Stashed changes are never left behind in the stash: a stash that
/// succeeded is carried into `worktree add`, after which they are applied in
/// the new worktree when it was added, or given back to the repository when
/// it was not. Nothing is popped that was not stashed.
pub proof fn law_stash_is_always_popped(path: String, stash_ok: bool, add_ok: bool)
    ensures
        spec_worktree_step(path, WorktreeEvent::Stashed(stash_ok)) == (WorktreeAction::Add { stashed: stash_ok }),
        ({
            let add = spec_worktree_step(path, WorktreeEvent::Stashed(stash_ok));
            let after = spec_worktree_step(path, WorktreeEvent::Added { success: add_ok, stashed: add->Add_stashed });
            &&& add is Add
            &&& (after is PopInWorktree || after is RestoreAndFail) <==> stash_ok
        }),
        spec_worktree_step(path, WorktreeEvent::Added { success: add_ok, stashed: stash_ok }) == if stash_ok {
            if add_ok { WorktreeAction::PopInWorktree } else { WorktreeAction::RestoreAndFail }
        } else {
            if add_ok { WorktreeAction::Report { warn: false } } else { WorktreeAction::Fail(CliError::WorktreeFailed) }
        },
        spec_worktree_step(path, WorktreeEvent::Checked { path_exists: false, has_changes: true }) == WorktreeAction::Stash,
        spec_worktree_step(path, WorktreeEvent::Checked { path_exists: false, has_changes: false }) == (WorktreeAction::Add { stashed: false }),
{
}

// ---------------------------------------------------------------------------
// review
// ---------------------------------------------------------------------------

/// A pull request with a blank diff is not reviewed.
pub fn check_pr_diff(number: u64, diff: &str) -> (r: Result<(), CliError>)
    ensures
        r == (if trimmed(diff@).len() == 0 { Err(CliError::PrHasNoChanges(number)) } else { Ok(()) }),
{
    if blank(diff) {
        Err(CliError::PrHasNoChanges(number))
    } else {
        Ok(())
    }
}

} // verus!
